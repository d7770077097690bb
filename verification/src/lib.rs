//! Core logic of the Toaster chat client: language detection, session and
//! message handling, inference bookkeeping, stores' caching and notification
//! rules, and the small text utilities the user interface relies on.

pub mod clock;
pub mod config_store;
pub mod confirm;
pub mod data_store;
pub mod endpoint;
pub mod error;
pub mod jwt;
pub mod language;
pub mod message_text;
pub mod navigation;
pub mod session;
pub mod setting;
pub mod string_util;
pub mod toast;
pub mod tts;

