use toaster::config_store::{join_path, ConfigStore, TOASTER_DATA_PATH, TOASTER_TMP_DATA_PATH};
use toaster::data_store::SubscriberRegistry;
use toaster::endpoint::{is_create_mode, save_enabled, save_needs_confirmation, should_save, ModelEndpoint};
use toaster::error::{CustomError, IntoCustomError};
use toaster::session::{Role, Session};
use toaster::setting::{initialize_help_session, Setting};

fn sorted(mut v: Vec<u64>) -> Vec<u64> {
    v.sort();
    v
}

#[test]
fn a_change_wakes_key_and_list_readers_once() {
    let mut r = SubscriberRegistry::new();
    r.subscribe("a", 1);
    r.subscribe("a", 1);
    r.subscribe("", 2);
    r.subscribe("", 1);
    r.subscribe("b", 3);
    assert_eq!(sorted(r.take_notified("a")), vec![1, 2]);
    assert!(r.take_notified("a").is_empty());
    assert_eq!(r.take_notified("b"), vec![3]);
    assert!(r.take_notified("b").is_empty());
}

#[test]
fn list_readers_are_woken_by_any_key() {
    let mut r = SubscriberRegistry::new();
    r.subscribe("", 7);
    r.subscribe("x", 8);
    assert_eq!(r.take_notified("y"), vec![7]);
    assert_eq!(r.take_notified("x"), vec![8]);
}

#[test]
fn config_file_paths() {
    let store = ConfigStore::new("sessions", Setting::default());
    assert_eq!(store.read_path(), "~/.config/toasterai/data/root/sessions");
    assert_eq!(store.write_path(), "~/.config/toasterai/data/root/sessions.json");
    assert_eq!(ConfigStore::<Setting>::temp_path("u-1"), "~/.config/toasterai/data/tmp/u-1.json");
    assert_eq!(join_path(TOASTER_DATA_PATH, "endpoints"), "~/.config/toasterai/data/root/endpoints");
    assert_eq!(join_path(TOASTER_TMP_DATA_PATH, "x"), "~/.config/toasterai/data/tmp/x");
}

#[test]
fn config_is_loaded_once_and_read_after_set() {
    let mut store = ConfigStore::new("sessions", 0u32);
    assert!(store.begin_read());
    store.finish_load(5);
    assert_eq!(*store.get(), 5);
    assert!(!store.begin_read());
    assert_eq!(store.set(9, Ok::<(), String>(())), Ok(()));
    assert!(!store.begin_read());
    assert_eq!(*store.get(), 9);
}

#[test]
fn config_set_whose_save_failed_keeps_the_old_value() {
    let mut store = ConfigStore::new("sessions", 0u32);
    assert!(store.begin_read());
    store.finish_load(5);
    let failed: Result<(), String> = Err("disk full".to_string());
    assert_eq!(store.set(9, failed), Err("disk full".to_string()));
    assert_eq!(*store.get(), 5);
    assert!(!store.begin_read());
    assert_eq!(store.set(7, Ok::<(), String>(())), Ok(()));
    assert_eq!(*store.get(), 7);
}

#[test]
fn first_start_leaves_a_version_note() {
    let mut setting = Setting::default();
    assert!(!setting.initialized);
    assert_eq!(setting.current_version, "");
    let mut help = Session {
        name: "help".into(),
        speaker: None,
        messages: vec![],
        endpoint: String::new(),
        lock_until: None,
    };
    assert!(initialize_help_session(&mut setting, &mut help, "0.1.0"));
    assert!(setting.initialized);
    assert_eq!(setting.current_version, "");
    assert_eq!(help.messages.len(), 1);
    assert_eq!(help.messages[0].text, "当前版本：0.1.0");
    assert_eq!(help.messages[0].role, Role::System);
    assert!(!initialize_help_session(&mut setting, &mut help, "0.2.0"));
    assert_eq!(help.messages.len(), 1);
}

#[test]
fn endpoint_needs_base_key_and_model() {
    let full = ModelEndpoint { base: "https://api".into(), key: "k".into(), model: "m".into() };
    assert!(full.is_valid());
    assert!(!ModelEndpoint::default().is_valid());
    assert!(!ModelEndpoint { base: "".into(), ..full.clone() }.is_valid());
    assert!(!ModelEndpoint { key: "".into(), ..full.clone() }.is_valid());
    assert!(!ModelEndpoint { model: "".into(), ..full.clone() }.is_valid());
}

#[test]
fn models_can_be_listed_with_base_and_key() {
    let no_model = ModelEndpoint { base: "https://api".into(), key: "k".into(), model: "".into() };
    assert!(no_model.can_list_models());
    assert!(!ModelEndpoint { key: "".into(), ..no_model.clone() }.can_list_models());
    assert!(!ModelEndpoint { base: "".into(), ..no_model.clone() }.can_list_models());
}

#[test]
fn missing_values_and_messages_become_errors() {
    assert!(matches!(Some(5).into_custom_error(), Ok(5)));
    assert!(matches!(None::<u8>.into_custom_error(), Err(CustomError::NoneValue)));
    match "boom".to_string().into_custom_error() {
        Err(CustomError::Message(m)) => assert_eq!(m, "boom"),
        _ => panic!("expected a message error"),
    }
}

#[test]
fn endpoint_editor_save_rules() {
    assert!(is_create_mode(""));
    assert!(!is_create_mode("gpt"));
    assert!(save_enabled(false, "gpt"));
    assert!(!save_enabled(true, "gpt"));
    assert!(!save_enabled(false, ""));
    assert!(save_needs_confirmation(true, true));
    assert!(!save_needs_confirmation(false, true));
    assert!(!save_needs_confirmation(true, false));
    assert!(should_save(false, true, false));
    assert!(should_save(true, false, false));
    assert!(!should_save(true, true, false));
    assert!(should_save(true, true, true));
}
