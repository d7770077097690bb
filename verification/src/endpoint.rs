//! Model endpoints: where a chat is sent and with which key and model.

use vstd::prelude::*;

verus! {

/// An OpenAI-compatible endpoint: API base URL, API key and model name.
#[derive(Clone, Debug, Default, PartialEq)]
pub struct ModelEndpoint {
    pub base: String,
    pub key: String,
    pub model: String,
}

impl ModelEndpoint {
    /// An endpoint is usable when none of its base, key and model is empty.
    pub open spec fn spec_is_valid(&self) -> bool {
        self.base@.len() > 0 && self.key@.len() > 0 && self.model@.len() > 0
    }

    /// Whether base, key and model are all non-empty.
    pub fn is_valid(&self) -> (r: bool)
        ensures
            r == self.spec_is_valid(),
    {
        false == (self.model.as_str().is_empty() || self.base.as_str().is_empty() || self.key.as_str().is_empty())
    }

    /// Whether the endpoint can be asked for its models, as the endpoint
    /// editor does before offering model names: base and key are both set
    /// (the model need not be).
    pub fn can_list_models(&self) -> (r: bool)
        ensures
            r == (self.base@.len() > 0 && self.key@.len() > 0),
    {
        false == (self.base.as_str().is_empty() || self.key.as_str().is_empty())
    }
}

/// The endpoint editor creates a new endpoint when it is opened without a
/// name, and edits the named one otherwise.
pub fn is_create_mode(endpoint_name: &str) -> (r: bool)
    ensures
        r == (endpoint_name@.len() == 0),
{
    endpoint_name.is_empty()
}

/// Whether the editor's save button is enabled: no save is running and the
/// endpoint has a name.
pub fn save_enabled(busying: bool, name: &str) -> (r: bool)
    ensures
        r == (!busying && name@.len() > 0),
{
    !(busying || name.is_empty())
}

/// Whether saving must first ask the user to overwrite: only when creating
/// an endpoint under a name that is already taken.
pub fn save_needs_confirmation(create_mode: bool, name_exists: bool) -> (r: bool)
    ensures
        r == (create_mode && name_exists),
{
    create_mode && name_exists
}

/// Whether the endpoint is saved: when editing, when the name is free, or
/// when the user agreed to overwrite (`confirmed` is only asked for, and
/// only read, when [`save_needs_confirmation`] holds).
pub fn should_save(create_mode: bool, name_exists: bool, confirmed: bool) -> (r: bool)
    ensures
        r == (!create_mode || !name_exists || confirmed),
{
    !create_mode || !name_exists || confirmed
}

} // verus!
