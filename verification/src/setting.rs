//! Application settings, and the first-start initialisation they record.

use crate::session::{Message, Role, Session};
use crate::string_util::push_char;
use vstd::prelude::*;

verus! {

/// Settings kept between starts: whether the first start has been handled,
/// and a version string.
#[derive(Clone, Debug, PartialEq)]
pub struct Setting {
    pub initialized: bool,
    pub current_version: String,
}

impl Default for Setting {
    /// Not initialised, with an empty version.
    fn default() -> (r: Self)
        ensures
            !r.initialized,
            r.current_version@ == Seq::<char>::empty(),
    {
        Setting { initialized: false, current_version: String::new() }
    }
}

/// `当前版本：` ("current version: "), the start of the note left on first start.
pub open spec fn version_note_prefix() -> Seq<char> {
    seq!['当', '前', '版', '本', '：']
}

/// The first-start step: when `setting` is not yet initialised, the help
/// session gets a system message `当前版本：<version>` (neither hidden nor
/// filtered) and the setting is marked initialised; the result tells whether
/// this happened. Otherwise nothing changes. The stored version string is
/// left as it was either way.
pub fn initialize_help_session(setting: &mut Setting, help: &mut Session, version: &str) -> (r: bool)
    ensures
        r == !old(setting).initialized,
        final(setting).initialized,
        final(setting).current_version == old(setting).current_version,
        !r ==> *final(help) == *old(help),
        r ==> final(help).messages@.len() == old(help).messages@.len() + 1,
        r ==> forall|i: int| 0 <= i < old(help).messages@.len() ==> final(help).messages@[i] == old(help).messages@[i],
        r ==> final(help).messages@.last().text@ == version_note_prefix() + version@,
        r ==> final(help).messages@.last().role == Role::System,
        r ==> !final(help).messages@.last().hidden && !final(help).messages@.last().filtered,
        final(help).name == old(help).name,
        final(help).speaker == old(help).speaker,
        final(help).endpoint == old(help).endpoint,
        final(help).lock_until == old(help).lock_until,
{
    if setting.initialized {
        return false;
    }
    let mut text = String::new();
    push_char(&mut text, '当');
    push_char(&mut text, '前');
    push_char(&mut text, '版');
    push_char(&mut text, '本');
    push_char(&mut text, '：');
    text.append(version);
    assert(text@ =~= version_note_prefix() + version@);
    help.messages.push(Message { text, role: Role::System, hidden: false, filtered: false });
    setting.initialized = true;
    true
}

} // verus!
