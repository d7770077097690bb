//! A setting cached in memory and kept in a JSON file (or the browser's local
//! storage): where its files lie, and when the cache is loaded and replaced.

use crate::string_util::push_char;
use vstd::prelude::*;

verus! {

/// The directory that holds the stores' data on Unix systems.
pub const TOASTER_DATA_PATH: &'static str = "~/.config/toasterai/data/root";

/// The directory that holds files being written, before they are moved into
/// place, on Unix systems.
pub const TOASTER_TMP_DATA_PATH: &'static str = "~/.config/toasterai/data/tmp";

/// `dir`, a slash, then `name`.
pub open spec fn joined(dir: Seq<char>, name: Seq<char>) -> Seq<char> {
    dir + seq!['/'] + name
}

/// `.json`
pub open spec fn json_extension() -> Seq<char> {
    seq!['.', 'j', 's', 'o', 'n']
}

/// `dir/name`.
pub fn join_path(dir: &str, name: &str) -> (r: String)
    ensures
        r@ == joined(dir@, name@),
{
    let mut s = String::from_str(dir);
    push_char(&mut s, '/');
    s.append(name);
    s
}

/// `dir/name.json`.
pub fn join_json_path(dir: &str, name: &str) -> (r: String)
    ensures
        r@ == joined(dir@, name@) + json_extension(),
{
    let mut s = join_path(dir, name);
    push_char(&mut s, '.');
    push_char(&mut s, 'j');
    push_char(&mut s, 's');
    push_char(&mut s, 'o');
    push_char(&mut s, 'n');
    assert(s@ =~= joined(dir@, name@) + json_extension());
    s
}

/// A setting of type `T` named `config_name`, with its in-memory copy.
/// The copy starts at `T`'s default; the stored value is loaded into it on
/// the first read.
pub struct ConfigStore<T> {
    pub config_name: &'static str,
    pub initialized: bool,
    pub value: T,
}

/// The store after the first-read step, and whether that step must load:
/// it loads exactly when the store was not yet read, and then counts as read.
pub open spec fn begin_read_model<T>(s: ConfigStore<T>) -> (ConfigStore<T>, bool) {
    (ConfigStore { config_name: s.config_name, initialized: true, value: s.value }, !s.initialized)
}

/// The store after `v` is put into its in-memory copy (by a load or a set).
pub open spec fn store_value_model<T>(s: ConfigStore<T>, v: T) -> ConfigStore<T> {
    ConfigStore { config_name: s.config_name, initialized: s.initialized, value: v }
}

impl<T> ConfigStore<T> {
    /// A store named `config_name` holding `initial` (the type's default),
    /// not yet loaded.
    pub fn new(config_name: &'static str, initial: T) -> (r: Self)
        ensures
            r == (ConfigStore { config_name, initialized: false, value: initial }),
    {
        ConfigStore { config_name, initialized: false, value: initial }
    }

    /// The file a setting is read from: `<data dir>/<name>`, without an
    /// extension.
    pub fn read_path(&self) -> (r: String)
        ensures
            r@ == joined(TOASTER_DATA_PATH@, self.config_name@),
    {
        join_path(TOASTER_DATA_PATH, self.config_name)
    }

    /// The file a setting is written to: `<data dir>/<name>.json`. (It is not
    /// the file [`read_path`](Self::read_path) names.)
    pub fn write_path(&self) -> (r: String)
        ensures
            r@ == joined(TOASTER_DATA_PATH@, self.config_name@) + json_extension(),
    {
        join_json_path(TOASTER_DATA_PATH, self.config_name)
    }

    /// The temporary file a write goes through: `<tmp dir>/<unique>.json`.
    pub fn temp_path(unique: &str) -> (r: String)
        ensures
            r@ == joined(TOASTER_TMP_DATA_PATH@, unique@) + json_extension(),
    {
        join_json_path(TOASTER_TMP_DATA_PATH, unique)
    }

    /// The first-read step (see [`begin_read_model`]): `true` exactly once,
    /// the first time it is asked. The caller then loads the stored value
    /// with [`finish_load`](Self::finish_load).
    pub fn begin_read(&mut self) -> (r: bool)
        ensures
            (*final(self), r) == begin_read_model(*old(self)),
    {
        if self.initialized {
            false
        } else {
            self.initialized = true;
            true
        }
    }

    /// Puts the value read from storage (or the default, when there is none
    /// or it cannot be read) into the in-memory copy.
    pub fn finish_load(&mut self, stored: T)
        ensures
            *final(self) == store_value_model(*old(self), stored),
    {
        self.value = stored;
    }

    /// The in-memory copy.
    pub fn get(&self) -> (r: &T)
        ensures
            *r == self.value,
    {
        &self.value
    }

    /// Finishes a set, given how saving `value` to storage went: on `Ok`
    /// the in-memory copy becomes `value`; on `Err` the store is left as it
    /// was. The outcome of the save is handed back.
    pub fn set<E>(&mut self, value: T, saved: Result<(), E>) -> (r: Result<(), E>)
        ensures
            r == saved,
            *final(self) == set_model(*old(self), value, saved is Ok),
    {
        match saved {
            Ok(done) => {
                self.value = value;
                Ok(done)
            },
            Err(e) => Err(e),
        }
    }
}

/// The store after a set of `v` whose save succeeded (`saved`) or failed.
pub open spec fn set_model<T>(s: ConfigStore<T>, v: T, saved: bool) -> ConfigStore<T> {
    if saved {
        store_value_model(s, v)
    } else {
        s
    }
}

/// A set whose save failed changes nothing. After a set whose save
/// succeeded, a read gives the value set once the store has been read
/// before (the read's first-read step then does not load); a store never
/// read before loads on that read, and the stored value replaces the one set.
pub proof fn lemma_read_after_set<T>(s: ConfigStore<T>, v: T, saved: bool)
    ensures
        !saved ==> set_model(s, v, saved) == s,
        saved && s.initialized ==> !begin_read_model(set_model(s, v, saved)).1
            && begin_read_model(set_model(s, v, saved)).0.value == v,
        saved && !s.initialized ==> begin_read_model(set_model(s, v, saved)).1,
{
}

} // verus!
