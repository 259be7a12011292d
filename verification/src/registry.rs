//! What is kept about installs between runs: which version is installed
//! for which launcher, and where each launcher's tools go when the user has
//! chosen a directory. The store itself is the caller's; this module says
//! what to write to it and reads what comes out of it.

use crate::launcher::{lemma_path_keys_differ, Launcher};
use crate::text::{bytes_of, join, join_path, utf8};
use vstd::prelude::*;
use vstd::string::*;

verus! {

/// A change to the stored state.
#[derive(Debug, Clone, PartialEq, Eq)]
pub enum RegistryChange {
    /// Keep the record that `version` is installed for `launcher`,
    /// replacing an equal one.
    RecordInstalled { version: String, launcher: Launcher },
    /// Drop the record that `version` is installed for `launcher`.
    RecordRemoved { version: String, launcher: Launcher },
    /// Keep `value` under `key` in the settings, replacing what was there.
    PutSetting { key: String, value: String },
    /// Drop what is kept under `key` in the settings.
    DeleteSetting { key: String },
}

/// The mathematical value of a [`RegistryChange`].
pub enum RegistryChangeView {
    RecordInstalled { version: Seq<char>, launcher: Launcher },
    RecordRemoved { version: Seq<char>, launcher: Launcher },
    PutSetting { key: Seq<char>, value: Seq<char> },
    DeleteSetting { key: Seq<char> },
}

impl View for RegistryChange {
    type V = RegistryChangeView;

    open spec fn view(&self) -> RegistryChangeView {
        match self {
            RegistryChange::RecordInstalled { version, launcher } => {
                RegistryChangeView::RecordInstalled { version: version@, launcher: *launcher }
            },
            RegistryChange::RecordRemoved { version, launcher } => {
                RegistryChangeView::RecordRemoved { version: version@, launcher: *launcher }
            },
            RegistryChange::PutSetting { key, value } => RegistryChangeView::PutSetting {
                key: key@,
                value: value@,
            },
            RegistryChange::DeleteSetting { key } => RegistryChangeView::DeleteSetting { key: key@ },
        }
    }
}

/// The stored state: the install records, of which there is at most one
/// for a version and a launcher, and the settings by key.
pub struct Store {
    pub records: Set<(Seq<char>, Launcher)>,
    pub settings: Map<Seq<char>, Seq<char>>,
}

impl Store {
    /// The state after a change.
    pub open spec fn apply(self, change: RegistryChangeView) -> Store {
        match change {
            RegistryChangeView::RecordInstalled { version, launcher } => Store {
                records: self.records.insert((version, launcher)),
                ..self
            },
            RegistryChangeView::RecordRemoved { version, launcher } => Store {
                records: self.records.remove((version, launcher)),
                ..self
            },
            RegistryChangeView::PutSetting { key, value } => Store {
                settings: self.settings.insert(key, value),
                ..self
            },
            RegistryChangeView::DeleteSetting { key } => Store {
                settings: self.settings.remove(key),
                ..self
            },
        }
    }

    /// Whether `version` is recorded as installed for `launcher`.
    pub open spec fn is_recorded(self, version: Seq<char>, launcher: Launcher) -> bool {
        self.records.contains((version, launcher))
    }

    /// The directory override of `launcher`, if one is set.
    pub open spec fn path_override(self, launcher: Launcher) -> Option<Seq<char>> {
        if self.settings.contains_key(launcher.path_key()) {
            Some(self.settings[launcher.path_key()])
        } else {
            None
        }
    }
}

/// A recorded install is found, a removed one is not, and neither touches
/// the record of another version or launcher. Recording twice is
/// recording once.
pub proof fn lemma_records(
    store: Store,
    version: Seq<char>,
    launcher: Launcher,
    other: Seq<char>,
    other_launcher: Launcher,
)
    ensures
        ({
            let installed = RegistryChangeView::RecordInstalled { version, launcher };
            let removed = RegistryChangeView::RecordRemoved { version, launcher };
            &&& store.apply(installed).is_recorded(version, launcher)
            &&& !store.apply(removed).is_recorded(version, launcher)
            &&& store.apply(installed).apply(installed) == store.apply(installed)
            &&& (other, other_launcher) != (version, launcher) ==> {
                &&& store.apply(installed).is_recorded(other, other_launcher) == store.is_recorded(
                    other,
                    other_launcher,
                )
                &&& store.apply(removed).is_recorded(other, other_launcher) == store.is_recorded(
                    other,
                    other_launcher,
                )
            }
        }),
{
    let installed = RegistryChangeView::RecordInstalled { version, launcher };
    assert(store.apply(installed).apply(installed).records =~= store.apply(installed).records);
}

/// After a launcher's override is set or cleared, it reads back as set or
/// cleared, and the other launcher's override is what it was.
pub proof fn lemma_path_overrides(
    store: Store,
    launcher: Launcher,
    path: Option<Seq<char>>,
    other: Launcher,
)
    ensures
        store.apply(path_override_change(launcher, path)).path_override(launcher) == path,
        other != launcher ==> store.apply(path_override_change(launcher, path)).path_override(
            other,
        ) == store.path_override(other),
{
    lemma_path_keys_differ(launcher, other);
}

/// The change that records an install.
pub fn record_installed(version_tag: &str, launcher: Launcher) -> (change: RegistryChange)
    ensures
        change@ == (RegistryChangeView::RecordInstalled { version: version_tag@, launcher }),
{
    RegistryChange::RecordInstalled { version: String::from_str(version_tag), launcher }
}

/// The change that records a removal.
pub fn record_removed(version_tag: &str, launcher: Launcher) -> (change: RegistryChange)
    ensures
        change@ == (RegistryChangeView::RecordRemoved { version: version_tag@, launcher }),
{
    RegistryChange::RecordRemoved { version: String::from_str(version_tag), launcher }
}

/// The change that sets a launcher's directory override to `path`, or
/// clears it when `path` is `None`.
pub open spec fn path_override_change(launcher: Launcher, path: Option<Seq<char>>) -> RegistryChangeView {
    match path {
        Some(p) => RegistryChangeView::PutSetting { key: launcher.path_key(), value: p },
        None => RegistryChangeView::DeleteSetting { key: launcher.path_key() },
    }
}

/// The change that sets or clears a launcher's directory override.
pub fn set_path_override(launcher: Launcher, path: Option<&str>) -> (change: RegistryChange)
    ensures
        change@ == path_override_change(
            launcher,
            match path {
                Some(p) => Some(p@),
                None => None,
            },
        ),
{
    let key = String::from_str(launcher.setting_key());
    match path {
        Some(p) => RegistryChange::PutSetting { key, value: String::from_str(p) },
        None => RegistryChange::DeleteSetting { key },
    }
}

/// Whether a count of matching records says that the record is there.
pub fn is_recorded(count: i64) -> (r: bool)
    ensures
        r == (count > 0),
{
    count > 0
}

/// A stored install record as it is read back: the version and the
/// launcher's token.
#[derive(Debug, Clone)]
pub struct StoredRunner {
    pub version: String,
    pub launcher: String,
}

/// An install record: `version` is installed for `launcher`.
#[derive(Debug, Clone)]
pub struct InstallRecord {
    pub version: String,
    pub launcher: Launcher,
}

/// The install records that stored rows stand for, in the rows' order.
pub fn installed_runners(rows: &Vec<StoredRunner>) -> (records: Vec<InstallRecord>)
    ensures
        records.len() == rows.len(),
        forall|i: int|
            0 <= i < rows.len() ==> (#[trigger] records[i]).version@ == rows[i].version@
                && records[i].launcher == Launcher::of_token(rows[i].launcher@),
{
    let mut records: Vec<InstallRecord> = Vec::new();
    let mut i: usize = 0;
    while i < rows.len()
        invariant
            i <= rows.len(),
            records.len() == i,
            forall|k: int|
                0 <= k < i ==> (#[trigger] records[k]).version@ == rows[k].version@
                    && records[k].launcher == Launcher::of_token(rows[k].launcher@),
        decreases rows.len() - i,
    {
        records.push(
            InstallRecord {
                version: rows[i].version.clone(),
                launcher: Launcher::from_token(rows[i].launcher.as_str()),
            },
        );
        i += 1;
    }
    records
}

/// The directory that the store is kept in, below the user's
/// configuration directory, as the bytes of its path.
pub open spec fn store_dir(config_dir: Seq<u8>) -> Seq<u8> {
    join(config_dir, utf8("com.github.Mar0xy.ProtonUpGTK"@))
}

/// The file that the store is kept in, as the bytes of its path.
pub open spec fn store_file(config_dir: Seq<u8>) -> Seq<u8> {
    join(store_dir(config_dir), utf8("settings.db"@))
}

/// The path of the store's directory.
pub fn store_dir_path(config_dir: &Vec<u8>) -> (path: Vec<u8>)
    ensures
        path@ == store_dir(config_dir@),
{
    join_path(config_dir, &bytes_of("com.github.Mar0xy.ProtonUpGTK"))
}

/// The path of the store's file.
pub fn store_file_path(config_dir: &Vec<u8>) -> (path: Vec<u8>)
    ensures
        path@ == store_file(config_dir@),
{
    let dir = store_dir_path(config_dir);
    join_path(&dir, &bytes_of("settings.db"))
}

} // verus!
