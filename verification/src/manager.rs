//! The tool manager: the catalog as last refreshed, where a launcher's
//! tools are installed, whether a version is installed, and what follows an
//! install or a removal.

use crate::archive::DirEntry;
use crate::error::InstallError;
use crate::catalog::{
    catalog_view, listing_requests, listing_urls, refresh_all, refreshed, tool_list_view,
    ToolWithVersions,
};
use crate::installer::{Installer, Job, Phase, RemovalPhase, Uninstaller};
use crate::launcher::Launcher;
use crate::registry::{
    path_override_change, record_installed, record_removed, set_path_override, RegistryChange,
    RegistryChangeView,
};
use crate::release::Fetched;
use crate::text::{bytes_of, contains, has_substring, join, join_path, same_text, utf8};
use vstd::prelude::*;
use vstd::string::*;

verus! {

/// The directory that a launcher's tools are installed in, as the bytes
/// of its path: the override where one is set, else the launcher's
/// directory below `home`.
pub open spec fn install_path(
    launcher: Launcher,
    custom: Option<Seq<char>>,
    home: Option<Seq<u8>>,
) -> Result<Seq<u8>, InstallError> {
    match custom {
        Some(path) => Ok(utf8(path)),
        None => match home {
            Some(dir) => Ok(join(dir, utf8(launcher.home_subpath()))),
            None => Err(InstallError::HomeUnknown),
        },
    }
}

/// Whether a directory listing shows `tag` as installed: some directory in
/// it is named `tag` or holds `tag` in its name.
pub open spec fn found_on_disk(entries: Seq<DirEntry>, tag: Seq<char>) -> bool {
    exists|i: int|
        0 <= i < entries.len() && (#[trigger] entries[i]).is_dir && (entries[i].name@ == tag
            || contains(entries[i].name@, tag))
}

/// What the user is told after an install.
pub open spec fn installed_message(tool_name: Seq<char>, version_tag: Seq<char>) -> Seq<char> {
    tool_name + " "@ + version_tag + " installed successfully!"@
}

/// What the user is told after a removal.
pub open spec fn removed_message(version_tag: Seq<char>) -> Seq<char> {
    version_tag + " deleted successfully!"@
}

/// What follows a finished install or removal: the change to the stored
/// state, and the confirmation for the user.
#[derive(Debug, Clone)]
pub struct Receipt {
    pub change: RegistryChange,
    pub message: String,
}

/// Asks `dirs::home_dir` for the user's home directory and hands it on as
/// the bytes of its path. Nothing is claimed of the answer: it depends on the
/// environment.
#[verifier::external_body]
fn home_dir() -> (home: Option<Vec<u8>>) {
    match dirs::home_dir() {
        Some(path) => Some(path.into_os_string().into_encoded_bytes()),
        None => None,
    }
}

/// The install path of `launcher` given the stored override and the home
/// directory.
pub fn install_path_from(launcher: Launcher, custom: Option<String>, home: Option<Vec<u8>>) -> (r:
    Result<Vec<u8>, InstallError>)
    ensures
        match install_path(
            launcher,
            match custom {
                Some(p) => Some(p@),
                None => None,
            },
            match home {
                Some(h) => Some(h@),
                None => None,
            },
        ) {
            Ok(path) => r is Ok && r->Ok_0@ == path,
            Err(error) => r == Err::<Vec<u8>, InstallError>(error),
        },
{
    match custom {
        Some(path) => Ok(bytes_of(path.as_str())),
        None => match home {
            Some(dir) => Ok(join_path(&dir, &bytes_of(launcher.default_subpath()))),
            None => Err(InstallError::HomeUnknown),
        },
    }
}

/// The tools with their versions, as last refreshed.
#[derive(Debug)]
pub struct ToolManager {
    pub tools_with_versions: Vec<ToolWithVersions>,
}

impl ToolManager {
    /// A manager that has not fetched anything yet.
    pub fn new() -> (r: ToolManager)
        ensures
            r.tools_with_versions@.len() == 0,
    {
        ToolManager { tools_with_versions: Vec::new() }
    }

    /// The addresses to fetch for a refresh: for each tool of the catalog,
    /// in order, that of the listing of its `count` most recent releases.
    pub fn listing_requests(&self, count: u64) -> (urls: Vec<String>)
        ensures
            urls.len() == catalog_view().len(),
            forall|i: int|
                0 <= i < urls.len() ==> (#[trigger] urls[i])@ == listing_urls(
                    catalog_view(),
                    count as nat,
                )[i],
    {
        listing_requests(count)
    }

    /// Refreshes the catalog from the listings fetched for
    /// [`listing_requests`](Self::listing_requests), in the same order. A
    /// tool whose listing could not be had, or holds no release, is left
    /// out; the others are kept and returned.
    pub fn fetch_tools_with_versions(&mut self, fetched: Vec<Fetched>) -> (r: Vec<ToolWithVersions>)
        ensures
            tool_list_view(r@) == refreshed(catalog_view(), fetched@),
            tool_list_view(final(self).tools_with_versions@) == tool_list_view(r@),
    {
        let tools = refresh_all(&fetched);
        let mut copy: Vec<ToolWithVersions> = Vec::new();
        let mut i: usize = 0;
        while i < tools.len()
            invariant
                i <= tools.len(),
                tool_list_view(copy@) == tool_list_view(tools@).take(i as int),
            decreases tools.len() - i,
        {
            let ghost before = copy@;
            copy.push(tools[i].clone());
            assert(tool_list_view(copy@) =~= tool_list_view(before).push(tools[i as int]@));
            assert(tool_list_view(tools@).take(i + 1) =~= tool_list_view(tools@).take(
                i as int,
            ).push(tools[i as int]@));
            i += 1;
        }
        assert(tool_list_view(tools@).take(tools.len() as int) =~= tool_list_view(tools@));
        self.tools_with_versions = tools;
        copy
    }

    /// The directory that the tools of `launcher` are installed in, as the
    /// bytes of its path, given the stored override: the override where
    /// there is one, else the launcher's directory below the user's home
    /// directory. Fails where neither is known.
    pub fn get_install_path(&self, launcher: &Launcher, custom: Option<String>) -> (r: Result<
        Vec<u8>,
        InstallError,
    >)
        ensures
            custom matches Some(path) ==> r is Ok && r->Ok_0@ == utf8(path@),
            custom is None ==> match r {
                Ok(path) => exists|home: Seq<u8>|
                    path@ == join(home, utf8(launcher.home_subpath())),
                Err(error) => error == InstallError::HomeUnknown,
            },
    {
        match custom {
            Some(path) => install_path_from(*launcher, Some(path), None),
            None => {
                let home = home_dir();
                let ghost known = home;
                let r = install_path_from(*launcher, None, home);
                proof {
                    if known is Some {
                        assert(r->Ok_0@ == join(known->Some_0@, utf8(launcher.home_subpath())));
                    }
                }
                r
            },
        }
    }

    /// The change that sets Steam's directory override, or clears it.
    pub fn set_steam_path(&self, path: Option<&str>) -> (change: RegistryChange)
        ensures
            change@ == path_override_change(
                Launcher::Steam,
                match path {
                    Some(p) => Some(p@),
                    None => None,
                },
            ),
    {
        set_path_override(Launcher::Steam, path)
    }

    /// The change that sets Lutris's directory override, or clears it.
    pub fn set_lutris_path(&self, path: Option<&str>) -> (change: RegistryChange)
        ensures
            change@ == path_override_change(
                Launcher::Lutris,
                match path {
                    Some(p) => Some(p@),
                    None => None,
                },
            ),
    {
        set_path_override(Launcher::Lutris, path)
    }

    /// Whether the version `tool_name` counts as installed: it is recorded
    /// as such, or some directory among `entries`, the children of the
    /// launcher's install path, is named by it or holds it in its name.
    pub fn is_tool_installed(&self, tool_name: &str, recorded: bool, entries: &Vec<DirEntry>) -> (r:
        bool)
        ensures
            r == (recorded || found_on_disk(entries@, tool_name@)),
    {
        if recorded {
            return true;
        }
        let mut i: usize = 0;
        while i < entries.len()
            invariant
                i <= entries.len(),
                forall|k: int|
                    0 <= k < i ==> !((#[trigger] entries[k]).is_dir && (entries[k].name@
                        == tool_name@ || contains(entries[k].name@, tool_name@))),
            decreases entries.len() - i,
        {
            if entries[i].is_dir && (same_text(entries[i].name.as_str(), tool_name)
                || has_substring(entries[i].name.as_str(), tool_name)) {
                return true;
            }
            i += 1;
        }
        false
    }

    /// The install of `version_tag` from `download_url`: the archive's
    /// payload goes under the install path by the version's name.
    pub fn install(&self, version_tag: &str, download_url: &str, token: u64) -> (r: Installer)
        ensures
            r.job() == (Job { url: download_url@, token, staged: false }),
            r.target_name@ == version_tag@,
            r.attempt == 0,
            r.phase == Phase::Idle,
    {
        Installer::new(download_url, version_tag, token)
    }

    /// What follows the install `installer` of a version of `tool_name`
    /// for `launcher`: once it has succeeded, the record of the version it
    /// has put in place and the confirmation; once it has failed, the error.
    /// Nothing follows an install that has not ended.
    pub fn finish_install(&self, tool_name: &str, launcher: Launcher, installer: &Installer) -> (r:
        Option<Result<Receipt, InstallError>>)
        ensures
            match installer.phase {
                Phase::Installed => r matches Some(Ok(receipt)) && receipt.change@ == (
                RegistryChangeView::RecordInstalled { version: installer.target_name@, launcher })
                    && receipt.message@ == installed_message(tool_name@, installer.target_name@),
                Phase::Failed(error) => r == Some(Err::<Receipt, InstallError>(error)),
                _ => r is None,
            },
    {
        match installer.phase {
            Phase::Installed => {
                let version_tag = installer.target_name.as_str();
                let mut message = String::from_str(tool_name);
                message.append(" ");
                message.append(version_tag);
                message.append(" installed successfully!");
                Some(Ok(Receipt { change: record_installed(version_tag, launcher), message }))
            },
            Phase::Failed(error) => Some(Err(error)),
            _ => None,
        }
    }

    /// The removal of what is installed as `version_tag`.
    pub fn uninstall(&self, version_tag: &str) -> (r: Uninstaller)
        ensures
            r.target_name@ == version_tag@,
            r.phase == RemovalPhase::Idle,
    {
        Uninstaller::new(version_tag)
    }

    /// What follows the removal `uninstaller` of a version installed for
    /// `launcher`: once it has succeeded, the record of the removal of the
    /// version it has removed and the confirmation; once it has failed, the
    /// error. Nothing follows a removal that has not ended.
    pub fn finish_uninstall(&self, launcher: Launcher, uninstaller: &Uninstaller) -> (r: Option<
        Result<Receipt, InstallError>,
    >)
        ensures
            match uninstaller.phase {
                RemovalPhase::Removed => r matches Some(Ok(receipt)) && receipt.change@ == (
                RegistryChangeView::RecordRemoved { version: uninstaller.target_name@, launcher })
                    && receipt.message@ == removed_message(uninstaller.target_name@),
                RemovalPhase::Failed(error) => r == Some(Err::<Receipt, InstallError>(error)),
                _ => r is None,
            },
    {
        match uninstaller.phase {
            RemovalPhase::Removed => {
                let version_tag = uninstaller.target_name.as_str();
                let mut message = String::from_str(version_tag);
                message.append(" deleted successfully!");
                Some(Ok(Receipt { change: record_removed(version_tag, launcher), message }))
            },
            RemovalPhase::Failed(error) => Some(Err(error)),
            _ => None,
        }
    }
}

} // verus!
