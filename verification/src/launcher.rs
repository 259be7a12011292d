//! The launchers that compatibility tools are installed for.

use crate::text::same_text;
use vstd::prelude::*;
use vstd::string::*;

verus! {

/// A game launcher with a directory of its own for compatibility tools.
#[derive(Debug, Clone, Copy, PartialEq, Eq, Structural)]
pub enum Launcher {
    Steam,
    Lutris,
}

impl Launcher {
    /// The launcher's name, which is also the token it is stored under.
    pub open spec fn name(self) -> Seq<char> {
        match self {
            Launcher::Steam => "Steam"@,
            Launcher::Lutris => "Lutris"@,
        }
    }

    /// The launcher that a stored token stands for: Steam for its own
    /// token, Lutris for every other text.
    pub open spec fn of_token(token: Seq<char>) -> Launcher {
        if token == "Steam"@ {
            Launcher::Steam
        } else {
            Launcher::Lutris
        }
    }

    /// The settings key under which the launcher's directory override is kept.
    pub open spec fn path_key(self) -> Seq<char> {
        match self {
            Launcher::Steam => "steam_path"@,
            Launcher::Lutris => "lutris_path"@,
        }
    }

    /// The launcher's tool directory, relative to the user's home directory.
    pub open spec fn home_subpath(self) -> Seq<char> {
        match self {
            Launcher::Steam => ".steam/root/compatibilitytools.d"@,
            Launcher::Lutris => ".local/share/lutris/runners/wine"@,
        }
    }

    /// The launcher's name as a static text.
    pub fn as_str(&self) -> (r: &'static str)
        ensures
            r@ == self.name(),
    {
        match self {
            Launcher::Steam => "Steam",
            Launcher::Lutris => "Lutris",
        }
    }

    /// The launcher's name as an owned text.
    pub fn to_string(&self) -> (r: String)
        ensures
            r@ == self.name(),
    {
        String::from_str(self.as_str())
    }

    /// Reads a launcher back from its stored token.
    pub fn from_token(token: &str) -> (r: Launcher)
        ensures
            r == Launcher::of_token(token@),
    {
        if same_text(token, "Steam") {
            Launcher::Steam
        } else {
            Launcher::Lutris
        }
    }

    /// The settings key of the launcher's directory override.
    pub fn setting_key(&self) -> (r: &'static str)
        ensures
            r@ == self.path_key(),
    {
        match self {
            Launcher::Steam => "steam_path",
            Launcher::Lutris => "lutris_path",
        }
    }

    /// The launcher's default tool directory below the home directory.
    pub fn default_subpath(&self) -> (r: &'static str)
        ensures
            r@ == self.home_subpath(),
    {
        match self {
            Launcher::Steam => ".steam/root/compatibilitytools.d",
            Launcher::Lutris => ".local/share/lutris/runners/wine",
        }
    }
}

/// A launcher's token reads back as that launcher.
pub proof fn lemma_token_round_trip(launcher: Launcher)
    ensures
        Launcher::of_token(launcher.name()) == launcher,
{
    reveal_strlit("Steam");
    reveal_strlit("Lutris");
    assert("Steam"@.len() != "Lutris"@.len());
}

/// The two launchers keep their overrides under different keys.
pub proof fn lemma_path_keys_differ(a: Launcher, b: Launcher)
    ensures
        a.path_key() == b.path_key() <==> a == b,
{
    reveal_strlit("steam_path");
    reveal_strlit("lutris_path");
    assert("steam_path"@.len() != "lutris_path"@.len());
}

} // verus!
