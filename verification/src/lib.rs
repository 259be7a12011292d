//! Resolving, fetching and installing versions of compatibility tools for
//! game launchers.
//!
//! The library decides and the caller acts. It knows the catalog of tools
//! and picks each release's asset ([`catalog`]), reads what a release
//! listing amounts to ([`release`]), leads an install or a removal step by
//! step ([`installer`]), keeps the books of a download ([`download`]),
//! plans the copy of a directory tree ([`copy`]), says what to write to the
//! stored state ([`registry`]) and ties these together ([`manager`]). What
//! installs and removals do to the destination directory is stated and
//! proved over a model of it ([`world`]).
//!
//! Network, filesystem and database are the caller's: it performs the
//! operations that the library names and hands back their outcomes.

pub mod archive;
pub mod catalog;
pub mod copy;
pub mod download;
pub mod error;
pub mod installer;
pub mod launcher;
pub mod manager;
pub mod registry;
pub mod release;
pub mod text;
pub mod world;

pub use catalog::{ToolVersion, ToolWithVersions};
pub use launcher::Launcher;
pub use manager::ToolManager;
