//! What the installer knows about an archive before and after it is
//! unpacked: its format, where it is unpacked, and which of the unpacked
//! entries is the payload.

use crate::error::InstallError;
use crate::text::{decimal, ends_with, has_suffix, lemma_decimal_is_injective, push_decimal};
use vstd::prelude::*;
use vstd::string::*;

verus! {

/// How an archive is packed.
#[derive(Debug, Clone, Copy, PartialEq, Eq, Structural)]
pub enum ArchiveFormat {
    /// A tar stream compressed with gzip.
    TarGz,
    /// A tar stream compressed with xz.
    TarXz,
}

/// The format that a file name announces by its suffix, if it is a
/// supported one.
pub open spec fn format_of(file_name: Seq<char>) -> Option<ArchiveFormat> {
    if ends_with(file_name, ".tar.gz"@) || ends_with(file_name, ".tgz"@) {
        Some(ArchiveFormat::TarGz)
    } else if ends_with(file_name, ".tar.xz"@) {
        Some(ArchiveFormat::TarXz)
    } else {
        None
    }
}

/// Tells an archive's format from its file name.
pub fn detect_format(file_name: &str) -> (r: Result<ArchiveFormat, InstallError>)
    ensures
        r == match format_of(file_name@) {
            Some(format) => Ok::<ArchiveFormat, InstallError>(format),
            None => Err::<ArchiveFormat, InstallError>(InstallError::UnsupportedFormat),
        },
{
    if has_suffix(file_name, ".tar.gz") || has_suffix(file_name, ".tgz") {
        Ok(ArchiveFormat::TarGz)
    } else if has_suffix(file_name, ".tar.xz") {
        Ok(ArchiveFormat::TarXz)
    } else {
        Err(InstallError::UnsupportedFormat)
    }
}

/// The name of the directory that an archive is unpacked into: the
/// install's token tells it from those of other installs, and the number
/// of names already found taken tells it from those.
pub open spec fn extraction_dir(token: nat, attempt: nat) -> Seq<char> {
    if attempt == 0 {
        "protonup-extract-"@ + decimal(token)
    } else {
        "protonup-extract-"@ + decimal(token) + "-"@ + decimal(attempt)
    }
}

/// Installs with different tokens start with directories of different
/// names, and an install asks for a different name each time it finds one
/// taken.
pub proof fn lemma_extraction_dirs_differ(token: nat, other: nat, attempt: nat, later: nat)
    ensures
        token != other ==> extraction_dir(token, 0) != extraction_dir(other, 0),
        attempt != later ==> extraction_dir(token, attempt) != extraction_dir(token, later),
{
    let prefix = "protonup-extract-"@;
    if token != other && extraction_dir(token, 0) == extraction_dir(other, 0) {
        assert((prefix + decimal(token)).skip(prefix.len() as int) =~= decimal(token));
        assert((prefix + decimal(other)).skip(prefix.len() as int) =~= decimal(other));
        lemma_decimal_is_injective(token, other);
    }
    let base = prefix + decimal(token);
    reveal_strlit("-");
    if attempt != later && extraction_dir(token, attempt) == extraction_dir(token, later) {
        if attempt != 0 && later != 0 {
            assert((base + "-"@ + decimal(attempt)).skip((base.len() + 1) as int) =~= decimal(attempt));
            assert((base + "-"@ + decimal(later)).skip((base.len() + 1) as int) =~= decimal(later));
            lemma_decimal_is_injective(attempt, later);
        } else if attempt == 0 {
            assert((base + "-"@ + decimal(later)).len() > base.len());
        } else {
            assert((base + "-"@ + decimal(attempt)).len() > base.len());
        }
    }
}

/// Builds the name of the directory to unpack into.
pub fn extraction_dir_name(token: u64, attempt: u64) -> (name: String)
    ensures
        name@ == extraction_dir(token as nat, attempt as nat),
{
    let mut name = String::from_str("protonup-extract-");
    push_decimal(&mut name, token);
    if attempt != 0 {
        name.append("-");
        push_decimal(&mut name, attempt);
    }
    name
}

/// An immediate child of a directory.
#[derive(Debug, Clone)]
pub struct DirEntry {
    pub name: String,
    pub is_dir: bool,
}

/// The position of the payload among the entries of an unpacked archive:
/// that of the first directory at or after `from`.
pub open spec fn first_dir_from(entries: Seq<DirEntry>, from: int) -> Option<int>
    decreases entries.len() - from,
{
    if from < 0 || from >= entries.len() {
        None
    } else if entries[from].is_dir {
        Some(from)
    } else {
        first_dir_from(entries, from + 1)
    }
}

/// The position of the payload: that of the first directory.
pub open spec fn payload_index(entries: Seq<DirEntry>) -> Option<int> {
    first_dir_from(entries, 0)
}

/// The payload is a directory with no directory before it; without a
/// payload no entry is a directory.
pub proof fn lemma_payload_index(entries: Seq<DirEntry>, from: int)
    requires
        0 <= from,
    ensures
        match first_dir_from(entries, from) {
            Some(i) => from <= i < entries.len() && entries[i].is_dir && forall|j: int|
                from <= j < i ==> !(#[trigger] entries[j]).is_dir,
            None => forall|j: int| from <= j < entries.len() ==> !(#[trigger] entries[j]).is_dir,
        },
    decreases entries.len() - from,
{
    if from < entries.len() && !entries[from].is_dir {
        lemma_payload_index(entries, from + 1);
    }
}

/// Finds the payload among the entries of an unpacked archive.
pub fn find_payload_root(entries: &Vec<DirEntry>) -> (r: Option<usize>)
    ensures
        match r {
            Some(i) => payload_index(entries@) == Some(i as int),
            None => payload_index(entries@) is None,
        },
{
    let mut i: usize = 0;
    while i < entries.len()
        invariant
            i <= entries.len(),
            first_dir_from(entries@, 0) == first_dir_from(entries@, i as int),
        decreases entries.len() - i,
    {
        if entries[i].is_dir {
            return Some(i);
        }
        i += 1;
    }
    None
}

} // verus!
