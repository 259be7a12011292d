use protonup::archive::{
    detect_format, extraction_dir_name, find_payload_root, ArchiveFormat, DirEntry,
};
use protonup::error::InstallError;

fn entry(name: &str, is_dir: bool) -> DirEntry {
    DirEntry { name: name.to_string(), is_dir }
}

#[test]
fn gzip_suffixes() {
    assert_eq!(detect_format("GE-Proton9-7.tar.gz"), Ok(ArchiveFormat::TarGz));
    assert_eq!(detect_format("GE-Proton9-7.tgz"), Ok(ArchiveFormat::TarGz));
}

#[test]
fn xz_suffix() {
    assert_eq!(detect_format("wine-ge.tar.xz"), Ok(ArchiveFormat::TarXz));
}

#[test]
fn other_suffixes_are_unsupported() {
    assert_eq!(detect_format("pkg.zip"), Err(InstallError::UnsupportedFormat));
    assert_eq!(detect_format("pkg.gz"), Err(InstallError::UnsupportedFormat));
    assert_eq!(detect_format("pkg.xz"), Err(InstallError::UnsupportedFormat));
    assert_eq!(detect_format("pkg.tar"), Err(InstallError::UnsupportedFormat));
    assert_eq!(detect_format("pkg.tar.gz.sha512sum"), Err(InstallError::UnsupportedFormat));
    assert_eq!(detect_format("pkg.TAR.GZ"), Err(InstallError::UnsupportedFormat));
    assert_eq!(detect_format(""), Err(InstallError::UnsupportedFormat));
}

#[test]
fn extraction_dir_carries_token() {
    assert_eq!(extraction_dir_name(1700000000, 0), "protonup-extract-1700000000");
    assert_eq!(extraction_dir_name(0, 0), "protonup-extract-0");
    assert_eq!(extraction_dir_name(1700000000, 1), "protonup-extract-1700000000-1");
    assert_eq!(extraction_dir_name(7, 15), "protonup-extract-7-15");
}

#[test]
fn payload_is_first_directory() {
    let entries = vec![entry("README", false), entry("GE-Proton9-7", true), entry("extra", true)];
    assert_eq!(find_payload_root(&entries), Some(1));
    assert_eq!(find_payload_root(&vec![entry("d", true)]), Some(0));
}

#[test]
fn no_directory_no_payload() {
    assert_eq!(find_payload_root(&vec![entry("a", false), entry("b", false)]), None);
    assert_eq!(find_payload_root(&vec![]), None);
}

#[test]
fn error_descriptions() {
    assert_eq!(InstallError::DownloadFailed.describe(), "Failed to download file");
    assert_eq!(InstallError::UnsupportedFormat.describe(), "Unsupported archive format");
    assert_eq!(
        InstallError::NoPayloadDirectory.describe(),
        "No directory found in extracted archive"
    );
    assert_eq!(InstallError::NotFound.describe(), "Tool version not found");
    assert_eq!(InstallError::Filesystem.describe(), "Filesystem operation failed");
    assert_eq!(InstallError::HomeUnknown.describe(), "Could not determine home directory");
}
