//! The platforms the editor runs on.

use vstd::prelude::*;

verus! {

/// An operating system.
#[derive(Debug, Clone, Copy, PartialEq, Eq, Structural)]
pub enum Os {
    Mac,
    Linux,
    Windows,
}

/// A processor architecture.
#[derive(Debug, Clone, Copy, PartialEq, Eq, Structural)]
pub enum Architecture {
    Aarch64,
    X86,
    X8664,
}

/// The kind of archive a release asset is.
#[derive(Debug, Clone, Copy, PartialEq, Eq, Structural)]
pub enum ArchiveKind {
    Zip,
    GzipTar,
}

/// Windows releases come as zip archives, the others as gzipped tarballs.
pub open spec fn archive_kind_of(os: Os) -> ArchiveKind {
    if os == Os::Windows { ArchiveKind::Zip } else { ArchiveKind::GzipTar }
}

/// The kind of archive a release for `os` comes as.
pub fn archive_kind(os: Os) -> (k: ArchiveKind)
    ensures
        k == archive_kind_of(os),
{
    match os {
        Os::Windows => ArchiveKind::Zip,
        _ => ArchiveKind::GzipTar,
    }
}

/// The file name extension of the archive a release for `os` comes as.
pub open spec fn archive_extension_of(os: Os) -> Seq<char> {
    if os == Os::Windows { "zip"@ } else { "tar.gz"@ }
}

/// The file name extension of the archive a release for `os` comes as.
pub fn archive_extension(os: Os) -> (e: &'static str)
    ensures
        e@ == archive_extension_of(os),
{
    match os {
        Os::Windows => "zip",
        _ => "tar.gz",
    }
}

} // verus!
