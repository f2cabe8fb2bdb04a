//! All possible library errors.

use vstd::prelude::*;

verus! {

/// `std::io::Error`, carried opaquely inside the errors below.
#[verifier::external_type_specification]
#[verifier::external_body]
pub struct ExIoError(std::io::Error);

/// `nix::errno::Errno`, the error code that `uname` may fail with.
#[verifier::external_type_specification]
#[verifier::external_body]
pub struct ExErrno(nix::errno::Errno);

/// Why the running kernel's release could not be determined.
#[derive(Debug)]
pub enum GetKernelVersionError {
    /// The `uname` system call failed with this error code.
    UnameError(nix::errno::Errno),
    /// The release reported by `uname` is not valid UTF-8.
    ReleaseMissingFromUname,
}

/// Why looking for the kernel config failed.
#[derive(Debug)]
pub enum LocateConfigError {
    /// The running kernel's release, which names `/boot/config-<release>`,
    /// could not be determined.
    FailedToGetLinuxKernelVersion(GetKernelVersionError),
}

/// Why no kernel config was produced where one was required.
#[derive(Debug)]
pub enum RequireConfigError {
    /// Looking for the config failed.
    FailedToLocate(LocateConfigError),
    /// No config file exists at any known location.
    NotFound,
}

/// Why the gzip check of a config file failed.
#[derive(Debug)]
pub enum IsGzipError {
    /// The config file could not be opened.
    FailedToOpenFile(std::io::Error),
    /// The first bytes of the config file could not be read.
    FailedToReadFileMagic(std::io::Error),
}

/// Why no reader of a config file could be made.
#[derive(Debug)]
pub enum GettingConfigReaderError {
    /// The config file could not be opened.
    FailedToOpenFile(std::io::Error),
    /// Whether the file is gzip-compressed could not be told.
    GzipError(IsGzipError),
}

/// Why an entry's line was not found.
#[derive(Debug)]
pub enum FindLineError {
    /// No line of the config defines the entry of this name (or the name is
    /// not a config entry name).
    EntryIsMissing(String),
    /// Reading a line of the config failed before the entry was found (a
    /// line that is not UTF-8 fails to be read).
    FailedToReadConfigLine(std::io::Error),
}

/// Why an entry's value was not found.
#[derive(Debug)]
pub enum FindValueError {
    /// The entry's line was not found.
    FailedToFindLine(FindLineError),
    /// The entry's line holds no single `=`, so no value could be taken
    /// from it.
    FailedToParseLine(String),
}

} // verus!
