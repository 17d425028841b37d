//! Errors of the storage layer.

use vstd::prelude::*;

verus! {

/// Why a short (8.3) file name could not be built.
#[derive(Debug, Clone, Copy, PartialEq, Eq, Structural)]
pub enum FilenameError {
    /// The raw directory entry is shorter than one entry.
    UnableToParse,
    /// The name (or its base part) is empty.
    FilenameEmpty,
    /// A period stands where it may not.
    MisplacedPeriod,
    /// A byte that a short file name may not hold.
    InvalidCharacter,
    /// The base is longer than 8 bytes or the extension longer than 3.
    NameTooLong,
}

/// Errors of the file system.
#[derive(Debug, Clone, Copy, PartialEq, Eq, Structural)]
pub enum FsError {
    FileNotFound,
    NotAFile,
    NotADirectory,
    EndOfFile,
    BadCluster,
    InvalidOperation,
    /// The boot sector does not hold a FAT16 parameter block that this library reads.
    InvalidBpb,
    /// The block device failed to read a block.
    BlockDeviceError,
    FilenameError(FilenameError),
}

/// The result type of the storage layer.
pub type FsResult<T> = Result<T, FsError>;

impl FilenameError {
    /// The file-system error that wraps this file-name error.
    pub fn into_fs_error(self) -> (r: FsError)
        ensures
            r == FsError::FilenameError(self),
    {
        FsError::FilenameError(self)
    }
}

} // verus!
