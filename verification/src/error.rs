//! The failures a container operation can report.

use vstd::prelude::*;

verus! {

/// Why an operation on a container failed.
///
/// The first three variants come from the operating system and are raised by
/// the driver that owns the file. All others are properties of the bytes
/// examined (or of the value to be encoded) and never change on a retry; they
/// carry the offsets and values needed to diagnose the file.
#[derive(Clone, Copy, Debug, PartialEq, Eq, Structural)]
pub enum StorageError {
    /// Opening, reading, writing or flushing the file failed.
    IoError,
    /// The locking primitive itself failed.
    LockUnavailable,
    /// A non-blocking lock attempt found the file locked by another owner.
    WouldBlock,
    /// The file is shorter than a header; `length` is its size in bytes.
    NotAVectorStorageFile { length: u64 },
    /// The first two bytes are not the signature; they are `first`, `second`.
    BadSignature { first: u8, second: u8 },
    /// The header names a format version this implementation does not know.
    UnsupportedVersion { found: u16 },
    /// A read of `needed` bytes at `offset` found only `available` bytes.
    Truncated { offset: u64, needed: u64, available: u64 },
    /// The block starting at `offset` declares `declared` payload bytes, but
    /// its payload does not end exactly there.
    MalformedBlock { offset: u64, declared: u32 },
    /// A second Meta-Information block starts at `offset`.
    DuplicateMetaBlock { offset: u64 },
    /// The byte at `offset` holds `code`, which names no resolution.
    InvalidResolutionCode { offset: u64, code: i8 },
    /// The container holds no Meta-Information block although one is needed.
    MissingMetaBlock,
    /// A count or byte length that the format stores in 32 bits is `length`,
    /// which does not fit.
    LengthOverflow { length: u64 },
}

impl StorageError {
    /// Structural errors are decided by the bytes alone; retrying cannot help.
    pub open spec fn is_structural(self) -> bool {
        !(self is IoError || self is LockUnavailable || self is WouldBlock)
    }

    /// Tells whether a retry can never change the outcome.
    pub fn structural(&self) -> (r: bool)
        ensures
            r == self.is_structural(),
    {
        match self {
            StorageError::IoError => false,
            StorageError::LockUnavailable => false,
            StorageError::WouldBlock => false,
            _ => true,
        }
    }
}

} // verus!
