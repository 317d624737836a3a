//! The four-byte preamble that marks a file as a vector storage container.

use vstd::prelude::*;
use crate::codec::{u16_at, u16_le, ByteReader, ByteWriter};
use crate::error::StorageError;

verus! {

/// The signature: the letters `V` and `S`.
pub const FILE_SIGNATURE: [u8; 2] = [0x56, 0x53];

/// The only format version defined so far.
pub const FILE_VERSION: u16 = 0;

/// The size of the header; the block stream starts at this offset.
pub const HEADER_LENGTH: usize = 4;

/// A header that has been read and accepted.
#[derive(Clone, Copy, Debug, PartialEq, Eq, Structural)]
pub struct Header {
    /// The format version the file was written in.
    pub version: u16,
}

/// The header of the supported version.
pub open spec fn current_header() -> Header {
    Header { version: FILE_VERSION }
}

/// The bytes of the header of the supported version.
pub open spec fn header_bytes() -> Seq<u8> {
    seq![0x56u8, 0x53u8] + u16_le(FILE_VERSION)
}

/// What the first bytes of a file say about it.
pub open spec fn spec_decode_header(data: Seq<u8>) -> Result<Header, StorageError> {
    if data.len() < 4 {
        Err(StorageError::NotAVectorStorageFile { length: data.len() as u64 })
    } else if data[0] != 0x56 || data[1] != 0x53 {
        Err(StorageError::BadSignature { first: data[0], second: data[1] })
    } else if u16_at(data, 2) != FILE_VERSION {
        Err(StorageError::UnsupportedVersion { found: u16_at(data, 2) })
    } else {
        Ok(current_header())
    }
}

/// The signature and version of the supported format, four bytes.
pub fn encode_header() -> (bytes: Vec<u8>)
    ensures
        bytes@ == header_bytes(),
        bytes@.len() == 4,
{
    let mut w = ByteWriter::new();
    w.write_u8(FILE_SIGNATURE[0]);
    w.write_u8(FILE_SIGNATURE[1]);
    w.write_u16(FILE_VERSION);
    w.into_bytes()
}

/// Reads and checks the header at the start of `bytes`.
///
/// Fewer than four bytes are `NotAVectorStorageFile`; a wrong signature is
/// `BadSignature`; an unknown version is `UnsupportedVersion`.
pub fn decode_header(bytes: &[u8]) -> (r: Result<Header, StorageError>)
    ensures
        r == spec_decode_header(bytes@),
{
    if bytes.len() < HEADER_LENGTH {
        return Err(StorageError::NotAVectorStorageFile { length: bytes.len() as u64 });
    }
    let mut reader = ByteReader::new(bytes);
    let first = match reader.read_u8() {
        Ok(b) => b,
        Err(e) => {
            return Err(e);
        },
    };
    let second = match reader.read_u8() {
        Ok(b) => b,
        Err(e) => {
            return Err(e);
        },
    };
    if first != FILE_SIGNATURE[0] || second != FILE_SIGNATURE[1] {
        return Err(StorageError::BadSignature { first, second });
    }
    let version = match reader.read_u16() {
        Ok(v) => v,
        Err(e) => {
            return Err(e);
        },
    };
    if version != FILE_VERSION {
        return Err(StorageError::UnsupportedVersion { found: version });
    }
    Ok(Header { version })
}

/// An encoded header is read back as the header of the supported version,
/// whatever follows it.
pub proof fn lemma_header_roundtrip(rest: Seq<u8>)
    ensures
        spec_decode_header(header_bytes() + rest) == Ok::<Header, StorageError>(current_header()),
        header_bytes().len() == 4,
{
    let data = header_bytes() + rest;
}

} // verus!
