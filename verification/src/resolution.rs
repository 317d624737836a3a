//! The closed vocabularies of the format: how a vector component is
//! represented, and how payload bytes are compressed.

use vstd::prelude::*;

verus! {

/// The scalar type of one vector component, stored as a signed 8-bit code.
///
/// Integer kinds come in pairs that share a magnitude (the bit-width family)
/// and differ in sign (negative means signed). Floating-point kinds start at
/// 10 and have no negative counterpart. A code is never redefined.
#[allow(non_camel_case_types)]
#[derive(Clone, Copy, Debug, PartialEq, Eq, Structural)]
pub enum Resolution {
    BIT,
    UINT8,
    INT8,
    UINT16,
    INT16,
    UINT32,
    INT32,
    UINT64,
    INT64,
    FLOAT16,
    FLOAT32,
    FLOAT64,
    FLOAT80,
    FLOAT128,
}

impl Resolution {
    /// The code under which this resolution is stored.
    pub open spec fn spec_code(self) -> i8 {
        match self {
            Resolution::BIT => 0i8,
            Resolution::UINT8 => 1i8,
            Resolution::INT8 => -1i8,
            Resolution::UINT16 => 2i8,
            Resolution::INT16 => -2i8,
            Resolution::UINT32 => 3i8,
            Resolution::INT32 => -3i8,
            Resolution::UINT64 => 4i8,
            Resolution::INT64 => -4i8,
            Resolution::FLOAT16 => 10i8,
            Resolution::FLOAT32 => 11i8,
            Resolution::FLOAT64 => 12i8,
            Resolution::FLOAT80 => 13i8,
            Resolution::FLOAT128 => 14i8,
        }
    }

    /// The resolution a code names, if it names one.
    pub open spec fn spec_from_code(code: i8) -> Option<Resolution> {
        if code == 0 {
            Some(Resolution::BIT)
        } else if code == 1 {
            Some(Resolution::UINT8)
        } else if code == -1 {
            Some(Resolution::INT8)
        } else if code == 2 {
            Some(Resolution::UINT16)
        } else if code == -2 {
            Some(Resolution::INT16)
        } else if code == 3 {
            Some(Resolution::UINT32)
        } else if code == -3 {
            Some(Resolution::INT32)
        } else if code == 4 {
            Some(Resolution::UINT64)
        } else if code == -4 {
            Some(Resolution::INT64)
        } else if code == 10 {
            Some(Resolution::FLOAT16)
        } else if code == 11 {
            Some(Resolution::FLOAT32)
        } else if code == 12 {
            Some(Resolution::FLOAT64)
        } else if code == 13 {
            Some(Resolution::FLOAT80)
        } else if code == 14 {
            Some(Resolution::FLOAT128)
        } else {
            None
        }
    }

    /// A code names a resolution exactly when it lies in `-4..=4` or `10..=14`.
    pub open spec fn is_code(code: i8) -> bool {
        -4 <= code <= 4 || 10 <= code <= 14
    }

    /// The code under which this resolution is stored.
    pub fn code(&self) -> (c: i8)
        ensures
            c == self.spec_code(),
    {
        match self {
            Resolution::BIT => 0,
            Resolution::UINT8 => 1,
            Resolution::INT8 => -1,
            Resolution::UINT16 => 2,
            Resolution::INT16 => -2,
            Resolution::UINT32 => 3,
            Resolution::INT32 => -3,
            Resolution::UINT64 => 4,
            Resolution::INT64 => -4,
            Resolution::FLOAT16 => 10,
            Resolution::FLOAT32 => 11,
            Resolution::FLOAT64 => 12,
            Resolution::FLOAT80 => 13,
            Resolution::FLOAT128 => 14,
        }
    }

    /// Looks a code up; `None` for a code that names no resolution.
    pub fn from_code(code: i8) -> (r: Option<Resolution>)
        ensures
            r == Self::spec_from_code(code),
            r is Some <==> Self::is_code(code),
            r matches Some(res) ==> res.spec_code() == code,
    {
        if code == 0 {
            Some(Resolution::BIT)
        } else if code == 1 {
            Some(Resolution::UINT8)
        } else if code == -1 {
            Some(Resolution::INT8)
        } else if code == 2 {
            Some(Resolution::UINT16)
        } else if code == -2 {
            Some(Resolution::INT16)
        } else if code == 3 {
            Some(Resolution::UINT32)
        } else if code == -3 {
            Some(Resolution::INT32)
        } else if code == 4 {
            Some(Resolution::UINT64)
        } else if code == -4 {
            Some(Resolution::INT64)
        } else if code == 10 {
            Some(Resolution::FLOAT16)
        } else if code == 11 {
            Some(Resolution::FLOAT32)
        } else if code == 12 {
            Some(Resolution::FLOAT64)
        } else if code == 13 {
            Some(Resolution::FLOAT80)
        } else if code == 14 {
            Some(Resolution::FLOAT128)
        } else {
            None
        }
    }
}

impl Default for Resolution {
    /// The resolution of a freshly created, still shapeless container.
    fn default() -> (r: Resolution)
        ensures
            r == Resolution::BIT,
    {
        Resolution::BIT
    }
}

/// Every resolution is found again under its own code, and two resolutions
/// with the same code are the same resolution.
pub proof fn lemma_resolution_code_roundtrip(r: Resolution, s: Resolution)
    ensures
        Resolution::spec_from_code(r.spec_code()) == Some(r),
        Resolution::is_code(r.spec_code()),
        r.spec_code() == s.spec_code() ==> r == s,
{
}

/// A code that names a resolution is the code of the resolution it names.
pub proof fn lemma_resolution_from_code(code: i8)
    ensures
        Resolution::spec_from_code(code) is Some <==> Resolution::is_code(code),
        Resolution::spec_from_code(code) matches Some(r) ==> r.spec_code() == code,
{
}

/// Signedness is the sign of the code: each unsigned integer kind of one to
/// eight bytes has a signed counterpart under the negated code, and
/// floating-point kinds, from code 10 on, have none.
pub proof fn lemma_signed_counterparts(code: i8)
    ensures
        1 <= code <= 4 ==> Resolution::spec_from_code(code) is Some && Resolution::spec_from_code(
            (-code) as i8,
        ) is Some,
        10 <= code <= 14 ==> Resolution::spec_from_code(code) is Some
            && Resolution::spec_from_code((-code) as i8) is None,
{
}

/// How the bytes of a vector payload are compressed, stored as a 3-bit code.
#[allow(non_camel_case_types)]
#[derive(Clone, Copy, Debug, PartialEq, Eq, Structural)]
pub enum Compression {
    /// Stored as is.
    UNCOMPRESSED,
    /// LZ4.
    LZ4,
    /// Z-Standard.
    ZSTD,
}

impl Compression {
    /// The code under which this compression is stored.
    pub open spec fn spec_code(self) -> u8 {
        match self {
            Compression::UNCOMPRESSED => 0u8,
            Compression::LZ4 => 1u8,
            Compression::ZSTD => 2u8,
        }
    }

    /// The compression a code names, if it names one.
    pub open spec fn spec_from_code(code: u8) -> Option<Compression> {
        if code == 0 {
            Some(Compression::UNCOMPRESSED)
        } else if code == 1 {
            Some(Compression::LZ4)
        } else if code == 2 {
            Some(Compression::ZSTD)
        } else {
            None
        }
    }

    /// The code under which this compression is stored; it fits in 3 bits.
    pub fn code(&self) -> (c: u8)
        ensures
            c == self.spec_code(),
            c < 8,
    {
        match self {
            Compression::UNCOMPRESSED => 0,
            Compression::LZ4 => 1,
            Compression::ZSTD => 2,
        }
    }

    /// Looks a code up; `None` for a code that names no compression.
    pub fn from_code(code: u8) -> (r: Option<Compression>)
        ensures
            r == Self::spec_from_code(code),
            r is Some <==> code <= 2,
            r matches Some(c) ==> c.spec_code() == code,
    {
        if code == 0 {
            Some(Compression::UNCOMPRESSED)
        } else if code == 1 {
            Some(Compression::LZ4)
        } else if code == 2 {
            Some(Compression::ZSTD)
        } else {
            None
        }
    }
}

} // verus!
