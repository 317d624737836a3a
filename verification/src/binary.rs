//! Length-prefixed opaque byte strings.

use vstd::prelude::*;
use crate::error::StorageError;

verus! {

/// An opaque byte string together with its length as the format declares it.
///
/// The declared length always equals the number of payload bytes, so a
/// `Binary` can always be written with a 32-bit length prefix.
#[derive(Debug, PartialEq, Eq)]
pub struct Binary {
    length: u32,
    payload: Vec<u8>,
}

impl View for Binary {
    type V = Seq<u8>;

    /// The payload bytes.
    closed spec fn view(&self) -> Seq<u8> {
        self.payload@
    }
}

impl Clone for Binary {
    /// A copy with the same bytes.
    fn clone(&self) -> (b: Binary)
        ensures
            b@ == self@,
    {
        proof {
            use_type_invariant(self);
        }
        let payload = self.payload.clone();
        assert(payload@ =~= self.payload@);
        Binary { length: self.length, payload }
    }
}

impl Binary {
    #[verifier::type_invariant]
    spec fn length_matches_payload(self) -> bool {
        self.length == self.payload@.len()
    }

    /// The empty byte string.
    pub fn empty() -> (b: Binary)
        ensures
            b@ == Seq::<u8>::empty(),
    {
        Binary { length: 0, payload: Vec::new() }
    }

    /// Wraps `payload`, or reports `LengthOverflow` when its length cannot
    /// be declared in 32 bits.
    pub fn new(payload: Vec<u8>) -> (r: Result<Binary, StorageError>)
        ensures
            payload@.len() <= u32::MAX ==> (r matches Ok(b) && b@ == payload@),
            payload@.len() > u32::MAX ==> r == Err::<Binary, StorageError>(
                StorageError::LengthOverflow { length: payload@.len() as u64 },
            ),
    {
        let n = payload.len();
        if n > u32::MAX as usize {
            Err(StorageError::LengthOverflow { length: n as u64 })
        } else {
            Ok(Binary { length: n as u32, payload })
        }
    }

    /// The declared length, which is the number of payload bytes.
    pub fn length(&self) -> (n: u32)
        ensures
            n == self@.len(),
    {
        proof {
            use_type_invariant(self);
        }
        self.length
    }

    /// The payload bytes.
    pub fn payload(&self) -> (bytes: &[u8])
        ensures
            bytes@ == self@,
            bytes@.len() <= u32::MAX,
    {
        proof {
            use_type_invariant(self);
        }
        self.payload.as_slice()
    }

    /// Gives the payload bytes up.
    pub fn into_payload(self) -> (bytes: Vec<u8>)
        ensures
            bytes@ == self@,
            bytes@.len() <= u32::MAX,
    {
        proof {
            use_type_invariant(&self);
        }
        self.payload
    }
}

} // verus!
