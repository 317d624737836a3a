//! Blocks: the tagged, length-prefixed units of a container's byte stream.
//!
//! ```text
//! 1 byte    id
//! 4 bytes   length (little-endian), the payload's length
//! N bytes   payload, N == length
//! ```
//!
//! A reader that does not know an id skips the payload by its length. The
//! one id known so far is that of the Meta-Information block.

use vstd::prelude::*;
use crate::codec::{
    lemma_u32_roundtrip, spec_read_u32, spec_read_u8, spec_skip, u32_at, u32_le, ByteReader,
    ByteWriter, Window,
};
use crate::error::StorageError;
use crate::meta::{
    decode_meta, encode_meta, lemma_meta_bytes_len, lemma_meta_roundtrip_at, meta_block_overflow,
    meta_bytes, spec_decode_meta, MetaInformation, MetaView,
};

verus! {

/// The id of the Meta-Information block, the character `^`. It is never
/// used for another kind of block.
pub const META_BLOCK_ID: u8 = 0x5E;

/// The size of a block's prefix: the id and the length.
pub const BLOCK_PREFIX_LENGTH: usize = 5;

/// What a block's payload says, as far as this reader understands it.
pub enum PayloadView {
    Meta(MetaView),
    Unknown,
}

/// What a block says.
pub struct BlockView {
    pub id: u8,
    pub length: u32,
    pub payload: PayloadView,
}

/// The payload of a block, by kind.
#[derive(Debug, PartialEq, Eq)]
pub enum Payload {
    /// The shape and representation of the vector space.
    Meta(MetaInformation),
    /// A payload of a kind this reader does not know; it was skipped.
    Unknown,
}

impl View for Payload {
    type V = PayloadView;

    open spec fn view(&self) -> PayloadView {
        match self {
            Payload::Meta(m) => PayloadView::Meta(m@),
            Payload::Unknown => PayloadView::Unknown,
        }
    }
}

/// A block as read from a container.
///
/// The payload is Meta-Information exactly when the id is that of the
/// Meta-Information block, and then the declared length is the length of
/// its encoding.
#[derive(Debug, PartialEq, Eq)]
pub struct Block {
    id: u8,
    length: u32,
    payload: Payload,
}

impl View for Block {
    type V = BlockView;

    closed spec fn view(&self) -> BlockView {
        BlockView { id: self.id, length: self.length, payload: self.payload@ }
    }
}

impl BlockView {
    /// The id and the payload's kind agree, and a known payload has the
    /// declared length.
    pub open spec fn wf(self) -> bool {
        match self.payload {
            PayloadView::Meta(m) => self.id == META_BLOCK_ID && m.valid() && m.encoded_len()
                == self.length,
            PayloadView::Unknown => self.id != META_BLOCK_ID,
        }
    }
}

impl Block {
    #[verifier::type_invariant]
    spec fn consistent(self) -> bool {
        self@.wf()
    }

    /// The tag that names the payload's kind.
    pub fn id(&self) -> (id: u8)
        ensures
            id == self@.id,
            self@.wf(),
    {
        proof {
            use_type_invariant(self);
        }
        self.id
    }

    /// The declared length of the payload in bytes.
    pub fn length(&self) -> (n: u32)
        ensures
            n == self@.length,
            self@.wf(),
    {
        proof {
            use_type_invariant(self);
        }
        self.length
    }

    /// The payload.
    pub fn payload(&self) -> (p: &Payload)
        ensures
            p@ == self@.payload,
            self@.wf(),
    {
        proof {
            use_type_invariant(self);
        }
        &self.payload
    }

    /// Gives the payload up.
    pub fn into_payload(self) -> (p: Payload)
        ensures
            p@ == self@.payload,
            self@.wf(),
    {
        proof {
            use_type_invariant(&self);
        }
        self.payload
    }

    /// Tells whether this is the Meta-Information block.
    pub fn is_meta(&self) -> (b: bool)
        ensures
            b == (self@.id == META_BLOCK_ID),
            b == (self@.payload is Meta),
    {
        proof {
            use_type_invariant(self);
        }
        self.id == META_BLOCK_ID
    }
}

/// The encoded block: the id, the payload's length, the payload.
pub open spec fn block_bytes(id: u8, payload: Seq<u8>) -> Seq<u8> {
    seq![id] + u32_le(payload.len() as u32) + payload
}

/// What reading a block's prefix yields: the id and the declared length.
pub open spec fn spec_decode_block_header(w: Window) -> Result<((u8, u32), Window), StorageError> {
    match spec_read_u8(w) {
        Err(e) => Err(e),
        Ok((id, w1)) => match spec_read_u32(w1) {
            Err(e) => Err(e),
            Ok((length, w2)) => Ok(((id, length), w2)),
        },
    }
}

/// What the payload in `body` is, where `body` holds exactly the declared
/// bytes of the block that starts at `offset`. A known payload that needs
/// more bytes than declared, or fewer, makes the block malformed.
pub open spec fn spec_decode_payload(body: Window, offset: u64, id: u8, length: u32) -> Result<
    PayloadView,
    StorageError,
> {
    if id == META_BLOCK_ID {
        match spec_decode_meta(body) {
            Ok((m, rest)) => if rest.remaining() == 0 {
                Ok(PayloadView::Meta(m))
            } else {
                Err(StorageError::MalformedBlock { offset, declared: length })
            },
            Err(StorageError::Truncated { .. }) => Err(
                StorageError::MalformedBlock { offset, declared: length },
            ),
            Err(e) => Err(e),
        }
    } else {
        Ok(PayloadView::Unknown)
    }
}

/// What reading the payload behind a prefix yields. A declared length that
/// reaches past the readable bytes is `Truncated`, before anything else is
/// looked at.
pub open spec fn spec_read_payload(w: Window, offset: u64, id: u8, length: u32) -> Result<
    (PayloadView, Window),
    StorageError,
> {
    match spec_skip(w, length as int) {
        Err(e) => Err(e),
        Ok(next) => match spec_decode_payload(w.narrow(length as int), offset, id, length) {
            Err(e) => Err(e),
            Ok(p) => Ok((p, next)),
        },
    }
}

/// What reading a whole block yields.
pub open spec fn spec_read_block(w: Window) -> Result<(BlockView, Window), StorageError> {
    match spec_decode_block_header(w) {
        Err(e) => Err(e),
        Ok(((id, length), body)) => match spec_read_payload(body, w.pos as u64, id, length) {
            Err(e) => Err(e),
            Ok((payload, next)) => Ok((BlockView { id, length, payload }, next)),
        },
    }
}

/// Encodes a block around `payload`, or reports `LengthOverflow` when the
/// payload's length cannot be declared in 32 bits.
pub fn encode_block(id: u8, payload: &[u8]) -> (r: Result<Vec<u8>, StorageError>)
    ensures
        payload@.len() <= u32::MAX ==> (r matches Ok(bytes) && bytes@ == block_bytes(
            id,
            payload@,
        ) && bytes@.len() == 5 + payload@.len()),
        payload@.len() > u32::MAX ==> r == Err::<Vec<u8>, StorageError>(
            StorageError::LengthOverflow { length: payload@.len() as u64 },
        ),
{
    let n = payload.len();
    if n > u32::MAX as usize {
        return Err(StorageError::LengthOverflow { length: n as u64 });
    }
    let mut writer = ByteWriter::new();
    writer.write_u8(id);
    writer.write_u32(n as u32);
    writer.write_bytes(payload);
    Ok(writer.into_bytes())
}

/// Reads the five-byte prefix of a block: its id and its declared length.
pub fn decode_block_header(reader: &mut ByteReader) -> (r: Result<(u8, u32), StorageError>)
    ensures
        match spec_decode_block_header(old(reader)@) {
            Ok((prefix, w)) => r == Ok::<(u8, u32), StorageError>(prefix) && final(reader)@ == w,
            Err(e) => r == Err::<(u8, u32), StorageError>(e) && final(reader)@ == old(reader)@,
        },
        old(reader)@.wf() ==> final(reader)@.wf(),
{
    let mut probe = *reader;
    let id = match probe.read_u8() {
        Ok(b) => b,
        Err(e) => {
            return Err(e);
        },
    };
    let length = match probe.read_u32() {
        Ok(n) => n,
        Err(e) => {
            return Err(e);
        },
    };
    *reader = probe;
    Ok((id, length))
}

/// Reads the payload that follows a prefix already read; `offset` is where
/// the block started.
pub(crate) fn read_payload(reader: &mut ByteReader, offset: u64, id: u8, length: u32) -> (r:
    Result<Payload, StorageError>)
    ensures
        match spec_read_payload(old(reader)@, offset, id, length) {
            Ok((p, w)) => r matches Ok(payload) && payload@ == p && final(reader)@ == w,
            Err(e) => r == Err::<Payload, StorageError>(e) && final(reader)@ == old(reader)@,
        },
        r matches Ok(payload) ==> (BlockView { id, length, payload: payload@ }).wf(),
        old(reader)@.wf() ==> final(reader)@.wf(),
{
    let mut probe = *reader;
    let mut body = match probe.take(length) {
        Ok(b) => b,
        Err(e) => {
            return Err(e);
        },
    };
    if id == META_BLOCK_ID {
        let ghost start = body@;
        match decode_meta(&mut body) {
            Ok(meta) => {
                if body.is_at_end() {
                    *reader = probe;
                    proof {
                        lemma_decoded_len(start);
                    }
                    Ok(Payload::Meta(meta))
                } else {
                    Err(StorageError::MalformedBlock { offset, declared: length })
                }
            },
            Err(StorageError::Truncated { .. }) => Err(
                StorageError::MalformedBlock { offset, declared: length },
            ),
            Err(e) => Err(e),
        }
    } else {
        *reader = probe;
        Ok(Payload::Unknown)
    }
}

/// A decoded payload ends as many bytes behind its start as its encoding is
/// long.
pub proof fn lemma_decoded_len(w: Window)
    requires
        w.wf(),
    ensures
        spec_decode_meta(w) matches Ok((m, rest)) ==> rest == w.advance(m.encoded_len())
            && rest.wf(),
{
}

/// Reads the next block: its prefix, then its payload, which is decoded if
/// its kind is known and skipped if not. On failure the cursor stays where
/// it was.
pub fn read_block(reader: &mut ByteReader) -> (r: Result<Block, StorageError>)
    ensures
        match spec_read_block(old(reader)@) {
            Ok((b, w)) => r matches Ok(block) && block@ == b && final(reader)@ == w,
            Err(e) => r == Err::<Block, StorageError>(e) && final(reader)@ == old(reader)@,
        },
        r matches Ok(block) ==> block@.wf(),
        old(reader)@.wf() ==> final(reader)@.wf(),
{
    let offset = reader.position() as u64;
    let mut probe = *reader;
    let (id, length) = match decode_block_header(&mut probe) {
        Ok(prefix) => prefix,
        Err(e) => {
            return Err(e);
        },
    };
    let payload = match read_payload(&mut probe, offset, id, length) {
        Ok(p) => p,
        Err(e) => {
            return Err(e);
        },
    };
    *reader = probe;
    Ok(Block { id, length, payload })
}

/// The encoded Meta-Information block.
pub open spec fn meta_block_bytes(m: MetaView) -> Seq<u8> {
    block_bytes(META_BLOCK_ID, meta_bytes(m))
}

/// Encodes `meta` as a block, or reports `LengthOverflow` when its payload
/// is too long to be declared.
pub fn encode_meta_block(meta: &MetaInformation) -> (r: Result<Vec<u8>, StorageError>)
    ensures
        meta@.valid(),
        match meta_block_overflow(meta@) {
            None => r matches Ok(bytes) && bytes@ == meta_block_bytes(meta@) && bytes@.len() == 5
                + meta@.encoded_len(),
            Some(length) => r == Err::<Vec<u8>, StorageError>(
                StorageError::LengthOverflow { length },
            ),
        },
{
    let payload = encode_meta(meta);
    encode_block(META_BLOCK_ID, payload.as_slice())
}

/// An encoded block is read back, wherever it stands among other bytes:
/// the prefix gives the id and the payload's length, and the cursor ends
/// exactly behind the payload.
pub proof fn lemma_block_prefix_at(w: Window, id: u8, payload: Seq<u8>)
    requires
        w.wf(),
        payload.len() <= u32::MAX,
        w.remaining() >= 5 + payload.len(),
        w.data.subrange(w.pos, w.pos + 5 + payload.len()) == block_bytes(id, payload),
    ensures
        spec_decode_block_header(w) == Ok::<((u8, u32), Window), StorageError>(
            ((id, payload.len() as u32), w.advance(5)),
        ),
        w.data.subrange(w.pos + 5, w.pos + 5 + payload.len()) == payload,
{
    let bytes = block_bytes(id, payload);
    let n = payload.len() as int;
    // every byte of the window is the byte of the encoding at the same place
    assert forall|k: int| 0 <= k < 5 + n implies w.data[w.pos + k] == #[trigger] bytes[k] by {
        assert(w.data.subrange(w.pos, w.pos + 5 + n)[k] == w.data[w.pos + k]);
    }
    let len_bytes = u32_le(n as u32);
    lemma_u32_roundtrip(n as u32);
    assert(w.data[w.pos + 0] == bytes[0]);
    assert(w.data[w.pos + 1] == bytes[1] && bytes[1] == len_bytes[0]);
    assert(w.data[w.pos + 2] == bytes[2] && bytes[2] == len_bytes[1]);
    assert(w.data[w.pos + 3] == bytes[3] && bytes[3] == len_bytes[2]);
    assert(w.data[w.pos + 4] == bytes[4] && bytes[4] == len_bytes[3]);
    assert forall|k: int| 0 <= k < n implies w.data[w.pos + 5 + k] == payload[k] by {
        assert(w.data[w.pos + (5 + k)] == bytes[5 + k]);
    }
}

/// A block of an unknown kind is skipped by its length, whatever its
/// payload holds.
pub proof fn lemma_unknown_block_skipped(w: Window, id: u8, payload: Seq<u8>)
    requires
        w.wf(),
        id != META_BLOCK_ID,
        payload.len() <= u32::MAX,
        w.remaining() >= 5 + payload.len(),
        w.data.subrange(w.pos, w.pos + 5 + payload.len()) == block_bytes(id, payload),
    ensures
        spec_read_block(w) == Ok::<(BlockView, Window), StorageError>(
            (
                BlockView { id, length: payload.len() as u32, payload: PayloadView::Unknown },
                w.advance(5 + payload.len() as int),
            ),
        ),
{
    lemma_block_prefix_at(w, id, payload);
}

/// An encoded Meta-Information block is read back as the Meta-Information
/// it was encoded from.
pub proof fn lemma_meta_block_roundtrip_at(w: Window, m: MetaView)
    requires
        w.wf(),
        m.valid(),
        m.encoded_len() <= u32::MAX,
        w.remaining() >= 5 + m.encoded_len(),
        w.data.subrange(w.pos, w.pos + 5 + m.encoded_len()) == meta_block_bytes(m),
    ensures
        spec_read_block(w) == Ok::<(BlockView, Window), StorageError>(
            (
                BlockView {
                    id: META_BLOCK_ID,
                    length: m.encoded_len() as u32,
                    payload: PayloadView::Meta(m),
                },
                w.advance(5 + m.encoded_len()),
            ),
        ),
{
    let payload = meta_bytes(m);
    lemma_meta_bytes_len(m);
    lemma_block_prefix_at(w, META_BLOCK_ID, payload);
    let body = w.advance(5).narrow(m.encoded_len());
    lemma_meta_roundtrip_at(body, m);
}

/// Truncation: a prefix that declares more payload bytes than are left
/// makes the read fail with `Truncated`, whatever the id and the bytes are.
pub proof fn lemma_truncated_block(w: Window)
    requires
        w.wf(),
        w.remaining() >= 5,
        u32_at(w.data, w.pos + 1) > w.remaining() - 5,
    ensures
        spec_read_block(w) == Err::<(BlockView, Window), StorageError>(
            StorageError::Truncated {
                offset: (w.pos + 5) as u64,
                needed: u32_at(w.data, w.pos + 1) as u64,
                available: (w.remaining() - 5) as u64,
            },
        ),
{
}

} // verus!
