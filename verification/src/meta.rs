//! The Meta-Information payload: the shape of the vector space, how a
//! component is represented, and extension attributes.
//!
//! Layout, all numbers little-endian:
//!
//! ```text
//! 4 bytes          rank
//! rank * 4 bytes   dimensions
//! 1 byte           resolution (signed code)
//! 1 byte           pack
//! 1 byte           indexing
//! 4 bytes          attributes length
//! that many bytes  attributes
//! ```

use vstd::prelude::*;
use vstd::slice::slice_to_vec;
use crate::binary::Binary;
use crate::codec::{
    i8_byte, lemma_i8_roundtrip, lemma_u32_roundtrip, spec_read_blob, spec_read_i8, spec_read_u32, spec_read_u8,
    u32_at, u32_le, ByteReader, ByteWriter, Window,
};
use crate::error::StorageError;
use crate::resolution::{lemma_resolution_code_roundtrip, Resolution};

verus! {

/// What a Meta-Information payload says.
pub struct MetaView {
    pub dimensions: Seq<u32>,
    pub resolution: Resolution,
    pub pack: u8,
    pub indexing: u8,
    pub attributes: Seq<u8>,
}

impl MetaView {
    /// The number of dimensions.
    pub open spec fn rank(self) -> nat {
        self.dimensions.len()
    }

    /// The rank and the attributes length can be stored in 32 bits each.
    pub open spec fn valid(self) -> bool {
        self.dimensions.len() <= u32::MAX && self.attributes.len() <= u32::MAX
    }

    /// The number of bytes of the encoded payload.
    pub open spec fn encoded_len(self) -> int {
        11 + 4 * (self.dimensions.len() as int) + self.attributes.len() as int
    }

    /// The payload of a container that has no shape yet.
    pub open spec fn initial() -> MetaView {
        MetaView {
            dimensions: Seq::empty(),
            resolution: Resolution::BIT,
            pack: 0,
            indexing: 0,
            attributes: Seq::empty(),
        }
    }
}

/// The sizes, four little-endian bytes each, in order.
pub open spec fn dims_bytes(dims: Seq<u32>) -> Seq<u8> {
    Seq::new(4 * dims.len(), |j: int| u32_le(dims[j / 4])[j % 4])
}

/// The `count` sizes stored from `pos` on.
pub open spec fn dims_at(data: Seq<u8>, pos: int, count: int) -> Seq<u32> {
    Seq::new(count as nat, |i: int| u32_at(data, pos + 4 * i))
}

/// The encoded payload.
pub open spec fn meta_bytes(m: MetaView) -> Seq<u8> {
    u32_le(m.dimensions.len() as u32) + dims_bytes(m.dimensions) + seq![
        i8_byte(m.resolution.spec_code()),
        m.pack,
        m.indexing,
    ] + u32_le(m.attributes.len() as u32) + m.attributes
}

/// What the Meta-Information of a vector space with the given sizes and
/// resolution says: no flags, no attributes.
pub open spec fn plain_meta(dimensions: Seq<u32>, resolution: Resolution) -> MetaView {
    MetaView { dimensions, resolution, pack: 0, indexing: 0, attributes: Seq::empty() }
}

/// The first length of a Meta-Information that a block could not declare
/// in 32 bits, if there is one: the rank, else the payload's length.
pub open spec fn meta_block_overflow(m: MetaView) -> Option<u64> {
    if m.dimensions.len() > u32::MAX {
        Some(m.dimensions.len() as u64)
    } else if m.encoded_len() > u32::MAX {
        Some(m.encoded_len() as u64)
    } else {
        None
    }
}

/// What decoding a payload at a cursor yields: the fields in order, each
/// failing as its read fails, and `InvalidResolutionCode` for a code that
/// names no resolution.
pub open spec fn spec_decode_meta(w: Window) -> Result<(MetaView, Window), StorageError> {
    match spec_read_u32(w) {
        Err(e) => Err(e),
        Ok((rank, w1)) => if w1.remaining() < 4 * rank {
            Err(w1.truncated(4 * rank))
        } else {
            let w2 = w1.advance(4 * rank);
            match spec_read_i8(w2) {
                Err(e) => Err(e),
                Ok((code, w3)) => match Resolution::spec_from_code(code) {
                    None => Err(StorageError::InvalidResolutionCode { offset: w2.pos as u64, code }),
                    Some(resolution) => match spec_read_u8(w3) {
                        Err(e) => Err(e),
                        Ok((pack, w4)) => match spec_read_u8(w4) {
                            Err(e) => Err(e),
                            Ok((indexing, w5)) => match spec_read_blob(w5) {
                                Err(e) => Err(e),
                                Ok((attributes, w6)) => Ok(
                                    (
                                        MetaView {
                                            dimensions: dims_at(w.data, w1.pos, rank as int),
                                            resolution,
                                            pack,
                                            indexing,
                                            attributes,
                                        },
                                        w6,
                                    ),
                                ),
                            },
                        },
                    },
                },
            }
        },
    }
}

/// The Meta-Information of a container.
///
/// The rank always equals the number of dimensions, the resolution is always
/// one of the defined kinds, and the attributes always have their declared
/// length.
#[derive(Debug, PartialEq, Eq)]
pub struct MetaInformation {
    rank: u32,
    dimensions: Vec<u32>,
    resolution: Resolution,
    pack: u8,
    indexing: u8,
    attributes: Binary,
}

impl View for MetaInformation {
    type V = MetaView;

    closed spec fn view(&self) -> MetaView {
        MetaView {
            dimensions: self.dimensions@,
            resolution: self.resolution,
            pack: self.pack,
            indexing: self.indexing,
            attributes: self.attributes@,
        }
    }
}

impl Clone for MetaInformation {
    /// A copy that says the same.
    fn clone(&self) -> (m: MetaInformation)
        ensures
            m@ == self@,
    {
        proof {
            use_type_invariant(self);
        }
        let dimensions = self.dimensions.clone();
        MetaInformation {
            rank: self.rank,
            dimensions,
            resolution: self.resolution,
            pack: self.pack,
            indexing: self.indexing,
            attributes: self.attributes.clone(),
        }
    }
}

impl MetaInformation {
    #[verifier::type_invariant]
    spec fn rank_matches_dimensions(self) -> bool {
        self.rank == self.dimensions@.len()
    }

    /// Puts a payload together, or reports `LengthOverflow` when there are
    /// more dimensions than a 32-bit rank can count.
    pub fn new(
        dimensions: Vec<u32>,
        resolution: Resolution,
        pack: u8,
        indexing: u8,
        attributes: Binary,
    ) -> (r: Result<MetaInformation, StorageError>)
        ensures
            dimensions@.len() <= u32::MAX ==> (r matches Ok(m) && m@ == (MetaView {
                dimensions: dimensions@,
                resolution,
                pack,
                indexing,
                attributes: attributes@,
            }) && m@.valid()),
            dimensions@.len() > u32::MAX ==> r == Err::<MetaInformation, StorageError>(
                StorageError::LengthOverflow { length: dimensions@.len() as u64 },
            ),
    {
        let n = dimensions.len();
        if n > u32::MAX as usize {
            return Err(StorageError::LengthOverflow { length: n as u64 });
        }
        // a `Binary` says of itself that its length fits in 32 bits
        let _ = attributes.length();
        Ok(MetaInformation { rank: n as u32, dimensions, resolution, pack, indexing, attributes })
    }

    /// The payload of a container that has no shape yet: rank 0, no
    /// dimensions, the default resolution, no flags, no attributes.
    pub fn initial() -> (m: MetaInformation)
        ensures
            m@ == MetaView::initial(),
            m@.valid(),
    {
        MetaInformation {
            rank: 0,
            dimensions: Vec::new(),
            resolution: Resolution::default(),
            pack: 0,
            indexing: 0,
            attributes: Binary::empty(),
        }
    }

    /// The number of dimensions.
    pub fn rank(&self) -> (n: u32)
        ensures
            n == self@.rank(),
    {
        proof {
            use_type_invariant(self);
        }
        self.rank
    }

    /// The size of each dimension, in order.
    pub fn dimensions(&self) -> (dims: &[u32])
        ensures
            dims@ == self@.dimensions,
            dims@.len() <= u32::MAX,
    {
        proof {
            use_type_invariant(self);
        }
        self.dimensions.as_slice()
    }

    /// How a component is represented.
    pub fn resolution(&self) -> (r: Resolution)
        ensures
            r == self@.resolution,
    {
        self.resolution
    }

    /// The packing flags.
    pub fn pack(&self) -> (p: u8)
        ensures
            p == self@.pack,
    {
        self.pack
    }

    /// The indexing flags.
    pub fn indexing(&self) -> (i: u8)
        ensures
            i == self@.indexing,
    {
        self.indexing
    }

    /// The extension attributes.
    pub fn attributes(&self) -> (a: &Binary)
        ensures
            a@ == self@.attributes,
            self@.valid(),
    {
        proof {
            use_type_invariant(self);
        }
        // a `Binary` says of itself that its length fits in 32 bits
        let _ = self.attributes.length();
        &self.attributes
    }

    /// The number of bytes of the encoded payload.
    pub fn encoded_len(&self) -> (n: u64)
        ensures
            n == self@.encoded_len(),
            self@.valid(),
    {
        proof {
            use_type_invariant(self);
        }
        11 + 4 * (self.rank as u64) + self.attributes.length() as u64
    }
}

/// `bytes` is laid out as the payload of `m`: the rank in the first four
/// bytes, size `i` in the four bytes at `4 + 4 * i`, then the resolution
/// code, the pack and the indexing byte, the attributes length in four
/// bytes, and the attributes up to the end.
pub open spec fn payload_layout(bytes: Seq<u8>, m: MetaView) -> bool {
    let n = m.dimensions.len() as int;
    &&& bytes.len() == 11 + 4 * n + m.attributes.len()
    &&& bytes.subrange(0, 4) == u32_le(n as u32)
    &&& forall|i: int|
        0 <= i < n ==> bytes.subrange(4 + 4 * i, 8 + 4 * i) == u32_le(#[trigger] m.dimensions[i])
    &&& bytes[4 + 4 * n] == i8_byte(m.resolution.spec_code())
    &&& bytes[5 + 4 * n] == m.pack
    &&& bytes[6 + 4 * n] == m.indexing
    &&& bytes.subrange(7 + 4 * n, 11 + 4 * n) == u32_le(m.attributes.len() as u32)
    &&& bytes.subrange(11 + 4 * n, bytes.len() as int) == m.attributes
}

/// The encoded payload is laid out as documented.
pub proof fn lemma_meta_layout(m: MetaView)
    ensures
        payload_layout(meta_bytes(m), m),
{
    let bytes = meta_bytes(m);
    let n = m.dimensions.len() as int;
    assert(bytes.subrange(0, 4) =~= u32_le(n as u32));
    assert forall|i: int| 0 <= i < n implies bytes.subrange(4 + 4 * i, 8 + 4 * i) == u32_le(
        #[trigger] m.dimensions[i],
    ) by {
        let d = u32_le(m.dimensions[i]);
        assert forall|k: int| 0 <= k < 4 implies bytes[4 + 4 * i + k] == d[k] by {
            assert(bytes[4 + 4 * i + k] == dims_bytes(m.dimensions)[4 * i + k]);
        }
        assert(bytes.subrange(4 + 4 * i, 8 + 4 * i) =~= d);
    }
    assert(bytes.subrange(7 + 4 * n, 11 + 4 * n) =~= u32_le(m.attributes.len() as u32));
    assert(bytes.subrange(11 + 4 * n, bytes.len() as int) =~= m.attributes);
}

/// The encoded payload has the length its parts add up to.
pub proof fn lemma_meta_bytes_len(m: MetaView)
    ensures
        meta_bytes(m).len() == m.encoded_len(),
{
}

/// Appends the encoded payload of `meta` to what `writer` has written.
pub fn write_meta(writer: &mut ByteWriter, meta: &MetaInformation)
    ensures
        final(writer)@ == old(writer)@ + meta_bytes(meta@),
        meta@.valid(),
{
    let dims = meta.dimensions();
    writer.write_u32(meta.rank());
    let ghost start = writer@;
    let mut i: usize = 0;
    while i < dims.len()
        invariant
            i <= dims@.len(),
            writer@ == start + dims_bytes(dims@.subrange(0, i as int)),
        decreases dims@.len() - i,
    {
        writer.write_u32(dims[i]);
        i = i + 1;
    }
    proof {
        lemma_meta_bytes_len(meta@);
    }
    writer.write_i8(meta.resolution().code());
    writer.write_u8(meta.pack());
    writer.write_u8(meta.indexing());
    writer.write_blob(meta.attributes());
}

/// The encoded payload of `meta`.
pub fn encode_meta(meta: &MetaInformation) -> (bytes: Vec<u8>)
    ensures
        bytes@ == meta_bytes(meta@),
        bytes@.len() == meta@.encoded_len(),
        meta@.valid(),
{
    let mut writer = ByteWriter::new();
    write_meta(&mut writer, meta);
    proof {
        lemma_meta_bytes_len(meta@);
    }
    writer.into_bytes()
}

/// The encoded Meta-Information payload of a vector space with the given
/// sizes and resolution, with no flags and no attributes: the rank, the
/// sizes, the resolution code, two zero bytes, and a zero attributes length.
///
/// Reports `LengthOverflow` when there are more dimensions than a rank can
/// count, or when the payload would be longer than a block can declare.
pub fn create_meta_information(dimensions: &[u32], resolution: Resolution) -> (r: Result<
    Vec<u8>,
    StorageError,
>)
    ensures
        match meta_block_overflow(plain_meta(dimensions@, resolution)) {
            None => r matches Ok(bytes) && bytes@ == meta_bytes(
                plain_meta(dimensions@, resolution),
            ) && bytes@.len() == 11 + 4 * dimensions@.len(),
            Some(length) => r == Err::<Vec<u8>, StorageError>(
                StorageError::LengthOverflow { length },
            ),
        },
        r matches Ok(bytes) ==> payload_layout(bytes@, plain_meta(dimensions@, resolution)),
        r matches Ok(bytes) ==> spec_decode_meta(Window::whole(bytes@)) == Ok::<
            (MetaView, Window),
            StorageError,
        >(
            (
                plain_meta(dimensions@, resolution),
                Window::whole(bytes@).advance(bytes@.len() as int),
            ),
        ),
{
    let meta = match MetaInformation::new(
        slice_to_vec(dimensions),
        resolution,
        0,
        0,
        Binary::empty(),
    ) {
        Ok(m) => m,
        Err(e) => {
            return Err(e);
        },
    };
    let length = meta.encoded_len();
    if length > u32::MAX as u64 {
        return Err(StorageError::LengthOverflow { length });
    }
    proof {
        lemma_meta_layout(meta@);
        lemma_meta_roundtrip(meta@);
    }
    Ok(encode_meta(&meta))
}

/// Decodes a payload at the cursor and moves the cursor past it. On failure
/// the cursor stays where it was.
pub fn decode_meta(reader: &mut ByteReader) -> (r: Result<MetaInformation, StorageError>)
    ensures
        match spec_decode_meta(old(reader)@) {
            Ok((m, w)) => r matches Ok(meta) && meta@ == m && final(reader)@ == w,
            Err(e) => r == Err::<MetaInformation, StorageError>(e) && final(reader)@ == old(
                reader,
            )@,
        },
        r matches Ok(meta) ==> meta@.valid(),
        old(reader)@.wf() ==> final(reader)@.wf(),
{
    let mut probe = *reader;
    let rank = match probe.read_u32() {
        Ok(n) => n,
        Err(e) => {
            return Err(e);
        },
    };
    let ghost w1 = probe@;
    match probe.need(4 * (rank as u64)) {
        Ok(()) => {},
        Err(e) => {
            return Err(e);
        },
    }
    let mut dimensions: Vec<u32> = Vec::new();
    let mut i: u32 = 0;
    while i < rank
        invariant
            i <= rank,
            w1.wf(),
            w1.remaining() >= 4 * rank,
            probe@ == w1.advance(4 * i),
            dimensions@ == dims_at(w1.data, w1.pos, i as int),
        decreases rank - i,
    {
        let size = match probe.read_u32() {
            Ok(n) => n,
            Err(e) => {
                assert(false);
                return Err(e);
            },
        };
        dimensions.push(size);
        i = i + 1;
    }
    let code = match probe.read_i8() {
        Ok(c) => c,
        Err(e) => {
            return Err(e);
        },
    };
    let resolution = match Resolution::from_code(code) {
        Some(r) => r,
        None => {
            return Err(
                StorageError::InvalidResolutionCode {
                    offset: (probe.position() - 1) as u64,
                    code,
                },
            );
        },
    };
    let pack = match probe.read_u8() {
        Ok(b) => b,
        Err(e) => {
            return Err(e);
        },
    };
    let indexing = match probe.read_u8() {
        Ok(b) => b,
        Err(e) => {
            return Err(e);
        },
    };
    let attributes = match probe.read_blob() {
        Ok(b) => b,
        Err(e) => {
            return Err(e);
        },
    };
    *reader = probe;
    // a `Binary` says of itself that its length fits in 32 bits
    let _ = attributes.length();
    Ok(MetaInformation { rank, dimensions, resolution, pack, indexing, attributes })
}

/// A payload decodes to what it was encoded from, wherever it stands among
/// other bytes, and the cursor ends exactly behind it.
pub proof fn lemma_meta_roundtrip_at(w: Window, m: MetaView)
    requires
        w.wf(),
        m.valid(),
        w.remaining() >= m.encoded_len(),
        w.data.subrange(w.pos, w.pos + m.encoded_len()) == meta_bytes(m),
    ensures
        spec_decode_meta(w) == Ok::<(MetaView, Window), StorageError>(
            (m, w.advance(m.encoded_len())),
        ),
{
    let bytes = meta_bytes(m);
    let rank = m.dimensions.len() as int;
    let n = m.attributes.len() as int;
    let dims_pos = w.pos + 4;
    let flags_pos = dims_pos + 4 * rank;
    let len_pos = flags_pos + 3;
    let attrs_pos = len_pos + 4;
    // every byte of the window is the byte of the encoding at the same place
    assert forall|k: int| 0 <= k < m.encoded_len() implies w.data[w.pos + k] == #[trigger] bytes[k] by {
        assert(w.data.subrange(w.pos, w.pos + m.encoded_len())[k] == w.data[w.pos + k]);
    }
    // the rank
    let rank_bytes = u32_le(rank as u32);
    lemma_u32_roundtrip(rank as u32);
    assert(w.data[w.pos] == bytes[0] && bytes[0] == rank_bytes[0]);
    assert(w.data[w.pos + 1] == bytes[1] && bytes[1] == rank_bytes[1]);
    assert(w.data[w.pos + 2] == bytes[2] && bytes[2] == rank_bytes[2]);
    assert(w.data[w.pos + 3] == bytes[3] && bytes[3] == rank_bytes[3]);
    // the dimensions
    assert forall|i: int| 0 <= i < rank implies u32_at(w.data, dims_pos + 4 * i)
        == #[trigger] m.dimensions[i] by {
        let d = u32_le(m.dimensions[i]);
        lemma_u32_roundtrip(m.dimensions[i]);
        assert forall|k: int| 0 <= k < 4 implies w.data[dims_pos + 4 * i + k] == d[k] by {
            assert(w.data[w.pos + (4 + 4 * i + k)] == bytes[4 + 4 * i + k]);
            assert(bytes[4 + 4 * i + k] == dims_bytes(m.dimensions)[4 * i + k]);
        }
        assert(w.data[dims_pos + 4 * i] == d[0]);
        assert(w.data[dims_pos + 4 * i + 1] == d[1]);
        assert(w.data[dims_pos + 4 * i + 2] == d[2]);
        assert(w.data[dims_pos + 4 * i + 3] == d[3]);
    }
    assert(dims_at(w.data, dims_pos, rank) =~= m.dimensions);
    // resolution, pack, indexing
    lemma_resolution_code_roundtrip(m.resolution, m.resolution);
    lemma_i8_roundtrip(m.resolution.spec_code());
    assert(w.data[flags_pos] == bytes[4 + 4 * rank]);
    assert(w.data[flags_pos + 1] == bytes[4 + 4 * rank + 1]);
    assert(w.data[flags_pos + 2] == bytes[4 + 4 * rank + 2]);
    // the attributes
    let len_bytes = u32_le(n as u32);
    lemma_u32_roundtrip(n as u32);
    assert(w.data[len_pos] == bytes[7 + 4 * rank] && bytes[7 + 4 * rank] == len_bytes[0]);
    assert(w.data[len_pos + 1] == bytes[7 + 4 * rank + 1] && bytes[7 + 4 * rank + 1]
        == len_bytes[1]);
    assert(w.data[len_pos + 2] == bytes[7 + 4 * rank + 2] && bytes[7 + 4 * rank + 2]
        == len_bytes[2]);
    assert(w.data[len_pos + 3] == bytes[7 + 4 * rank + 3] && bytes[7 + 4 * rank + 3]
        == len_bytes[3]);
    assert forall|k: int| 0 <= k < n implies w.data[attrs_pos + k] == m.attributes[k] by {
        assert(w.data[w.pos + (11 + 4 * rank + k)] == bytes[11 + 4 * rank + k]);
    }
    assert(w.data.subrange(attrs_pos, attrs_pos + n) =~= m.attributes);
}

/// Round trip: decoding an encoded payload yields the payload it was encoded
/// from, and consumes exactly the encoded bytes.
pub proof fn lemma_meta_roundtrip(m: MetaView)
    requires
        m.valid(),
    ensures
        spec_decode_meta(Window::whole(meta_bytes(m))) == Ok::<(MetaView, Window), StorageError>(
            (m, Window::whole(meta_bytes(m)).advance(m.encoded_len())),
        ),
        Window::whole(meta_bytes(m)).advance(m.encoded_len()).remaining() == 0,
{
    let w = Window::whole(meta_bytes(m));
    lemma_meta_bytes_len(m);
    assert(w.data.subrange(w.pos, w.pos + m.encoded_len()) =~= meta_bytes(m));
    lemma_meta_roundtrip_at(w, m);
}

} // verus!
