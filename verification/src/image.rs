//! The image of a whole container: a header followed by blocks up to the
//! end of the file.
//!
//! `create` builds the image of a new container and `verify` validates an
//! existing one, walking its blocks in order. Both work on bytes in memory;
//! reading and writing the file is the caller's part.

use vstd::prelude::*;
use crate::block::{
    block_bytes, decode_block_header, encode_block, lemma_meta_block_roundtrip_at,
    lemma_unknown_block_skipped, meta_block_bytes, read_payload, spec_decode_block_header,
    spec_read_block, spec_read_payload, Payload, PayloadView, META_BLOCK_ID,
};
use crate::codec::{u16_at, u32_at, ByteReader, ByteWriter, Window};
use crate::error::StorageError;
use crate::header::{
    current_header, decode_header, encode_header, header_bytes, lemma_header_roundtrip,
    spec_decode_header, Header, HEADER_LENGTH,
};
use crate::meta::{
    create_meta_information, lemma_meta_bytes_len, meta_block_overflow, plain_meta,
    MetaInformation, MetaView,
};
use crate::resolution::Resolution;

verus! {

/// The image of a container that holds the Meta-Information `m` and
/// nothing else.
pub open spec fn image_bytes(m: MetaView) -> Seq<u8> {
    header_bytes() + meta_block_bytes(m)
}

/// The image of a freshly created container.
pub open spec fn initial_image() -> Seq<u8> {
    image_bytes(MetaView::initial())
}

/// The window over the block stream of an image: everything behind the
/// header.
pub open spec fn block_stream(data: Seq<u8>) -> Window {
    Window { data, pos: 4, end: data.len() as int }
}

/// What a Meta-Information says, if there is one.
pub open spec fn found_view(found: Option<MetaInformation>) -> Option<MetaView> {
    match found {
        Some(m) => Some(m@),
        None => None,
    }
}

/// What walking the blocks from a cursor to the end yields, given the
/// Meta-Information found so far.
///
/// At each block the prefix is read; a declared length that reaches past the
/// end is `Truncated`; a second Meta-Information block is
/// `DuplicateMetaBlock`; a known payload is decoded and an unknown one
/// skipped. The walk ends where no byte is left.
pub open spec fn spec_scan(w: Window, found: Option<MetaView>) -> Result<
    Option<MetaView>,
    StorageError,
>
    decreases w.remaining(),
{
    if w.remaining() <= 0 {
        Ok(found)
    } else {
        match spec_decode_block_header(w) {
            Err(e) => Err(e),
            Ok(((id, length), body)) => if body.remaining() >= length && id == META_BLOCK_ID
                && found is Some {
                Err(StorageError::DuplicateMetaBlock { offset: w.pos as u64 })
            } else {
                match spec_read_payload(body, w.pos as u64, id, length) {
                    Err(e) => Err(e),
                    Ok((payload, next)) => spec_scan(
                        next,
                        match payload {
                            PayloadView::Meta(m) => Some(m),
                            PayloadView::Unknown => found,
                        },
                    ),
                }
            },
        }
    }
}

/// What validating an image yields: its header and its Meta-Information, if
/// it holds one.
pub open spec fn spec_verify(data: Seq<u8>) -> Result<(Header, Option<MetaView>), StorageError> {
    match spec_decode_header(data) {
        Err(e) => Err(e),
        Ok(header) => match spec_scan(block_stream(data), None) {
            Err(e) => Err(e),
            Ok(found) => Ok((header, found)),
        },
    }
}

/// What reading the Meta-Information of an image yields; an image without
/// one is an error to a caller that needs it.
pub open spec fn spec_read_meta(data: Seq<u8>) -> Result<MetaView, StorageError> {
    match spec_verify(data) {
        Err(e) => Err(e),
        Ok((_, None)) => Err(StorageError::MissingMetaBlock),
        Ok((_, Some(m))) => Ok(m),
    }
}

/// The image of a new container: the header, then a Meta-Information block
/// with rank 0, no dimensions, the default resolution and no attributes.
pub fn create() -> (bytes: Vec<u8>)
    ensures
        bytes@ == initial_image(),
        bytes@.len() == 20,
{
    let empty: Vec<u32> = Vec::new();
    match create_for(empty.as_slice(), Resolution::default()) {
        Ok(bytes) => bytes,
        Err(_) => {
            assert(false);
            Vec::new()
        },
    }
}

/// The image of a new container for a vector space with the given sizes and
/// resolution, or `LengthOverflow` when there are too many dimensions for a
/// block.
pub fn create_for(dimensions: &[u32], resolution: Resolution) -> (r: Result<Vec<u8>, StorageError>)
    ensures
        match meta_block_overflow(plain_meta(dimensions@, resolution)) {
            None => r matches Ok(bytes) && bytes@ == image_bytes(
                plain_meta(dimensions@, resolution),
            ) && bytes@.len() == 20 + 4 * dimensions@.len(),
            Some(length) => r == Err::<Vec<u8>, StorageError>(
                StorageError::LengthOverflow { length },
            ),
        },
{
    let payload = match create_meta_information(dimensions, resolution) {
        Ok(p) => p,
        Err(e) => {
            return Err(e);
        },
    };
    let block = match encode_block(META_BLOCK_ID, payload.as_slice()) {
        Ok(b) => b,
        Err(e) => {
            return Err(e);
        },
    };
    let mut writer = ByteWriter::new();
    writer.write_bytes(encode_header().as_slice());
    writer.write_bytes(block.as_slice());
    Ok(writer.into_bytes())
}

/// Walks the blocks from the cursor to the end.
fn scan(reader: &mut ByteReader) -> (r: Result<Option<MetaInformation>, StorageError>)
    requires
        old(reader)@.wf(),
    ensures
        match spec_scan(old(reader)@, None) {
            Ok(found) => r matches Ok(x) && found_view(x) == found,
            Err(e) => r == Err::<Option<MetaInformation>, StorageError>(e),
        },
{
    let mut found: Option<MetaInformation> = None;
    while !reader.is_at_end()
        invariant
            reader@.wf(),
            spec_scan(reader@, found_view(found)) == spec_scan(old(reader)@, None),
        decreases reader@.remaining(),
    {
        let offset = reader.position() as u64;
        let (id, length) = match decode_block_header(reader) {
            Ok(prefix) => prefix,
            Err(e) => {
                return Err(e);
            },
        };
        if id == META_BLOCK_ID && found.is_some() && reader.remaining() >= length as usize {
            return Err(StorageError::DuplicateMetaBlock { offset });
        }
        match read_payload(reader, offset, id, length) {
            Err(e) => {
                return Err(e);
            },
            Ok(Payload::Meta(m)) => {
                found = Some(m);
            },
            Ok(Payload::Unknown) => {},
        }
    }
    Ok(found)
}

/// Validates an image: the header, then every block up to the end.
///
/// Fails with `NotAVectorStorageFile` on fewer than four bytes, with
/// `BadSignature` or `UnsupportedVersion` on a header that is not ours, with
/// `Truncated` where a block reaches past the end, with `MalformedBlock` or
/// `InvalidResolutionCode` on a Meta-Information block that does not decode,
/// and with `DuplicateMetaBlock` on a second one.
pub fn verify(bytes: &[u8]) -> (r: Result<(Header, Option<MetaInformation>), StorageError>)
    ensures
        match spec_verify(bytes@) {
            Ok((header, found)) => r matches Ok((h, x)) && h == header && found_view(x) == found,
            Err(e) => r == Err::<(Header, Option<MetaInformation>), StorageError>(e),
        },
        bytes@.len() < 4 ==> r == Err::<(Header, Option<MetaInformation>), StorageError>(
            StorageError::NotAVectorStorageFile { length: bytes@.len() as u64 },
        ),
        bytes@.len() >= 4 && (bytes@[0] != 0x56 || bytes@[1] != 0x53) ==> r == Err::<
            (Header, Option<MetaInformation>),
            StorageError,
        >(StorageError::BadSignature { first: bytes@[0], second: bytes@[1] }),
        bytes@.len() >= 4 && bytes@[0] == 0x56 && bytes@[1] == 0x53 && u16_at(bytes@, 2) != 0
            ==> r == Err::<(Header, Option<MetaInformation>), StorageError>(
            StorageError::UnsupportedVersion { found: u16_at(bytes@, 2) },
        ),
        r matches Ok((h, _)) ==> h == current_header(),
{
    let header = match decode_header(bytes) {
        Ok(h) => h,
        Err(e) => {
            return Err(e);
        },
    };
    let mut reader = ByteReader::new(bytes);
    match reader.skip(HEADER_LENGTH as u32) {
        Ok(()) => {},
        Err(e) => {
            assert(false);
            return Err(e);
        },
    }
    assert(reader@ == block_stream(bytes@));
    match scan(&mut reader) {
        Ok(found) => Ok((header, found)),
        Err(e) => Err(e),
    }
}

/// Validates an image and returns its Meta-Information; an image without
/// one is `MissingMetaBlock`.
pub fn read_meta(bytes: &[u8]) -> (r: Result<MetaInformation, StorageError>)
    ensures
        match spec_read_meta(bytes@) {
            Ok(m) => r matches Ok(meta) && meta@ == m,
            Err(e) => r == Err::<MetaInformation, StorageError>(e),
        },
{
    match verify(bytes) {
        Err(e) => Err(e),
        Ok((_, None)) => Err(StorageError::MissingMetaBlock),
        Ok((_, Some(meta))) => Ok(meta),
    }
}

/// Rejection: an image shorter than a header is not a container, one that
/// starts with other bytes than the signature has a bad signature, and one
/// with another version than the supported one (`0xFFFF`, say) is
/// unsupported. The checks come in this order, before any block is read.
pub proof fn lemma_rejection(data: Seq<u8>)
    ensures
        data.len() < 4 ==> spec_verify(data) == Err::<(Header, Option<MetaView>), StorageError>(
            StorageError::NotAVectorStorageFile { length: data.len() as u64 },
        ),
        data.len() >= 4 && (data[0] != 0x56 || data[1] != 0x53) ==> spec_verify(data) == Err::<
            (Header, Option<MetaView>),
            StorageError,
        >(StorageError::BadSignature { first: data[0], second: data[1] }),
        data.len() >= 4 && data[0] == 0x56 && data[1] == 0x53 && u16_at(data, 2) != 0
            ==> spec_verify(data) == Err::<(Header, Option<MetaView>), StorageError>(
            StorageError::UnsupportedVersion { found: u16_at(data, 2) },
        ),
        data.len() >= 4 && data[0] == 0x56 && data[1] == 0x53 && data[2] == 0xFF && data[3]
            == 0xFF ==> spec_verify(data) == Err::<(Header, Option<MetaView>), StorageError>(
            StorageError::UnsupportedVersion { found: 0xFFFF },
        ),
{
}

/// One step of the walk: where a block reads well and is no second
/// Meta-Information block, the walk goes on behind it, having found what
/// the block holds.
pub proof fn lemma_scan_step(w: Window, found: Option<MetaView>)
    requires
        w.wf(),
        w.remaining() > 0,
        spec_read_block(w) is Ok,
        spec_read_block(w)->Ok_0.0.payload is Meta ==> found is None,
    ensures
        spec_scan(w, found) == spec_scan(
            spec_read_block(w)->Ok_0.1,
            match spec_read_block(w)->Ok_0.0.payload {
                PayloadView::Meta(m) => Some(m),
                PayloadView::Unknown => found,
            },
        ),
        spec_read_block(w)->Ok_0.1.wf(),
        spec_read_block(w)->Ok_0.1.remaining() < w.remaining(),
{
}

/// Truncation: where the walk stands at a block whose declared length
/// exceeds the bytes left behind its prefix, it fails with `Truncated`,
/// whatever the block's id is and whatever was found before.
pub proof fn lemma_scan_truncated(w: Window, found: Option<MetaView>)
    requires
        w.wf(),
        w.remaining() >= 5,
        u32_at(w.data, w.pos + 1) > w.remaining() - 5,
    ensures
        spec_scan(w, found) == Err::<Option<MetaView>, StorageError>(
            StorageError::Truncated {
                offset: (w.pos + 5) as u64,
                needed: u32_at(w.data, w.pos + 1) as u64,
                available: (w.remaining() - 5) as u64,
            },
        ),
{
}

/// Truncation of the prefix itself: where fewer than five bytes are left,
/// but not none, the walk fails with `Truncated`.
pub proof fn lemma_scan_truncated_prefix(w: Window, found: Option<MetaView>)
    requires
        w.wf(),
        0 < w.remaining() < 5,
    ensures
        spec_scan(w, found) matches Err(StorageError::Truncated { .. }),
{
}

/// A second Meta-Information block that lies wholly inside the image is a
/// duplicate, whatever it holds.
pub proof fn lemma_scan_duplicate(w: Window, found: MetaView)
    requires
        w.wf(),
        w.remaining() >= 5,
        w.data[w.pos] == META_BLOCK_ID,
        u32_at(w.data, w.pos + 1) <= w.remaining() - 5,
    ensures
        spec_scan(w, Some(found)) == Err::<Option<MetaView>, StorageError>(
            StorageError::DuplicateMetaBlock { offset: w.pos as u64 },
        ),
{
}

/// Reopening: the image of a container created with the Meta-Information
/// `m` verifies, and yields `m` again, however often it is verified.
pub proof fn lemma_created_image_verifies(m: MetaView)
    requires
        m.valid(),
        m.encoded_len() <= u32::MAX,
    ensures
        spec_verify(image_bytes(m)) == Ok::<(Header, Option<MetaView>), StorageError>(
            (current_header(), Some(m)),
        ),
        spec_read_meta(image_bytes(m)) == Ok::<MetaView, StorageError>(m),
        image_bytes(m).len() == 9 + m.encoded_len(),
{
    let data = image_bytes(m);
    lemma_meta_bytes_len(m);
    lemma_header_roundtrip(meta_block_bytes(m));
    let w0 = block_stream(data);
    assert(data.subrange(4, 4 + 5 + m.encoded_len()) =~= meta_block_bytes(m));
    lemma_meta_block_roundtrip_at(w0, m);
    lemma_scan_step(w0, None);
    let w1 = w0.advance(5 + m.encoded_len());
    assert(spec_scan(w1, Some(m)) == Ok::<Option<MetaView>, StorageError>(Some(m)));
}

/// The freshly created image verifies and yields the initial
/// Meta-Information.
pub proof fn lemma_initial_image_verifies()
    ensures
        spec_verify(initial_image()) == Ok::<(Header, Option<MetaView>), StorageError>(
            (current_header(), Some(MetaView::initial())),
        ),
        initial_image().len() == 20,
{
    lemma_created_image_verifies(MetaView::initial());
}

/// Skip-safety: an image that holds one block of an unknown kind, with any
/// id but that of Meta-Information and any payload bytes, followed by a
/// Meta-Information block, verifies and yields that Meta-Information.
pub proof fn lemma_skip_safety(id: u8, garbage: Seq<u8>, m: MetaView)
    requires
        id != META_BLOCK_ID,
        garbage.len() <= u32::MAX,
        m.valid(),
        m.encoded_len() <= u32::MAX,
    ensures
        spec_verify(header_bytes() + block_bytes(id, garbage) + meta_block_bytes(m)) == Ok::<
            (Header, Option<MetaView>),
            StorageError,
        >((current_header(), Some(m))),
        spec_read_meta(header_bytes() + block_bytes(id, garbage) + meta_block_bytes(m)) == Ok::<
            MetaView,
            StorageError,
        >(m),
{
    let data = header_bytes() + block_bytes(id, garbage) + meta_block_bytes(m);
    let g = garbage.len() as int;
    lemma_meta_bytes_len(m);
    lemma_header_roundtrip(block_bytes(id, garbage) + meta_block_bytes(m));
    let w0 = block_stream(data);
    assert(data.subrange(4, 4 + 5 + g) =~= block_bytes(id, garbage));
    lemma_unknown_block_skipped(w0, id, garbage);
    lemma_scan_step(w0, None);
    let w1 = w0.advance(5 + g);
    assert(data.subrange(w1.pos, w1.pos + 5 + m.encoded_len()) =~= meta_block_bytes(m));
    lemma_meta_block_roundtrip_at(w1, m);
    lemma_scan_step(w1, None);
}

} // verus!
