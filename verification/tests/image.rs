use vector_storage::binary::Binary;
use vector_storage::block::{encode_block, encode_meta_block, META_BLOCK_ID};
use vector_storage::error::StorageError;
use vector_storage::header::{encode_header, Header};
use vector_storage::image::{create, create_for, read_meta, verify};
use vector_storage::meta::MetaInformation;
use vector_storage::resolution::Resolution;

fn image_of(blocks: &[Vec<u8>]) -> Vec<u8> {
    let mut bytes = encode_header();
    for block in blocks {
        bytes.extend(block);
    }
    bytes
}

fn sample() -> MetaInformation {
    MetaInformation::new(
        vec![10, 20, 30],
        Resolution::INT16,
        1,
        2,
        Binary::new(vec![b'k', b'=', b'v']).unwrap(),
    )
    .unwrap()
}

#[test]
fn created_image_is_header_and_empty_meta_block() {
    assert_eq!(
        create(),
        vec![
            b'V', b'S', 0, 0, // header
            b'^', 11, 0, 0, 0, // block prefix
            0, 0, 0, 0, // rank
            0, 0, 0, // resolution, pack, indexing
            0, 0, 0, 0, // attributes length
        ]
    );
    assert_eq!(create().len(), 20);
}

#[test]
fn created_image_verifies_and_yields_the_initial_meta() {
    let image = create();
    assert_eq!(
        verify(&image),
        Ok((Header { version: 0 }, Some(MetaInformation::initial())))
    );
    assert_eq!(read_meta(&image), Ok(MetaInformation::initial()));
}

#[test]
fn container_for_3_by_4_float32_is_28_bytes() {
    let image = create_for(&[3, 4], Resolution::FLOAT32).unwrap();
    assert_eq!(image.len(), 28);
    assert_eq!(
        image,
        vec![
            b'V', b'S', 0, 0, b'^', 19, 0, 0, 0, 2, 0, 0, 0, 3, 0, 0, 0, 4, 0, 0, 0, 11, 0, 0,
            0, 0, 0, 0
        ]
    );
    let meta = read_meta(&image).unwrap();
    assert_eq!(meta.rank(), 2);
    assert_eq!(meta.dimensions(), &[3, 4]);
    assert_eq!(meta.resolution(), Resolution::FLOAT32);
    assert_eq!(meta.resolution().code(), 11);
}

#[test]
fn verifying_twice_gives_the_same() {
    let image = create_for(&[3, 4], Resolution::FLOAT32).unwrap();
    let first = verify(&image);
    let second = verify(&image);
    assert!(first.is_ok());
    assert_eq!(first, second);
}

#[test]
fn header_alone_verifies_without_meta() {
    assert_eq!(verify(&encode_header()), Ok((Header { version: 0 }, None)));
    assert_eq!(
        read_meta(&encode_header()),
        Err(StorageError::MissingMetaBlock)
    );
}

#[test]
fn image_with_only_unknown_blocks_has_no_meta() {
    let image = image_of(&[
        encode_block(1, &[1]).unwrap(),
        encode_block(2, &[]).unwrap(),
    ]);
    assert_eq!(verify(&image), Ok((Header { version: 0 }, None)));
    assert_eq!(read_meta(&image), Err(StorageError::MissingMetaBlock));
}

#[test]
fn short_files_are_not_vector_storage_files() {
    assert_eq!(
        verify(b"V"),
        Err(StorageError::NotAVectorStorageFile { length: 1 })
    );
    assert_eq!(
        verify(b"VS"),
        Err(StorageError::NotAVectorStorageFile { length: 2 })
    );
    assert_eq!(
        verify(b"VS\x00"),
        Err(StorageError::NotAVectorStorageFile { length: 3 })
    );
    assert_eq!(
        read_meta(b"xyz"),
        Err(StorageError::NotAVectorStorageFile { length: 3 })
    );
}

#[test]
fn other_signature_is_bad_signature() {
    let mut image = create();
    image[0] = b'v';
    assert_eq!(
        verify(&image),
        Err(StorageError::BadSignature { first: b'v', second: b'S' })
    );
    image[0] = b'V';
    image[1] = b'T';
    assert_eq!(
        verify(&image),
        Err(StorageError::BadSignature { first: b'V', second: b'T' })
    );
    assert_eq!(
        read_meta(&image),
        Err(StorageError::BadSignature { first: b'V', second: b'T' })
    );
}

#[test]
fn version_ffff_is_unsupported() {
    let mut image = create();
    image[2] = 0xFF;
    image[3] = 0xFF;
    assert_eq!(
        verify(&image),
        Err(StorageError::UnsupportedVersion { found: 0xFFFF })
    );
    assert_eq!(
        verify(b"VS\xFF\xFF"),
        Err(StorageError::UnsupportedVersion { found: 0xFFFF })
    );
}

#[test]
fn unknown_block_before_meta_is_skipped() {
    let garbage = vec![0x5E, 0xFF, 0xFF, 0xFF, 0xFF, 0x00, 0x13, 0x37];
    let image = image_of(&[
        encode_block(0xA7, &garbage).unwrap(),
        encode_meta_block(&sample()).unwrap(),
    ]);
    assert_eq!(
        verify(&image),
        Ok((Header { version: 0 }, Some(sample())))
    );
    assert_eq!(read_meta(&image), Ok(sample()));
}

#[test]
fn unknown_blocks_of_any_id_and_length_are_skipped() {
    for id in 0u8..=255 {
        if id == META_BLOCK_ID {
            continue;
        }
        let garbage = vec![id; id as usize];
        let image = image_of(&[
            encode_block(id, &garbage).unwrap(),
            encode_meta_block(&sample()).unwrap(),
        ]);
        assert_eq!(read_meta(&image), Ok(sample()), "id {}", id);
    }
}

#[test]
fn unknown_blocks_around_meta_are_skipped() {
    let image = image_of(&[
        encode_block(1, &[]).unwrap(),
        encode_block(2, &[9; 300]).unwrap(),
        encode_meta_block(&sample()).unwrap(),
        encode_block(3, &[1, 2, 3]).unwrap(),
    ]);
    assert_eq!(read_meta(&image), Ok(sample()));
}

#[test]
fn block_longer_than_the_file_is_truncated() {
    let mut image = create();
    image.extend([0x41, 10, 0, 0, 0, 1, 2, 3]);
    assert_eq!(
        verify(&image),
        Err(StorageError::Truncated { offset: 25, needed: 10, available: 3 })
    );
    assert_eq!(
        read_meta(&image),
        Err(StorageError::Truncated { offset: 25, needed: 10, available: 3 })
    );
}

#[test]
fn every_cut_of_an_image_behind_the_header_is_truncated() {
    let image = image_of(&[
        encode_block(7, &[1, 2, 3]).unwrap(),
        encode_meta_block(&sample()).unwrap(),
    ]);
    let first_end = 4 + 8;
    for cut in 5..image.len() {
        if cut == first_end {
            assert_eq!(verify(&image[..cut]), Ok((Header { version: 0 }, None)));
        } else {
            assert!(
                matches!(verify(&image[..cut]), Err(StorageError::Truncated { .. })),
                "cut at {}",
                cut
            );
        }
    }
}

#[test]
fn truncated_second_meta_block_is_truncated_not_duplicate() {
    let mut image = create();
    image.extend([b'^', 11, 0, 0, 0, 0, 0]);
    assert_eq!(
        verify(&image),
        Err(StorageError::Truncated { offset: 25, needed: 11, available: 2 })
    );
}

#[test]
fn dangling_bytes_behind_the_last_block_are_truncated() {
    let mut image = create();
    image.push(0x41);
    assert_eq!(
        verify(&image),
        Err(StorageError::Truncated { offset: 21, needed: 4, available: 0 })
    );
}

#[test]
fn second_meta_block_is_a_duplicate() {
    let image = image_of(&[
        encode_meta_block(&sample()).unwrap(),
        encode_meta_block(&sample()).unwrap(),
    ]);
    assert_eq!(
        verify(&image),
        Err(StorageError::DuplicateMetaBlock { offset: 4 + 5 + 26 })
    );
    assert_eq!(
        read_meta(&image),
        Err(StorageError::DuplicateMetaBlock { offset: 35 })
    );
}

#[test]
fn second_meta_block_is_a_duplicate_whatever_it_holds() {
    let mut image = create();
    image.extend([b'^', 2, 0, 0, 0, 0xFF, 0xFF]);
    assert_eq!(
        verify(&image),
        Err(StorageError::DuplicateMetaBlock { offset: 20 })
    );
}

#[test]
fn second_meta_block_behind_unknown_blocks_is_a_duplicate() {
    let image = image_of(&[
        encode_meta_block(&MetaInformation::initial()).unwrap(),
        encode_block(9, &[1, 2]).unwrap(),
        encode_meta_block(&sample()).unwrap(),
    ]);
    assert_eq!(
        verify(&image),
        Err(StorageError::DuplicateMetaBlock { offset: 4 + 16 + 7 })
    );
}

#[test]
fn malformed_meta_block_fails_verification() {
    let mut block = encode_meta_block(&sample()).unwrap();
    block[1] -= 1;
    block.pop();
    let image = image_of(&[block]);
    assert_eq!(
        verify(&image),
        Err(StorageError::MalformedBlock { offset: 4, declared: 25 })
    );
}

#[test]
fn invalid_resolution_fails_verification() {
    let mut image = create_for(&[3, 4], Resolution::FLOAT32).unwrap();
    image[21] = 0x80;
    assert_eq!(
        verify(&image),
        Err(StorageError::InvalidResolutionCode { offset: 21, code: -128 })
    );
}

#[test]
fn create_for_no_dimensions_is_the_initial_image() {
    assert_eq!(create_for(&[], Resolution::BIT), Ok(create()));
}
