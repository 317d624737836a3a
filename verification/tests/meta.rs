use vector_storage::binary::Binary;
use vector_storage::codec::{ByteReader, ByteWriter};
use vector_storage::error::StorageError;
use vector_storage::meta::{
    create_meta_information, decode_meta, encode_meta, write_meta, MetaInformation,
};
use vector_storage::resolution::Resolution;

fn sample() -> MetaInformation {
    MetaInformation::new(
        vec![3, 4],
        Resolution::FLOAT32,
        0x12,
        0x34,
        Binary::new(vec![0xAA, 0xBB, 0xCC]).unwrap(),
    )
    .unwrap()
}

fn sample_bytes() -> Vec<u8> {
    vec![
        2, 0, 0, 0, // rank
        3, 0, 0, 0, // dimensions[0]
        4, 0, 0, 0, // dimensions[1]
        11,   // resolution
        0x12, // pack
        0x34, // indexing
        3, 0, 0, 0, // attributes length
        0xAA, 0xBB, 0xCC,
    ]
}

#[test]
fn meta_keeps_its_fields() {
    let m = sample();
    assert_eq!(m.rank(), 2);
    assert_eq!(m.dimensions(), &[3, 4]);
    assert_eq!(m.resolution(), Resolution::FLOAT32);
    assert_eq!(m.pack(), 0x12);
    assert_eq!(m.indexing(), 0x34);
    assert_eq!(m.attributes().payload(), &[0xAA, 0xBB, 0xCC]);
    assert_eq!(m.attributes().length(), 3);
    assert_eq!(m.encoded_len(), 22);
    assert_eq!(m.clone(), m);
}

#[test]
fn initial_meta_is_empty() {
    let m = MetaInformation::initial();
    assert_eq!(m.rank(), 0);
    assert_eq!(m.dimensions(), &[] as &[u32]);
    assert_eq!(m.resolution(), Resolution::BIT);
    assert_eq!(m.pack(), 0);
    assert_eq!(m.indexing(), 0);
    assert_eq!(m.attributes().length(), 0);
    assert_eq!(m.encoded_len(), 11);
    assert_eq!(encode_meta(&m), vec![0, 0, 0, 0, 0, 0, 0, 0, 0, 0, 0]);
}

#[test]
fn meta_encodes_to_the_documented_layout() {
    assert_eq!(encode_meta(&sample()), sample_bytes());
}

#[test]
fn signed_resolution_is_stored_in_twos_complement() {
    let m = MetaInformation::new(vec![1], Resolution::INT64, 0, 0, Binary::empty()).unwrap();
    assert_eq!(
        encode_meta(&m),
        vec![1, 0, 0, 0, 1, 0, 0, 0, 0xFC, 0, 0, 0, 0, 0, 0]
    );
}

#[test]
fn large_dimensions_are_little_endian() {
    let m = MetaInformation::new(
        vec![0x0102_0304, u32::MAX],
        Resolution::UINT8,
        0,
        0,
        Binary::empty(),
    )
    .unwrap();
    assert_eq!(
        encode_meta(&m),
        vec![2, 0, 0, 0, 4, 3, 2, 1, 0xFF, 0xFF, 0xFF, 0xFF, 1, 0, 0, 0, 0, 0, 0]
    );
}

#[test]
fn write_meta_appends_to_what_is_written() {
    let mut w = ByteWriter::new();
    w.write_u8(0x5E);
    write_meta(&mut w, &sample());
    let mut expected = vec![0x5E];
    expected.extend(sample_bytes());
    assert_eq!(w.into_bytes(), expected);
}

#[test]
fn meta_decodes_from_the_documented_layout() {
    let bytes = sample_bytes();
    let mut r = ByteReader::new(&bytes);
    assert_eq!(decode_meta(&mut r), Ok(sample()));
    assert!(r.is_at_end());
}

#[test]
fn round_trip_gives_the_same_meta() {
    let metas = vec![
        MetaInformation::initial(),
        sample(),
        MetaInformation::new(vec![7; 100], Resolution::INT8, 255, 255, Binary::empty()).unwrap(),
        MetaInformation::new(
            vec![],
            Resolution::FLOAT128,
            1,
            2,
            Binary::new(vec![0; 1000]).unwrap(),
        )
        .unwrap(),
        MetaInformation::new(
            vec![0, u32::MAX, 1],
            Resolution::INT32,
            0,
            9,
            Binary::new(vec![1]).unwrap(),
        )
        .unwrap(),
    ];
    for m in metas {
        let bytes = encode_meta(&m);
        assert_eq!(bytes.len() as u64, m.encoded_len());
        let mut r = ByteReader::new(&bytes);
        assert_eq!(decode_meta(&mut r), Ok(m));
        assert!(r.is_at_end());
    }
}

#[test]
fn round_trip_holds_for_every_resolution() {
    for code in i8::MIN..=i8::MAX {
        if let Some(resolution) = Resolution::from_code(code) {
            let m = MetaInformation::new(vec![5, 6, 7], resolution, 1, 2, Binary::empty()).unwrap();
            let bytes = encode_meta(&m);
            let mut r = ByteReader::new(&bytes);
            let back = decode_meta(&mut r).unwrap();
            assert_eq!(back.resolution(), resolution);
            assert_eq!(back, m);
        }
    }
}

#[test]
fn decoding_stops_behind_the_payload() {
    let mut bytes = vec![0xEE];
    bytes.extend(sample_bytes());
    bytes.extend([1, 2, 3]);
    let mut r = ByteReader::new(&bytes);
    assert_eq!(r.read_u8(), Ok(0xEE));
    assert_eq!(decode_meta(&mut r), Ok(sample()));
    assert_eq!(r.position(), 23);
    assert_eq!(r.remaining(), 3);
}

#[test]
fn unknown_resolution_code_is_invalid() {
    let mut bytes = sample_bytes();
    bytes[12] = 5;
    let mut r = ByteReader::new(&bytes);
    assert_eq!(
        decode_meta(&mut r),
        Err(StorageError::InvalidResolutionCode { offset: 12, code: 5 })
    );
    assert_eq!(r.position(), 0);

    bytes[12] = 0xFB;
    let mut r = ByteReader::new(&bytes);
    assert_eq!(
        decode_meta(&mut r),
        Err(StorageError::InvalidResolutionCode { offset: 12, code: -5 })
    );
}

#[test]
fn invalid_resolution_offset_counts_from_the_start_of_the_bytes() {
    let mut bytes = vec![9, 9, 9];
    bytes.extend(sample_bytes());
    bytes[15] = 9;
    let mut r = ByteReader::new(&bytes);
    assert_eq!(r.skip(3), Ok(()));
    assert_eq!(
        decode_meta(&mut r),
        Err(StorageError::InvalidResolutionCode { offset: 15, code: 9 })
    );
    assert_eq!(r.position(), 3);
}

#[test]
fn every_cut_of_a_payload_is_truncated() {
    let bytes = sample_bytes();
    for cut in 0..bytes.len() {
        let mut r = ByteReader::new(&bytes[..cut]);
        let result = decode_meta(&mut r);
        assert!(
            matches!(result, Err(StorageError::Truncated { .. })),
            "cut at {}",
            cut
        );
        assert_eq!(r.position(), 0);
    }
}

#[test]
fn truncation_names_the_failing_read() {
    let bytes = sample_bytes();
    let mut r = ByteReader::new(&bytes[..3]);
    assert_eq!(
        decode_meta(&mut r),
        Err(StorageError::Truncated { offset: 0, needed: 4, available: 3 })
    );
    let mut r = ByteReader::new(&bytes[..10]);
    assert_eq!(
        decode_meta(&mut r),
        Err(StorageError::Truncated { offset: 4, needed: 8, available: 6 })
    );
    let mut r = ByteReader::new(&bytes[..12]);
    assert_eq!(
        decode_meta(&mut r),
        Err(StorageError::Truncated { offset: 12, needed: 1, available: 0 })
    );
    let mut r = ByteReader::new(&bytes[..13]);
    assert_eq!(
        decode_meta(&mut r),
        Err(StorageError::Truncated { offset: 13, needed: 1, available: 0 })
    );
    let mut r = ByteReader::new(&bytes[..14]);
    assert_eq!(
        decode_meta(&mut r),
        Err(StorageError::Truncated { offset: 14, needed: 1, available: 0 })
    );
    let mut r = ByteReader::new(&bytes[..17]);
    assert_eq!(
        decode_meta(&mut r),
        Err(StorageError::Truncated { offset: 15, needed: 4, available: 2 })
    );
    let mut r = ByteReader::new(&bytes[..21]);
    assert_eq!(
        decode_meta(&mut r),
        Err(StorageError::Truncated { offset: 19, needed: 3, available: 2 })
    );
}

#[test]
fn huge_rank_is_truncated_not_allocated() {
    let bytes = [0xFFu8, 0xFF, 0xFF, 0xFF, 1, 2, 3];
    let mut r = ByteReader::new(&bytes);
    assert_eq!(
        decode_meta(&mut r),
        Err(StorageError::Truncated { offset: 4, needed: 4 * (u32::MAX as u64), available: 3 })
    );
}

#[test]
fn create_meta_information_encodes_the_payload() {
    assert_eq!(
        create_meta_information(&[3, 4], Resolution::FLOAT32),
        Ok(vec![
            2, 0, 0, 0, // rank
            3, 0, 0, 0, 4, 0, 0, 0, // dimensions
            0x0B, // resolution
            0, 0, // pack, indexing
            0, 0, 0, 0, // attributes length
        ])
    );
    assert_eq!(
        create_meta_information(&[3, 4], Resolution::FLOAT32).unwrap().len(),
        19
    );
}

#[test]
fn created_payload_starts_with_the_rank_not_with_a_block_prefix() {
    let payload = create_meta_information(&[3, 4], Resolution::FLOAT32).unwrap();
    assert_eq!(&payload[0..4], &[2, 0, 0, 0]);
    assert_eq!(&payload[4..12], &[3, 0, 0, 0, 4, 0, 0, 0]);
    assert_eq!(payload[12], 0x0B);
    assert_eq!(&payload[15..19], &[0, 0, 0, 0]);
    // header, block id, block length, payload: the 28 bytes of the file
    assert_eq!(4 + 1 + 4 + payload.len(), 28);
}

#[test]
fn created_payload_without_dimensions_is_eleven_bytes() {
    let payload = create_meta_information(&[], Resolution::INT64).unwrap();
    assert_eq!(payload.len(), 11);
    assert_eq!(payload, vec![0, 0, 0, 0, 0xFC, 0, 0, 0, 0, 0, 0]);
}

#[test]
fn created_payload_writes_each_size_as_a_full_u32() {
    let payload = create_meta_information(&[65536, 0xFFFF_FFFF], Resolution::BIT).unwrap();
    assert_eq!(payload.len(), 19);
    assert_eq!(&payload[0..4], &[2, 0, 0, 0]);
    assert_eq!(&payload[4..8], &[0, 0, 1, 0]);
    assert_eq!(&payload[8..12], &[0xFF, 0xFF, 0xFF, 0xFF]);
    assert_eq!(payload[12], 0x00);
}

#[test]
fn created_payload_has_the_documented_layout_for_any_sizes() {
    for n in [0usize, 1, 2, 7, 100] {
        let dimensions: Vec<u32> = (0..n).map(|i| (i as u32).wrapping_mul(0x0101_0101) ^ 0xA5).collect();
        for code in [0i8, 1, -1, 4, -4, 10, 14] {
            let resolution = Resolution::from_code(code).unwrap();
            let payload = create_meta_information(&dimensions, resolution).unwrap();
            assert_eq!(payload.len(), 4 * n + 11);
            assert_eq!(&payload[0..4], &(n as u32).to_le_bytes());
            for (i, size) in dimensions.iter().enumerate() {
                assert_eq!(&payload[4 + 4 * i..8 + 4 * i], &size.to_le_bytes());
            }
            assert_eq!(payload[4 + 4 * n], code as u8);
            assert_eq!(payload[5 + 4 * n], 0);
            assert_eq!(payload[6 + 4 * n], 0);
            assert_eq!(&payload[4 * n + 7..4 * n + 11], &[0, 0, 0, 0]);
        }
    }
}

#[test]
fn created_payload_reads_back() {
    let dimensions = [9u32, 0, u32::MAX, 65536];
    let payload = create_meta_information(&dimensions, Resolution::INT32).unwrap();
    let mut r = ByteReader::new(&payload);
    let meta = decode_meta(&mut r).unwrap();
    assert!(r.is_at_end());
    assert_eq!(r.position(), payload.len());
    assert_eq!(meta.rank(), 4);
    assert_eq!(meta.dimensions(), &dimensions);
    assert_eq!(meta.resolution(), Resolution::INT32);
    assert_eq!(meta.pack(), 0);
    assert_eq!(meta.indexing(), 0);
    assert_eq!(meta.attributes().length(), 0);
}

#[test]
fn created_payload_is_the_encoding_of_the_plain_meta() {
    let meta = MetaInformation::new(vec![3, 4], Resolution::FLOAT32, 0, 0, Binary::empty()).unwrap();
    assert_eq!(
        create_meta_information(&[3, 4], Resolution::FLOAT32),
        Ok(encode_meta(&meta))
    );
    assert_eq!(
        create_meta_information(&[], Resolution::BIT),
        Ok(encode_meta(&MetaInformation::initial()))
    );
}
