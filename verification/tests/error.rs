use vector_storage::error::StorageError;

#[test]
fn only_os_errors_may_be_retried() {
    assert!(!StorageError::IoError.structural());
    assert!(!StorageError::LockUnavailable.structural());
    assert!(!StorageError::WouldBlock.structural());
    let structural = [
        StorageError::NotAVectorStorageFile { length: 1 },
        StorageError::BadSignature { first: 0, second: 0 },
        StorageError::UnsupportedVersion { found: 1 },
        StorageError::Truncated { offset: 0, needed: 1, available: 0 },
        StorageError::MalformedBlock { offset: 0, declared: 0 },
        StorageError::DuplicateMetaBlock { offset: 0 },
        StorageError::InvalidResolutionCode { offset: 0, code: 5 },
        StorageError::MissingMetaBlock,
        StorageError::LengthOverflow { length: 1 << 32 },
    ];
    for error in structural {
        assert!(error.structural());
    }
}
