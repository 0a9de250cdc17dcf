use jmdict_fast::error::JmdictError;

#[test]
fn error_codes_are_stable() {
    assert_eq!(JmdictError::DataNotFound.code(), 1);
    assert_eq!(JmdictError::DataVersionMismatch { expected: 4, found: 3 }.code(), 2);
    assert_eq!(JmdictError::DataCorrupted.code(), 3);
    assert_eq!(JmdictError::InvalidQuery.code(), 4);
    assert_eq!(
        JmdictError::IoError(std::io::Error::new(std::io::ErrorKind::Other, "boom")).code(),
        5
    );
    assert_eq!(JmdictError::DeserializationError.code(), 6);
    assert_eq!(JmdictError::CacheDirRequired { platform: "ios".to_string() }.code(), 7);
    assert_eq!(JmdictError::CacheDirAlreadySet.code(), 8);
    assert_eq!(JmdictError::NetworkError("x".to_string()).code(), 9);
}

#[test]
fn error_messages() {
    assert_eq!(
        JmdictError::DataVersionMismatch { expected: 3, found: 12 }.message(),
        "Data format version 12, library expects 3. Regenerate with cargo xtask generate."
    );
    assert_eq!(
        JmdictError::DataCorrupted.message(),
        "Dictionary data is corrupted or has an invalid format."
    );
    assert_eq!(JmdictError::InvalidQuery.message(), "The search query is invalid.");
    let io = JmdictError::IoError(std::io::Error::new(std::io::ErrorKind::Other, "disk on fire"));
    assert_eq!(io.message(), "I/O error: disk on fire");
    assert_eq!(
        JmdictError::CacheDirRequired { platform: "android".to_string() }.message(),
        "No cache directory is available on android; provide one with init_sdk_cache_dir or InstallOptions::cache_dir."
    );
}

#[test]
fn missing_file_means_data_not_found() {
    let not_found = std::io::Error::new(std::io::ErrorKind::NotFound, "gone");
    assert!(matches!(JmdictError::from_io(not_found), JmdictError::DataNotFound));
    let other = std::io::Error::new(std::io::ErrorKind::PermissionDenied, "no");
    assert!(matches!(JmdictError::from_io(other), JmdictError::IoError(_)));
}

#[test]
fn io_error_kind_decides_the_variant() {
    let e = std::io::Error::new(std::io::ErrorKind::PermissionDenied, "no");
    assert!(matches!(JmdictError::from_io_kind(e, true), JmdictError::DataNotFound));
    let e = std::io::Error::new(std::io::ErrorKind::PermissionDenied, "no");
    match JmdictError::from_io_kind(e, false) {
        JmdictError::IoError(inner) => {
            assert_eq!(inner.kind(), std::io::ErrorKind::PermissionDenied);
            assert_eq!(inner.to_string(), "no");
        }
        other => panic!("expected an I/O error, got {:?}", other),
    }
}
