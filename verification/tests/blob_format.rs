use jmdict_fast::blob::{count_at, encode_blob, encode_header, entry_span, parse_entries_header};
use jmdict_fast::error::JmdictError;
use jmdict_fast::model::FORMAT_VERSION;

#[test]
fn header_reads_back_what_was_written() {
    let payloads: Vec<Vec<u8>> = vec![b"abc".to_vec(), vec![], b"hello".to_vec()];
    let blob = encode_blob("3.6.1", "2025-07-14T12:26:33+00:00", &payloads);
    let header = parse_entries_header(&blob).expect("header should parse");
    assert_eq!(header.data_version.format_version, FORMAT_VERSION);
    assert_eq!(header.data_version.jmdict_version, "3.6.1");
    assert_eq!(header.data_version.generated_at, "2025-07-14T12:26:33+00:00");
    assert_eq!(header.header_size, 12 + 5 + 25);
    assert_eq!(count_at(&blob, header.header_size), 3);
}

#[test]
fn entries_read_back_what_was_written() {
    let payloads: Vec<Vec<u8>> = vec![b"abc".to_vec(), vec![], b"hello".to_vec()];
    let blob = encode_blob("3.6.1", "now", &payloads);
    let hs = parse_entries_header(&blob).unwrap().header_size;
    for (i, p) in payloads.iter().enumerate() {
        let (s, e) = entry_span(&blob, hs, i as u64).expect("entry in range");
        assert_eq!(&blob[s..e], p.as_slice());
    }
    assert_eq!(entry_span(&blob, hs, 3), None);
}

#[test]
fn header_layout_is_exact() {
    let h = encode_header("ab", "c");
    assert_eq!(h, vec![0x4A, 0x4D, 0x44, 0x46, 4, 0, 0, 0, 2, 0, b'a', b'b', 1, 0, b'c']);
}

#[test]
fn non_ascii_header_strings_round_trip() {
    let blob = encode_blob("版3", "生成", &Vec::new());
    let header = parse_entries_header(&blob).unwrap();
    assert_eq!(header.data_version.jmdict_version, "版3");
    assert_eq!(header.data_version.generated_at, "生成");
}

#[test]
fn bad_magic_is_corrupted() {
    let mut blob = encode_blob("v", "g", &Vec::new());
    blob[0] = b'X';
    assert!(matches!(parse_entries_header(&blob), Err(JmdictError::DataCorrupted)));
}

#[test]
fn short_data_is_corrupted() {
    assert!(matches!(parse_entries_header(b"JMDF"), Err(JmdictError::DataCorrupted)));
    assert!(matches!(parse_entries_header(&[]), Err(JmdictError::DataCorrupted)));
    // version present but no room for the first length
    assert!(matches!(
        parse_entries_header(&[0x4A, 0x4D, 0x44, 0x46, 4, 0, 0, 0, 5]),
        Err(JmdictError::DataCorrupted)
    ));
    // a length that runs past the end
    assert!(matches!(
        parse_entries_header(&[0x4A, 0x4D, 0x44, 0x46, 4, 0, 0, 0, 9, 0, b'a']),
        Err(JmdictError::DataCorrupted)
    ));
}

#[test]
fn other_version_is_a_mismatch() {
    let data = [0x4A, 0x4D, 0x44, 0x46, 3, 0, 0, 0, 0, 0, 0, 0];
    match parse_entries_header(&data) {
        Err(JmdictError::DataVersionMismatch { expected, found }) => {
            assert_eq!(expected, 4);
            assert_eq!(found, 3);
        }
        other => panic!("expected a version mismatch, got {other:?}"),
    }
}

#[test]
fn invalid_utf8_is_read_lossily() {
    let data = [0x4A, 0x4D, 0x44, 0x46, 4, 0, 0, 0, 1, 0, 0xFF, 0, 0];
    let header = parse_entries_header(&data).unwrap();
    assert_eq!(header.data_version.jmdict_version, "\u{FFFD}");
    assert_eq!(header.data_version.generated_at, "");
    assert_eq!(header.header_size, 13);
}
