use std::io::{Cursor, Write};
use zip::write::FileOptions;
use bum::archive::{extract_binary, find_binary_index, bun_bin_name};
use bum::error::Error;

fn build_zip(entries: &[(&str, &[u8])]) -> Vec<u8> {
    let mut writer = zip::ZipWriter::new(Cursor::new(Vec::new()));
    let options = FileOptions::default().compression_method(zip::CompressionMethod::Stored);
    for (name, data) in entries {
        writer.start_file(*name, options).unwrap();
        writer.write_all(data).unwrap();
    }
    writer.finish().unwrap().into_inner()
}

#[test]
fn extracts_the_binary_entry() {
    let bytes = build_zip(&[
        ("bun-linux-x64/README", b"docs"),
        ("bun-linux-x64/bun", b"mock bun 1.0.0"),
    ]);
    let binary = extract_binary(bytes).unwrap();
    assert_eq!(binary, b"mock bun 1.0.0".to_vec());
}

#[test]
fn first_matching_entry_wins() {
    let bytes = build_zip(&[
        ("a/bun", b"first"),
        ("b/bun", b"second"),
    ]);
    assert_eq!(extract_binary(bytes).unwrap(), b"first".to_vec());
}

#[test]
fn archive_without_binary_reports_not_found() {
    let bytes = build_zip(&[("bun-linux-x64/LICENSE", b"text"), ("bunx", b"other")]);
    let err = extract_binary(bytes).unwrap_err();
    assert!(matches!(&err, Error::BinaryNotFoundInArchive));
    assert_eq!(err.message(), "Failed to find Bun binary in the zip file");
}

#[test]
fn unreadable_bytes_are_a_local_failure() {
    let err = extract_binary(b"this is no archive".to_vec()).unwrap_err();
    assert!(matches!(&err, Error::LocalIOFailure { .. }));
}

#[test]
fn entry_misstating_encryption_is_a_local_failure() {
    // One entry named "bun", method Stored, encryption flag clear, but a
    // well-formed AES extra field in its central record: the archive
    // opens, the entry's name reads, and its contents cannot be opened.
    // The extractor must report a local failure, not die on the entry.
    let local: [u8; 30] = [
        0x50, 0x4B, 0x03, 0x04, 20, 0, 0, 0, 0, 0, 0, 0, 0, 0, 0, 0, 0, 0, 0, 0, 0, 0, 0, 0, 0,
        0, 3, 0, 0, 0,
    ];
    let central: [u8; 46] = [
        0x50, 0x4B, 0x01, 0x02, 20, 0, 20, 0, 0, 0, 0, 0, 0, 0, 0, 0, 0, 0, 0, 0, 0, 0, 0, 0, 0,
        0, 0, 0, 3, 0, 11, 0, 0, 0, 0, 0, 0, 0, 0, 0, 0, 0, 0, 0, 0, 0,
    ];
    let aes_extra: [u8; 11] = [0x01, 0x99, 7, 0, 0x01, 0x00, 0x41, 0x45, 0x01, 0x00, 0x00];
    let end: [u8; 22] = [
        0x50, 0x4B, 0x05, 0x06, 0, 0, 0, 0, 1, 0, 1, 0, 60, 0, 0, 0, 33, 0, 0, 0, 0, 0,
    ];
    let mut bytes: Vec<u8> = Vec::new();
    bytes.extend_from_slice(&local);
    bytes.extend_from_slice(b"bun");
    bytes.extend_from_slice(&central);
    bytes.extend_from_slice(b"bun");
    bytes.extend_from_slice(&aes_extra);
    bytes.extend_from_slice(&end);
    let err = extract_binary(bytes).unwrap_err();
    assert!(matches!(&err, Error::LocalIOFailure { .. }));
}

#[test]
fn binary_index_skips_unsafe_and_nonmatching_names() {
    let names: Vec<Option<String>> = vec![
        None,
        Some("bun-linux-x64/bunx".to_string()),
        Some("bun-linux-x64/bun".to_string()),
        Some("bun".to_string()),
    ];
    assert_eq!(find_binary_index(&names, bun_bin_name()), Some(2));
    let names: Vec<Option<String>> = vec![None, Some("other".to_string())];
    assert_eq!(find_binary_index(&names, bun_bin_name()), None);
}
