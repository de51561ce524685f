use bum::version::{normalize_version, get_bumrc_version, archive_version_label};

#[test]
fn test_version_normalization() {
    assert_eq!(normalize_version("v1.0.0"), "1.0.0");
    assert_eq!(normalize_version("1.0.0"), "1.0.0");
    assert_eq!(normalize_version("v1.2.3"), "1.2.3");
    assert_eq!(normalize_version("v2.0.0-beta"), "2.0.0-beta");
}

#[test]
fn normalization_strips_every_v() {
    assert_eq!(normalize_version("drive1"), "drie1");
    assert_eq!(normalize_version("vvv"), "");
    assert_eq!(normalize_version(""), "");
    assert_eq!(normalize_version("v1.2.3-canary.v2"), "1.2.3-canary.2");
}

#[test]
fn normalization_is_idempotent() {
    let once = normalize_version("v1.0.0-dev");
    let twice = normalize_version(&once);
    assert_eq!(once, twice);
}

#[test]
fn bumrc_version_trims_file_text() {
    assert_eq!(get_bumrc_version(Some("1.0.0\n")).unwrap(), "1.0.0");
    assert_eq!(get_bumrc_version(Some("  v1.0.0\t\r\n")).unwrap(), "v1.0.0");
    assert_eq!(get_bumrc_version(Some("")).unwrap(), "");
    let normalized = normalize_version(&get_bumrc_version(Some("v1.0.0")).unwrap());
    assert_eq!(normalized, "1.0.0");
}

#[test]
fn bumrc_trim_matches_std_trim() {
    let text = "\u{00A0}\u{2003}1.0.0\t\n\u{00A0}";
    assert_eq!(get_bumrc_version(Some(text)).unwrap(), text.trim());
    assert_eq!(get_bumrc_version(Some("   \t\n")).unwrap(), "");
}

#[test]
fn bumrc_missing_is_config_error() {
    let err = get_bumrc_version(None).unwrap_err();
    assert_eq!(err.message(), "No .bumrc file found");
}

#[test]
fn archive_label_strips_directory_and_extension() {
    assert_eq!(archive_version_label("/home/u/.bum/bun-versions/1.0.0.zip"), "1.0.0");
    assert_eq!(archive_version_label("1.2.3.zip"), "1.2.3");
    assert_eq!(archive_version_label("C:\\store\\2.0.0.zip"), "2.0.0");
    assert_eq!(archive_version_label("plain"), "plain");
}
