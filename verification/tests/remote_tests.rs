use bum::remote::{
    download_url, github_tags_url, user_agent, classify_fetch, FetchOutcome, github_tags_from_json,
    filter_remote_tags,
};
use bum::error::Error;

#[test]
fn download_url_interpolates_version_and_platform() {
    assert_eq!(
        download_url("1.0.0", "linux-x64"),
        "https://github.com/oven-sh/bun/releases/download/bun-v1.0.0/bun-linux-x64.zip"
    );
    assert_eq!(
        download_url("2.0.0-beta", "darwin-aarch64"),
        "https://github.com/oven-sh/bun/releases/download/bun-v2.0.0-beta/bun-darwin-aarch64.zip"
    );
}

#[test]
fn fixed_endpoints() {
    assert_eq!(github_tags_url(), "https://api.github.com/repos/oven-sh/bun/tags");
    assert_eq!(user_agent(), "bum-version-manager-app");
}

#[test]
fn status_200_is_success() {
    assert!(classify_fetch(FetchOutcome::Status { code: 200 }, "1.0.0").is_ok());
}

#[test]
fn status_404_is_version_not_found() {
    let err = classify_fetch(FetchOutcome::Status { code: 404 }, "1.0.0").unwrap_err();
    assert!(matches!(&err, Error::RemoteNotFound { .. }));
    assert_eq!(err.message(), "Version \"1.0.0\" doesn't exist");
}

#[test]
fn other_statuses_fail_with_the_status() {
    let err = classify_fetch(FetchOutcome::Status { code: 503 }, "1.0.0").unwrap_err();
    assert!(matches!(&err, Error::RemoteRequestFailed { status: Some(503) }));
    assert_eq!(err.message(), "HTTP request was not successful: 503");
}

#[test]
fn transport_failure_has_no_status() {
    let err = classify_fetch(FetchOutcome::TransportFailed, "1.0.0").unwrap_err();
    assert!(matches!(&err, Error::RemoteRequestFailed { status: None }));
    assert_eq!(err.message(), "HTTP request was not successful");
}

#[test]
fn request_failed_message_renders_any_status() {
    let err = Error::RemoteRequestFailed { status: Some(7) };
    assert_eq!(err.message(), "HTTP request was not successful: 7");
    let err = Error::RemoteRequestFailed { status: Some(65535) };
    assert_eq!(err.message(), "HTTP request was not successful: 65535");
}

#[test]
fn local_failure_message_is_its_text() {
    let err = Error::LocalIOFailure { message: "Failed to write /tmp/x.zip".to_string() };
    assert_eq!(err.message(), "Failed to write /tmp/x.zip");
}

#[test]
fn tags_parse_filter_and_strip() {
    let body = "[{\"name\":\"bun-v1.0.3\",\"commit\":{\"sha\":\"abc\"}},{\"name\":\"canary\"},{\"name\":\"bun-v1.0.2\"}]";
    let labels = github_tags_from_json(body).unwrap();
    assert_eq!(labels, vec!["v1.0.3".to_string(), "v1.0.2".to_string()]);
}

#[test]
fn tags_of_invalid_body_are_none() {
    assert!(github_tags_from_json("not json").is_none());
    assert!(github_tags_from_json("{\"name\":\"bun-v1\"}").is_none());
    assert!(github_tags_from_json("[{\"tag\":\"bun-v1\"}]").is_none());
    assert!(github_tags_from_json("[{\"name\":3}]").is_none());
}

#[test]
fn tag_filter_keeps_remote_order() {
    let tags: Vec<String> = vec![
        "bun-v0.5.0".to_string(),
        "nightly".to_string(),
        "bun-v0.1.0".to_string(),
        "bun-v0.3.0".to_string(),
    ];
    let labels = filter_remote_tags(&tags);
    assert_eq!(
        labels,
        vec!["v0.5.0".to_string(), "v0.1.0".to_string(), "v0.3.0".to_string()]
    );
}
