use bum::store::{list_versions, sort_versions_desc, mark_active, remove_version};

#[test]
fn test_list_versions_sorted() {
    let paths: Vec<String> = vec![
        "/home/u/.bum/bun-versions/1.2.0".to_string(),
        "/home/u/.bum/bun-versions/1.0.0".to_string(),
        "/home/u/.bum/bun-versions/1.1.0".to_string(),
        "/home/u/.bum/bun-versions/2.0.0".to_string(),
    ];
    let listed = list_versions(&paths);
    assert_eq!(
        listed,
        vec!["2.0.0".to_string(), "1.2.0".to_string(), "1.1.0".to_string(), "1.0.0".to_string()],
        "Versions should be sorted descending"
    );
}

#[test]
fn listing_accepts_backslash_separators() {
    let paths: Vec<String> = vec![
        "C:\\store\\1.0.0".to_string(),
        "C:\\store\\2.0.0".to_string(),
    ];
    assert_eq!(list_versions(&paths), vec!["2.0.0".to_string(), "1.0.0".to_string()]);
}

#[test]
fn sort_keeps_duplicates() {
    let labels: Vec<String> = vec![
        "1.0.0".to_string(),
        "2.0.0".to_string(),
        "1.0.0".to_string(),
    ];
    let sorted = sort_versions_desc(&labels);
    assert_eq!(sorted, vec!["2.0.0".to_string(), "1.0.0".to_string(), "1.0.0".to_string()]);
}

#[test]
fn active_version_is_marked() {
    let versions: Vec<String> = vec!["2.0.0".to_string(), "1.0.0".to_string()];
    let marks = mark_active(&versions, "1.0.0");
    assert_eq!(marks, vec![false, true]);
    let marks = mark_active(&versions, "3.0.0");
    assert_eq!(marks, vec![false, false]);
}

#[test]
fn remove_then_list_leaves_no_trace() {
    let store: Vec<String> = vec![
        "1.0.0".to_string(),
        "1.1.0".to_string(),
        "2.0.0".to_string(),
    ];
    let (store, found) = remove_version(store, "1.1.0");
    assert!(found, "Version should exist before removal");
    let listed = list_versions(&store);
    assert!(!listed.iter().any(|v| v == "1.1.0"), "Version should not exist after removal");
    let (store, found_again) = remove_version(store, "1.1.0");
    assert!(!found_again, "Second removal should report a failure");
    assert_eq!(store.len(), 2);
}

#[test]
fn test_remove_version() {
    let store: Vec<String> = vec!["1.0.0".to_string()];
    assert!(store.iter().any(|v| v == "1.0.0"), "Version should exist before removal");
    let (store, removed) = remove_version(store, "1.0.0");
    assert!(removed);
    assert!(
        !store.iter().any(|v| v == "1.0.0"),
        "Version should not exist after removal"
    );
}
