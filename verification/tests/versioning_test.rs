use tid::engine::versioning::{VersionInfo, VersionManager};

fn info(id: &str, ts: &str) -> VersionInfo {
    VersionInfo { id: id.to_string(), label: String::new(), timestamp: ts.to_string(), approved: false }
}

#[test]
fn test_version_id() {
    let id = VersionManager::version_id("20240115T103000Z", "0123456789abcdef0123456789abcdef");
    assert_eq!(id, "v-20240115T103000-0123456789abcdef0123456789abcdef");
}

#[test]
fn test_new_version_shape() {
    let v = VersionManager::new_version("v2024-Q1", "[]".to_string(), "{}".to_string());
    assert_eq!(v.label, "v2024-Q1");
    assert!(!v.approved);
    assert_eq!(v.products_json, "[]");
    assert_eq!(v.assumptions_json, "{}");
    assert_eq!(v.timestamp.len(), 16);
    assert!(v.timestamp.ends_with('Z'));
    assert_eq!(&v.timestamp[8..9], "T");
    assert!(v.timestamp[..8].chars().all(|c| c.is_ascii_digit()));
    assert!(v.timestamp[9..15].chars().all(|c| c.is_ascii_digit()));
    assert_eq!(v.id.len(), 2 + 15 + 1 + 32);
    assert!(v.id.starts_with(&format!("v-{}-", &v.timestamp[..15])));
    assert!(v.id[18..].chars().all(|c| c.is_ascii_hexdigit() && !c.is_ascii_uppercase()));
    let uuid: Vec<char> = v.id[18..].chars().collect();
    assert_eq!(uuid[12], '4');
    assert!(matches!(uuid[16], '8' | '9' | 'a' | 'b'));
}

#[test]
fn test_two_versions_have_different_ids() {
    let a = VersionManager::new_version("a", String::new(), String::new());
    let b = VersionManager::new_version("a", String::new(), String::new());
    assert_ne!(a.id, b.id);
}

#[test]
fn test_approve_and_info() {
    let mut v = VersionManager::new_version("x", "p".to_string(), "a".to_string());
    let id = v.id.clone();
    v.approve();
    assert!(v.approved);
    assert_eq!(v.id, id);
    let i = v.info();
    assert_eq!((i.id, i.label, i.approved), (id, "x".to_string(), true));
}

#[test]
fn test_file_name() {
    assert_eq!(VersionManager::file_name("v-1"), "v-1.json");
}

#[test]
fn test_sort_newest_first() {
    let sorted = VersionManager::sort_newest_first(vec![
        info("a", "20240101T000000Z"),
        info("b", "20240301T000000Z"),
        info("c", "20240201T000000Z"),
    ]);
    let ids: Vec<&str> = sorted.iter().map(|v| v.id.as_str()).collect();
    assert_eq!(ids, vec!["b", "c", "a"]);
}

#[test]
fn test_sort_keeps_equal_timestamps_in_order() {
    let sorted = VersionManager::sort_newest_first(vec![
        info("a", "2024"),
        info("b", "2025"),
        info("c", "2024"),
        info("d", "2025"),
        info("e", "2023"),
    ]);
    let ids: Vec<&str> = sorted.iter().map(|v| v.id.as_str()).collect();
    assert_eq!(ids, vec!["b", "d", "a", "c", "e"]);
}

#[test]
fn test_sort_matches_std_stable_sort() {
    let stamps = ["b", "a", "ab", "", "b", "ba", "a"];
    let input: Vec<VersionInfo> = stamps.iter().enumerate().map(|(i, t)| info(&i.to_string(), t)).collect();
    let mut expected = input.clone();
    expected.sort_by(|a, b| b.timestamp.cmp(&a.timestamp));
    let got = VersionManager::sort_newest_first(input);
    assert_eq!(got, expected);
}
