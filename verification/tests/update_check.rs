use backup_verify::update_check::{is_newer, parse_version_text, release_query_error, update_info};

#[test]
fn detects_newer_patch() {
    assert!(is_newer("0.1.1", "0.1.0"));
}

#[test]
fn detects_newer_with_v_prefix() {
    assert!(is_newer("v0.2.0", "0.1.0"));
}

#[test]
fn same_version_is_not_newer() {
    assert!(!is_newer("0.1.0", "0.1.0"));
}

#[test]
fn older_is_not_newer() {
    assert!(!is_newer("0.1.0", "0.2.0"));
}

#[test]
fn malformed_tag_is_not_newer() {
    assert!(!is_newer("not-a-version", "0.1.0"));
}

#[test]
fn version_parts_follow_integer_parsing() {
    assert_eq!(parse_version_text("1.2.3"), Some((1, 2, 3)));
    assert_eq!(parse_version_text("vv10.0.7"), Some((10, 0, 7)));
    assert_eq!(parse_version_text("+1.02.3"), Some((1, 2, 3)));
    assert_eq!(parse_version_text("1.2.3.4"), None);
    assert_eq!(parse_version_text("1.2"), None);
    assert_eq!(parse_version_text("1.2."), None);
    assert_eq!(parse_version_text("1.-2.3"), None);
    assert_eq!(parse_version_text("1.2.3-beta"), None);
    assert_eq!(parse_version_text("18446744073709551615.0.0"), Some((u64::MAX, 0, 0)));
    assert_eq!(parse_version_text("18446744073709551616.0.0"), None);
    assert_eq!(parse_version_text(""), None);
}

#[test]
fn newer_compares_major_then_minor_then_patch() {
    assert!(is_newer("1.0.0", "0.9.9"));
    assert!(is_newer("0.10.0", "0.9.99"));
    assert!(!is_newer("0.9.99", "0.10.0"));
    assert!(!is_newer("0.1.0", "garbage"));
}

#[test]
fn update_info_strips_the_tag_prefix() {
    let info = update_info("0.1.0".to_string(), "vv0.2.0", "https://example.org/r".to_string());
    assert_eq!(info.current_version, "0.1.0");
    assert_eq!(info.latest_version, "0.2.0");
    assert!(info.update_available);
    assert_eq!(info.release_url, "https://example.org/r");
    let same = update_info("0.2.0".to_string(), "v0.2.0", String::new());
    assert!(!same.update_available);
}

#[test]
fn four_part_tags_are_not_newer() {
    assert!(!is_newer("1.2.3.4", "1.2.2"));
    assert!(!is_newer("1.1", "1.0"));
    assert!(!is_newer("1.2.3", "1.2.2.9"));
}

#[test]
fn failing_release_queries_name_the_status() {
    assert_eq!(release_query_error("404 Not Found"), "GitHub вернул ошибку: 404 Not Found");
}
