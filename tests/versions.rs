use relay::versions::{is_newer, parse_part, split_on};

#[test]
fn newer_versions() {
    assert!(is_newer("1.2.0", "1.1.9"));
    assert!(is_newer("2", "1.9.9"));
    assert!(is_newer("1.0.1", "1.0"));
    assert!(!is_newer("1.0", "1.0.0"));
    assert!(!is_newer("1.2.3", "1.2.3"));
    assert!(!is_newer("0.9", "1.0"));
    assert!(!is_newer("1.x", "1.0"));
    assert!(is_newer("1.10", "1.9"));
}

#[test]
fn version_parts() {
    assert_eq!(parse_part("42"), 42);
    assert_eq!(parse_part("+7"), 7);
    assert_eq!(parse_part("-7"), 0);
    assert_eq!(parse_part(""), 0);
    assert_eq!(parse_part("+"), 0);
    assert_eq!(parse_part("4294967295"), 4294967295);
    assert_eq!(parse_part("4294967296"), 0);
    assert_eq!(parse_part("1a"), 0);
    assert_eq!(split_on("1..2", '.'), vec!["1".to_string(), "".to_string(), "2".to_string()]);
    assert_eq!(split_on("", '.'), vec!["".to_string()]);
}

#[test]
fn release_tags() {
    assert_eq!(relay::versions::release_version("v1.2.3"), "1.2.3");
    assert_eq!(relay::versions::release_version("vv2"), "2");
    assert_eq!(relay::versions::release_version("1.0"), "1.0");
}
