use update_server::inifile::ini_get;
use update_server::manifest::is_partial_manifest;

#[test]
fn ini_simple_lookup() {
    let text = "[App]\nVersion=1.0\nBuildID=7\n";
    assert_eq!(ini_get(text, "App", "Version"), Some("1.0".to_string()));
    assert_eq!(ini_get(text, "App", "BuildID"), Some("7".to_string()));
}

#[test]
fn ini_missing_key_is_none() {
    let text = "[App]\nVersion=1.0\n";
    assert_eq!(ini_get(text, "App", "BuildID"), None);
}

#[test]
fn ini_key_outside_section_is_none() {
    let text = "Version=1.0\n[App]\nBuildID=7\n";
    assert_eq!(ini_get(text, "App", "Version"), None);
}

#[test]
fn ini_whitespace_is_trimmed() {
    let text = "  [ App ]  \n   Version   =   1.0  \n";
    assert_eq!(ini_get(text, "App", "Version"), Some("1.0".to_string()));
}

#[test]
fn ini_crlf_lines() {
    let text = "[App]\r\nVersion=7.7\r\n";
    assert_eq!(ini_get(text, "App", "Version"), Some("7.7".to_string()));
}

#[test]
fn ini_comments_are_skipped() {
    let text = "[App]\n; Version=bad\n# Version=worse\nVersion=good\n";
    assert_eq!(ini_get(text, "App", "Version"), Some("good".to_string()));
}

#[test]
fn ini_last_assignment_wins() {
    let text = "[App]\nVersion=old\nVersion=new\n";
    assert_eq!(ini_get(text, "App", "Version"), Some("new".to_string()));
}

#[test]
fn ini_later_section_ends_scope() {
    let text = "[App]\nVersion=1\n[Other]\nVersion=2\n";
    assert_eq!(ini_get(text, "App", "Version"), Some("1".to_string()));
}

#[test]
fn ini_value_may_contain_equals() {
    let text = "[App]\nVersion=a=b\n";
    assert_eq!(ini_get(text, "App", "Version"), Some("a=b".to_string()));
}

#[test]
fn ini_no_final_newline() {
    let text = "[App]\nVersion=1.0";
    assert_eq!(ini_get(text, "App", "Version"), Some("1.0".to_string()));
}

#[test]
fn manifest_partial_marker_is_detected() {
    assert!(is_partial_manifest(&b"type \"partial\"".to_vec()));
    assert!(is_partial_manifest(&b"type \"partial\"\nsecond line".to_vec()));
    assert!(is_partial_manifest(&b"type \"partial\"\r\nsecond line".to_vec()));
}

#[test]
fn manifest_other_content_is_not_partial() {
    assert!(!is_partial_manifest(&b"".to_vec()));
    assert!(!is_partial_manifest(&b"type \"complete\"\n".to_vec()));
    assert!(!is_partial_manifest(&b"TYPE \"PARTIAL\"\n".to_vec()));
    assert!(!is_partial_manifest(&b"\ntype \"partial\"\n".to_vec()));
}
