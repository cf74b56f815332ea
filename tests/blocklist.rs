use mcapi::api::ApiError;
use mcapi::blocklist::{
    blocked_pattern_in_response, find_blocked_pattern, is_ipv4_address, wildcard_patterns,
};
use mcapi::digest::digest_hex;

#[test]
fn digest_of_abc_is_the_known_vector() {
    assert_eq!(digest_hex("abc"), "a9993e364706816aba3e25717850c26c9cd0d89d");
}

#[test]
fn digest_is_the_same_on_each_call() {
    assert_eq!(digest_hex("mc.example.com"), digest_hex("mc.example.com"));
    assert_eq!(digest_hex("mc.example.com").len(), 40);
}

#[test]
fn digest_of_empty_text() {
    assert_eq!(digest_hex(""), "da39a3ee5e6b4b0d3255bfef95601890afd80709");
}

#[test]
fn ipv4_classification_is_permissive() {
    assert!(is_ipv4_address("192.168.0.1"));
    assert!(is_ipv4_address("1.2.3"));
    assert!(is_ipv4_address("001.+2.255"));
    assert!(!is_ipv4_address("256.1.1.1"));
    assert!(!is_ipv4_address("mc.example.com"));
    assert!(!is_ipv4_address("1..2"));
    assert!(!is_ipv4_address("+.1"));
    assert!(!is_ipv4_address("-1.2"));
    assert!(!is_ipv4_address(""));
}

#[test]
fn ipv4_wildcards_keep_leading_segments() {
    let w = wildcard_patterns("192.168.0.1");
    assert_eq!(w, vec!["*", "192.*", "192.168.*", "192.168.0.*"]);
}

#[test]
fn hostname_wildcards_drop_leading_labels() {
    let w = wildcard_patterns("mc.example.com");
    assert_eq!(w, vec!["*.mc.example.com", "*.example.com", "*.com"]);
}

#[test]
fn single_label_hostname_has_one_wildcard() {
    assert_eq!(wildcard_patterns("localhost"), vec!["*.localhost"]);
}

fn list_of(items: &[&str]) -> String {
    items.iter().map(|s| digest_hex(s)).collect::<Vec<_>>().join("\n")
}

#[test]
fn literal_match_comes_before_wildcards() {
    let list = list_of(&["*.example.com", "mc.example.com"]);
    assert_eq!(
        find_blocked_pattern("mc.example.com", &list),
        Some("mc.example.com".to_string())
    );
}

#[test]
fn wildcard_match_without_literal() {
    let list = list_of(&["other.net", "*.example.com"]);
    assert_eq!(
        find_blocked_pattern("mc.example.com", &list),
        Some("*.example.com".to_string())
    );
}

#[test]
fn no_match_gives_none() {
    let list = list_of(&["other.net", "*.other.net"]);
    assert_eq!(find_blocked_pattern("mc.example.com", &list), None);
    assert_eq!(find_blocked_pattern("mc.example.com", ""), None);
}

#[test]
fn first_wildcard_in_generation_order_wins() {
    let list = list_of(&["*.com", "*.example.com"]);
    assert_eq!(
        find_blocked_pattern("mc.example.com", &list),
        Some("*.example.com".to_string())
    );
}

#[test]
fn carriage_returns_end_lines() {
    let list = format!("{}\r\n{}\r\n", digest_hex("x.y"), digest_hex("*.example.com"));
    assert_eq!(
        find_blocked_pattern("mc.example.com", &list),
        Some("*.example.com".to_string())
    );
}

#[test]
fn ipv4_blocked_by_prefix() {
    let list = list_of(&["10.0.*"]);
    assert_eq!(find_blocked_pattern("10.0.5.7", &list), Some("10.0.*".to_string()));
}

#[test]
fn ipv4_blocked_by_match_all() {
    let list = list_of(&["*", "10.*"]);
    assert_eq!(find_blocked_pattern("10.0.5.7", &list), Some("*".to_string()));
}

#[test]
fn blocklist_answer_other_than_200_is_a_request_error() {
    let list = list_of(&["mc.example.com"]);
    match blocked_pattern_in_response("mc.example.com", 503, "Service Unavailable".to_string(), &list) {
        Err(ApiError::Request { status, reason }) => {
            assert_eq!(status, 503);
            assert_eq!(reason, "Service Unavailable");
        }
        other => panic!("unexpected {:?}", other),
    }
    assert_eq!(
        blocked_pattern_in_response("mc.example.com", 200, "OK".to_string(), &list).unwrap(),
        Some("mc.example.com".to_string())
    );
    assert_eq!(
        blocked_pattern_in_response("play.other.net", 200, "OK".to_string(), &list).unwrap(),
        None
    );
}
