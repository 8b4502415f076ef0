use udss_proxy::acl::{normalize_hostname, DomainBlocker};

fn blocker_with(rules: &[&str]) -> DomainBlocker {
    let raw: Vec<Vec<u8>> = rules.iter().map(|r| r.as_bytes().to_vec()).collect();
    let mut b = DomainBlocker::new();
    b.initialize(&raw);
    b
}

#[test]
fn loaded_rule_blocks_exact_and_subdomains() {
    let b = blocker_with(&["blocked.com"]);
    assert!(b.is_blocked(b"blocked.com"));
    assert!(b.is_blocked(b"mail.blocked.com"));
    assert!(!b.is_blocked(b"notblocked.com"));
}

#[test]
fn lookup_normalizes_case_and_port() {
    let b = blocker_with(&["blocked.com"]);
    assert!(b.is_blocked(b"BLOCKED.COM"));
    assert!(b.is_blocked(b"blocked.com:443"));
    assert!(b.is_blocked(b"Mail.Blocked.Com:8443"));
}

#[test]
fn rules_are_normalized_on_load() {
    let b = blocker_with(&["BLOCKED.COM"]);
    assert!(b.is_blocked(b"blocked.com"));
}

#[test]
fn suffix_needs_a_dot_boundary() {
    let b = blocker_with(&["blocked.com"]);
    assert!(!b.is_blocked(b"xblocked.com"));
    assert!(!b.is_blocked(b"blocked.com.evil.com"));
}

#[test]
fn uninitialized_blocker_blocks_nothing() {
    let b = DomainBlocker::new();
    assert!(!b.is_blocked(b"blocked.com"));
    assert!(!b.is_blocked(b""));
}

#[test]
fn refresh_replaces_the_whole_snapshot() {
    let mut b = blocker_with(&["old.com"]);
    assert!(b.is_blocked(b"old.com"));
    let new_rules: Vec<Vec<u8>> = vec![b"new.com".to_vec()];
    b.refresh(&new_rules);
    assert!(!b.is_blocked(b"old.com"));
    assert!(b.is_blocked(b"new.com"));
}

#[test]
fn normalize_lowercases_and_strips_port() {
    assert_eq!(normalize_hostname(b"ExAmPlE.Com:8080"), b"example.com".to_vec());
    assert_eq!(normalize_hostname(b"plain.host"), b"plain.host".to_vec());
    assert_eq!(normalize_hostname(b":443"), Vec::<u8>::new());
    assert_eq!(normalize_hostname(b""), Vec::<u8>::new());
}
