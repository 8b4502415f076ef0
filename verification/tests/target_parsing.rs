use udss_proxy::session::parse_target;

#[test]
fn well_formed_target_parses() {
    let (host, port) = parse_target(b"example.com:443").unwrap();
    assert_eq!(host, b"example.com".to_vec());
    assert_eq!(port, 443);
}

#[test]
fn one_digit_and_five_digit_ports() {
    assert_eq!(parse_target(b"h:0").unwrap().1, 0);
    assert_eq!(parse_target(b"h:9").unwrap().1, 9);
    assert_eq!(parse_target(b"h:65535").unwrap().1, 65535);
}

#[test]
fn missing_colon_is_rejected() {
    assert!(parse_target(b"example.com").is_none());
    assert!(parse_target(b"").is_none());
}

#[test]
fn empty_host_is_rejected() {
    assert!(parse_target(b":443").is_none());
}

#[test]
fn empty_port_is_rejected() {
    assert!(parse_target(b"example.com:").is_none());
}

#[test]
fn non_digit_port_is_rejected() {
    assert!(parse_target(b"example.com:4x3").is_none());
    assert!(parse_target(b"example.com:443 ").is_none());
}

#[test]
fn out_of_range_port_is_rejected() {
    assert!(parse_target(b"example.com:65536").is_none());
    assert!(parse_target(b"example.com:123456").is_none());
}

#[test]
fn port_stops_at_first_colon() {
    // Everything after the first colon must be digits.
    assert!(parse_target(b"example.com:443:1").is_none());
}
