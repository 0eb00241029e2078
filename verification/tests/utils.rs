use nginx_pool::utils::{is_valid_ip_with_port, IpFamily};

// What `192.0.2.1:80` resolves to.
#[test]
fn one_ipv4_address_is_valid() {
    assert!(is_valid_ip_with_port(&Some(vec![IpFamily::V4])));
}

// What `not-an-address` resolves to: it has no port, so nothing.
#[test]
fn failed_resolution_is_invalid() {
    assert!(!is_valid_ip_with_port(&None));
}

// What `[::1]:80` resolves to.
#[test]
fn ipv6_only_is_invalid() {
    assert!(!is_valid_ip_with_port(&Some(vec![IpFamily::V6])));
    assert!(!is_valid_ip_with_port(&Some(vec![IpFamily::V6, IpFamily::V6])));
}

#[test]
fn empty_resolution_is_invalid() {
    assert!(!is_valid_ip_with_port(&Some(vec![])));
}

#[test]
fn ipv4_behind_ipv6_is_valid() {
    assert!(is_valid_ip_with_port(&Some(vec![IpFamily::V6, IpFamily::V4])));
    assert!(is_valid_ip_with_port(&Some(vec![IpFamily::V4, IpFamily::V6])));
}
