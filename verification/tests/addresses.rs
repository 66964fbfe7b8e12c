use jetlag_core::providers::{validate_ipv4, validate_ipv6};

#[test]
fn ipv4_edge_cases() {
    assert!(validate_ipv4("10.0.0.255"));
    assert!(validate_ipv4("192.168.001.1") == false);
    assert!(!validate_ipv4("01.1.1.1"));
    assert!(!validate_ipv4("1.1.1.1."));
    assert!(!validate_ipv4(".1.1.1.1"));
    assert!(!validate_ipv4("1..1.1"));
    assert!(!validate_ipv4("1.1.1.1.1"));
    assert!(!validate_ipv4("1.1.1.1000"));
    assert!(!validate_ipv4(" 1.1.1.1"));
    assert!(!validate_ipv4("1.1.1.+1"));
    assert!(!validate_ipv4("１.1.1.1"));
    assert!(!validate_ipv4("::1"));
}

#[test]
fn ipv6_edge_cases() {
    assert!(validate_ipv6("::"));
    assert!(validate_ipv6("1::"));
    assert!(validate_ipv6("1:2:3:4:5:6:7:8"));
    assert!(validate_ipv6("1:2:3:4:5:6:7::"));
    assert!(validate_ipv6("::2:3:4:5:6:7:8"));
    assert!(validate_ipv6("::ffff:192.168.0.1"));
    assert!(validate_ipv6("1:2:3:4:5:6:1.2.3.4"));
    assert!(validate_ipv6("ABCD:ef01::"));
    assert!(validate_ipv6("0000:0000::0000"));
    assert!(!validate_ipv6("1:2:3:4:5:6:7:8::"));
    assert!(!validate_ipv6("1:2:3:4:5:6:7:8:9"));
    assert!(!validate_ipv6("1:2:3:4:5:6:7"));
    assert!(!validate_ipv6("1::2::3"));
    assert!(!validate_ipv6(":::"));
    assert!(!validate_ipv6(":1::"));
    assert!(!validate_ipv6("1:"));
    assert!(!validate_ipv6("12345::"));
    assert!(!validate_ipv6("::g"));
    assert!(!validate_ipv6("1.2.3.4::"));
    assert!(!validate_ipv6("::1.2.3"));
    assert!(!validate_ipv6("::1:2:3:4:5:6:1.2.3.4"));
    assert!(!validate_ipv6("1:2:3:4:5:6:7:1.2.3.4"));
    assert!(!validate_ipv6("::1.2.3.4:5"));
    assert!(!validate_ipv6("::01.2.3.4"));
    assert!(!validate_ipv6(""));
}
