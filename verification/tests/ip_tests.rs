use hedit::ip::is_valid_ip;

#[test]
fn ipv4_addresses() {
    assert!(is_valid_ip("0.0.0.0"));
    assert!(is_valid_ip("127.0.0.1"));
    assert!(is_valid_ip("255.255.255.255"));
    assert!(!is_valid_ip("256.0.0.1"));
    assert!(!is_valid_ip("1.2.3"));
    assert!(!is_valid_ip("1.2.3.4.5"));
    assert!(!is_valid_ip("1.2.3."));
    assert!(!is_valid_ip(".1.2.3"));
    assert!(!is_valid_ip("1..2.3"));
    assert!(!is_valid_ip("01.2.3.4"));
    assert!(!is_valid_ip("1.2.3.04"));
    assert!(!is_valid_ip("1.2.3.4 "));
    assert!(!is_valid_ip("1.2.3.a"));
    assert!(!is_valid_ip("1.2.3.+4"));
    assert!(!is_valid_ip("1.2.3.0004"));
    assert!(!is_valid_ip(""));
}

#[test]
fn ipv6_addresses() {
    assert!(is_valid_ip("::"));
    assert!(is_valid_ip("::1"));
    assert!(is_valid_ip("1::"));
    assert!(is_valid_ip("fe80::1"));
    assert!(is_valid_ip("FE80::ABCD"));
    assert!(is_valid_ip("1:2:3:4:5:6:7:8"));
    assert!(is_valid_ip("1:2:3:4:5:6:7::"));
    assert!(is_valid_ip("::2:3:4:5:6:7:8"));
    assert!(is_valid_ip("1:2:3:4::6:7:8"));
    assert!(is_valid_ip("::ffff:1.2.3.4"));
    assert!(is_valid_ip("::1.2.3.4"));
    assert!(is_valid_ip("1:2:3:4:5:6:1.2.3.4"));
    assert!(is_valid_ip("1:2:3:4:5::1.2.3.4"));
    assert!(!is_valid_ip("1:2:3:4:5:6::1.2.3.4"));
    assert!(!is_valid_ip("1:2:3:4:5:6:7:1.2.3.4"));
    assert!(!is_valid_ip("1.2.3.4::"));
    assert!(!is_valid_ip("1:2.3.4.5::"));
    assert!(!is_valid_ip("::1.2.3.4:5"));
    assert!(!is_valid_ip("1:2:3:4:5:6:7"));
    assert!(!is_valid_ip("1:2:3:4:5:6:7:8:9"));
    assert!(!is_valid_ip("1:2:3:4:5:6:7:8::"));
    assert!(!is_valid_ip("::1:2:3:4:5:6:7:8"));
    assert!(!is_valid_ip("1::2::3"));
    assert!(!is_valid_ip(":::"));
    assert!(!is_valid_ip(":1::"));
    assert!(!is_valid_ip("1:::2"));
    assert!(!is_valid_ip("12345::"));
    assert!(!is_valid_ip("g::"));
    assert!(!is_valid_ip(":"));
    assert!(!is_valid_ip("fe80::1%eth0"));
}

#[test]
fn scoped_loopback_is_accepted_as_it_stands() {
    assert!(is_valid_ip("fe80::1%lo0"));
    assert!(!is_valid_ip("fe80::1%lo1"));
    assert!(!is_valid_ip("FE80::1%lo0"));
    assert!(!is_valid_ip("fe80::2%lo0"));
}
