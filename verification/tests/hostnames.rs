use hedit::hostname::{is_ignored_host, is_valid_hostname};
use hedit::ip::is_valid_ip;

#[test]
fn ignored_hosts_are_recognised() {
    assert!(is_ignored_host("localhost"));
    assert!(is_ignored_host("broadcasthost"));
    assert!(is_ignored_host("localdomain"));
    assert!(!is_ignored_host("Localhost"));
    assert!(!is_ignored_host("example.com"));
}

#[test]
fn hostname_format() {
    assert!(is_valid_hostname("example.com"));
    assert!(is_valid_hostname("a_b.example.com"));
    assert!(!is_valid_hostname("-bad.example.com"));
    assert!(!is_valid_hostname("bad-.example.com"));
    assert!(!is_valid_hostname("exa mple.com"));
    assert!(is_valid_hostname("example.co_m"));
    assert!(is_valid_hostname("db.my_lan"));
    assert!(is_valid_hostname("my_host"));
    assert!(!is_valid_hostname(""));
}

#[test]
fn addresses() {
    assert!(is_valid_ip("1.2.3.4"));
    assert!(is_valid_ip("::1"));
    assert!(is_valid_ip("fe80::1%lo0"));
    assert!(!is_valid_ip("fe80::1%eth0"));
    assert!(!is_valid_ip("256.1.1.1"));
    assert!(!is_valid_ip("01.1.1.1"));
}

fn is_label_char(c: char) -> bool {
    c.is_ascii_alphanumeric() || c == '-' || c == '_'
}

fn is_label(label: &str) -> bool {
    !label.is_empty()
        && label.chars().all(is_label_char)
        && !label.starts_with('-')
        && !label.ends_with('-')
}

fn has_hostname_form(host: &str) -> bool {
    host.split('.').all(is_label)
}

#[test]
fn hostname_pattern_means_labels_with_dots() {
    let pieces = ["a", "B", "7", "-", "_", ".", "ab", "x-y", "x_y", " ", "é", "#", "com"];
    let mut state: u64 = 0x9e37_79b9_7f4a_7c15;
    for _ in 0..20000 {
        let mut text = String::new();
        state = state.wrapping_mul(6364136223846793005).wrapping_add(1442695040888963407);
        let count = 1 + ((state >> 61) as usize);
        for _ in 0..count {
            state = state.wrapping_mul(6364136223846793005).wrapping_add(1442695040888963407);
            text.push_str(pieces[((state >> 33) as usize) % pieces.len()]);
        }
        assert_eq!(is_valid_hostname(&text), has_hostname_form(&text), "{:?}", text);
    }
}

#[test]
fn hostname_edge_cases() {
    assert!(is_valid_hostname("a"));
    assert!(is_valid_hostname("a-b"));
    assert!(is_valid_hostname("_a.b"));
    assert!(is_valid_hostname("a_.b"));
    assert!(is_valid_hostname("_"));
    assert!(is_valid_hostname("a._"));
    assert!(is_valid_hostname("a.b_"));
    assert!(is_valid_hostname("_._"));
    assert!(!is_valid_hostname("a.b-"));
    assert!(!is_valid_hostname("a b"));
    assert!(!is_valid_hostname(" a"));
    assert!(!is_valid_hostname("."));
    assert!(!is_valid_hostname("a."));
    assert!(!is_valid_hostname(".a"));
    assert!(!is_valid_hostname("a..b"));
    assert!(!is_valid_hostname("a\n"));
    assert!(!is_valid_hostname("-"));
    assert!(!is_valid_hostname("a.-b"));
    assert!(!is_valid_hostname("ä.com"));
}
