use hedit::error::HostsError;
use hedit::hostname::HostnameMatcher;
use hedit::names::NameSet;
use hedit::text::to_chars;
use hedit::validator::{check_line, line_kind, validate_hosts_file, LineKind};

fn validate(content: &str) -> Result<(), HostsError> {
    validate_hosts_file(content, &vec!["work".to_string()])
}

#[test]
fn comments_and_blank_lines_pass() {
    assert_eq!(validate(""), Ok(()));
    assert_eq!(validate("# a comment\n\n   \n\t# another\n"), Ok(()));
    assert_eq!(validate("#@remote(http://x)\n"), Ok(()));
}

#[test]
fn records_pass() {
    assert_eq!(validate("127.0.0.1 localhost\n::1 localhost\n"), Ok(()));
    assert_eq!(validate("1.2.3.4 example.com\n5.6.7.8 other.com # note\n"), Ok(()));
    assert_eq!(validate("  1.2.3.4\texample.com  \r\n"), Ok(()));
    assert_eq!(validate("1.2.3.4\n"), Ok(()));
    assert_eq!(validate("fe80::1%lo0 localhost\n"), Ok(()));
    assert_eq!(validate("1.2.3.4 a.com #one two three\n"), Ok(()));
    assert_eq!(validate("1.2.3.4 Example.com\n1.2.3.4 example.com\n"), Ok(()));
    assert_eq!(validate("1.2.3.4 my_host\n1.2.3.5 db.my_lan\n"), Ok(()));
}

#[test]
fn ignored_hostnames_may_repeat() {
    assert_eq!(
        validate("127.0.0.1 localhost\n::1 localhost\n255.255.255.255 broadcasthost\n1.1.1.1 broadcasthost\n1.1.1.1 localdomain\n1.1.1.2 localdomain\n"),
        Ok(())
    );
}

#[test]
fn invalid_ip_is_reported_with_its_line() {
    assert_eq!(
        validate("# c\n999.1.1.1 example.com\n"),
        Err(HostsError::InvalidIp { line: 2, ip: "999.1.1.1".to_string() })
    );
    assert_eq!(validate("example.com 1.2.3.4"), Err(HostsError::InvalidIp { line: 1, ip: "example.com".to_string() }));
}

#[test]
fn invalid_hostname_is_reported_with_its_line() {
    assert_eq!(
        validate("1.2.3.4 good.com\n1.2.3.4 -bad.com\n"),
        Err(HostsError::InvalidHostname { line: 2, hostname: "-bad.com".to_string() })
    );
    assert_eq!(
        validate("1.2.3.4 #comment\n"),
        Err(HostsError::InvalidHostname { line: 1, hostname: "#comment".to_string() })
    );
}

#[test]
fn duplicate_hostname_names_the_second_line() {
    assert_eq!(
        validate("1.2.3.4 example.com\n# c\n5.6.7.8 example.com\n"),
        Err(HostsError::DuplicateHostname { line: 3, hostname: "example.com".to_string() })
    );
}

#[test]
fn second_hostname_is_refused() {
    assert_eq!(
        validate("1.2.3.4 a.com b.com\n"),
        Err(HostsError::MultipleHostnamesUnsupported { line: 1, text: "1.2.3.4 a.com b.com".to_string() })
    );
    assert_eq!(
        validate("\n  1.2.3.4 a.com b.com # c\n"),
        Err(HostsError::MultipleHostnamesUnsupported { line: 2, text: "  1.2.3.4 a.com b.com # c".to_string() })
    );
    assert_eq!(
        validate("127.0.0.1 localhost loopback\n"),
        Err(HostsError::MultipleHostnamesUnsupported { line: 1, text: "127.0.0.1 localhost loopback".to_string() })
    );
}

#[test]
fn the_first_fault_wins() {
    assert_eq!(
        validate("1.2.3.4 a.com\nbad a.com b.com\n1.2.3.4 a.com\n"),
        Err(HostsError::InvalidIp { line: 2, ip: "bad".to_string() })
    );
    assert_eq!(
        validate("1.2.3.4 a.com\n1.2.3.4 a.com b.com\n"),
        Err(HostsError::DuplicateHostname { line: 2, hostname: "a.com".to_string() })
    );
    assert_eq!(
        validate("1.2.3.4 a_.com! b.com\n"),
        Err(HostsError::InvalidHostname { line: 1, hostname: "a_.com!".to_string() })
    );
}

#[test]
fn directives_are_checked_and_not_expanded() {
    assert_eq!(validate("@remote(https://good.example/hosts)\n@local(work)\n"), Ok(()));
    assert_eq!(
        validate("@remote(http://example.com/list)\n"),
        Err(HostsError::InsecureUrl { line: 1 })
    );
    assert_eq!(
        validate("1.2.3.4 a.com\n@local(missing)\n"),
        Err(HostsError::LocalFileNotFound { line: 2, name: "missing".to_string() })
    );
    assert_eq!(
        validate("@remote(nonsense)\n"),
        Err(HostsError::InvalidUrl { line: 1, reason: "relative URL without a base".to_string() })
    );
    assert_eq!(
        validate("@other(x)\n"),
        Err(HostsError::UnsupportedDirective { line: 1, name: "other".to_string() })
    );
    assert_eq!(
        validate("  @remote \n"),
        Err(HostsError::InvalidDirectiveSyntax { line: 1, text: "  @remote ".to_string() })
    );
}

#[test]
fn local_directive_without_managed_files() {
    assert_eq!(
        validate_hosts_file("@local(work)\n", &vec![]),
        Err(HostsError::LocalFileNotFound { line: 1, name: "work".to_string() })
    );
}

#[test]
fn lines_are_told_apart() {
    assert_eq!(line_kind(&to_chars("")), LineKind::Blank);
    assert_eq!(line_kind(&to_chars(" \t ")), LineKind::Blank);
    assert_eq!(line_kind(&to_chars("  # note")), LineKind::Comment);
    assert_eq!(line_kind(&to_chars("#@local(x)")), LineKind::Comment);
    assert_eq!(line_kind(&to_chars("\t@local(x)")), LineKind::Directive);
    assert_eq!(line_kind(&to_chars("@")), LineKind::Directive);
    assert_eq!(line_kind(&to_chars("1.2.3.4 a.com")), LineKind::Record);
    assert_eq!(line_kind(&to_chars("anything else")), LineKind::Record);
}

#[test]
fn lines_are_checked_one_by_one() {
    let matcher = HostnameMatcher::new();
    let locals = NameSet::from_strings(&vec!["work".to_string()]);
    let mut seen = NameSet::new();
    assert_eq!(check_line(&to_chars("1.2.3.4 a.com"), 1, &mut seen, &locals, &matcher), Ok(()));
    assert!(seen.contains(&to_chars("a.com")));
    assert_eq!(check_line(&to_chars("# a.com"), 2, &mut seen, &locals, &matcher), Ok(()));
    assert_eq!(check_line(&to_chars("@local(work)"), 3, &mut seen, &locals, &matcher), Ok(()));
    assert_eq!(
        check_line(&to_chars("5.6.7.8 a.com"), 4, &mut seen, &locals, &matcher),
        Err(HostsError::DuplicateHostname { line: 4, hostname: "a.com".to_string() })
    );
    assert_eq!(
        check_line(&to_chars("@local(home)"), 5, &mut seen, &locals, &matcher),
        Err(HostsError::LocalFileNotFound { line: 5, name: "home".to_string() })
    );
}
