use hedit::directive::Directive;
use hedit::error::HostsError;
use hedit::resolver::{parse_hosts_file, Resolution};
use hedit::validator::validate_hosts_file;

fn complete(text: &str) -> Result<Resolution, HostsError> {
    Ok(Resolution::Complete(text.to_string()))
}

#[test]
fn document_without_directives_keeps_its_lines() {
    let none: Vec<Result<String, String>> = vec![];
    assert_eq!(
        parse_hosts_file("# c\n1.2.3.4 example.com\n\n5.6.7.8 other.com", &none, &vec![]),
        complete("# c\n1.2.3.4 example.com\n\n5.6.7.8 other.com")
    );
    assert_eq!(parse_hosts_file("1.2.3.4 a.com\n", &none, &vec![]), complete("1.2.3.4 a.com"));
    assert_eq!(parse_hosts_file("1.2.3.4 a.com\r\n  # x  \r\n", &none, &vec![]), complete("1.2.3.4 a.com\n  # x  "));
    assert_eq!(parse_hosts_file("", &none, &vec![]), complete(""));
    assert_eq!(parse_hosts_file("# only\n\n", &none, &vec![]), complete("# only\n"));
}

#[test]
fn supplied_text_is_ignored_without_directives() {
    let extra = vec![Ok("9.9.9.9 nine.com".to_string())];
    assert_eq!(parse_hosts_file("1.2.3.4 a.com\n", &extra, &vec![]), complete("1.2.3.4 a.com"));
}

#[test]
fn flattened_document_resolves_without_a_request() {
    let flat = "1.2.3.4 example.com\n# Begin included remote hosts file: https://good.example/hosts\n5.6.7.8 other.com\n\n# End included remote hosts file\n";
    let none: Vec<Result<String, String>> = vec![];
    assert_eq!(
        parse_hosts_file(flat, &none, &vec![]),
        complete("1.2.3.4 example.com\n# Begin included remote hosts file: https://good.example/hosts\n5.6.7.8 other.com\n\n# End included remote hosts file")
    );
}

#[test]
fn remote_directive_is_asked_for_and_then_replaced() {
    let input = "1.2.3.4 example.com\n@remote(https://good.example/hosts)\n";
    let none: Vec<Result<String, String>> = vec![];
    assert_eq!(
        parse_hosts_file(input, &none, &vec![]),
        Ok(Resolution::Needs {
            directive: Directive::Remote { url: "https://good.example/hosts".to_string() },
            line: 2
        })
    );
    let supplied = vec![Ok("5.6.7.8 other.com\n".to_string())];
    let expected = "1.2.3.4 example.com\n# Begin included remote hosts file: https://good.example/hosts\n5.6.7.8 other.com\n\n# End included remote hosts file\n";
    assert_eq!(parse_hosts_file(input, &supplied, &vec![]), complete(expected));
    assert_eq!(validate_hosts_file(expected, &vec![]), Ok(()));
}

#[test]
fn local_directive_is_asked_for_and_then_replaced() {
    let input = "@local(work)\n1.2.3.4 a.com";
    let none: Vec<Result<String, String>> = vec![];
    assert_eq!(
        parse_hosts_file(input, &none, &vec![]),
        Ok(Resolution::Needs { directive: Directive::Local { name: "work".to_string() }, line: 1 })
    );
    let supplied = vec![Ok("10.0.0.1 intra.net".to_string())];
    assert_eq!(
        parse_hosts_file(input, &supplied, &vec![]),
        complete("# Begin included local hosts file: work\n10.0.0.1 intra.net\n# End included local hosts file\n\n1.2.3.4 a.com")
    );
}

#[test]
fn directives_are_supplied_in_their_order() {
    let input = "@local(a)\n@remote(https://b.example/)\n";
    let one = vec![Ok("1.1.1.1 a.net".to_string())];
    assert_eq!(
        parse_hosts_file(input, &one, &vec![]),
        Ok(Resolution::Needs { directive: Directive::Remote { url: "https://b.example/".to_string() }, line: 2 })
    );
    let two = vec![Ok("1.1.1.1 a.net".to_string()), Ok("2.2.2.2 b.net".to_string())];
    assert_eq!(
        parse_hosts_file(input, &two, &vec![]),
        complete("# Begin included local hosts file: a\n1.1.1.1 a.net\n# End included local hosts file\n\n# Begin included remote hosts file: https://b.example/\n2.2.2.2 b.net\n# End included remote hosts file\n")
    );
}

#[test]
fn insecure_url_fails_before_anything_is_asked_for() {
    let none: Vec<Result<String, String>> = vec![];
    assert_eq!(
        parse_hosts_file("@remote(http://example.com/list)\n", &none, &vec![]),
        Err(HostsError::InsecureUrl { line: 1 })
    );
    assert_eq!(
        parse_hosts_file("@local(a)\n@remote(http://example.com/list)\n", &none, &vec![]),
        Ok(Resolution::Needs { directive: Directive::Local { name: "a".to_string() }, line: 1 })
    );
}

#[test]
fn what_could_not_be_had_fails_the_resolution() {
    let failed = vec![Err("connection refused".to_string())];
    assert_eq!(
        parse_hosts_file("# c\n@remote(https://down.example/)\n", &failed, &vec![]),
        Err(HostsError::RemoteFetchFailed {
            line: 2,
            url: "https://down.example/".to_string(),
            reason: "connection refused".to_string()
        })
    );
    assert_eq!(
        parse_hosts_file("@local(missing)\n", &failed, &vec![]),
        Err(HostsError::LocalFileNotFound { line: 1, name: "missing".to_string() })
    );
}

#[test]
fn faulty_directives_fail_the_resolution() {
    let none: Vec<Result<String, String>> = vec![];
    assert_eq!(
        parse_hosts_file("@remote\n", &none, &vec![]),
        Err(HostsError::InvalidDirectiveSyntax { line: 1, text: "@remote".to_string() })
    );
    assert_eq!(
        parse_hosts_file("@other(x)\n", &none, &vec![]),
        Err(HostsError::UnsupportedDirective { line: 1, name: "other".to_string() })
    );
}

#[test]
fn flattened_document_is_validated() {
    let none: Vec<Result<String, String>> = vec![];
    assert_eq!(
        parse_hosts_file("1.2.3.4 a.com\n1.2.3.5 a.com\n", &none, &vec![]),
        Err(HostsError::DuplicateHostname { line: 2, hostname: "a.com".to_string() })
    );
    let supplied = vec![Ok("9.9.9.9 a.com".to_string())];
    assert_eq!(
        parse_hosts_file("1.2.3.4 a.com\n@remote(https://x.example/)\n", &supplied, &vec![]),
        Err(HostsError::DuplicateHostname { line: 3, hostname: "a.com".to_string() })
    );
}

#[test]
fn directives_in_what_was_supplied_are_not_resolved() {
    let supplied = vec![Ok("@local(inner)".to_string())];
    assert_eq!(
        parse_hosts_file("@local(outer)\n", &supplied, &vec![]),
        Err(HostsError::LocalFileNotFound { line: 2, name: "inner".to_string() })
    );
    assert_eq!(
        parse_hosts_file("@local(outer)\n", &supplied, &vec!["inner".to_string()]),
        complete("# Begin included local hosts file: outer\n@local(inner)\n# End included local hosts file\n")
    );
}
