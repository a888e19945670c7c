use hedit::directive::{
    extract_func_param, local_file_name, logical_name, read_directive, read_scheme, Directive,
};
use hedit::error::HostsError;
use hedit::text::to_chars;

#[test]
fn extract_func_param_reads_name_and_parameter() {
    assert_eq!(extract_func_param("@remote(https://a.example/x)"), Some(("remote", "https://a.example/x")));
    assert_eq!(extract_func_param("@local(work)"), Some(("local", "work")));
    assert_eq!(extract_func_param("@@local(work)"), Some(("local", "work")));
    assert_eq!(extract_func_param("local(work)"), Some(("local", "work")));
    assert_eq!(extract_func_param("@x(a)(b)"), Some(("x", "a")));
    assert_eq!(extract_func_param("@x(é)"), Some(("x", "é")));
}

#[test]
fn extract_func_param_refuses_other_forms() {
    assert_eq!(extract_func_param("@remote"), None);
    assert_eq!(extract_func_param("@remote()"), None);
    assert_eq!(extract_func_param("@remote("), None);
    assert_eq!(extract_func_param("@remote(x"), None);
    assert_eq!(extract_func_param("@(x)"), None);
    assert_eq!(extract_func_param("@@(x)"), None);
    assert_eq!(extract_func_param("@remote(x) "), None);
    assert_eq!(extract_func_param("@remote(a(b))"), None);
    assert_eq!(extract_func_param(""), None);
}

fn read(line: &str) -> Result<Directive, HostsError> {
    let chars = to_chars(line);
    read_directive(&chars, &chars, 7)
}

#[test]
fn read_directive_accepts_remote_and_local() {
    assert_eq!(
        read("@remote(https://good.example/hosts)"),
        Ok(Directive::Remote { url: "https://good.example/hosts".to_string() })
    );
    assert_eq!(read("@remote(HTTPS://good.example/hosts)"), Ok(Directive::Remote { url: "HTTPS://good.example/hosts".to_string() }));
    assert_eq!(read("@local(work)"), Ok(Directive::Local { name: "work".to_string() }));
}

#[test]
fn read_directive_names_each_fault() {
    assert_eq!(read("@remote"), Err(HostsError::InvalidDirectiveSyntax { line: 7, text: "@remote".to_string() }));
    assert_eq!(read("@remote(not a url)"), Err(HostsError::InvalidUrl { line: 7, reason: "relative URL without a base".to_string() }));
    assert_eq!(read("@remote(http://example.com/list)"), Err(HostsError::InsecureUrl { line: 7 }));
    assert_eq!(read("@remote(ftp://example.com/list)"), Err(HostsError::InsecureUrl { line: 7 }));
    assert_eq!(read("@fetch(x)"), Err(HostsError::UnsupportedDirective { line: 7, name: "fetch".to_string() }));
    assert_eq!(read("@Remote(https://a.example)"), Err(HostsError::UnsupportedDirective { line: 7, name: "Remote".to_string() }));
}

#[test]
fn local_directive_names_a_managed_file() {
    assert_eq!(local_file_name("work"), "work.hosts");
    assert_eq!(local_file_name(""), ".hosts");
}

#[test]
fn managed_file_has_a_logical_name() {
    assert_eq!(logical_name("work.hosts"), Some("work".to_string()));
    assert_eq!(logical_name(".hosts"), Some(String::new()));
    assert_eq!(logical_name("a.hosts.hosts"), Some("a.hosts".to_string()));
    assert_eq!(logical_name("work.host"), None);
    assert_eq!(logical_name("work.hosts "), None);
    assert_eq!(logical_name("work.HOSTS"), None);
    assert_eq!(logical_name("hosts"), None);
    assert_eq!(logical_name(""), None);
    assert_eq!(logical_name(&local_file_name("é")), Some("é".to_string()));
}

#[test]
fn scheme_is_read_from_a_url() {
    assert_eq!(read_scheme("https://a.example/x"), Ok("https".to_string()));
    assert_eq!(read_scheme("HTTP://a.example/x"), Ok("http".to_string()));
    assert_eq!(read_scheme("mailto:someone@a.example"), Ok("mailto".to_string()));
    assert_eq!(read_scheme("a.example/x"), Err("relative URL without a base".to_string()));
    assert_eq!(read_scheme("https://"), Err("empty host".to_string()));
    assert_eq!(read_scheme("https://a.example:99999/"), Err("invalid port number".to_string()));
}
