use hedit::error::HostsError;
use hedit::remote::{
    check_content_type, check_request, check_status, file_header, user_agent, FetchError,
    FETCH_TIMEOUT_SECS,
};
use hedit::settings::ConfigKey;
use hedit::system::{write_method, write_outcome, WriteMethod, STAGING_PATH, SYSTEM_HOSTS_PATH};
use hedit::version::{is_newer_version, parse_version, update_info};

#[test]
fn config_keys() {
    assert_eq!(ConfigKey::QuitOnClose.as_str(), "quitOnClose");
    assert_eq!(ConfigKey::AutoUpdateHostsEnabled.as_str(), "autoUpdateHostsEnabled");
    assert_eq!(ConfigKey::AutoUpdateHostsInterval.as_str(), "autoUpdateHostsInterval");
    assert_eq!(ConfigKey::DisableTelemetry.as_str(), "disableTelemetry");
}

#[test]
fn versions_are_read() {
    assert_eq!(parse_version("1.2.3"), Some((1, 2, 3)));
    assert_eq!(parse_version("v1.2.3"), Some((1, 2, 3)));
    assert_eq!(parse_version("vv10.0.007"), Some((10, 0, 7)));
    assert_eq!(parse_version("+1.+2.+3"), Some((1, 2, 3)));
    assert_eq!(parse_version("4294967295.0.0"), Some((4294967295, 0, 0)));
    assert_eq!(parse_version("4294967296.0.0"), None);
    assert_eq!(parse_version("99999999999999999999999.0.0"), None);
    assert_eq!(parse_version("1.2"), None);
    assert_eq!(parse_version("1.2.3.4"), None);
    assert_eq!(parse_version("1.2.x"), None);
    assert_eq!(parse_version("1..3"), None);
    assert_eq!(parse_version("1.2.+"), None);
    assert_eq!(parse_version("1.2.-3"), None);
    assert_eq!(parse_version("1.2.3-beta"), None);
    assert_eq!(parse_version("V1.2.3"), None);
    assert_eq!(parse_version(""), None);
}

#[test]
fn versions_agree_with_std() {
    for part in ["0", "7", "007", "+7", "++7", "-7", "", "+", "4294967295", "4294967296", " 7", "7 ", "٣"] {
        let text = format!("1.{}.3", part);
        let expected = part.parse::<u32>().ok().map(|n| (1, n, 3));
        assert_eq!(parse_version(&text), expected, "{:?}", part);
    }
}

#[test]
fn newer_versions() {
    assert!(is_newer_version("1.2.3", "1.2.4"));
    assert!(is_newer_version("1.2.3", "v1.3.0"));
    assert!(is_newer_version("v1.9.9", "2.0.0"));
    assert!(!is_newer_version("1.2.3", "1.2.3"));
    assert!(!is_newer_version("1.2.3", "1.2.2"));
    assert!(!is_newer_version("2.0.0", "1.9.9"));
    assert!(!is_newer_version("1.2.3", "nonsense"));
    assert!(!is_newer_version("nonsense", "1.2.3"));
}

#[test]
fn update_is_told_only_when_newer() {
    let info = update_info("1.0.0", "v1.1.0", "https://example.com/release");
    let info = info.expect("a newer release");
    assert!(info.available);
    assert_eq!(info.latest_version, "v1.1.0");
    assert_eq!(info.download_url, "https://example.com/release");
    assert_eq!(info.current_version, "1.0.0");
    assert!(update_info("1.1.0", "v1.1.0", "https://example.com/release").is_none());
}

#[test]
fn write_methods() {
    assert_eq!(write_method("linux"), Ok(WriteMethod::Elevated));
    assert_eq!(write_method("macos"), Ok(WriteMethod::Direct));
    assert_eq!(
        write_method("windows"),
        Err(HostsError::UnsupportedPlatform { platform: "windows".to_string() })
    );
    assert_eq!(write_method("Linux"), Err(HostsError::UnsupportedPlatform { platform: "Linux".to_string() }));
    assert_eq!(SYSTEM_HOSTS_PATH, "/etc/hosts");
    assert_eq!(STAGING_PATH, "/tmp/hedit_hosts_update");
}

#[test]
fn write_outcomes() {
    assert_eq!(write_outcome(true, "ignored"), Ok(()));
    assert_eq!(
        write_outcome(false, "not authorized"),
        Err(HostsError::PrivilegedWriteFailed { reason: "not authorized".to_string() })
    );
}

#[test]
fn fetch_requests_are_checked() {
    assert_eq!(check_request("https://good.example/hosts", "a.hosts"), Ok(()));
    assert_eq!(check_request("", "a.hosts"), Err(FetchError::EmptyArgument));
    assert_eq!(check_request("https://good.example/hosts", ""), Err(FetchError::EmptyArgument));
    assert_eq!(
        check_request("nonsense", "a.hosts"),
        Err(FetchError::InvalidUrl { reason: "relative URL without a base".to_string() })
    );
    assert_eq!(check_request("http://good.example/hosts", "a.hosts"), Err(FetchError::InsecureUrl));
}

#[test]
fn fetch_answers_are_checked() {
    assert_eq!(check_status(200), Ok(()));
    assert_eq!(check_status(299), Ok(()));
    assert_eq!(check_status(199), Err(FetchError::Rejected { status: 199 }));
    assert_eq!(check_status(300), Err(FetchError::Rejected { status: 300 }));
    assert_eq!(check_status(404), Err(FetchError::Rejected { status: 404 }));
    assert_eq!(check_content_type("text/plain"), Ok(()));
    assert_eq!(check_content_type("text/plain; charset=utf-8"), Ok(()));
    assert_eq!(
        check_content_type("text/html"),
        Err(FetchError::InvalidContentType { content_type: "text/html".to_string() })
    );
    assert_eq!(check_content_type(""), Err(FetchError::InvalidContentType { content_type: String::new() }));
    assert_eq!(
        check_content_type("Text/Plain"),
        Err(FetchError::InvalidContentType { content_type: "Text/Plain".to_string() })
    );
}

#[test]
fn fetch_texts() {
    assert_eq!(FETCH_TIMEOUT_SECS, 10);
    assert_eq!(file_header("https://a.example/x"), "# Fetched from: https://a.example/x\n# --------------\n");
    assert_eq!(user_agent("1.4.0"), "hedit.app/1.4.0");
}

#[test]
fn fetch_error_messages() {
    assert_eq!(FetchError::EmptyArgument.message(), "URL or file name is empty");
    assert_eq!(
        FetchError::InvalidUrl { reason: "empty host".to_string() }.message(),
        "Invalid URL: empty host"
    );
    assert_eq!(FetchError::InsecureUrl.message(), "Insecure URL: Only HTTPS is allowed.");
    assert_eq!(
        FetchError::Rejected { status: 503 }.message(),
        "Failed to fetch remote hosts file: HTTP status 503"
    );
    assert_eq!(
        FetchError::InvalidContentType { content_type: "text/html".to_string() }.message(),
        "Invalid Content-Type: expected 'text/plain', got 'text/html'"
    );
}

#[test]
fn hosts_error_messages() {
    let s = |t: &str| t.to_string();
    assert_eq!(HostsError::InvalidIp { line: 12, ip: s("x") }.message(), "Invalid IP at line 12: x");
    assert_eq!(
        HostsError::InvalidHostname { line: 3, hostname: s("-a") }.message(),
        "Invalid hostname at line 3: -a"
    );
    assert_eq!(
        HostsError::DuplicateHostname { line: 100, hostname: s("a.com") }.message(),
        "Duplicate hostname 'a.com' at line 100"
    );
    assert_eq!(
        HostsError::MultipleHostnamesUnsupported { line: 1, text: s("1.2.3.4 a b") }.message(),
        "Multiple hostnames on line 1 are not supported: 1.2.3.4 a b"
    );
    assert_eq!(
        HostsError::InvalidDirectiveSyntax { line: 2, text: s("@x") }.message(),
        "Invalid function syntax at line 2: @x"
    );
    assert_eq!(
        HostsError::UnsupportedDirective { line: 2, name: s("x") }.message(),
        "Unsupported function 'x' at line 2"
    );
    assert_eq!(
        HostsError::InvalidUrl { line: 9, reason: s("empty host") }.message(),
        "Invalid URL at line 9: empty host"
    );
    assert_eq!(
        HostsError::InsecureUrl { line: 4 }.message(),
        "Insecure URL. Only HTTPS is allowed at line 4."
    );
    assert_eq!(
        HostsError::RemoteFetchFailed { line: 5, url: s("https://a/"), reason: s("timed out") }.message(),
        "timed out 'https://a/' at line 5"
    );
    assert_eq!(
        HostsError::LocalFileNotFound { line: 6, name: s("work") }.message(),
        "Local hosts file 'work' not found at line 6"
    );
    assert_eq!(
        HostsError::UnsupportedPlatform { platform: s("windows") }.message(),
        "Unsupported platform: windows"
    );
    assert_eq!(HostsError::PrivilegedWriteFailed { reason: s("denied") }.message(), "denied");
}
