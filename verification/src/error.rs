use crate::text::{decimal, push_decimal};
use vstd::prelude::*;
use vstd::string::StringExecFns;

verus! {

/// Why a hosts document, or the request to install one, was turned down.
/// Lines are counted from one.
#[derive(Debug, Clone, PartialEq, Eq)]
pub enum HostsError {
    /// The first word of a record is no address.
    InvalidIp { line: usize, ip: String },
    /// The hostname of a record has not the form of one.
    InvalidHostname { line: usize, hostname: String },
    /// The hostname of a record stands in an earlier record too.
    DuplicateHostname { line: usize, hostname: String },
    /// A record names more than one hostname.
    MultipleHostnamesUnsupported { line: usize, text: String },
    /// A directive is not of the form `@name(parameter)`.
    InvalidDirectiveSyntax { line: usize, text: String },
    /// A directive is neither `remote` nor `local`.
    UnsupportedDirective { line: usize, name: String },
    /// The parameter of a `remote` directive is no absolute URL, for the
    /// reason that the URL parser gives.
    InvalidUrl { line: usize, reason: String },
    /// The URL of a `remote` directive is not an HTTPS one.
    InsecureUrl { line: usize },
    /// The document behind a `remote` directive could not be had.
    RemoteFetchFailed { line: usize, url: String, reason: String },
    /// No managed file has the name that a `local` directive gives.
    LocalFileNotFound { line: usize, name: String },
    /// The system hosts file cannot be written on this platform.
    UnsupportedPlatform { platform: String },
    /// Writing the system hosts file failed.
    PrivilegedWriteFailed { reason: String },
}

/// What a `HostsError` says, as plain values.
pub ghost enum Fault {
    InvalidIp { line: nat, ip: Seq<char> },
    InvalidHostname { line: nat, hostname: Seq<char> },
    DuplicateHostname { line: nat, hostname: Seq<char> },
    MultipleHostnamesUnsupported { line: nat, text: Seq<char> },
    InvalidDirectiveSyntax { line: nat, text: Seq<char> },
    UnsupportedDirective { line: nat, name: Seq<char> },
    InvalidUrl { line: nat, reason: Seq<char> },
    InsecureUrl { line: nat },
    RemoteFetchFailed { line: nat, url: Seq<char>, reason: Seq<char> },
    LocalFileNotFound { line: nat, name: Seq<char> },
    UnsupportedPlatform { platform: Seq<char> },
    PrivilegedWriteFailed { reason: Seq<char> },
}

impl Fault {
    /// The message shown to the user.
    pub open spec fn message(self) -> Seq<char> {
        match self {
            Fault::InvalidIp { line, ip } => "Invalid IP at line "@ + decimal(line) + ": "@ + ip,
            Fault::InvalidHostname { line, hostname } => "Invalid hostname at line "@ + decimal(
                line,
            ) + ": "@ + hostname,
            Fault::DuplicateHostname { line, hostname } => "Duplicate hostname '"@ + hostname
                + "' at line "@ + decimal(line),
            Fault::MultipleHostnamesUnsupported { line, text } => "Multiple hostnames on line "@
                + decimal(line) + " are not supported: "@ + text,
            Fault::InvalidDirectiveSyntax { line, text } => "Invalid function syntax at line "@
                + decimal(line) + ": "@ + text,
            Fault::UnsupportedDirective { line, name } => "Unsupported function '"@ + name
                + "' at line "@ + decimal(line),
            Fault::InvalidUrl { line, reason } => "Invalid URL at line "@ + decimal(line)
                + ": "@ + reason,
            Fault::InsecureUrl { line } => "Insecure URL. Only HTTPS is allowed at line "@
                + decimal(line) + "."@,
            Fault::RemoteFetchFailed { line, url, reason } => reason + " '"@ + url
                + "' at line "@ + decimal(line),
            Fault::LocalFileNotFound { line, name } => "Local hosts file '"@ + name
                + "' not found at line "@ + decimal(line),
            Fault::UnsupportedPlatform { platform } => "Unsupported platform: "@ + platform,
            Fault::PrivilegedWriteFailed { reason } => reason,
        }
    }
}

impl View for HostsError {
    type V = Fault;

    open spec fn view(&self) -> Fault {
        match *self {
            HostsError::InvalidIp { line, ip } => Fault::InvalidIp { line: line as nat, ip: ip@ },
            HostsError::InvalidHostname { line, hostname } => Fault::InvalidHostname {
                line: line as nat,
                hostname: hostname@,
            },
            HostsError::DuplicateHostname { line, hostname } => Fault::DuplicateHostname {
                line: line as nat,
                hostname: hostname@,
            },
            HostsError::MultipleHostnamesUnsupported {
                line,
                text,
            } => Fault::MultipleHostnamesUnsupported { line: line as nat, text: text@ },
            HostsError::InvalidDirectiveSyntax { line, text } => Fault::InvalidDirectiveSyntax {
                line: line as nat,
                text: text@,
            },
            HostsError::UnsupportedDirective { line, name } => Fault::UnsupportedDirective {
                line: line as nat,
                name: name@,
            },
            HostsError::InvalidUrl { line, reason } => Fault::InvalidUrl {
                line: line as nat,
                reason: reason@,
            },
            HostsError::InsecureUrl { line } => Fault::InsecureUrl { line: line as nat },
            HostsError::RemoteFetchFailed { line, url, reason } => Fault::RemoteFetchFailed {
                line: line as nat,
                url: url@,
                reason: reason@,
            },
            HostsError::LocalFileNotFound { line, name } => Fault::LocalFileNotFound {
                line: line as nat,
                name: name@,
            },
            HostsError::UnsupportedPlatform { platform } => Fault::UnsupportedPlatform {
                platform: platform@,
            },
            HostsError::PrivilegedWriteFailed { reason } => Fault::PrivilegedWriteFailed {
                reason: reason@,
            },
        }
    }
}

/// `before`, then `n` in decimal, then `between`, then `subject`.
fn numbered_first(before: &str, n: usize, between: &str, subject: &str) -> (r: String)
    ensures
        r@ == before@ + decimal(n as nat) + between@ + subject@,
{
    let mut out = String::new();
    out.append(before);
    push_decimal(&mut out, n);
    out.append(between);
    out.append(subject);
    proof {
        assert(Seq::<char>::empty() + before@ =~= before@);
    }
    out
}

/// `before`, then `subject`, then `between`, then `n` in decimal.
fn numbered_last(before: &str, subject: &str, between: &str, n: usize) -> (r: String)
    ensures
        r@ == before@ + subject@ + between@ + decimal(n as nat),
{
    let mut out = String::new();
    out.append(before);
    out.append(subject);
    out.append(between);
    push_decimal(&mut out, n);
    proof {
        assert(Seq::<char>::empty() + before@ =~= before@);
    }
    out
}

impl HostsError {
    /// The message shown to the user.
    pub fn message(&self) -> (r: String)
        ensures
            r@ == self@.message(),
    {
        match self {
            HostsError::InvalidIp { line, ip } => numbered_first(
                "Invalid IP at line ",
                *line,
                ": ",
                ip.as_str(),
            ),
            HostsError::InvalidHostname { line, hostname } => numbered_first(
                "Invalid hostname at line ",
                *line,
                ": ",
                hostname.as_str(),
            ),
            HostsError::DuplicateHostname { line, hostname } => numbered_last(
                "Duplicate hostname '",
                hostname.as_str(),
                "' at line ",
                *line,
            ),
            HostsError::MultipleHostnamesUnsupported { line, text } => numbered_first(
                "Multiple hostnames on line ",
                *line,
                " are not supported: ",
                text.as_str(),
            ),
            HostsError::InvalidDirectiveSyntax { line, text } => numbered_first(
                "Invalid function syntax at line ",
                *line,
                ": ",
                text.as_str(),
            ),
            HostsError::UnsupportedDirective { line, name } => numbered_last(
                "Unsupported function '",
                name.as_str(),
                "' at line ",
                *line,
            ),
            HostsError::InvalidUrl { line, reason } => numbered_first(
                "Invalid URL at line ",
                *line,
                ": ",
                reason.as_str(),
            ),
            HostsError::InsecureUrl { line } => {
                let mut out = String::new();
                out.append("Insecure URL. Only HTTPS is allowed at line ");
                push_decimal(&mut out, *line);
                out.append(".");
                proof {
                    assert(Seq::<char>::empty() + "Insecure URL. Only HTTPS is allowed at line "@
                        =~= "Insecure URL. Only HTTPS is allowed at line "@);
                }
                out
            },
            HostsError::RemoteFetchFailed { line, url, reason } => {
                let mut out = reason.clone();
                out.append(" '");
                out.append(url.as_str());
                out.append("' at line ");
                push_decimal(&mut out, *line);
                out
            },
            HostsError::LocalFileNotFound { line, name } => numbered_last(
                "Local hosts file '",
                name.as_str(),
                "' not found at line ",
                *line,
            ),
            HostsError::UnsupportedPlatform { platform } => {
                let mut out = String::new();
                out.append("Unsupported platform: ");
                out.append(platform.as_str());
                proof {
                    assert(Seq::<char>::empty() + "Unsupported platform: "@
                        =~= "Unsupported platform: "@);
                }
                out
            },
            HostsError::PrivilegedWriteFailed { reason } => reason.clone(),
        }
    }
}

} // verus!
