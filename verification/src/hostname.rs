use crate::text::{same_chars, split_on, to_chars};
use vstd::prelude::*;

verus! {

/// A compiled regular expression of the `regex` crate.
#[verifier::external_type_specification]
#[verifier::external_body]
pub struct ExRegex(regex::Regex);

/// The expression that `regex::Regex::new` makes of `pattern`, or nothing
/// where it refuses the pattern.
pub uninterp spec fn regex_of(pattern: Seq<char>) -> Option<regex::Regex>;

/// The pattern of a hostname: labels with a dot between each two, and
/// nothing before or after them. A label is made of letters, digits,
/// underscores and hyphens, and neither begins nor ends with a hyphen.
pub const HOSTNAME_PATTERN: &'static str =
    "^(([a-zA-Z0-9_]|[a-zA-Z0-9_][a-zA-Z0-9_-]*[a-zA-Z0-9_])\\.)*([a-zA-Z0-9_]|[a-zA-Z0-9_][a-zA-Z0-9_-]*[a-zA-Z0-9_])$";

/// The characters of a label: the letters of ASCII, the digits, the
/// underscore and the hyphen.
pub open spec fn is_label_char(c: char) -> bool {
    ||| ('a' <= c && c <= 'z')
    ||| ('A' <= c && c <= 'Z')
    ||| ('0' <= c && c <= '9')
    ||| c == '_'
    ||| c == '-'
}

/// A label: one character of a label or more, with no hyphen at either end.
pub open spec fn is_label(l: Seq<char>) -> bool {
    &&& l.len() >= 1
    &&& forall|i: int| 0 <= i < l.len() ==> is_label_char(#[trigger] l[i])
    &&& l[0] != '-'
    &&& l.last() != '-'
}

/// The form of a hostname: labels with a dot between each two.
pub open spec fn has_hostname_form(h: Seq<char>) -> bool {
    forall|i: int| 0 <= i < split_on(h, '.').len() ==> is_label(#[trigger] split_on(h, '.')[i])
}

/// Whether `h` is accepted as a hostname: the hostname pattern compiles, and
/// `h` has the form of a hostname.
pub open spec fn is_hostname(h: Seq<char>) -> bool {
    regex_of(HOSTNAME_PATTERN@) is Some && has_hostname_form(h)
}

/// Calls `regex::Regex::new`. The outcome depends on the pattern alone: it
/// is the expression made of that pattern, or nothing where the crate
/// refuses the pattern.
#[verifier::external_body]
fn compile(pattern: &str) -> (r: Option<regex::Regex>)
    ensures
        r == regex_of(pattern@),
{
    match regex::Regex::new(pattern) {
        Ok(re) => Some(re),
        Err(_) => None,
    }
}

/// Calls `regex::Regex::is_match` on the expression made of the hostname
/// pattern. By the crate's syntax the pattern is tied to both ends of the
/// haystack, a class in square brackets stands for one of its characters,
/// `*` for any number of what stands before it, `|` for either side, and
/// `\.` for a dot: so the expression matches exactly the texts that have
/// the form of a hostname.
#[verifier::external_body]
fn matches(re: &regex::Regex, haystack: &str) -> (r: bool)
    requires
        regex_of(HOSTNAME_PATTERN@) == Some(*re),
    ensures
        r == has_hostname_form(haystack@),
{
    re.is_match(haystack)
}

/// The hostnames that are exempt from the checks on format and uniqueness.
pub open spec fn is_ignored(h: Seq<char>) -> bool {
    h == "localhost"@ || h == "broadcasthost"@ || h == "localdomain"@
}

/// Whether `h` is one of `localhost`, `broadcasthost` and `localdomain`.
pub fn is_ignored_chars(h: &[char]) -> (r: bool)
    ensures
        r == is_ignored(h@),
{
    let a: [char; 9] = ['l', 'o', 'c', 'a', 'l', 'h', 'o', 's', 't'];
    let b: [char; 13] = ['b', 'r', 'o', 'a', 'd', 'c', 'a', 's', 't', 'h', 'o', 's', 't'];
    let c: [char; 11] = ['l', 'o', 'c', 'a', 'l', 'd', 'o', 'm', 'a', 'i', 'n'];
    proof {
        reveal_strlit("localhost");
        reveal_strlit("broadcasthost");
        reveal_strlit("localdomain");
        assert(a@ =~= "localhost"@);
        assert(b@ =~= "broadcasthost"@);
        assert(c@ =~= "localdomain"@);
    }
    same_chars(h, a.as_slice()) || same_chars(h, b.as_slice()) || same_chars(h, c.as_slice())
}

/// Whether `h` is one of `localhost`, `broadcasthost` and `localdomain`.
pub fn is_ignored_host(h: &str) -> (r: bool)
    ensures
        r == is_ignored(h@),
{
    let chars = to_chars(h);
    is_ignored_chars(chars.as_slice())
}

/// Tests hostnames against the hostname pattern, which it compiles once.
pub struct HostnameMatcher {
    compiled: Option<regex::Regex>,
}

impl HostnameMatcher {
    /// The matcher holds what the hostname pattern compiles to.
    pub closed spec fn wf(&self) -> bool {
        self.compiled == regex_of(HOSTNAME_PATTERN@)
    }

    /// Compiles the hostname pattern.
    pub fn new() -> (m: HostnameMatcher)
        ensures
            m.wf(),
    {
        HostnameMatcher { compiled: compile(HOSTNAME_PATTERN) }
    }

    /// Whether `hostname` is accepted as a hostname.
    pub fn accepts(&self, hostname: &str) -> (r: bool)
        requires
            self.wf(),
        ensures
            r == is_hostname(hostname@),
    {
        match &self.compiled {
            Some(re) => matches(re, hostname),
            None => false,
        }
    }
}

/// Whether `hostname` is accepted as a hostname: labels with a dot between
/// each two, each made of letters, digits, underscores and hyphens, with no
/// hyphen at either end.
pub fn is_valid_hostname(hostname: &str) -> (r: bool)
    ensures
        r == is_hostname(hostname@),
{
    let m = HostnameMatcher::new();
    m.accepts(hostname)
}

} // verus!
