use crate::error::{Fault, HostsError};
use crate::text::{
    find, position, same_chars, strip_leading, to_chars, to_text, without_leading,
};
use vstd::prelude::*;
use vstd::slice::slice_subrange;
use vstd::string::{StrSliceExecFns, StringExecFns};

verus! {

/// The error of the `url` crate's parser.
#[verifier::external_type_specification]
#[verifier::external_body]
pub struct ExParseError(url::ParseError);

/// What `url::Url::parse` makes of `text`: the scheme of the absolute URL
/// that it reads, or its error where it reads none.
pub uninterp spec fn url_parse(text: Seq<char>) -> Result<Seq<char>, url::ParseError>;

/// What an error of the parser says of itself, as its `Display` writes it.
pub uninterp spec fn url_error_text(e: url::ParseError) -> Seq<char>;

/// Calls `url::Url::parse` and, where that gives a URL, `url::Url::scheme`.
/// The outcome depends on the text alone: the scheme of the URL, or the
/// parser's error.
#[verifier::external_body]
fn parse_scheme(text: &str) -> (r: Result<String, url::ParseError>)
    ensures
        r matches Ok(s) ==> url_parse(text@) is Ok && url_parse(text@)->Ok_0 == s@,
        r matches Err(e) ==> url_parse(text@) is Err && url_parse(text@)->Err_0 == e,
{
    match url::Url::parse(text) {
        Ok(u) => Ok(u.scheme().to_string()),
        Err(e) => Err(e),
    }
}

/// Calls the `Display` of `url::ParseError`, which writes the description
/// that belongs to the error.
#[verifier::external_body]
fn describe(e: &url::ParseError) -> (r: String)
    ensures
        r@ == url_error_text(*e),
{
    e.to_string()
}

/// What the URL parser makes of `text`, as plain values: the scheme of the
/// absolute URL that it reads, or the reason why it reads none.
pub open spec fn url_scheme(text: Seq<char>) -> Result<Seq<char>, Seq<char>> {
    match url_parse(text) {
        Ok(scheme) => Ok(scheme),
        Err(e) => Err(url_error_text(e)),
    }
}

/// Whether `text` is an absolute URL with the scheme `https`.
pub open spec fn is_https(text: Seq<char>) -> bool {
    url_scheme(text) == Ok::<Seq<char>, Seq<char>>("https"@)
}

/// The scheme of the absolute URL that `text` is, or the reason why it is
/// none.
pub fn read_scheme(text: &str) -> (r: Result<String, String>)
    ensures
        r matches Ok(s) ==> url_scheme(text@) == Ok::<Seq<char>, Seq<char>>(s@),
        r matches Err(reason) ==> url_scheme(text@) == Err::<Seq<char>, Seq<char>>(reason@),
{
    match parse_scheme(text) {
        Ok(scheme) => Ok(scheme),
        Err(e) => Err(describe(&e)),
    }
}

/// The name and the parameter of a directive written as `@name(parameter)`.
/// The name is what stands before the first opening bracket, without the
/// `@` signs that it begins with. The parameter is what stands between that
/// bracket and the next opening bracket or the end, which must end with a
/// closing bracket that is no part of it. Neither may be empty.
pub open spec fn directive_parts(s: Seq<char>) -> Option<(Seq<char>, Seq<char>)> {
    let n = find(s, '(') as int;
    let name = strip_leading(s.subrange(0, n), '@');
    if n >= s.len() {
        None
    } else {
        let rest = s.subrange(n + 1, s.len() as int);
        let m = find(rest, '(') as int;
        if m == 0 || rest[m - 1] != ')' || m == 1 || name.len() == 0 {
            None
        } else {
            Some((name, rest.subrange(0, m - 1)))
        }
    }
}

/// Where the name and the parameter of a directive stand in its line.
pub struct Parts {
    pub name_from: usize,
    pub name_to: usize,
    pub param_from: usize,
    pub param_to: usize,
}

/// Finds the name and the parameter of a directive written as
/// `@name(parameter)`, or nothing where `s` is not of that form.
pub fn locate_parts(s: &[char]) -> (r: Option<Parts>)
    ensures
        r is Some <==> directive_parts(s@) is Some,
        r matches Some(p) ==> {
            &&& p.name_from < p.name_to < p.param_from < p.param_to < s@.len()
            &&& directive_parts(s@) == Some(
                (
                    s@.subrange(p.name_from as int, p.name_to as int),
                    s@.subrange(p.param_from as int, p.param_to as int),
                ),
            )
        },
{
    let n = position(s, '(');
    if n >= s.len() {
        return None;
    }
    let name = without_leading(slice_subrange(s, 0, n), '@');
    let rest = slice_subrange(s, n + 1, s.len());
    let m = position(rest, '(');
    if m == 0 || rest[m - 1] != ')' || m == 1 || name.len() == 0 {
        return None;
    }
    proof {
        assert(s@.subrange(0, n as int).subrange(n - name@.len(), n as int) =~= s@.subrange(
            n - name@.len(),
            n as int,
        ));
        assert(rest@.subrange(0, m - 1) =~= s@.subrange(n + 1, n + m));
    }
    Some(Parts { name_from: n - name.len(), name_to: n, param_from: n + 1, param_to: n + m })
}

/// The name and the parameter of a directive written as `@name(parameter)`,
/// or nothing where `line` is not of that form.
pub fn extract_func_param(line: &str) -> (r: Option<(&str, &str)>)
    ensures
        r is Some <==> directive_parts(line@) is Some,
        r matches Some(p) ==> directive_parts(line@) == Some((p.0@, p.1@)),
{
    let chars = to_chars(line);
    match locate_parts(chars.as_slice()) {
        None => None,
        Some(p) => Some(
            (
                line.substring_char(p.name_from, p.name_to),
                line.substring_char(p.param_from, p.param_to),
            ),
        ),
    }
}

/// What a directive asks to be put in its place.
#[derive(Debug, Clone, PartialEq, Eq)]
pub enum Directive {
    /// The document at an HTTPS URL.
    Remote { url: String },
    /// The managed file of a name.
    Local { name: String },
}

/// The name of the managed file that a `local` directive with the parameter
/// `name` refers to: the parameter with the suffix `.hosts`.
pub fn local_file_name(name: &str) -> (r: String)
    ensures
        r@ == name@ + ".hosts"@,
{
    let mut out = name.to_owned();
    out.append(".hosts");
    out
}

/// The parameter by which a `local` directive refers to the managed file
/// `file_name`: the name without the suffix `.hosts`, or nothing where the
/// name has not that suffix.
pub fn logical_name(file_name: &str) -> (r: Option<String>)
    ensures
        r matches Some(n) ==> file_name@ == n@ + ".hosts"@,
        r is None ==> !exists|n: Seq<char>| file_name@ == n + ".hosts"@,
{
    let chars = to_chars(file_name);
    let suffix = to_chars(".hosts");
    if chars.len() < suffix.len() {
        proof {
            assert forall|n: Seq<char>| file_name@ != #[trigger] (n + ".hosts"@) by {
                assert((n + ".hosts"@).len() == n.len() + ".hosts"@.len());
            }
        }
        return None;
    }
    let cut = chars.len() - suffix.len();
    let end = slice_subrange(chars.as_slice(), cut, chars.len());
    if same_chars(end, suffix.as_slice()) {
        let stem = slice_subrange(chars.as_slice(), 0, cut);
        proof {
            assert(chars@ =~= stem@ + suffix@);
        }
        Some(to_text(stem))
    } else {
        proof {
            assert forall|n: Seq<char>| file_name@ != #[trigger] (n + ".hosts"@) by {
                if file_name@ == n + ".hosts"@ {
                    assert((n + ".hosts"@).len() == n.len() + ".hosts"@.len());
                    assert((n + ".hosts"@).subrange(n.len() as int, (n + ".hosts"@).len() as int)
                        =~= ".hosts"@);
                }
            }
        }
        None
    }
}

/// What a `Directive` says, as plain values.
pub ghost enum Include {
    Remote { url: Seq<char> },
    Local { name: Seq<char> },
}

impl View for Directive {
    type V = Include;

    open spec fn view(&self) -> Include {
        match *self {
            Directive::Remote { url } => Include::Remote { url: url@ },
            Directive::Local { name } => Include::Local { name: name@ },
        }
    }
}

/// What was read from a URL, as plain values.
pub open spec fn scheme_view(scheme: Result<&str, &str>) -> Result<Seq<char>, Seq<char>> {
    match scheme {
        Ok(s) => Ok(s@),
        Err(reason) => Err(reason@),
    }
}

/// What a directive of the given name and parameter on line `n` asks for,
/// or why it is turned down, where `scheme` is what the URL parser makes of
/// the parameter: its scheme, or the reason why it is no absolute URL. Only
/// `remote`, with an HTTPS URL, and `local` are directives.
pub open spec fn directive_of(
    name: Seq<char>,
    param: Seq<char>,
    n: nat,
    scheme: Result<Seq<char>, Seq<char>>,
) -> Result<Include, Fault> {
    if name == "remote"@ {
        match scheme {
            Err(reason) => Err(Fault::InvalidUrl { line: n, reason }),
            Ok(s) => if s == "https"@ {
                Ok(Include::Remote { url: param })
            } else {
                Err(Fault::InsecureUrl { line: n })
            },
        }
    } else if name == "local"@ {
        Ok(Include::Local { name: param })
    } else {
        Err(Fault::UnsupportedDirective { line: n, name })
    }
}

/// What the directive on line `n` asks for, or why it is turned down. `t` is
/// the line without the whitespace around it, `raw` the line as it stands.
pub open spec fn directive(t: Seq<char>, raw: Seq<char>, n: nat) -> Result<Include, Fault> {
    match directive_parts(t) {
        None => Err(Fault::InvalidDirectiveSyntax { line: n, text: raw }),
        Some((name, param)) => directive_of(name, param, n, url_scheme(param)),
    }
}

/// Decides on a directive of the given name and parameter on line `line`,
/// where `scheme` is what the URL parser makes of the parameter: its scheme,
/// or the reason why it is no absolute URL.
pub fn judge_directive(name: &[char], param: &[char], scheme: Result<&str, &str>, line: usize) -> (r:
    Result<Directive, HostsError>)
    ensures
        r matches Ok(d) ==> directive_of(name@, param@, line as nat, scheme_view(scheme)) == Ok::<
            Include,
            Fault,
        >(d@),
        r matches Err(e) ==> directive_of(name@, param@, line as nat, scheme_view(scheme)) == Err::<
            Include,
            Fault,
        >(e@),
{
    let remote = to_chars("remote");
    let local = to_chars("local");
    if same_chars(name, remote.as_slice()) {
        match scheme {
            Err(reason) => Err(HostsError::InvalidUrl { line, reason: reason.to_owned() }),
            Ok(s) => {
                let found = to_chars(s);
                let https = to_chars("https");
                if same_chars(found.as_slice(), https.as_slice()) {
                    Ok(Directive::Remote { url: to_text(param) })
                } else {
                    Err(HostsError::InsecureUrl { line })
                }
            },
        }
    } else if same_chars(name, local.as_slice()) {
        Ok(Directive::Local { name: to_text(param) })
    } else {
        Err(HostsError::UnsupportedDirective { line, name: to_text(name) })
    }
}

/// Reads the directive on line `line`. `t` is the line without the
/// whitespace around it, `raw` the line as it stands.
pub fn read_directive(t: &[char], raw: &[char], line: usize) -> (r: Result<Directive, HostsError>)
    ensures
        r matches Ok(d) ==> directive(t@, raw@, line as nat) == Ok::<Include, Fault>(d@),
        r matches Err(e) ==> directive(t@, raw@, line as nat) == Err::<Include, Fault>(e@),
{
    let p = match locate_parts(t) {
        None => {
            return Err(HostsError::InvalidDirectiveSyntax { line, text: to_text(raw) });
        },
        Some(p) => p,
    };
    let name = slice_subrange(t, p.name_from, p.name_to);
    let param = slice_subrange(t, p.param_from, p.param_to);
    let text = to_text(param);
    match read_scheme(text.as_str()) {
        Ok(scheme) => judge_directive(name, param, Ok(scheme.as_str()), line),
        Err(reason) => judge_directive(name, param, Err(reason.as_str()), line),
    }
}

} // verus!
