use crate::directive::{directive, read_directive, Directive, Include};
use crate::error::{Fault, HostsError};
use crate::names::{texts, NameSet};
use crate::text::{append_chars, append_text, lines, split_lines, to_chars, to_text, trim, trimmed, views};
use crate::validator::{is_directive_line, validate_chars, validation};
use vstd::prelude::*;

verus! {

/// How far the resolving of a document has come.
#[derive(Debug, Clone, PartialEq, Eq)]
pub enum Resolution {
    /// Every directive has been replaced: the flattened document, which has
    /// passed validation.
    Complete(String),
    /// What the directive on `line` asks for has not been supplied yet.
    Needs { directive: Directive, line: usize },
}

/// What becomes of a document, or of the part of it from some line on, when
/// its directives are replaced by what was supplied for them.
pub ghost enum Expansion {
    /// The text that takes its place.
    Text(Seq<char>),
    /// Nothing was supplied for the directive on `line`.
    Needs { wanted: Include, line: nat },
    /// A directive is faulty, or what it asks for could not be had.
    Failed(Fault),
}

/// What was supplied for the directives, as plain values: for each directive
/// in the order of the lines, what it stands for, or why that could not be
/// had.
pub open spec fn supplies(v: Seq<Result<String, String>>) -> Seq<Result<Seq<char>, Seq<char>>> {
    Seq::new(
        v.len(),
        |i: int|
            match v[i] {
                Ok(body) => Ok(body@),
                Err(reason) => Err(reason@),
            },
    )
}

/// The line that says where an included document begins, and where it
/// comes from.
pub open spec fn begin_marker(d: Include) -> Seq<char> {
    match d {
        Include::Remote { url } => "# Begin included remote hosts file: "@ + url,
        Include::Local { name } => "# Begin included local hosts file: "@ + name,
    }
}

/// The line that says where an included document ends.
pub open spec fn end_marker(d: Include) -> Seq<char> {
    match d {
        Include::Remote { url } => "# End included remote hosts file"@,
        Include::Local { name } => "# End included local hosts file"@,
    }
}

/// The lines that take the place of a directive: the line that says where
/// the included document begins, the document, the line that says where it
/// ends, and an empty line.
pub open spec fn included(d: Include, body: Seq<char>) -> Seq<char> {
    begin_marker(d) + "\n"@ + body + "\n"@ + end_marker(d) + "\n"@ + "\n"@
}

/// The fault of a directive on line `n` for which nothing could be had.
pub open spec fn unavailable(d: Include, n: nat, reason: Seq<char>) -> Fault {
    match d {
        Include::Remote { url } => Fault::RemoteFetchFailed { line: n, url, reason },
        Include::Local { name } => Fault::LocalFileNotFound { line: n, name },
    }
}

/// `e` with `prefix` before its text, where it is a text.
pub open spec fn prepend(prefix: Seq<char>, e: Expansion) -> Expansion {
    match e {
        Expansion::Text(t) => Expansion::Text(prefix + t),
        _ => e,
    }
}

/// What becomes of the lines from `i` on, where `k` directives stand before
/// them. A line that is no directive stays as it is, and ends with a line
/// feed. A directive is replaced by what was supplied for it. The first
/// directive that is faulty, for which nothing could be had, or for which
/// nothing was supplied yet, decides the outcome.
pub open spec fn expand(
    lines: Seq<Seq<char>>,
    i: int,
    supplied: Seq<Result<Seq<char>, Seq<char>>>,
    k: int,
) -> Expansion
    decreases lines.len() - i,
{
    if i < 0 || i >= lines.len() {
        Expansion::Text(Seq::empty())
    } else if is_directive_line(trim(lines[i])) {
        match directive(trim(lines[i]), lines[i], (i + 1) as nat) {
            Err(f) => Expansion::Failed(f),
            Ok(d) => if k < 0 || k >= supplied.len() {
                Expansion::Needs { wanted: d, line: (i + 1) as nat }
            } else {
                match supplied[k] {
                    Err(reason) => Expansion::Failed(unavailable(d, (i + 1) as nat, reason)),
                    Ok(body) => prepend(included(d, body), expand(lines, i + 1, supplied, k + 1)),
                }
            },
        }
    } else {
        prepend(lines[i] + "\n"@, expand(lines, i + 1, supplied, k))
    }
}

/// `s` without one line feed at its end.
pub open spec fn strip_newline(s: Seq<char>) -> Seq<char> {
    if s.len() > 0 && s.last() == '\n' {
        s.drop_last()
    } else {
        s
    }
}

/// What resolving the document `content` comes to: the flattened document
/// without the line feed at its end, if it passes validation; the fault found
/// in resolving or in validating; or the directive that is to be supplied
/// next.
pub open spec fn resolution(
    content: Seq<char>,
    supplied: Seq<Result<Seq<char>, Seq<char>>>,
    locals: Set<Seq<char>>,
) -> Expansion {
    match expand(lines(content), 0, supplied, 0) {
        Expansion::Text(t) => match validation(strip_newline(t), locals) {
            Some(f) => Expansion::Failed(f),
            None => Expansion::Text(strip_newline(t)),
        },
        other => other,
    }
}

/// Whether `r` is what `e` describes.
pub open spec fn agrees(r: Result<Resolution, HostsError>, e: Expansion) -> bool {
    match e {
        Expansion::Text(t) => r matches Ok(Resolution::Complete(s)) && s@ == t,
        Expansion::Needs { wanted, line } => r matches Ok(Resolution::Needs { directive, line: l })
            && directive@ == wanted && l == line,
        Expansion::Failed(f) => r matches Err(e) && e@ == f,
    }
}

/// To put `b` before a text and then `a` before that is to put `a` and `b`
/// before it.
proof fn lemma_prepend_twice(a: Seq<char>, b: Seq<char>, e: Expansion)
    ensures
        prepend(a, prepend(b, e)) == prepend(a + b, e),
{
    match e {
        Expansion::Text(t) => {
            assert(a + (b + t) =~= (a + b) + t);
        },
        _ => {},
    }
}

/// Appends the lines that take the place of the directive `d`.
fn push_included(out: &mut Vec<char>, d: &Directive, body: &str)
    ensures
        final(out)@ == old(out)@ + included(d@, body@),
{
    match d {
        Directive::Remote { url } => {
            append_text(out, "# Begin included remote hosts file: ");
            append_text(out, url.as_str());
        },
        Directive::Local { name } => {
            append_text(out, "# Begin included local hosts file: ");
            append_text(out, name.as_str());
        },
    }
    assert(out@ =~= old(out)@ + begin_marker(d@));
    append_text(out, "\n");
    append_text(out, body);
    append_text(out, "\n");
    match d {
        Directive::Remote { url } => {
            append_text(out, "# End included remote hosts file");
        },
        Directive::Local { name } => {
            append_text(out, "# End included local hosts file");
        },
    }
    append_text(out, "\n");
    append_text(out, "\n");
    assert(out@ =~= old(out)@ + included(d@, body@));
}

/// The error of the directive `d` on line `line`, for which nothing could
/// be had.
fn fetch_failure(d: Directive, line: usize, reason: &String) -> (e: HostsError)
    ensures
        e@ == unavailable(d@, line as nat, reason@),
{
    match d {
        Directive::Remote { url } => HostsError::RemoteFetchFailed {
            line,
            url,
            reason: reason.clone(),
        },
        Directive::Local { name } => HostsError::LocalFileNotFound { line, name },
    }
}

/// Resolves the document `content` as far as `supplied` reaches.
pub fn resolve_chars(
    content: &[char],
    supplied: &Vec<Result<String, String>>,
    locals: &NameSet,
) -> (r: Result<Resolution, HostsError>)
    ensures
        agrees(r, resolution(content@, supplies(supplied@), locals@)),
{
    let all = split_lines(content);
    let mut out: Vec<char> = Vec::new();
    let mut i: usize = 0;
    let mut k: usize = 0;
    let ghost whole = expand(lines(content@), 0, supplies(supplied@), 0);
    proof {
        match whole {
            Expansion::Text(t) => {
                assert(Seq::<char>::empty() + t =~= t);
            },
            _ => {},
        }
    }
    while i < all.len()
        invariant
            i <= all@.len(),
            k <= supplied@.len(),
            views(all@) == lines(content@),
            whole == expand(lines(content@), 0, supplies(supplied@), 0),
            whole == prepend(out@, expand(lines(content@), i as int, supplies(supplied@), k as int)),
        decreases all.len() - i,
    {
        let raw = all[i];
        proof {
            assert(views(all@)[i as int] == raw@);
        }
        let t = trimmed(raw);
        if t.len() > 0 && t[0] == '@' {
            let d = match read_directive(t, raw, i + 1) {
                Err(e) => {
                    return Err(e);
                },
                Ok(d) => d,
            };
            if k >= supplied.len() {
                return Ok(Resolution::Needs { directive: d, line: i + 1 });
            }
            proof {
                assert(supplies(supplied@)[k as int] == match supplied@[k as int] {
                    Ok(body) => Ok::<Seq<char>, Seq<char>>(body@),
                    Err(reason) => Err::<Seq<char>, Seq<char>>(reason@),
                });
            }
            match &supplied[k] {
                Err(reason) => {
                    return Err(fetch_failure(d, i + 1, reason));
                },
                Ok(body) => {
                    proof {
                        lemma_prepend_twice(
                            out@,
                            included(d@, body@),
                            expand(lines(content@), i + 1, supplies(supplied@), k + 1),
                        );
                    }
                    push_included(&mut out, &d, body.as_str());
                },
            }
            k += 1;
        } else {
            proof {
                lemma_prepend_twice(
                    out@,
                    raw@ + "\n"@,
                    expand(lines(content@), i + 1, supplies(supplied@), k as int),
                );
            }
            let ghost before = out@;
            append_chars(&mut out, raw);
            append_text(&mut out, "\n");
            proof {
                assert(out@ =~= before + (raw@ + "\n"@));
            }
        }
        i += 1;
    }
    proof {
        assert(out@ + Seq::<char>::empty() =~= out@);
    }
    if out.len() > 0 && out[out.len() - 1] == '\n' {
        out.pop();
    }
    match validate_chars(out.as_slice(), locals) {
        Err(e) => Err(e),
        Ok(()) => Ok(Resolution::Complete(to_text(out.as_slice()))),
    }
}

/// Resolves the hosts document `content`: replaces each directive by what
/// `supplied` holds for it, and validates the outcome. `supplied` holds, in
/// the order of the directives in the document, what each stands for, or why
/// that could not be had. Where it holds too little, the outcome is the
/// directive that is to be supplied next. `local_files` names the managed
/// files.
pub fn parse_hosts_file(
    content: &str,
    supplied: &Vec<Result<String, String>>,
    local_files: &Vec<String>,
) -> (r: Result<Resolution, HostsError>)
    ensures
        agrees(r, resolution(content@, supplies(supplied@), texts(local_files@))),
{
    let chars = to_chars(content);
    let locals = NameSet::from_strings(local_files);
    resolve_chars(chars.as_slice(), supplied, &locals)
}

} // verus!
