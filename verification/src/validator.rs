use crate::directive::{directive, read_directive, Directive, Include};
use crate::error::{Fault, HostsError};
use crate::hostname::{is_hostname, is_ignored, is_ignored_chars, HostnameMatcher};
use crate::ip::{is_address, is_address_chars};
use crate::names::{texts, NameSet};
use crate::text::{lines, split_lines, split_words, to_chars, to_text, tokens, trim, trimmed, views};
use vstd::prelude::*;

verus! {

/// What a line of a hosts document is.
#[derive(Debug, Clone, Copy, PartialEq, Eq)]
pub enum LineKind {
    /// Nothing but whitespace.
    Blank,
    /// A line that begins with `#`.
    Comment,
    /// A line that begins with `@`.
    Directive,
    /// Any other line: an address and a hostname.
    Record,
}

/// What the line `line` is, by the first character after the whitespace
/// that it begins with.
pub open spec fn kind_of(line: Seq<char>) -> LineKind {
    let t = trim(line);
    if t.len() == 0 {
        LineKind::Blank
    } else if t[0] == '#' {
        LineKind::Comment
    } else if t[0] == '@' {
        LineKind::Directive
    } else {
        LineKind::Record
    }
}

/// What the line `line` is.
pub fn line_kind(line: &[char]) -> (r: LineKind)
    ensures
        r == kind_of(line@),
{
    let t = trimmed(line);
    if t.len() == 0 {
        LineKind::Blank
    } else if t[0] == '#' {
        LineKind::Comment
    } else if t[0] == '@' {
        LineKind::Directive
    } else {
        LineKind::Record
    }
}

/// Whether a line, taken without the whitespace around it, is empty or a
/// comment.
pub open spec fn is_inert(t: Seq<char>) -> bool {
    t.len() == 0 || t[0] == '#'
}

/// Whether a line, taken without the whitespace around it, is a directive.
pub open spec fn is_directive_line(t: Seq<char>) -> bool {
    t.len() > 0 && t[0] == '@'
}

/// Whether a line is a record: neither empty, nor a comment, nor a directive.
pub open spec fn is_record(line: Seq<char>) -> bool {
    !is_inert(trim(line)) && !is_directive_line(trim(line))
}

/// The hostname that a record claims for itself: its second word, unless
/// that is an ignored hostname. Other lines claim none.
pub open spec fn claimed(line: Seq<char>) -> Option<Seq<char>> {
    let w = tokens(trim(line));
    if is_record(line) && w.len() >= 2 && !is_ignored(w[1]) {
        Some(w[1])
    } else {
        None
    }
}

/// The hostnames claimed by the lines before line `i`.
pub open spec fn claimed_before(lines: Seq<Seq<char>>, i: int) -> Set<Seq<char>> {
    Set::new(|h: Seq<char>| exists|j: int| 0 <= j < i && j < lines.len() && claimed(lines[j]) == Some(h))
}

/// What is wrong with the directive on line `n`, if anything. A `local`
/// directive must name one of the managed files, `locals`.
pub open spec fn directive_fault(
    t: Seq<char>,
    raw: Seq<char>,
    n: nat,
    locals: Set<Seq<char>>,
) -> Option<Fault> {
    match directive(t, raw, n) {
        Err(e) => Some(e),
        Ok(Include::Remote { url }) => None,
        Ok(Include::Local { name }) => if locals.contains(name) {
            None
        } else {
            Some(Fault::LocalFileNotFound { line: n, name })
        },
    }
}

/// What is wrong with a record of the words `w` on line `n`, if anything.
/// `raw` is the line as it stands, `seen` the hostnames claimed so far, and
/// `well_formed` says whether the second word has the form of a hostname.
/// The first word must be an address. The second, if there is one, is the
/// hostname: unless it is an ignored one, it must have the form of a
/// hostname and be new. A third word must begin a comment.
pub open spec fn record_fault_with(
    w: Seq<Seq<char>>,
    raw: Seq<char>,
    n: nat,
    seen: Set<Seq<char>>,
    well_formed: bool,
) -> Option<Fault> {
    if w.len() == 0 {
        None
    } else if !is_address(w[0]) {
        Some(Fault::InvalidIp { line: n, ip: w[0] })
    } else if w.len() < 2 {
        None
    } else if !is_ignored(w[1]) && !well_formed {
        Some(Fault::InvalidHostname { line: n, hostname: w[1] })
    } else if !is_ignored(w[1]) && seen.contains(w[1]) {
        Some(Fault::DuplicateHostname { line: n, hostname: w[1] })
    } else if w.len() >= 3 && w[2].len() > 0 && w[2][0] != '#' {
        Some(Fault::MultipleHostnamesUnsupported { line: n, text: raw })
    } else {
        None
    }
}

/// What is wrong with the record on line `n`, if anything. `t` is the line
/// without the whitespace around it, `raw` the line as it stands, `seen` the
/// hostnames claimed so far.
pub open spec fn record_fault(
    t: Seq<char>,
    raw: Seq<char>,
    n: nat,
    seen: Set<Seq<char>>,
) -> Option<Fault> {
    record_fault_with(tokens(t), raw, n, seen, tokens(t).len() >= 2 && is_hostname(tokens(t)[1]))
}

/// What is wrong with line `n`, if anything.
pub open spec fn line_fault(
    raw: Seq<char>,
    n: nat,
    seen: Set<Seq<char>>,
    locals: Set<Seq<char>>,
) -> Option<Fault> {
    let t = trim(raw);
    if is_inert(t) {
        None
    } else if is_directive_line(t) {
        directive_fault(t, raw, n, locals)
    } else {
        record_fault(t, raw, n, seen)
    }
}

/// What is wrong with line `i` of `lines`, counted from zero, if anything:
/// it is held against the hostnames that the lines before it claim.
pub open spec fn fault_at(lines: Seq<Seq<char>>, i: int, locals: Set<Seq<char>>) -> Option<Fault> {
    line_fault(lines[i], (i + 1) as nat, claimed_before(lines, i), locals)
}

/// The fault of the first faulty line among the lines from `from` on.
pub open spec fn first_fault(lines: Seq<Seq<char>>, from: int, locals: Set<Seq<char>>) -> Option<
    Fault,
>
    decreases lines.len() - from,
{
    if from < 0 || from >= lines.len() {
        None
    } else {
        match fault_at(lines, from, locals) {
            Some(f) => Some(f),
            None => first_fault(lines, from + 1, locals),
        }
    }
}

/// What is wrong with the document `content`, if anything: the fault of its
/// first faulty line.
pub open spec fn validation(content: Seq<char>, locals: Set<Seq<char>>) -> Option<Fault> {
    first_fault(lines(content), 0, locals)
}

/// Decides on a record of the words `words` on line `line`, where
/// `well_formed` says whether the second word has the form of a hostname.
/// A record that is accepted claims its hostname.
pub fn judge_record(
    words: &Vec<&[char]>,
    raw: &[char],
    line: usize,
    seen: &mut NameSet,
    well_formed: bool,
) -> (r: Result<(), HostsError>)
    ensures
        r is Ok <==> record_fault_with(views(words@), raw@, line as nat, old(seen)@, well_formed)
            is None,
        r matches Err(e) ==> record_fault_with(
            views(words@),
            raw@,
            line as nat,
            old(seen)@,
            well_formed,
        ) == Some(e@),
        r is Ok ==> final(seen)@ == if words@.len() >= 2 && !is_ignored(views(words@)[1]) {
            old(seen)@.insert(views(words@)[1])
        } else {
            old(seen)@
        },
        r is Err ==> final(seen)@ == old(seen)@,
{
    let w = words;
    if w.len() == 0 {
        return Ok(());
    }
    proof {
        assert(views(w@)[0] == w@[0]@);
    }
    if !is_address_chars(w[0]) {
        return Err(HostsError::InvalidIp { line, ip: to_text(w[0]) });
    }
    if w.len() < 2 {
        return Ok(());
    }
    proof {
        assert(views(w@)[1] == w@[1]@);
    }
    let host = w[1];
    let ignored = is_ignored_chars(host);
    if !ignored {
        if !well_formed {
            return Err(HostsError::InvalidHostname { line, hostname: to_text(host) });
        }
        if seen.contains(host) {
            return Err(HostsError::DuplicateHostname { line, hostname: to_text(host) });
        }
    }
    if w.len() >= 3 {
        proof {
            assert(views(w@)[2] == w@[2]@);
        }
        if w[2].len() > 0 && w[2][0] != '#' {
            return Err(HostsError::MultipleHostnamesUnsupported { line, text: to_text(raw) });
        }
    }
    if !ignored {
        seen.insert(host);
    }
    Ok(())
}

/// Checks the record on line `line`. `t` is the line without the whitespace
/// around it, `raw` the line as it stands.
fn check_record(
    t: &[char],
    raw: &[char],
    line: usize,
    seen: &mut NameSet,
    matcher: &HostnameMatcher,
) -> (r: Result<(), HostsError>)
    requires
        matcher.wf(),
    ensures
        r is Ok <==> record_fault(t@, raw@, line as nat, old(seen)@) is None,
        r matches Err(e) ==> record_fault(t@, raw@, line as nat, old(seen)@) == Some(e@),
        r is Ok ==> final(seen)@ == if tokens(t@).len() >= 2 && !is_ignored(tokens(t@)[1]) {
            old(seen)@.insert(tokens(t@)[1])
        } else {
            old(seen)@
        },
        r is Err ==> final(seen)@ == old(seen)@,
{
    let w = split_words(t);
    let well_formed = if w.len() >= 2 {
        proof {
            assert(views(w@)[1] == w@[1]@);
        }
        let name = to_text(w[1]);
        matcher.accepts(name.as_str())
    } else {
        false
    };
    judge_record(&w, raw, line, seen, well_formed)
}

/// Checks line `line` of a document against the hostnames claimed so far,
/// `seen`, and the managed files, `locals`. A record that is accepted claims
/// its hostname.
pub fn check_line(
    raw: &[char],
    line: usize,
    seen: &mut NameSet,
    locals: &NameSet,
    matcher: &HostnameMatcher,
) -> (r: Result<(), HostsError>)
    requires
        matcher.wf(),
    ensures
        r is Ok <==> line_fault(raw@, line as nat, old(seen)@, locals@) is None,
        r matches Err(e) ==> line_fault(raw@, line as nat, old(seen)@, locals@) == Some(e@),
        r is Ok ==> final(seen)@ == match claimed(raw@) {
            Some(h) => old(seen)@.insert(h),
            None => old(seen)@,
        },
        r is Err ==> final(seen)@ == old(seen)@,
{
    let t = trimmed(raw);
    match line_kind(raw) {
        LineKind::Blank | LineKind::Comment => Ok(()),
        LineKind::Directive => match read_directive(t, raw, line) {
            Err(e) => Err(e),
            Ok(Directive::Remote { url }) => Ok(()),
            Ok(Directive::Local { name }) => {
                let chars = to_chars(name.as_str());
                if locals.contains(chars.as_slice()) {
                    Ok(())
                } else {
                    Err(HostsError::LocalFileNotFound { line, name })
                }
            },
        },
        LineKind::Record => check_record(t, raw, line, seen, matcher),
    }
}

/// The hostnames claimed before line `i + 1` are those claimed before line
/// `i` and the one that line `i` claims.
pub proof fn lemma_claimed_before_step(lines: Seq<Seq<char>>, i: int)
    requires
        0 <= i < lines.len(),
    ensures
        claimed_before(lines, i + 1) == match claimed(lines[i]) {
            Some(h) => claimed_before(lines, i).insert(h),
            None => claimed_before(lines, i),
        },
{
    let a = claimed_before(lines, i);
    let b = claimed_before(lines, i + 1);
    let c = match claimed(lines[i]) {
        Some(h) => a.insert(h),
        None => a,
    };
    assert forall|h: Seq<char>| b.contains(h) <==> c.contains(h) by {
        if b.contains(h) {
            let j = choose|j: int| 0 <= j < i + 1 && j < lines.len() && claimed(lines[j]) == Some(h);
            if j < i {
                assert(a.contains(h));
            }
        }
        if a.contains(h) {
            let j = choose|j: int| 0 <= j < i && j < lines.len() && claimed(lines[j]) == Some(h);
            assert(0 <= j < i + 1 && j < lines.len() && claimed(lines[j]) == Some(h));
        }
        if claimed(lines[i]) == Some(h) {
            assert(0 <= i < i + 1 && i < lines.len() && claimed(lines[i]) == Some(h));
        }
    }
    assert(b =~= c);
}

/// Checks the document `content`, line by line, and stops at the first
/// faulty line.
pub fn validate_chars(content: &[char], locals: &NameSet) -> (r: Result<(), HostsError>)
    ensures
        r is Ok <==> validation(content@, locals@) is None,
        r matches Err(e) ==> validation(content@, locals@) == Some(e@),
{
    let all = split_lines(content);
    let matcher = HostnameMatcher::new();
    let mut seen = NameSet::new();
    let mut i: usize = 0;
    proof {
        assert(claimed_before(lines(content@), 0) =~= Set::<Seq<char>>::empty());
    }
    while i < all.len()
        invariant
            i <= all@.len(),
            views(all@) == lines(content@),
            matcher.wf(),
            seen@ == claimed_before(lines(content@), i as int),
            validation(content@, locals@) == first_fault(lines(content@), i as int, locals@),
        decreases all.len() - i,
    {
        proof {
            assert(views(all@)[i as int] == all@[i as int]@);
            lemma_claimed_before_step(lines(content@), i as int);
        }
        match check_line(all[i], i + 1, &mut seen, locals, &matcher) {
            Err(e) => {
                return Err(e);
            },
            Ok(()) => {},
        }
        i += 1;
    }
    Ok(())
}

/// Checks the hosts document `content`, line by line, and stops at the
/// first faulty line. `local_files` names the managed files that a `local`
/// directive may refer to.
pub fn validate_hosts_file(content: &str, local_files: &Vec<String>) -> (r: Result<
    (),
    HostsError,
>)
    ensures
        r is Ok <==> validation(content@, texts(local_files@)) is None,
        r matches Err(e) ==> validation(content@, texts(local_files@)) == Some(e@),
{
    let chars = to_chars(content);
    let locals = NameSet::from_strings(local_files);
    validate_chars(chars.as_slice(), &locals)
}

} // verus!
