use crate::directive::{directive, directive_parts, is_https, url_scheme, Include};
use crate::error::Fault;
use crate::hostname::{is_hostname, is_ignored};
use crate::ip::is_address;
use crate::resolver::{
    begin_marker, end_marker, expand, included, prepend, resolution, strip_newline, Expansion,
};
use crate::text::{
    find, is_whitespace, lemma_find, lemma_find_at, lemma_words_are_not_empty, lines, strip_cr,
    tokens, trim, trim_end,
};
use crate::validator::{
    claimed, claimed_before, directive_fault, fault_at, first_fault, is_directive_line, is_inert,
    is_record, lemma_claimed_before_step, line_fault, validation,
};
use crate::sync::{completed, failed, next_stop, onward, settled, ActionView, FileView};
use vstd::prelude::*;

verus! {

/// Faultless lines are passed over: where no line from `from` up to `j` is
/// faulty, the first fault from `from` on is the first fault from `j` on.
pub proof fn lemma_faultless_prefix(
    lines: Seq<Seq<char>>,
    from: int,
    j: int,
    locals: Set<Seq<char>>,
)
    requires
        0 <= from <= j <= lines.len(),
        forall|k: int| from <= k < j ==> fault_at(lines, k, locals) is None,
    ensures
        first_fault(lines, from, locals) == first_fault(lines, j, locals),
    decreases j - from,
{
    if from < j {
        lemma_faultless_prefix(lines, from + 1, j, locals);
    }
}

/// Validation stops at the first faulty line: where line `j` is faulty and
/// no line before it is, the document fails with the fault of line `j`.
pub proof fn law_first_fault_wins(content: Seq<char>, locals: Set<Seq<char>>, j: int)
    requires
        0 <= j < lines(content).len(),
        forall|k: int| 0 <= k < j ==> fault_at(lines(content), k, locals) is None,
        fault_at(lines(content), j, locals) is Some,
    ensures
        validation(content, locals) == fault_at(lines(content), j, locals),
{
    lemma_faultless_prefix(lines(content), 0, j, locals);
}

/// A document passes validation if and only if none of its lines is faulty.
pub proof fn law_valid_iff_faultless(content: Seq<char>, locals: Set<Seq<char>>)
    ensures
        validation(content, locals) is None <==> forall|k: int|
            0 <= k < lines(content).len() ==> fault_at(lines(content), k, locals) is None,
{
    let l = lines(content);
    if forall|k: int| 0 <= k < l.len() ==> fault_at(l, k, locals) is None {
        lemma_faultless_prefix(l, 0, l.len() as int, locals);
    } else {
        let k = choose|k: int| 0 <= k < l.len() && fault_at(l, k, locals) is Some;
        lemma_fault_found(l, 0, k, locals);
    }
}

/// Where line `k` is faulty, a fault is found from any line up to `k` on.
proof fn lemma_fault_found(lines: Seq<Seq<char>>, from: int, k: int, locals: Set<Seq<char>>)
    requires
        0 <= from <= k < lines.len(),
        fault_at(lines, k, locals) is Some,
    ensures
        first_fault(lines, from, locals) is Some,
    decreases k - from,
{
    if from < k && fault_at(lines, from, locals) is None {
        lemma_fault_found(lines, from + 1, k, locals);
    }
}

/// What does not begin with whitespace keeps its first character when the
/// whitespace at its end is taken off.
pub proof fn lemma_trim_end_keeps_first(s: Seq<char>)
    requires
        s.len() > 0,
        !is_whitespace(s[0]),
    ensures
        trim_end(s).len() > 0,
        trim_end(s)[0] == s[0],
    decreases s.len(),
{
    if is_whitespace(s.last()) {
        lemma_trim_end_keeps_first(s.drop_last());
    }
}

/// A line that begins with `#` is a comment: it is inert, and no directive.
pub proof fn law_comment_is_inert(line: Seq<char>)
    requires
        line.len() > 0,
        line[0] == '#',
    ensures
        is_inert(trim(line)),
        !is_directive_line(trim(line)),
        forall|n: nat, seen: Set<Seq<char>>, locals: Set<Seq<char>>|
            line_fault(line, n, seen, locals) is None,
{
    lemma_trim_end_keeps_first(line);
}

/// A document of which every line is empty or a comment passes validation.
pub proof fn law_inert_document_is_valid(content: Seq<char>, locals: Set<Seq<char>>)
    requires
        forall|i: int| 0 <= i < lines(content).len() ==> is_inert(trim(#[trigger] lines(content)[i])),
    ensures
        validation(content, locals) is None,
{
    law_valid_iff_faultless(content, locals);
}

/// A hostname that two records claim fails the document at the second of
/// them: where lines `i` and `j`, `i` before `j`, claim the hostname `h`,
/// line `j` begins with an address, and no line before `j` is faulty, the
/// document fails with a duplicate hostname, `h`, on line `j`.
pub proof fn law_duplicate_hostname(
    content: Seq<char>,
    locals: Set<Seq<char>>,
    i: int,
    j: int,
    h: Seq<char>,
)
    requires
        0 <= i < j < lines(content).len(),
        claimed(lines(content)[i]) == Some(h),
        claimed(lines(content)[j]) == Some(h),
        is_address(tokens(trim(lines(content)[j]))[0]),
        forall|k: int| 0 <= k < j ==> fault_at(lines(content), k, locals) is None,
    ensures
        validation(content, locals) == Some(
            Fault::DuplicateHostname { line: (j + 1) as nat, hostname: h },
        ),
{
    let l = lines(content);
    assert(fault_at(l, i, locals) is None);
    assert(is_hostname(h));
    assert(claimed_before(l, j).contains(h));
    law_first_fault_wins(content, locals, j);
}

/// An ignored hostname is accepted whatever its form and however often it
/// stands: a record of an address and an ignored hostname, with nothing
/// after it but a comment, is faultless whatever was claimed before, and
/// claims nothing.
pub proof fn law_ignored_hostname_accepted(
    line: Seq<char>,
    n: nat,
    seen: Set<Seq<char>>,
    locals: Set<Seq<char>>,
)
    requires
        is_record(line),
        tokens(trim(line)).len() >= 2,
        is_address(tokens(trim(line))[0]),
        is_ignored(tokens(trim(line))[1]),
        tokens(trim(line)).len() >= 3 ==> tokens(trim(line))[2][0] == '#',
    ensures
        line_fault(line, n, seen, locals) is None,
        claimed(line) is None,
{
}

/// Whether a line is a record of an address and an ignored hostname, with
/// nothing after it but a comment.
pub open spec fn names_ignored_host(line: Seq<char>) -> bool {
    &&& is_record(line)
    &&& tokens(trim(line)).len() >= 2
    &&& is_address(tokens(trim(line))[0])
    &&& is_ignored(tokens(trim(line))[1])
    &&& (tokens(trim(line)).len() >= 3 ==> tokens(trim(line))[2][0] == '#')
}

/// Ignored hostnames may stand as often as they like: a document of which
/// every line is a record of an address and an ignored hostname passes
/// validation.
pub proof fn law_ignored_hostnames_may_repeat(content: Seq<char>, locals: Set<Seq<char>>)
    requires
        forall|i: int| 0 <= i < lines(content).len() ==> names_ignored_host(#[trigger] lines(content)[i]),
    ensures
        validation(content, locals) is None,
{
    let l = lines(content);
    assert forall|k: int| 0 <= k < l.len() implies fault_at(l, k, locals) is None by {
        assert(names_ignored_host(l[k]));
        law_ignored_hostname_accepted(l[k], (k + 1) as nat, claimed_before(l, k), locals);
    }
    law_valid_iff_faultless(content, locals);
}

/// A second hostname is refused: a record of an address, a hostname that is
/// accepted, and a third word that begins no comment is faulty for its many
/// hostnames.
pub proof fn law_multiple_hostnames_refused(
    line: Seq<char>,
    n: nat,
    seen: Set<Seq<char>>,
    locals: Set<Seq<char>>,
)
    requires
        is_record(line),
        tokens(trim(line)).len() >= 3,
        is_address(tokens(trim(line))[0]),
        is_ignored(tokens(trim(line))[1]) || (is_hostname(tokens(trim(line))[1]) && !seen.contains(
            tokens(trim(line))[1],
        )),
        tokens(trim(line))[2][0] != '#',
    ensures
        line_fault(line, n, seen, locals) == Some(
            Fault::MultipleHostnamesUnsupported { line: n, text: line },
        ),
{
    lemma_words_are_not_empty(trim(line));
}

/// A `remote` directive whose URL is not an HTTPS one is faulty for its
/// insecure URL, and asks for nothing.
pub proof fn law_insecure_url_refused(
    t: Seq<char>,
    raw: Seq<char>,
    n: nat,
    locals: Set<Seq<char>>,
    url: Seq<char>,
)
    requires
        directive_parts(t) == Some(("remote"@, url)),
        url_scheme(url) is Ok,
        !is_https(url),
    ensures
        directive(t, raw, n) == Err::<Include, Fault>(Fault::InsecureUrl { line: n }),
        directive_fault(t, raw, n, locals) == Some(Fault::InsecureUrl { line: n }),
{
}

/// A `local` directive that names no managed file is faulty for the file
/// that is not found.
pub proof fn law_missing_local_file(
    t: Seq<char>,
    raw: Seq<char>,
    n: nat,
    locals: Set<Seq<char>>,
    name: Seq<char>,
)
    requires
        directive_parts(t) == Some(("local"@, name)),
        !locals.contains(name),
    ensures
        directive_fault(t, raw, n, locals) == Some(Fault::LocalFileNotFound { line: n, name }),
{
    reveal_strlit("local");
    reveal_strlit("remote");
    assert("local"@.len() != "remote"@.len());
}

/// The lines of `l`, each followed by a line feed.
pub open spec fn unfold(l: Seq<Seq<char>>) -> Seq<char>
    decreases l.len(),
{
    if l.len() == 0 {
        Seq::empty()
    } else {
        l[0] + "\n"@ + unfold(l.drop_first())
    }
}

/// The lines of `l` with a line feed between each two.
pub open spec fn join(l: Seq<Seq<char>>) -> Seq<char>
    decreases l.len(),
{
    if l.len() == 0 {
        Seq::empty()
    } else if l.len() == 1 {
        l[0]
    } else {
        l[0] + "\n"@ + join(l.drop_first())
    }
}

/// Whether none of the lines is a directive.
pub open spec fn no_directive(l: Seq<Seq<char>>) -> bool {
    forall|i: int| 0 <= i < l.len() ==> !is_directive_line(trim(#[trigger] l[i]))
}

/// Whether `a` holds no line feed.
pub open spec fn is_single_line(a: Seq<char>) -> bool {
    forall|j: int| 0 <= j < a.len() ==> a[j] != '\n'
}

/// Whether none of the lines holds a line feed.
pub open spec fn are_single_lines(l: Seq<Seq<char>>) -> bool {
    forall|i: int| 0 <= i < l.len() ==> is_single_line(#[trigger] l[i])
}

/// Without directives, what becomes of the lines from `i` on is these lines,
/// each followed by a line feed.
pub proof fn lemma_expand_plain(
    l: Seq<Seq<char>>,
    i: int,
    supplied: Seq<Result<Seq<char>, Seq<char>>>,
    k: int,
)
    requires
        0 <= i <= l.len(),
        no_directive(l),
    ensures
        expand(l, i, supplied, k) == Expansion::Text(unfold(l.subrange(i, l.len() as int))),
    decreases l.len() - i,
{
    let rest = l.subrange(i, l.len() as int);
    if i < l.len() {
        lemma_expand_plain(l, i + 1, supplied, k);
        assert(rest.drop_first() =~= l.subrange(i + 1, l.len() as int));
        assert(rest[0] == l[i]);
        assert(!is_directive_line(trim(l[i])));
    }
}

/// Lines that are each followed by a line feed are, but for the last line
/// feed, lines with a line feed between each two.
pub proof fn lemma_unfold_join(l: Seq<Seq<char>>)
    ensures
        l.len() > 0 ==> unfold(l) == join(l) + "\n"@,
        strip_newline(unfold(l)) == join(l),
    decreases l.len(),
{
    reveal_strlit("\n");
    if l.len() == 1 {
        assert(unfold(l.drop_first()) =~= Seq::<char>::empty());
        assert(unfold(l) =~= join(l) + "\n"@);
    } else if l.len() > 1 {
        lemma_unfold_join(l.drop_first());
        assert(unfold(l) =~= join(l) + "\n"@);
    }
    if l.len() > 0 {
        assert((join(l) + "\n"@).drop_last() =~= join(l));
    }
}

/// Resolving a document without directives asks for nothing and keeps every
/// line as it is: the outcome is the lines of the document with a line feed
/// between each two, if that passes validation, and else the fault that
/// validation finds in it.
pub proof fn law_plain_document_keeps_its_lines(
    content: Seq<char>,
    supplied: Seq<Result<Seq<char>, Seq<char>>>,
    locals: Set<Seq<char>>,
)
    requires
        no_directive(lines(content)),
    ensures
        resolution(content, supplied, locals) == match validation(join(lines(content)), locals) {
            Some(f) => Expansion::Failed(f),
            None => Expansion::Text(join(lines(content))),
        },
{
    let l = lines(content);
    lemma_expand_plain(l, 0, supplied, 0);
    assert(l.subrange(0, l.len() as int) =~= l);
    lemma_unfold_join(l);
}

/// No line of a document holds a line feed.
pub proof fn lemma_lines_are_single(s: Seq<char>)
    ensures
        are_single_lines(lines(s)),
    decreases s.len(),
{
    if s.len() > 0 {
        let n = find(s, '\n') as int;
        lemma_find(s, '\n');
        if n < s.len() {
            let first = strip_cr(s.subrange(0, n));
            let rest = s.subrange(n + 1, s.len() as int);
            lemma_lines_are_single(rest);
            assert(is_single_line(first));
            assert forall|i: int| 0 <= i < lines(s).len() implies is_single_line(
                #[trigger] lines(s)[i],
            ) by {
                if i > 0 {
                    assert(lines(s)[i] == lines(rest)[i - 1]);
                }
            }
        } else {
            assert(is_single_line(s));
        }
    }
}

/// The lines of a single line, a line feed and more text are that line,
/// without a carriage return at its end, and the lines of the text.
pub proof fn lemma_lines_cons(a: Seq<char>, rest: Seq<char>)
    requires
        is_single_line(a),
    ensures
        lines(a + "\n"@ + rest) == seq![strip_cr(a)] + lines(rest),
{
    reveal_strlit("\n");
    let s = a + "\n"@ + rest;
    lemma_find_at(s, '\n', a.len() as int);
    assert(s.subrange(0, a.len() as int) =~= a);
    assert(s.subrange(a.len() as int + 1, s.len() as int) =~= rest);
}

/// What lines put together with line feeds come apart into: the same lines
/// in the same order, each but the last without a carriage return at its
/// end; and an empty last line is not kept.
pub proof fn lemma_lines_of_join(l: Seq<Seq<char>>)
    requires
        are_single_lines(l),
    ensures
        lines(join(l)).len() == if l.len() > 0 && l.last().len() == 0 {
            l.len() - 1
        } else {
            l.len() as int
        },
        forall|k: int|
            0 <= k < lines(join(l)).len() ==> #[trigger] lines(join(l))[k] == if k < l.len() - 1 {
                strip_cr(l[k])
            } else {
                l[k]
            },
    decreases l.len(),
{
    if l.len() == 1 {
        assert(is_single_line(l[0]));
        if l[0].len() > 0 {
            lemma_find_at(l[0], '\n', l[0].len() as int);
            assert(lines(join(l)) =~= seq![l[0]]);
        }
    } else if l.len() > 1 {
        let rest = l.drop_first();
        assert(are_single_lines(rest)) by {
            assert forall|i: int| 0 <= i < rest.len() implies is_single_line(
                #[trigger] rest[i],
            ) by {
                assert(rest[i] == l[i + 1]);
            }
        }
        assert(rest.last() == l.last());
        lemma_lines_of_join(rest);
        assert(is_single_line(l[0]));
        lemma_lines_cons(l[0], join(rest));
        assert forall|k: int| 0 <= k < lines(join(l)).len() implies #[trigger] lines(join(l))[k]
            == if k < l.len() - 1 {
            strip_cr(l[k])
        } else {
            l[k]
        } by {
            if k > 0 {
                assert(lines(join(l))[k] == lines(join(rest))[k - 1]);
                assert(rest[k - 1] == l[k]);
            }
        }
    }
}

/// Whitespace at the end of a line does not count: a line that ends with
/// whitespace is, without the whitespace around it, what it is without its
/// last character.
pub proof fn lemma_trim_drop_whitespace(s: Seq<char>)
    requires
        s.len() > 0,
        is_whitespace(s.last()),
    ensures
        trim(s.drop_last()) == trim(s),
    decreases s.len(),
{
    if is_whitespace(s[0]) {
        if s.len() > 1 {
            assert(s.drop_last().drop_first() =~= s.drop_first().drop_last());
            lemma_trim_drop_whitespace(s.drop_first());
        } else {
            assert(s.drop_first() =~= s.drop_last());
        }
    }
}

/// A carriage return at the end of a line does not count: a line is,
/// without the whitespace around it, what it is without a carriage return
/// at its end.
pub proof fn lemma_trim_strip_cr(s: Seq<char>)
    ensures
        trim(strip_cr(s)) == trim(s),
{
    if s.len() > 0 && s.last() == '\r' {
        lemma_trim_drop_whitespace(s);
    }
}

/// Resolving a document without directives gives back its lines: the lines
/// of the flattened document are the lines of the document, in their order.
/// Two things only are not kept: a carriage return at the end of a line but
/// the last, and an empty last line. So each line is, without the
/// whitespace around it, what it was.
pub proof fn law_plain_document_round_trip(content: Seq<char>)
    ensures
        lines(join(lines(content))).len() == if lines(content).len() > 0 && lines(
            content,
        ).last().len() == 0 {
            lines(content).len() - 1
        } else {
            lines(content).len() as int
        },
        forall|k: int|
            0 <= k < lines(join(lines(content))).len() ==> #[trigger] lines(join(lines(content)))[k]
                == if k < lines(content).len() - 1 {
                strip_cr(lines(content)[k])
            } else {
                lines(content)[k]
            },
        forall|k: int|
            0 <= k < lines(join(lines(content))).len() ==> trim(
                #[trigger] lines(join(lines(content)))[k],
            ) == trim(lines(content)[k]),
{
    let l = lines(content);
    lemma_lines_are_single(content);
    lemma_lines_of_join(l);
    assert forall|k: int| 0 <= k < lines(join(l)).len() implies trim(
        #[trigger] lines(join(l))[k],
    ) == trim(l[k]) by {
        lemma_trim_strip_cr(l[k]);
    }
}

/// Whether a line is faulty hangs on what it is without the whitespace
/// around it, and on nothing else of it.
pub proof fn lemma_fault_goes_by_trimmed_line(
    a: Seq<char>,
    b: Seq<char>,
    n: nat,
    seen: Set<Seq<char>>,
    locals: Set<Seq<char>>,
)
    requires
        trim(a) == trim(b),
    ensures
        line_fault(a, n, seen, locals) is None <==> line_fault(b, n, seen, locals) is None,
        claimed(a) == claimed(b),
{
}

/// Lines that are, without the whitespace around them, the first lines of a
/// faultless document are faultless too.
pub proof fn lemma_trimmed_lines_stay_faultless(
    l: Seq<Seq<char>>,
    m: Seq<Seq<char>>,
    locals: Set<Seq<char>>,
)
    requires
        m.len() <= l.len(),
        forall|k: int| 0 <= k < m.len() ==> trim(#[trigger] m[k]) == trim(l[k]),
        forall|k: int| 0 <= k < l.len() ==> fault_at(l, k, locals) is None,
    ensures
        forall|k: int| 0 <= k < m.len() ==> fault_at(m, k, locals) is None,
{
    assert forall|k: int| 0 <= k < m.len() implies fault_at(m, k, locals) is None by {
        let a = claimed_before(l, k);
        let b = claimed_before(m, k);
        assert forall|h: Seq<char>| a.contains(h) <==> b.contains(h) by {
            if a.contains(h) {
                let j = choose|j: int| 0 <= j < k && j < l.len() && claimed(l[j]) == Some(h);
                assert(trim(m[j]) == trim(l[j]));
                lemma_fault_goes_by_trimmed_line(m[j], l[j], 0, a, locals);
                assert(0 <= j < k && j < m.len() && claimed(m[j]) == Some(h));
            }
            if b.contains(h) {
                let j = choose|j: int| 0 <= j < k && j < m.len() && claimed(m[j]) == Some(h);
                assert(trim(m[j]) == trim(l[j]));
                lemma_fault_goes_by_trimmed_line(m[j], l[j], 0, a, locals);
                assert(0 <= j < k && j < l.len() && claimed(l[j]) == Some(h));
            }
        }
        assert(a =~= b);
        assert(trim(m[k]) == trim(l[k]));
        lemma_fault_goes_by_trimmed_line(m[k], l[k], (k + 1) as nat, a, locals);
        assert(fault_at(l, k, locals) is None);
    }
}

/// A document that passes validation still passes it when it is put
/// together anew from its lines.
pub proof fn law_flattening_keeps_validity(content: Seq<char>, locals: Set<Seq<char>>)
    requires
        validation(content, locals) is None,
    ensures
        validation(join(lines(content)), locals) is None,
{
    let l = lines(content);
    law_valid_iff_faultless(content, locals);
    law_plain_document_round_trip(content);
    lemma_trimmed_lines_stay_faultless(l, lines(join(l)), locals);
    law_valid_iff_faultless(join(l), locals);
}

/// Resolving a document without directives a second time asks for nothing
/// and finds no fault: where the flattened document passes validation, it
/// resolves to its own lines, put together with line feeds.
pub proof fn law_plain_resolution_is_idempotent(
    content: Seq<char>,
    supplied: Seq<Result<Seq<char>, Seq<char>>>,
    locals: Set<Seq<char>>,
)
    requires
        no_directive(lines(content)),
        validation(join(lines(content)), locals) is None,
    ensures
        resolution(join(lines(content)), supplied, locals) == Expansion::Text(
            join(lines(join(lines(content)))),
        ),
{
    let l = lines(content);
    let out = join(l);
    let m = lines(out);
    law_plain_document_round_trip(content);
    assert(no_directive(m)) by {
        assert forall|i: int| 0 <= i < m.len() implies !is_directive_line(trim(#[trigger] m[i])) by {
            assert(trim(m[i]) == trim(l[i]));
            assert(!is_directive_line(trim(l[i])));
        }
    }
    law_flattening_keeps_validity(out, locals);
    law_plain_document_keeps_its_lines(out, supplied, locals);
}

/// A document of which every line is empty or a comment comes out of
/// resolving as its lines, with a line feed between each two.
pub proof fn law_inert_document_resolves(
    content: Seq<char>,
    supplied: Seq<Result<Seq<char>, Seq<char>>>,
    locals: Set<Seq<char>>,
)
    requires
        forall|i: int| 0 <= i < lines(content).len() ==> is_inert(trim(#[trigger] lines(content)[i])),
    ensures
        validation(content, locals) is None,
        resolution(content, supplied, locals) == Expansion::Text(join(lines(content))),
{
    let l = lines(content);
    let out = join(l);
    law_inert_document_is_valid(content, locals);
    law_plain_document_round_trip(content);
    assert forall|k: int| 0 <= k < lines(out).len() implies is_inert(
        trim(#[trigger] lines(out)[k]),
    ) by {
        assert(trim(lines(out)[k]) == trim(l[k]));
        assert(is_inert(trim(l[k])));
    }
    law_inert_document_is_valid(out, locals);
    law_plain_document_keeps_its_lines(content, supplied, locals);
}

/// The lines of a document without carriage returns, put together with line
/// feeds, are the document without the line feed at its end.
pub proof fn law_joined_lines_are_the_document(s: Seq<char>)
    requires
        forall|j: int| 0 <= j < s.len() ==> s[j] != '\r',
    ensures
        join(lines(s)) == strip_newline(s),
    decreases s.len(),
{
    reveal_strlit("\n");
    if s.len() > 0 {
        let n = find(s, '\n') as int;
        lemma_find(s, '\n');
        if n < s.len() {
            let first = s.subrange(0, n);
            let rest = s.subrange(n + 1, s.len() as int);
            assert(strip_cr(first) == first);
            assert(s =~= first + "\n"@ + rest);
            if rest.len() == 0 {
                assert(lines(rest) =~= Seq::<Seq<char>>::empty());
                assert(lines(s) =~= seq![first]);
                assert(s.drop_last() =~= first);
            } else {
                law_joined_lines_are_the_document(rest);
                assert(lines(s).drop_first() =~= lines(rest));
                assert(lines(rest).len() >= 1);
                assert(s.last() == rest.last());
                if rest.last() == '\n' {
                    assert(s.drop_last() =~= first + "\n"@ + rest.drop_last());
                }
            }
        }
    }
}

/// Only an HTTPS URL is ever asked for: where resolving comes to ask for a
/// remote document, its URL is an absolute URL with the scheme `https`.
pub proof fn lemma_expand_asks_https(
    l: Seq<Seq<char>>,
    i: int,
    supplied: Seq<Result<Seq<char>, Seq<char>>>,
    k: int,
)
    requires
        0 <= i <= l.len(),
    ensures
        expand(l, i, supplied, k) matches Expansion::Needs { wanted: Include::Remote { url }, .. }
            ==> is_https(url),
    decreases l.len() - i,
{
    if i < l.len() {
        lemma_expand_asks_https(l, i + 1, supplied, k);
        lemma_expand_asks_https(l, i + 1, supplied, k + 1);
    }
}

/// Only an HTTPS URL is ever asked for: where resolving a document comes to
/// ask for a remote document, its URL is an absolute URL with the scheme
/// `https`.
pub proof fn law_only_https_is_asked_for(
    content: Seq<char>,
    supplied: Seq<Result<Seq<char>, Seq<char>>>,
    locals: Set<Seq<char>>,
)
    ensures
        resolution(content, supplied, locals) matches Expansion::Needs {
            wanted: Include::Remote { url },
            ..
        } ==> is_https(url),
{
    lemma_expand_asks_https(lines(content), 0, supplied, 0);
}

/// A document fails at a record with a second hostname: where line `j` is a
/// record of an address, a hostname that is accepted, and a third word that
/// begins no comment, and no line before it is faulty, the document fails
/// for the many hostnames on line `j`.
pub proof fn law_second_hostname_fails_document(
    content: Seq<char>,
    locals: Set<Seq<char>>,
    j: int,
)
    requires
        0 <= j < lines(content).len(),
        forall|k: int| 0 <= k < j ==> fault_at(lines(content), k, locals) is None,
        is_record(lines(content)[j]),
        tokens(trim(lines(content)[j])).len() >= 3,
        is_address(tokens(trim(lines(content)[j]))[0]),
        is_ignored(tokens(trim(lines(content)[j]))[1]) || (is_hostname(
            tokens(trim(lines(content)[j]))[1],
        ) && !claimed_before(lines(content), j).contains(tokens(trim(lines(content)[j]))[1])),
        tokens(trim(lines(content)[j]))[2][0] != '#',
    ensures
        validation(content, locals) == Some(
            Fault::MultipleHostnamesUnsupported { line: (j + 1) as nat, text: lines(content)[j] },
        ),
{
    let l = lines(content);
    law_multiple_hostnames_refused(l[j], (j + 1) as nat, claimed_before(l, j), locals);
    law_first_fault_wins(content, locals, j);
}

/// A document fails at a `local` directive that names no managed file:
/// where line `j` is such a directive and no line before it is faulty, the
/// document fails for the file that is not found.
pub proof fn law_missing_local_file_fails_document(
    content: Seq<char>,
    locals: Set<Seq<char>>,
    j: int,
    name: Seq<char>,
)
    requires
        0 <= j < lines(content).len(),
        forall|k: int| 0 <= k < j ==> fault_at(lines(content), k, locals) is None,
        is_directive_line(trim(lines(content)[j])),
        directive_parts(trim(lines(content)[j])) == Some(("local"@, name)),
        !locals.contains(name),
    ensures
        validation(content, locals) == Some(
            Fault::LocalFileNotFound { line: (j + 1) as nat, name },
        ),
{
    let l = lines(content);
    law_missing_local_file(trim(l[j]), l[j], (j + 1) as nat, locals, name);
    law_first_fault_wins(content, locals, j);
}

/// Lines that are no directives are passed over: what becomes of the lines
/// from `i` on is the lines up to `j`, each followed by a line feed, and
/// then what becomes of the lines from `j` on.
pub proof fn lemma_expand_skips_plain(
    l: Seq<Seq<char>>,
    i: int,
    j: int,
    supplied: Seq<Result<Seq<char>, Seq<char>>>,
    k: int,
)
    requires
        0 <= i <= j <= l.len(),
        forall|m: int| i <= m < j ==> !is_directive_line(trim(#[trigger] l[m])),
    ensures
        expand(l, i, supplied, k) == prepend(unfold(l.subrange(i, j)), expand(l, j, supplied, k)),
    decreases j - i,
{
    let rest = expand(l, j, supplied, k);
    if i < j {
        lemma_expand_skips_plain(l, i + 1, j, supplied, k);
        assert(l.subrange(i, j).drop_first() =~= l.subrange(i + 1, j));
        assert(l.subrange(i, j)[0] == l[i]);
        assert(!is_directive_line(trim(l[i])));
        match rest {
            Expansion::Text(t) => {
                assert((l[i] + "\n"@) + (unfold(l.subrange(i + 1, j)) + t) =~= (l[i] + "\n"@
                    + unfold(l.subrange(i + 1, j))) + t);
            },
            _ => {},
        }
    } else {
        assert(l.subrange(i, j) =~= Seq::<Seq<char>>::empty());
        match rest {
            Expansion::Text(t) => {
                assert(Seq::<char>::empty() + t =~= t);
            },
            _ => {},
        }
    }
}

/// An insecure URL fails a document before anything is asked for: where
/// line `j` is a `remote` directive whose URL is not an HTTPS one, and no
/// line before it is a directive, resolving fails for the insecure URL on
/// line `j`, whatever was supplied; and where no line before it is faulty,
/// validation fails in the same way.
pub proof fn law_insecure_url_fails_document(
    content: Seq<char>,
    supplied: Seq<Result<Seq<char>, Seq<char>>>,
    locals: Set<Seq<char>>,
    j: int,
    url: Seq<char>,
)
    requires
        0 <= j < lines(content).len(),
        is_directive_line(trim(lines(content)[j])),
        directive_parts(trim(lines(content)[j])) == Some(("remote"@, url)),
        url_scheme(url) is Ok,
        !is_https(url),
    ensures
        (forall|k: int| 0 <= k < j ==> !is_directive_line(trim(#[trigger] lines(content)[k])))
            ==> resolution(content, supplied, locals) == Expansion::Failed(
            Fault::InsecureUrl { line: (j + 1) as nat },
        ),
        (forall|k: int| 0 <= k < j ==> fault_at(lines(content), k, locals) is None) ==> validation(
            content,
            locals,
        ) == Some(Fault::InsecureUrl { line: (j + 1) as nat }),
{
    let l = lines(content);
    law_insecure_url_refused(trim(l[j]), l[j], (j + 1) as nat, locals, url);
    if forall|k: int| 0 <= k < j ==> !is_directive_line(trim(#[trigger] l[k])) {
        lemma_expand_skips_plain(l, 0, j, supplied, 0);
    }
    if forall|k: int| 0 <= k < j ==> fault_at(l, k, locals) is None {
        law_first_fault_wins(content, locals, j);
    }
}

/// What resolving lets through has passed validation: a document is only
/// complete where validation finds no fault in it.
pub proof fn law_resolved_document_is_valid(
    content: Seq<char>,
    supplied: Seq<Result<Seq<char>, Seq<char>>>,
    locals: Set<Seq<char>>,
)
    ensures
        resolution(content, supplied, locals) matches Expansion::Text(t) ==> validation(t, locals)
            is None,
{
}

/// In a document that passes validation no hostname is claimed twice.
pub proof fn law_valid_document_claims_once(
    content: Seq<char>,
    locals: Set<Seq<char>>,
    i: int,
    j: int,
)
    requires
        validation(content, locals) is None,
        0 <= i < j < lines(content).len(),
        claimed(lines(content)[i]) is Some,
    ensures
        claimed(lines(content)[j]) != claimed(lines(content)[i]),
{
    let l = lines(content);
    law_valid_iff_faultless(content, locals);
    assert(fault_at(l, i, locals) is None);
    assert(fault_at(l, j, locals) is None);
    if claimed(l[j]) == claimed(l[i]) {
        assert(claimed_before(l, j).contains(claimed(l[i])->0));
    }
}

/// The lines that mark where an included document begins and ends are
/// comments, whatever the document is: resolving a flattened document again
/// asks for nothing on their account.
pub proof fn law_markers_are_comments(d: Include)
    ensures
        is_inert(trim(begin_marker(d))),
        is_inert(trim(end_marker(d))),
        !is_directive_line(trim(begin_marker(d))),
        !is_directive_line(trim(end_marker(d))),
        forall|n: nat, seen: Set<Seq<char>>, locals: Set<Seq<char>>|
            line_fault(begin_marker(d), n, seen, locals) is None,
        forall|n: nat, seen: Set<Seq<char>>, locals: Set<Seq<char>>|
            line_fault(end_marker(d), n, seen, locals) is None,
        claimed(begin_marker(d)) is None,
        claimed(end_marker(d)) is None,
{
    reveal_strlit("# Begin included remote hosts file: ");
    reveal_strlit("# Begin included local hosts file: ");
    reveal_strlit("# End included remote hosts file");
    reveal_strlit("# End included local hosts file");
    law_comment_is_inert(begin_marker(d));
    law_comment_is_inert(end_marker(d));
}

/// A document with one directive resolves to its lines with the included
/// document in the place of the directive: where line `j` is a directive
/// that is accepted, no other line is a directive, and `body` was supplied
/// for it, the flattened document is the lines before line `j`, the lines
/// that take the place of the directive, and the lines after line `j`,
/// without the line feed at the end; and that is the outcome if it passes
/// validation.
pub proof fn law_directive_is_replaced(
    content: Seq<char>,
    supplied: Seq<Result<Seq<char>, Seq<char>>>,
    locals: Set<Seq<char>>,
    j: int,
    d: Include,
    body: Seq<char>,
)
    requires
        0 <= j < lines(content).len(),
        forall|k: int|
            0 <= k < lines(content).len() && k != j ==> !is_directive_line(
                trim(#[trigger] lines(content)[k]),
            ),
        is_directive_line(trim(lines(content)[j])),
        directive(trim(lines(content)[j]), lines(content)[j], (j + 1) as nat) == Ok::<
            Include,
            Fault,
        >(d),
        supplied.len() >= 1,
        supplied[0] == Ok::<Seq<char>, Seq<char>>(body),
    ensures
        resolution(content, supplied, locals) == ({
            let flat = strip_newline(
                unfold(lines(content).subrange(0, j)) + included(d, body) + unfold(
                    lines(content).subrange(j + 1, lines(content).len() as int),
                ),
            );
            match validation(flat, locals) {
                Some(f) => Expansion::Failed(f),
                None => Expansion::Text(flat),
            }
        }),
{
    let l = lines(content);
    let n = l.len() as int;
    lemma_expand_skips_plain(l, 0, j, supplied, 0);
    lemma_expand_skips_plain(l, j + 1, n, supplied, 1);
    let before = unfold(l.subrange(0, j));
    let after = unfold(l.subrange(j + 1, n));
    assert(expand(l, n, supplied, 1) == Expansion::Text(Seq::<char>::empty()));
    assert(expand(l, j + 1, supplied, 1) == Expansion::Text(after)) by {
        assert(after + Seq::<char>::empty() =~= after);
    }
    assert(expand(l, j, supplied, 0) == Expansion::Text(included(d, body) + after));
    assert(before + (included(d, body) + after) =~= before + included(d, body) + after);
}

/// A remote document is put in the place of its directive, between its two
/// markers, and the outcome passes validation: where a document is a line
/// `a` and a `remote` directive `dir` for an HTTPS URL, and the remote
/// document is the line `b`, the flattened document has the lines `a`, the
/// marker of the beginning with the URL, `b`, an empty line, and the marker
/// of the end, in this order. No directive is among them unless `b` is one,
/// and the document passes validation where `a` is faultless and `b` is
/// faultless after it.
#[verifier::rlimit(40)]
pub proof fn law_remote_document_is_wrapped(
    a: Seq<char>,
    dir: Seq<char>,
    url: Seq<char>,
    b: Seq<char>,
    locals: Set<Seq<char>>,
)
    requires
        is_single_line(a) && strip_cr(a) == a,
        is_single_line(dir) && strip_cr(dir) == dir,
        is_single_line(url) && strip_cr(url) == url,
        is_single_line(b) && strip_cr(b) == b,
        !is_directive_line(trim(a)),
        is_directive_line(trim(dir)),
        directive(trim(dir), dir, 2) == Ok::<Include, Fault>(Include::Remote { url }),
    ensures
        ({
            let d = Include::Remote { url };
            let empty = Seq::<char>::empty();
            let out = join(seq![a, begin_marker(d), b, empty, end_marker(d), empty]);
            &&& lines(out) == seq![a, begin_marker(d), b, empty, end_marker(d)]
            &&& resolution(
                a + "\n"@ + dir + "\n"@,
                seq![Ok::<Seq<char>, Seq<char>>(b + "\n"@)],
                locals,
            ) == match validation(out, locals) {
                Some(f) => Expansion::Failed(f),
                None => Expansion::Text(out),
            }
            &&& line_fault(a, 1, Set::empty(), locals) is None && line_fault(
                b,
                3,
                match claimed(a) {
                    Some(h) => Set::empty().insert(h),
                    None => Set::empty(),
                },
                locals,
            ) is None ==> validation(out, locals) is None
        }),
{
    reveal_strlit("\n");
    reveal_strlit("# Begin included remote hosts file: ");
    reveal_strlit("# End included remote hosts file");
    let d = Include::Remote { url };
    let empty = Seq::<char>::empty();
    let begin = begin_marker(d);
    let end = end_marker(d);
    let content = a + "\n"@ + dir + "\n"@;
    let supplied = seq![Ok::<Seq<char>, Seq<char>>(b + "\n"@)];
    let p = seq![a, begin, b, empty, end, empty];
    let out = join(p);
    // the lines of the document
    lemma_lines_cons(dir, empty);
    assert(dir + "\n"@ + empty =~= dir + "\n"@);
    assert(lines(empty) =~= Seq::<Seq<char>>::empty());
    lemma_lines_cons(a, dir + "\n"@);
    assert(a + "\n"@ + (dir + "\n"@) =~= content);
    let l = lines(content);
    assert(l =~= seq![a, dir]);
    // what becomes of them
    assert(l.subrange(0, 1) =~= seq![a]);
    assert(l.subrange(2, 2) =~= Seq::<Seq<char>>::empty());
    assert(unfold(seq![a]) =~= a + "\n"@) by {
        assert(seq![a].drop_first() =~= Seq::<Seq<char>>::empty());
        assert(unfold(Seq::<Seq<char>>::empty()) =~= empty);
    }
    assert(unfold(Seq::<Seq<char>>::empty()) =~= empty);
    law_directive_is_replaced(content, supplied, locals, 1, d, b + "\n"@);
    let whole = a + "\n"@ + included(d, b + "\n"@) + empty;
    assert(unfold(p) =~= whole) by {
        let tail_a = p.drop_first();
        let tail_b = tail_a.drop_first();
        let tail_c = tail_b.drop_first();
        let tail_d = tail_c.drop_first();
        let tail_e = tail_d.drop_first();
        assert(tail_e.drop_first() =~= Seq::<Seq<char>>::empty());
        assert(unfold(tail_e) =~= empty + "\n"@);
        assert(unfold(tail_d) =~= end + "\n"@ + unfold(tail_e));
        assert(unfold(tail_c) =~= empty + "\n"@ + unfold(tail_d));
        assert(unfold(tail_b) =~= b + "\n"@ + unfold(tail_c));
        assert(unfold(tail_a) =~= begin + "\n"@ + unfold(tail_b));
        assert(unfold(p) =~= a + "\n"@ + unfold(tail_a));
    }
    lemma_unfold_join(p);
    // the lines of the outcome
    assert(are_single_lines(p)) by {
        assert(is_single_line(begin));
        assert(is_single_line(end));
        assert(is_single_line(empty));
    }
    lemma_lines_of_join(p);
    let m = lines(out);
    assert(m.len() == 5);
    assert(strip_cr(begin) == begin) by {
        lemma_find(trim(dir), '(');
    }
    assert(m =~= seq![a, begin, b, empty, end]);
    // their validity
    if line_fault(a, 1, Set::empty(), locals) is None && line_fault(
        b,
        3,
        match claimed(a) {
            Some(h) => Set::empty().insert(h),
            None => Set::empty(),
        },
        locals,
    ) is None {
        law_markers_are_comments(d);
        assert(claimed_before(m, 0) =~= Set::<Seq<char>>::empty());
        lemma_claimed_before_step(m, 0);
        lemma_claimed_before_step(m, 1);
        assert(trim(empty) =~= empty);
        assert forall|k: int| 0 <= k < m.len() implies fault_at(m, k, locals) is None by {
            if k == 0 {
            } else if k == 1 {
            } else if k == 2 {
            } else if k == 3 {
            } else {
            }
        }
        law_valid_iff_faultless(out, locals);
    }
}

/// A cycle that goes on with candidate `i` passes over the candidates
/// without a URL and comes to rest at the first candidate with a URL, or at
/// the end.
pub proof fn law_cycle_rests_at_a_fetch(c: Seq<FileView>, i: int)
    requires
        0 <= i <= c.len(),
    ensures
        i <= next_stop(c, i) <= c.len(),
        next_stop(c, i) < c.len() ==> c[next_stop(c, i)].has_url(),
        forall|k: int| i <= k < next_stop(c, i) ==> !c[k].has_url(),
    decreases c.len() - i,
{
    if i < c.len() && !c[i].has_url() {
        law_cycle_rests_at_a_fetch(c, i + 1);
    }
}

/// A cycle goes on until it has to wait for a fetch, and ends with the
/// report of success: what it asks for when it goes on with candidate `i`
/// ends with the fetch of the candidate at which it comes to rest, or, where
/// it comes to rest at the end, with the report that the sync is completed.
/// A candidate that is passed over on the way, or whose fetch has failed,
/// does not keep the cycle from its end.
pub proof fn law_cycle_goes_on(c: Seq<FileView>, i: int)
    requires
        0 <= i <= c.len(),
    ensures
        onward(c, i).len() > 0,
        next_stop(c, i) >= c.len() ==> onward(c, i).last() == completed(),
        next_stop(c, i) < c.len() ==> onward(c, i).last() == (ActionView::Fetch {
            url: c[next_stop(c, i)].remote_url->0,
            file_name: c[next_stop(c, i)].file_name(),
        }),
    decreases c.len() - i,
{
    if i < c.len() && !c[i].has_url() {
        law_cycle_goes_on(c, i + 1);
    }
}

/// The statuses of a cycle follow each other in order: while it goes on, a
/// cycle reports nothing but its success, and that as the last thing it
/// does; and when a fetch has ended, it reports nothing but the failure of
/// that fetch.
pub proof fn law_cycle_reports(c: Seq<FileView>, i: int, f: FileView, reason: Seq<char>)
    requires
        0 <= i <= c.len(),
    ensures
        forall|k: int|
            0 <= k < onward(c, i).len() && (#[trigger] onward(c, i)[k]) is Report ==> k == onward(
                c,
                i,
            ).len() - 1 && onward(c, i)[k] == completed(),
        forall|k: int|
            0 <= k < settled(f, Ok(())).len() ==> !((#[trigger] settled(f, Ok(()))[k]) is Report),
        settled(f, Err(reason)) == seq![failed(reason)],
    decreases c.len() - i,
{
    if i < c.len() && !c[i].has_url() {
        law_cycle_reports(c, i + 1, f, reason);
    }
}

} // verus!
