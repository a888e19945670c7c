use crate::text::{same_chars, split_fields, split_on, to_chars, views};
use vstd::prelude::*;
use vstd::slice::slice_subrange;

verus! {

/// The decimal digits.
pub open spec fn is_digit(c: char) -> bool {
    '0' <= c && c <= '9'
}

/// The hexadecimal digits, in small or capital letters.
pub open spec fn is_hex_digit(c: char) -> bool {
    is_digit(c) || ('a' <= c && c <= 'f') || ('A' <= c && c <= 'F')
}

/// Whether `s` holds decimal digits only.
pub open spec fn all_digits(s: Seq<char>) -> bool {
    forall|i: int| 0 <= i < s.len() ==> is_digit(#[trigger] s[i])
}

/// The number that a run of decimal digits stands for.
pub open spec fn decimal_value(s: Seq<char>) -> nat
    decreases s.len(),
{
    if s.len() == 0 {
        0
    } else {
        decimal_value(s.drop_last()) * 10 + ((s.last() as u32 - '0' as u32) as nat)
    }
}

/// One of the four numbers of an IPv4 address: one to three decimal digits,
/// no leading zero before another digit, at most 255.
pub open spec fn is_octet(s: Seq<char>) -> bool {
    &&& 1 <= s.len() <= 3
    &&& all_digits(s)
    &&& (s.len() > 1 ==> s[0] != '0')
    &&& decimal_value(s) <= 255
}

/// An IPv4 address in dotted decimal notation: four octets with a dot
/// between each two.
pub open spec fn is_ipv4(s: Seq<char>) -> bool {
    let f = split_on(s, '.');
    &&& f.len() == 4
    &&& forall|i: int| 0 <= i < 4 ==> is_octet(#[trigger] f[i])
}

/// One of the eight numbers of an IPv6 address: one to four hexadecimal
/// digits.
pub open spec fn is_group(s: Seq<char>) -> bool {
    &&& 1 <= s.len() <= 4
    &&& forall|i: int| 0 <= i < s.len() ==> is_hex_digit(#[trigger] s[i])
}

/// Whether each of the fields is a group.
pub open spec fn all_groups(f: Seq<Seq<char>>) -> bool {
    forall|i: int| 0 <= i < f.len() ==> is_group(#[trigger] f[i])
}

/// How many of the eight groups the text `s` writes out, where it is a list
/// of groups with a colon between each two; the empty text lists none. An
/// IPv4 address may take the place of the last group where `dotted` allows
/// it, and then stands for two groups.
pub open spec fn groups_written(s: Seq<char>, dotted: bool) -> Option<nat> {
    let f = split_on(s, ':');
    if s.len() == 0 {
        Some(0)
    } else if all_groups(f) {
        Some(f.len())
    } else if dotted && all_groups(f.drop_last()) && is_ipv4(f.last()) {
        Some(f.len() + 1)
    } else {
        None
    }
}

/// Whether a pair of colons stands at place `j` of `s`.
pub open spec fn gap_at(s: Seq<char>, j: int) -> bool {
    0 <= j && j + 1 < s.len() && s[j] == ':' && s[j + 1] == ':'
}

/// The place of the first pair of colons in `s`, or the length of `s` where
/// it holds none.
pub open spec fn find_gap(s: Seq<char>) -> nat
    decreases s.len(),
{
    if s.len() < 2 {
        s.len()
    } else if gap_at(s, 0) {
        0
    } else {
        1 + find_gap(s.drop_first())
    }
}

/// An IPv6 address in its text form. Without a pair of colons it writes out
/// all eight groups. With one, the pair stands for at least one group of
/// zeros, the groups before it and those after it make seven at most, and
/// only the part after it may end in an IPv4 address.
pub open spec fn is_ipv6(s: Seq<char>) -> bool {
    let k = find_gap(s) as int;
    if k >= s.len() {
        groups_written(s, true) == Some(8nat)
    } else {
        let head = groups_written(s.subrange(0, k), false);
        let tail = groups_written(s.subrange(k + 2, s.len() as int), true);
        head is Some && tail is Some && head->0 + tail->0 <= 7
    }
}

/// The one scoped link-local address that is accepted as it stands.
pub open spec fn scoped_loopback() -> Seq<char> {
    "fe80::1%lo0"@
}

/// The texts accepted as the address of a record.
pub open spec fn is_address(s: Seq<char>) -> bool {
    is_ipv4(s) || is_ipv6(s) || s == scoped_loopback()
}

/// The first pair of colons stands at `n` where one stands there and none
/// before, and there is none where `n` is the length of `s`.
proof fn lemma_find_gap_at(s: Seq<char>, n: int)
    requires
        0 <= n <= s.len(),
        forall|j: int| 0 <= j < n ==> !gap_at(s, j),
        n < s.len() ==> gap_at(s, n),
    ensures
        find_gap(s) == n,
    decreases s.len(),
{
    if s.len() < 2 {
        if n < s.len() {
            assert(gap_at(s, n));
        }
    } else if gap_at(s, 0) {
    } else {
        let t = s.drop_first();
        assert forall|j: int| 0 <= j < n - 1 implies !gap_at(t, j) by {
            assert(!gap_at(s, j + 1));
            if j + 1 < t.len() {
                assert(t[j] == s[j + 1]);
                assert(t[j + 1] == s[j + 2]);
            }
        }
        if n < s.len() {
            assert(gap_at(s, n));
            assert(t[n - 1] == s[n]);
            assert(t[n] == s[n + 1]);
        }
        lemma_find_gap_at(t, n - 1);
    }
}

/// The place of the first pair of colons in `s`.
fn gap_position(s: &[char]) -> (n: usize)
    ensures
        n == find_gap(s@),
        n <= s@.len(),
        n < s@.len() ==> n + 2 <= s@.len(),
{
    if s.len() < 2 {
        proof {
            lemma_find_gap_at(s@, s@.len() as int);
        }
        return s.len();
    }
    let mut i: usize = 0;
    while i < s.len() - 1 && !(s[i] == ':' && s[i + 1] == ':')
        invariant
            i <= s.len() - 1,
            forall|j: int| 0 <= j < i ==> !gap_at(s@, j),
        decreases s.len() - i,
    {
        i += 1;
    }
    if i >= s.len() - 1 {
        i = s.len();
    }
    proof {
        lemma_find_gap_at(s@, i as int);
    }
    i
}

/// The value of a decimal digit.
fn digit_of(c: char) -> (r: Option<u32>)
    ensures
        r is Some <==> is_digit(c),
        r matches Some(d) ==> d == c as u32 - '0' as u32 && d < 10,
{
    if '0' <= c && c <= '9' {
        Some(c as u32 - '0' as u32)
    } else {
        None
    }
}

/// Whether `s` is an octet.
fn check_octet(s: &[char]) -> (r: bool)
    ensures
        r == is_octet(s@),
{
    if s.len() < 1 || s.len() > 3 {
        return false;
    }
    if s.len() > 1 && s[0] == '0' {
        return false;
    }
    let mut value: u32 = 0;
    let mut i: usize = 0;
    proof {
        assert(s@.subrange(0, 0) =~= Seq::<char>::empty());
    }
    while i < s.len()
        invariant
            i <= s.len() <= 3,
            forall|j: int| 0 <= j < i ==> is_digit(#[trigger] s@[j]),
            value == decimal_value(s@.subrange(0, i as int)),
            i == 0 ==> value == 0,
            i == 1 ==> value <= 9,
            i == 2 ==> value <= 99,
            i == 3 ==> value <= 999,
        decreases s.len() - i,
    {
        match digit_of(s[i]) {
            None => {
                return false;
            },
            Some(d) => {
                proof {
                    assert(s@.subrange(0, i + 1).drop_last() =~= s@.subrange(0, i as int));
                }
                value = value * 10 + d;
            },
        }
        i += 1;
    }
    proof {
        assert(s@.subrange(0, s@.len() as int) =~= s@);
    }
    value <= 255
}

/// Whether `s` is an IPv4 address.
fn check_ipv4(s: &[char]) -> (r: bool)
    ensures
        r == is_ipv4(s@),
{
    let f = split_fields(s, '.');
    if f.len() != 4 {
        return false;
    }
    let mut i: usize = 0;
    while i < 4
        invariant
            i <= 4,
            f@.len() == 4,
            views(f@) == split_on(s@, '.'),
            forall|j: int| 0 <= j < i ==> is_octet(#[trigger] views(f@)[j]),
        decreases 4 - i,
    {
        if !check_octet(f[i]) {
            proof {
                assert(views(f@)[i as int] == f@[i as int]@);
            }
            return false;
        }
        proof {
            assert(views(f@)[i as int] == f@[i as int]@);
        }
        i += 1;
    }
    true
}

/// Whether `c` is a hexadecimal digit.
fn is_hex(c: char) -> (r: bool)
    ensures
        r == is_hex_digit(c),
{
    ('0' <= c && c <= '9') || ('a' <= c && c <= 'f') || ('A' <= c && c <= 'F')
}

/// Whether `s` is a group.
fn check_group(s: &[char]) -> (r: bool)
    ensures
        r == is_group(s@),
{
    if s.len() < 1 || s.len() > 4 {
        return false;
    }
    let mut i: usize = 0;
    while i < s.len()
        invariant
            i <= s.len(),
            forall|j: int| 0 <= j < i ==> is_hex_digit(#[trigger] s@[j]),
        decreases s.len() - i,
    {
        if !is_hex(s[i]) {
            return false;
        }
        i += 1;
    }
    true
}

/// Whether the first `n` of the fields are groups.
fn check_groups(f: &Vec<&[char]>, n: usize) -> (r: bool)
    requires
        n <= f@.len(),
    ensures
        r == all_groups(views(f@).take(n as int)),
{
    let mut i: usize = 0;
    while i < n
        invariant
            i <= n <= f@.len(),
            forall|j: int| 0 <= j < i ==> is_group(#[trigger] views(f@)[j]),
        decreases n - i,
    {
        if !check_group(f[i]) {
            proof {
                assert(views(f@).take(n as int)[i as int] == f@[i as int]@);
            }
            return false;
        }
        proof {
            assert(views(f@)[i as int] == f@[i as int]@);
        }
        i += 1;
    }
    proof {
        assert forall|j: int| 0 <= j < views(f@).take(n as int).len() implies is_group(
            #[trigger] views(f@).take(n as int)[j],
        ) by {
            assert(views(f@).take(n as int)[j] == views(f@)[j]);
        }
    }
    true
}

/// The number of groups that `s` writes out, as far as it matters: any
/// number above eight is given as nine.
fn count_groups(s: &[char], dotted: bool) -> (r: Option<usize>)
    ensures
        r is Some <==> groups_written(s@, dotted) is Some,
        r matches Some(n) ==> n == if groups_written(s@, dotted)->0 <= 8 {
            groups_written(s@, dotted)->0
        } else {
            9
        },
{
    if s.len() == 0 {
        return Some(0);
    }
    let f = split_fields(s, ':');
    let n = f.len();
    proof {
        assert(views(f@).take(n as int) =~= views(f@));
        assert(views(f@).take(n - 1) =~= views(f@).drop_last());
        assert(views(f@).last() == f@[n - 1]@);
    }
    if check_groups(&f, n) {
        Some(if n <= 8 { n } else { 9 })
    } else if dotted && check_groups(&f, n - 1) && check_ipv4(f[n - 1]) {
        Some(if n <= 7 { n + 1 } else { 9 })
    } else {
        None
    }
}

/// Whether `s` is an IPv6 address.
fn check_ipv6(s: &[char]) -> (r: bool)
    ensures
        r == is_ipv6(s@),
{
    let k = gap_position(s);
    if k >= s.len() {
        match count_groups(s, true) {
            Some(n) => n == 8,
            None => false,
        }
    } else {
        let head = count_groups(slice_subrange(s, 0, k), false);
        let tail = count_groups(slice_subrange(s, k + 2, s.len()), true);
        match (head, tail) {
            (Some(h), Some(t)) => h <= 7 && t <= 7 - h,
            _ => false,
        }
    }
}

/// Whether `ip` may stand as the address of a record: an IPv4 address, an
/// IPv6 address, or the scoped link-local address `fe80::1%lo0`.
pub fn is_address_chars(ip: &[char]) -> (r: bool)
    ensures
        r == is_address(ip@),
{
    if check_ipv4(ip) || check_ipv6(ip) {
        return true;
    }
    let scoped: [char; 11] = ['f', 'e', '8', '0', ':', ':', '1', '%', 'l', 'o', '0'];
    proof {
        reveal_strlit("fe80::1%lo0");
        assert(scoped@ =~= scoped_loopback());
    }
    same_chars(ip, scoped.as_slice())
}

/// Whether `ip` may stand as the address of a record: an IPv4 address, an
/// IPv6 address, or the scoped link-local address `fe80::1%lo0`.
pub fn is_valid_ip(ip: &str) -> (r: bool)
    ensures
        r == is_address(ip@),
{
    let chars = to_chars(ip);
    is_address_chars(chars.as_slice())
}

} // verus!
