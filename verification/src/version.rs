use crate::ip::{all_digits, decimal_value, is_digit};
use crate::text::{split_fields, split_on, strip_leading, to_chars, views, without_leading};
use vstd::prelude::*;
use vstd::slice::slice_subrange;

verus! {

/// What is known of a release: whether it is newer than the running version,
/// its version, where to get it, and the running version.
#[derive(Debug, Clone)]
pub struct UpdateInfo {
    pub available: bool,
    pub latest_version: String,
    pub download_url: String,
    pub current_version: String,
}

/// The number that `s` stands for as a part of a version: decimal digits,
/// at least one, after an optional plus sign, and no more than 32 bits hold.
pub open spec fn number(s: Seq<char>) -> Option<u32> {
    let d = if s.len() > 0 && s[0] == '+' {
        s.drop_first()
    } else {
        s
    };
    if d.len() >= 1 && all_digits(d) && decimal_value(d) <= u32::MAX {
        Some(decimal_value(d) as u32)
    } else {
        None
    }
}

/// The three numbers of a version such as `1.2.3` or `v1.2.3`.
pub open spec fn version(s: Seq<char>) -> Option<(u32, u32, u32)> {
    let f = split_on(strip_leading(s, 'v'), '.');
    if f.len() == 3 && number(f[0]) is Some && number(f[1]) is Some && number(f[2]) is Some {
        Some((number(f[0])->0, number(f[1])->0, number(f[2])->0))
    } else {
        None
    }
}

/// Whether version `b` comes after version `a`: by the first number, then
/// the second, then the third.
pub open spec fn comes_after(b: (u32, u32, u32), a: (u32, u32, u32)) -> bool {
    b.0 > a.0 || (b.0 == a.0 && (b.1 > a.1 || (b.1 == a.1 && b.2 > a.2)))
}

/// Whether `remote` is a version, `current` is one, and `remote` comes after
/// `current`.
pub open spec fn newer(current: Seq<char>, remote: Seq<char>) -> bool {
    version(current) is Some && version(remote) is Some && comes_after(
        version(remote)->0,
        version(current)->0,
    )
}

/// The number that the first digits of a run stand for is not above the
/// number that the whole run stands for.
proof fn lemma_value_grows(s: Seq<char>, i: int)
    requires
        0 <= i <= s.len(),
    ensures
        decimal_value(s.subrange(0, i)) <= decimal_value(s),
    decreases s.len() - i,
{
    if i == s.len() {
        assert(s.subrange(0, i) =~= s);
    } else {
        lemma_value_grows(s.drop_last(), i);
        assert(s.drop_last().subrange(0, i) =~= s.subrange(0, i));
        assert(decimal_value(s.drop_last()) <= decimal_value(s)) by (nonlinear_arith)
            requires
                decimal_value(s) == decimal_value(s.drop_last()) * 10 + ((s.last() as u32
                    - '0' as u32) as nat),
        ;
    }
}

/// Reads one number of a version.
fn parse_number(s: &[char]) -> (r: Option<u32>)
    ensures
        r == number(s@),
{
    let d = if s.len() > 0 && s[0] == '+' {
        proof {
            assert(s@.subrange(1, s@.len() as int) =~= s@.drop_first());
        }
        slice_subrange(s, 1, s.len())
    } else {
        proof {
            assert(s@.subrange(0, s@.len() as int) =~= s@);
        }
        slice_subrange(s, 0, s.len())
    };
    assert(d@ == if s@.len() > 0 && s@[0] == '+' {
        s@.drop_first()
    } else {
        s@
    });
    if d.len() < 1 {
        return None;
    }
    let mut value: u64 = 0;
    let mut i: usize = 0;
    proof {
        assert(d@.subrange(0, 0) =~= Seq::<char>::empty());
    }
    while i < d.len()
        invariant
            i <= d.len(),
            forall|j: int| 0 <= j < i ==> is_digit(#[trigger] d@[j]),
            value == decimal_value(d@.subrange(0, i as int)),
            value <= u32::MAX,
            d@ == if s@.len() > 0 && s@[0] == '+' {
                s@.drop_first()
            } else {
                s@
            },
        decreases d.len() - i,
    {
        let c = d[i];
        if !('0' <= c && c <= '9') {
            proof {
                assert(!is_digit(d@[i as int]));
                assert(!all_digits(d@));
            }
            return None;
        }
        proof {
            assert(d@.subrange(0, i + 1).drop_last() =~= d@.subrange(0, i as int));
            assert(d@.subrange(0, i + 1).last() == c);
        }
        value = value * 10 + (c as u32 - '0' as u32) as u64;
        assert(value == decimal_value(d@.subrange(0, i + 1)));
        if value > 0xffff_ffff {
            proof {
                lemma_value_grows(d@, i + 1);
            }
            return None;
        }
        i += 1;
    }
    proof {
        assert(d@.subrange(0, d@.len() as int) =~= d@);
    }
    Some(value as u32)
}

/// Reads a version such as `1.2.3` or `v1.2.3`.
pub fn parse_version(version: &str) -> (r: Option<(u32, u32, u32)>)
    ensures
        r == self::version(version@),
{
    let chars = to_chars(version);
    let bare = without_leading(chars.as_slice(), 'v');
    let f = split_fields(bare, '.');
    if f.len() != 3 {
        return None;
    }
    proof {
        assert(views(f@)[0] == f@[0]@);
        assert(views(f@)[1] == f@[1]@);
        assert(views(f@)[2] == f@[2]@);
    }
    let major = match parse_number(f[0]) {
        Some(n) => n,
        None => {
            return None;
        },
    };
    let minor = match parse_number(f[1]) {
        Some(n) => n,
        None => {
            return None;
        },
    };
    let patch = match parse_number(f[2]) {
        Some(n) => n,
        None => {
            return None;
        },
    };
    Some((major, minor, patch))
}

/// Whether `remote` is a newer version than `current`. A text that is no
/// version is never newer, and nothing is newer than it.
pub fn is_newer_version(current: &str, remote: &str) -> (r: bool)
    ensures
        r == newer(current@, remote@),
{
    match (parse_version(current), parse_version(remote)) {
        (Some(c), Some(n)) => n.0 > c.0 || (n.0 == c.0 && (n.1 > c.1 || (n.1 == c.1 && n.2
            > c.2))),
        _ => false,
    }
}

/// What to tell about the release `tag` found at `url`, when `current` is
/// running: something only where the release is newer.
pub fn update_info(current: &str, tag: &str, url: &str) -> (r: Option<UpdateInfo>)
    ensures
        r is Some <==> newer(current@, tag@),
        r matches Some(info) ==> info.available && info.latest_version@ == tag@
            && info.download_url@ == url@ && info.current_version@ == current@,
{
    if is_newer_version(current, tag) {
        Some(
            UpdateInfo {
                available: true,
                latest_version: tag.to_owned(),
                download_url: url.to_owned(),
                current_version: current.to_owned(),
            },
        )
    } else {
        None
    }
}

} // verus!
