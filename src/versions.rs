//! Release versions: dotted lists of numbers, compared part by part.

use vstd::prelude::*;
use crate::text::chars_of;

verus! {

/// `s` cut at every `sep`; there is always at least one piece.
pub open spec fn pieces(s: Seq<char>, sep: char) -> Seq<Seq<char>>
    decreases s.len(),
{
    if s.len() == 0 {
        seq![Seq::empty()]
    } else {
        let prior = pieces(s.drop_last(), sep);
        if s.last() == sep {
            prior.push(Seq::empty())
        } else {
            prior.update(prior.len() - 1, prior.last().push(s.last()))
        }
    }
}

/// The pieces of `s` between the separators `sep`.
pub fn split_on(s: &str, sep: char) -> (r: Vec<String>)
    ensures
        r.deep_view() == pieces(s@, sep),
{
    let c = chars_of(s);
    let mut out: Vec<String> = Vec::new();
    out.push(String::new());
    let mut i: usize = 0;
    assert(out.deep_view() =~= pieces(c@.subrange(0, 0), sep));
    while i < c.len()
        invariant
            c@ == s@,
            i <= c@.len(),
            out.deep_view() == pieces(c@.subrange(0, i as int), sep),
            out@.len() >= 1,
        decreases c@.len() - i,
    {
        let ghost pre = c@.subrange(0, i as int);
        assert(c@.subrange(0, i + 1).drop_last() =~= pre);
        assert(c@.subrange(0, i + 1).last() == c@[i as int]);
        let ghost before = out.deep_view();
        if c[i] == sep {
            out.push(String::new());
            assert(out.deep_view() =~= before.push(Seq::empty()));
        } else {
            let last = out.len() - 1;
            let mut piece = out[last].clone();
            piece.append(crate::diagnostics::char_text(c[i]).as_str());
            assert(piece@ =~= before.last().push(c@[i as int]));
            let ghost out_before = out@;
            out.set(last, piece);
            assert(out@ == out_before.update(last as int, piece));
            assert(out.deep_view() =~= before.update(last as int, before.last().push(c@[i as int])));
        }
        i = i + 1;
    }
    assert(c@.subrange(0, c@.len() as int) =~= c@);
    out
}

/// The number the decimal digits `d` spell.
pub open spec fn digits_value(d: Seq<char>) -> nat
    decreases d.len(),
{
    if d.len() == 0 {
        0
    } else {
        digits_value(d.drop_last()) * 10 + ((d.last() as u32) - 48) as nat
    }
}

/// Whether every character of `d` is an ASCII digit.
pub open spec fn all_digits(d: Seq<char>) -> bool {
    forall|i: int| 0 <= i < d.len() ==> '0' <= #[trigger] d[i] <= '9'
}

/// The digits of a version part once an optional leading `+` is dropped.
pub open spec fn unsigned_digits(p: Seq<char>) -> Seq<char> {
    if p.len() > 0 && p[0] == '+' {
        p.drop_first()
    } else {
        p
    }
}

/// The number a version part reads as: the unsigned 32-bit value it spells,
/// or zero when it spells none.
pub open spec fn part_value(p: Seq<char>) -> nat {
    let d = unsigned_digits(p);
    if d.len() > 0 && all_digits(d) && digits_value(d) <= u32::MAX {
        digits_value(d)
    } else {
        0
    }
}

/// The number of part `i` of `parts`, zero past its end.
pub open spec fn part_at(parts: Seq<Seq<char>>, i: int) -> nat {
    if 0 <= i < parts.len() {
        part_value(parts[i])
    } else {
        0
    }
}

/// Whether `remote` is above `current` comparing from part `i` on.
pub open spec fn newer_from(remote: Seq<Seq<char>>, current: Seq<Seq<char>>, i: int) -> bool
    decreases remote.len() + current.len() - i,
{
    if i < 0 || i >= remote.len() && i >= current.len() {
        false
    } else if part_at(remote, i) > part_at(current, i) {
        true
    } else if part_at(remote, i) < part_at(current, i) {
        false
    } else {
        newer_from(remote, current, i + 1)
    }
}

/// Whether version `remote` is above version `current`.
pub open spec fn newer(remote: Seq<char>, current: Seq<char>) -> bool {
    newer_from(pieces(remote, '.'), pieces(current, '.'), 0)
}

/// The number a version part reads as.
pub fn parse_part(p: &str) -> (r: u64)
    ensures
        r == part_value(p@),
{
    let c = chars_of(p);
    let mut start: usize = 0;
    if c.len() > 0 && c[0] == '+' {
        start = 1;
    }
    let ghost d = unsigned_digits(p@);
    assert(d =~= c@.subrange(start as int, c@.len() as int));
    if start >= c.len() {
        return 0;
    }
    let mut value: u64 = 0;
    let mut i = start;
    while i < c.len()
        invariant
            c@ == p@,
            start <= i <= c@.len(),
            d == c@.subrange(start as int, c@.len() as int),
            d == unsigned_digits(p@),
            all_digits(c@.subrange(start as int, i as int)),
            value == digits_value(c@.subrange(start as int, i as int)),
            value <= u32::MAX,
        decreases c@.len() - i,
    {
        let ch = c[i];
        if ch < '0' || ch > '9' {
            assert(!all_digits(d)) by {
                assert(d[i - start] == ch);
            }
            return 0;
        }
        let ghost next = c@.subrange(start as int, i + 1);
        assert(next.drop_last() =~= c@.subrange(start as int, i as int));
        assert(next.last() == ch);
        let digit = (ch as u32 - 48) as u64;
        let v = value * 10 + digit;
        assert(v == digits_value(next));
        if v > 4294967295 {
            proof {
                lemma_rest_bound(c@, start as int, i + 1);
            }
            return 0;
        }
        value = v;
        assert(all_digits(next)) by {
            assert forall|k: int| 0 <= k < next.len() implies '0' <= #[trigger] next[k] <= '9' by {
                if k < next.len() - 1 {
                    assert(next[k] == c@.subrange(start as int, i as int)[k]);
                }
            }
        }
        i = i + 1;
    }
    assert(c@.subrange(start as int, i as int) == d);
    value
}

/// Once a prefix of the digits passes the bound, so does every longer one.
proof fn lemma_rest_bound(c: Seq<char>, start: int, j: int)
    requires
        0 <= start < j <= c.len(),
        digits_value(c.subrange(start, j)) > u32::MAX,
    ensures
        !(all_digits(c.subrange(start, c.len() as int)) && digits_value(c.subrange(start, c.len() as int))
            <= u32::MAX),
    decreases c.len() - j,
{
    if j < c.len() {
        let next = c.subrange(start, j + 1);
        assert(next.drop_last() =~= c.subrange(start, j));
        if all_digits(c.subrange(start, c.len() as int)) {
            assert(next[next.len() - 1] == c.subrange(start, c.len() as int)[j - start]);
            lemma_rest_bound(c, start, j + 1);
        }
    } else {
        assert(c.subrange(start, j) =~= c.subrange(start, c.len() as int));
    }
}

/// Whether version `remote` is above version `current`: parts are compared
/// in order as numbers, a missing or unreadable part counting as zero.
pub fn is_newer(remote: &str, current: &str) -> (r: bool)
    ensures
        r == newer(remote@, current@),
{
    let rp = split_on(remote, '.');
    let cp = split_on(current, '.');
    let n = if rp.len() > cp.len() {
        rp.len()
    } else {
        cp.len()
    };
    let mut i: usize = 0;
    while i < n
        invariant
            rp.deep_view() == pieces(remote@, '.'),
            cp.deep_view() == pieces(current@, '.'),
            n == if rp@.len() > cp@.len() { rp@.len() } else { cp@.len() },
            i <= n,
            newer(remote@, current@) == newer_from(rp.deep_view(), cp.deep_view(), i as int),
        decreases n - i,
    {
        let r = if i < rp.len() {
            parse_part(rp[i].as_str())
        } else {
            0
        };
        let c = if i < cp.len() {
            parse_part(cp[i].as_str())
        } else {
            0
        };
        if r > c {
            return true;
        }
        if r < c {
            return false;
        }
        i = i + 1;
    }
    false
}

/// A release tag without its leading `v`s.
pub open spec fn tag_version(tag: Seq<char>) -> Seq<char> {
    tag.subrange(crate::diagnostics::strip_front(tag, 0, tag.len() as int, 'v'), tag.len() as int)
}

/// The version a release tag names: the tag without its leading `v`s.
pub fn release_version(tag: &str) -> (r: String)
    ensures
        r@ == tag_version(tag@),
{
    let c = chars_of(tag);
    let n = c.len();
    let mut a: usize = 0;
    while a < n && c[a] == 'v'
        invariant
            c@ == tag@,
            n == c@.len(),
            a <= n,
            crate::diagnostics::strip_front(c@, 0, n as int, 'v') == crate::diagnostics::strip_front(c@, a as int, n as int, 'v'),
        decreases n - a,
    {
        a = a + 1;
    }
    tag.substring_char(a, n)
        .to_owned()
}

} // verus!
