//! Profile identifiers: slugs made from names, and the candidates tried
//! when a slug is taken.

use vstd::prelude::*;
use crate::diagnostics::{char_text, strip_back, strip_front, trim_char};
use crate::text::{ascii_lower_char, chars_of, lower_char};

verus! {

/// Whether `c` is an ASCII letter or digit.
pub open spec fn ascii_alnum(c: char) -> bool {
    ('0' <= c <= '9') || ('a' <= c <= 'z') || ('A' <= c <= 'Z')
}

/// `name` with each ASCII letter or digit kept (lower-cased) and each run
/// of other characters turned into one dash.
pub open spec fn dashed_slug(name: Seq<char>) -> Seq<char>
    decreases name.len(),
{
    if name.len() == 0 {
        Seq::empty()
    } else {
        let prior = dashed_slug(name.drop_last());
        let c = name.last();
        if ascii_alnum(c) {
            prior.push(ascii_lower_char(c))
        } else if prior.len() > 0 && prior.last() == '-' {
            prior
        } else {
            prior.push('-')
        }
    }
}

/// The identifier made from a profile's name: its ASCII letters and digits
/// lower-cased, other runs of characters as single dashes, and no dash at
/// either end.
pub open spec fn slug(name: Seq<char>) -> Seq<char> {
    trim_char(dashed_slug(name), '-')
}

/// The identifier made from a profile's name.
pub fn slugify(name: &str) -> (r: String)
    ensures
        r@ == slug(name@),
{
    let c = chars_of(name);
    let mut out: Vec<char> = Vec::new();
    let mut prev_dash = false;
    let mut i: usize = 0;
    while i < c.len()
        invariant
            c@ == name@,
            i <= c@.len(),
            out@ == dashed_slug(c@.subrange(0, i as int)),
            prev_dash == (out@.len() > 0 && out@.last() == '-'),
        decreases c@.len() - i,
    {
        let ghost pre = c@.subrange(0, i + 1);
        assert(pre.drop_last() =~= c@.subrange(0, i as int));
        assert(pre.last() == c@[i as int]);
        let ch = c[i];
        let alnum = ('0' <= ch && ch <= '9') || ('a' <= ch && ch <= 'z') || ('A' <= ch && ch <= 'Z');
        if alnum {
            let lc = lower_char(ch);
            out.push(lc);
            prev_dash = false;
            assert(lc != '-');
        } else if !prev_dash {
            out.push('-');
            prev_dash = true;
        }
        i = i + 1;
    }
    assert(c@.subrange(0, c@.len() as int) =~= c@);
    let mut a: usize = 0;
    let n = out.len();
    while a < n && out[a] == '-'
        invariant
            a <= n,
            n == out@.len(),
            strip_front(out@, 0, n as int, '-') == strip_front(out@, a as int, n as int, '-'),
        decreases n - a,
    {
        a = a + 1;
    }
    let mut b = n;
    while a < b && out[b - 1] == '-'
        invariant
            a <= b <= n,
            n == out@.len(),
            strip_back(out@, a as int, n as int, '-') == strip_back(out@, a as int, b as int, '-'),
        decreases b - a,
    {
        b = b - 1;
    }
    let mut s = String::new();
    let mut k = a;
    while k < b
        invariant
            a <= k <= b,
            b <= n,
            n == out@.len(),
            s@ == out@.subrange(a as int, k as int),
        decreases b - k,
    {
        s.append(char_text(out[k]).as_str());
        assert(s@ =~= out@.subrange(a as int, k + 1));
        k = k + 1;
    }
    s
}

/// The decimal digits of `n`.
pub open spec fn decimal(n: nat) -> Seq<char>
    decreases n,
{
    if n < 10 {
        seq![(48 + n) as char]
    } else {
        decimal(n / 10).push((48 + n % 10) as char)
    }
}

/// The decimal digits of `n`.
pub fn decimal_text(n: u64) -> (r: String)
    ensures
        r@ == decimal(n as nat),
    decreases n,
{
    let digit = (48 + (n % 10) as u32) as u8 as char;
    if n < 10 {
        char_text(digit)
    } else {
        let head = decimal_text(n / 10);
        head.concat(char_text(digit).as_str())
    }
}

/// The identifier tried for a profile at attempt `suffix`: the base itself
/// first, then the base with `-2`, `-3` and so on.
pub open spec fn candidate(base: Seq<char>, suffix: nat) -> Seq<char> {
    if suffix <= 1 {
        base
    } else {
        base + "-"@ + decimal(suffix)
    }
}

/// The identifier tried for a profile at attempt `suffix`.
pub fn candidate_profile_id(base: &str, suffix: u64) -> (r: String)
    ensures
        r@ == candidate(base@, suffix as nat),
{
    if suffix <= 1 {
        String::from_str(base)
    } else {
        String::from_str(base).concat("-").concat(decimal_text(suffix).as_str())
    }
}

/// The base identifier of a new profile: the slug of its name, or, when the
/// name has no letter or digit, `profile-` and the given unique token.
pub fn profile_base_id(name: &str, unique: &str) -> (r: String)
    ensures
        slug(name@).len() > 0 ==> r@ == slug(name@),
        slug(name@).len() == 0 ==> r@ == "profile-"@ + unique@,
{
    let s = slugify(name);
    if s.unicode_len() > 0 {
        s
    } else {
        String::from_str("profile-").concat(unique)
    }
}

/// The base identifier of a new profile named `name`, drawing a fresh token
/// when the name yields no slug.
pub fn new_profile_base_id(name: &str) -> (r: String)
    ensures
        slug(name@).len() > 0 ==> r@ == slug(name@),
        slug(name@).len() == 0 ==> r@.len() == 8 + 32 && r@.subrange(0, 8) == "profile-"@,
{
    let s = slugify(name);
    if s.unicode_len() > 0 {
        return s;
    }
    let token = crate::clock::fresh_token();
    let r = String::from_str("profile-").concat(token.as_str());
    proof {
        reveal_strlit("profile-");
        assert(r@.subrange(0, 8) =~= "profile-"@);
    }
    r
}

/// The end of `lo..hi` once trailing white space is dropped.
pub open spec fn space_back(s: Seq<char>, lo: int, hi: int) -> int
    decreases hi - lo,
{
    if lo < hi && 0 < hi <= s.len() && crate::text::unicode_space(s[hi - 1]) {
        space_back(s, lo, hi - 1)
    } else {
        hi
    }
}

/// `s` without leading and trailing white space.
pub open spec fn trimmed(s: Seq<char>) -> Seq<char> {
    let lo = crate::diagnostics::skip_space(s, 0);
    s.subrange(lo, space_back(s, lo, s.len() as int))
}

/// The name a new profile is given: `name` trimmed, which must not be empty.
pub fn profile_name(name: &str) -> (r: Result<String, String>)
    ensures
        trimmed(name@).len() > 0 ==> (r matches Ok(n) && n@ == trimmed(name@)),
        trimmed(name@).len() == 0 ==> (r matches Err(m) && m@ == "Profile name is required"@),
{
    let c = chars_of(name);
    let n = c.len();
    let mut a: usize = 0;
    while a < n && crate::text::is_space(c[a])
        invariant
            c@ == name@,
            n == c@.len(),
            a <= n,
            crate::diagnostics::skip_space(c@, 0) == crate::diagnostics::skip_space(c@, a as int),
        decreases n - a,
    {
        a = a + 1;
    }
    let mut b = n;
    while a < b && crate::text::is_space(c[b - 1])
        invariant
            c@ == name@,
            n == c@.len(),
            a <= b <= n,
            space_back(c@, a as int, n as int) == space_back(c@, a as int, b as int),
        decreases b - a,
    {
        b = b - 1;
    }
    if a == b {
        return Err(String::from_str("Profile name is required"));
    }
    Ok(name.substring_char(a, b).to_owned())
}

/// The search for a free profile identifier: candidates are tried in turn
/// until one is not taken.
pub struct IdSearch {
    pub base: String,
    pub suffix: u64,
}

impl IdSearch {
    /// A search that tries `base` first.
    pub fn new(base: String) -> (r: IdSearch)
        ensures
            r.base == base,
            r.suffix == 1,
    {
        IdSearch { base, suffix: 1 }
    }

    /// The identifier to try now.
    pub fn candidate(&self) -> (r: String)
        ensures
            r@ == candidate(self.base@, self.suffix as nat),
    {
        candidate_profile_id(self.base.as_str(), self.suffix)
    }

    /// Moves on after the current identifier was found taken; `false` when
    /// no candidate is left.
    pub fn taken(&mut self) -> (r: bool)
        ensures
            final(self).base == old(self).base,
            r == (old(self).suffix < u64::MAX),
            r ==> final(self).suffix == old(self).suffix + 1,
            !r ==> final(self).suffix == old(self).suffix,
    {
        if self.suffix < u64::MAX {
            self.suffix = self.suffix + 1;
            true
        } else {
            false
        }
    }
}

} // verus!
