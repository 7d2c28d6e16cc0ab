//! Locations on disk: the user's configuration directory and paths
//! written with the home directory abbreviated.

use vstd::prelude::*;
use crate::diagnostics::Platform;
use crate::text::{chars_of, occurs_at};

verus! {

/// Relies on dirs::home_dir: the current user's home directory, if it can
/// be found. Nothing is promised of its value.
#[verifier::external_body]
fn home_dir_text() -> (r: Option<String>) {
    dirs::home_dir().map(|p| p.to_string_lossy().into_owned())
}

/// The directory under `home` where desktop applications keep their
/// configuration on `platform`.
pub open spec fn config_dir_in(home: Seq<char>, platform: Platform) -> Seq<char> {
    match platform {
        Platform::MacOs => home + "/Library/Application Support"@,
        Platform::Windows => home + "/AppData/Roaming"@,
        Platform::Linux => home + "/.config"@,
    }
}

/// The directory under `home` where desktop applications keep their
/// configuration on `platform`.
pub fn config_dir_under(home: &str, platform: Platform) -> (r: String)
    ensures
        r@ == config_dir_in(home@, platform),
{
    let h = String::from_str(home);
    match platform {
        Platform::MacOs => h.concat("/Library/Application Support"),
        Platform::Windows => h.concat("/AppData/Roaming"),
        Platform::Linux => h.concat("/.config"),
    }
}

/// The current user's application configuration directory, when the home
/// directory is known.
pub fn user_config_dir(platform: Platform) -> (r: Option<String>)
    ensures
        r matches Some(p) ==> exists|home: Seq<char>| p@ == config_dir_in(home, platform),
{
    match home_dir_text() {
        Some(home) => Some(config_dir_under(home.as_str(), platform)),
        None => None,
    }
}

/// `s` with every occurrence of `pat`, read from the left, replaced by `rep`.
pub open spec fn replaced(s: Seq<char>, pat: Seq<char>, rep: Seq<char>) -> Seq<char>
    recommends
        pat.len() > 0,
    decreases s.len(),
{
    if s.len() == 0 || pat.len() == 0 {
        s
    } else if occurs_at(s, pat, 0) {
        rep + replaced(s.subrange(pat.len() as int, s.len() as int), pat, rep)
    } else {
        seq![s[0]] + replaced(s.drop_first(), pat, rep)
    }
}

/// Whether `s` begins with `prefix`.
pub open spec fn starts_with(s: Seq<char>, prefix: Seq<char>) -> bool {
    occurs_at(s, prefix, 0)
}

/// Replaces every `$HOME` in `path` with `home`.
pub fn replace_home_var(path: &str, home: &str) -> (r: String)
    ensures
        r@ == replaced(path@, "$HOME"@, home@),
{
    proof {
        reveal_strlit("$HOME");
    }
    let c = chars_of(path);
    let n = c.len();
    let mut out = String::new();
    let mut i: usize = 0;
    let ghost pat = "$HOME"@;
    assert(c@.subrange(0, n as int) =~= path@);
    assert(out@ + replaced(path@, pat, home@) =~= replaced(path@, pat, home@));
    while i < n
        invariant
            c@ == path@,
            n == c@.len(),
            i <= n,
            pat == "$HOME"@,
            pat.len() == 5,
            replaced(path@, pat, home@) == out@ + replaced(c@.subrange(i as int, n as int), pat, home@),
        decreases n - i,
    {
        let ghost rest = c@.subrange(i as int, n as int);
        if crate::text::matches_at(&c, "$HOME", i) {
            assert(occurs_at(rest, pat, 0)) by {
                assert(rest.subrange(0, 5) =~= c@.subrange(i as int, i + 5));
            }
            assert(rest.subrange(5, rest.len() as int) =~= c@.subrange(i + 5, n as int));
            out.append(home);
            i = i + 5;
        } else {
            assert(!occurs_at(rest, pat, 0)) by {
                if occurs_at(rest, pat, 0) {
                    assert(rest.subrange(0, 5) =~= c@.subrange(i as int, i + 5));
                }
            }
            assert(rest.drop_first() =~= c@.subrange(i + 1, n as int));
            out.append(crate::diagnostics::char_text(c[i]).as_str());
            assert(out@ + replaced(rest.drop_first(), pat, home@) =~= out@.subrange(0, out@.len() - 1) + (seq![rest[0]] + replaced(rest.drop_first(), pat, home@)));
            i = i + 1;
        }
    }
    assert(c@.subrange(n as int, n as int).len() == 0);
    out
}

/// `path` with a leading `~` or any `$HOME` replaced by `home`; an error
/// when it needs the home directory and `home` is absent.
pub fn expand_home(path: &str, home: Option<String>) -> (r: Result<String, String>)
    ensures
        starts_with(path@, "~"@) ==> match home {
            Some(h) => (r matches Ok(p) && p@ == h@ + path@.drop_first()),
            None => (r matches Err(m) && m@ == "Could not determine home directory"@),
        },
        !starts_with(path@, "~"@) && crate::text::has_part(path@, "$HOME"@) ==> match home {
            Some(h) => (r matches Ok(p) && p@ == replaced(path@, "$HOME"@, h@)),
            None => (r matches Err(m) && m@ == "Could not determine home directory"@),
        },
        !starts_with(path@, "~"@) && !crate::text::has_part(path@, "$HOME"@) ==> (r matches Ok(p) && p@ == path@),
        r matches Err(m) ==> m@ == "Could not determine home directory"@,
{
    let c = chars_of(path);
    let tilde = crate::text::matches_at(&c, "~", 0);
    let has_var = crate::text::contains_text(&c, "$HOME");
    if !tilde && !has_var {
        return Ok(String::from_str(path));
    }
    let h = match home {
        Some(h) => h,
        None => return Err(String::from_str("Could not determine home directory")),
    };
    if tilde {
        proof {
            reveal_strlit("~");
        }
        let rest = path.substring_char(1, c.len());
        Ok(h.concat(rest))
    } else {
        Ok(replace_home_var(path, h.as_str()))
    }
}

/// Expands a leading `~` or any `$HOME` in `path` with the current user's
/// home directory.
pub fn expand_path(path: &str) -> (r: Result<String, String>)
    ensures
        !starts_with(path@, "~"@) && !crate::text::has_part(path@, "$HOME"@) ==> (r matches Ok(p) && p@ == path@),
        r matches Err(m) ==> m@ == "Could not determine home directory"@,
        starts_with(path@, "~"@) ==> (r matches Ok(p) ==> exists|home: Seq<char>| p@ == home + path@.drop_first()),
{
    expand_home(path, home_dir_text())
}

} // verus!
