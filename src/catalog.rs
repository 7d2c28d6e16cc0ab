//! The public catalog of installable servers: display names, categories,
//! and the entries built from the two catalog sources.

use vstd::prelude::*;
use vstd::multiset::Multiset;
use vstd::string::StringSliceAdditionalSpecFns;
use vstd::seq_lib::{to_multiset_insert, to_multiset_remove};
use crate::text::{contains_text, chars_of, has_part};
use crate::diagnostics::char_text;

verus! {

/// A server offered by a catalog.
#[derive(Debug, Clone)]
pub struct MarketplaceServer {
    pub id: String,
    pub name: String,
    pub description: String,
    pub command: String,
    pub args: Vec<String>,
    pub env_variables: Vec<String>,
    pub author: String,
    pub source_url: String,
    pub category: String,
    pub icon_url: Option<String>,
    pub source: String,
    pub verified: bool,
    pub package_name: String,
    pub requires_config: bool,
    pub pull_count: Option<u64>,
    pub star_count: Option<u64>,
}

/// The upper-case form of `c`, in Unicode's sense.
pub uninterp spec fn upper_of(c: char) -> Seq<char>;

/// The lower-case form of `s`, in Unicode's sense.
pub uninterp spec fn lower_of(s: Seq<char>) -> Seq<char>;

/// Relies on `char::to_uppercase`: the characters of the upper-case form.
#[verifier::external_body]
fn upper_text(c: char) -> (r: String)
    ensures
        r@ == upper_of(c),
{
    c.to_uppercase().collect()
}

/// Relies on `str::to_lowercase`: the lower-case form, which depends on the
/// characters alone.
#[verifier::external_body]
pub fn lowercase(s: &str) -> (r: String)
    ensures
        r@ == lower_of(s@),
{
    s.to_lowercase()
}

/// `name` split at dashes, each word capitalised, joined with spaces.
pub open spec fn display_name(s: Seq<char>) -> Seq<char>
    decreases s.len(),
{
    if s.len() == 0 {
        Seq::empty()
    } else {
        let prior = display_name(s.drop_last());
        let c = s.last();
        if c == '-' {
            prior + " "@
        } else if s.len() == 1 || s[s.len() - 2] == '-' {
            prior + upper_of(c)
        } else {
            prior.push(c)
        }
    }
}

/// A display name from a dashed identifier: `brave-search` becomes
/// `Brave Search`.
pub fn format_name(name: &str) -> (r: String)
    ensures
        r@ == display_name(name@),
{
    let s = chars_of(name);
    let mut out = String::new();
    let mut i: usize = 0;
    while i < s.len()
        invariant
            s@ == name@,
            i <= s@.len(),
            out@ == display_name(s@.subrange(0, i as int)),
        decreases s@.len() - i,
    {
        let ghost pre = s@.subrange(0, i + 1);
        assert(pre.drop_last() =~= s@.subrange(0, i as int));
        let c = s[i];
        if c == '-' {
            out.append(" ");
        } else if i == 0 || s[i - 1] == '-' {
            let up = upper_text(c);
            out.append(up.as_str());
        } else {
            out.append(char_text(c).as_str());
        }
        i = i + 1;
    }
    assert(s@.subrange(0, s@.len() as int) =~= s@);
    out
}

/// The category of a server whose name and description, lower-cased, read
/// `text`.
pub open spec fn category_of(text: Seq<char>) -> Seq<char> {
    if has_part(text, "database"@) || has_part(text, "sql"@) || has_part(text, "postgres"@) || has_part(
        text,
        "mysql"@,
    ) || has_part(text, "redis"@) || has_part(text, "mongo"@) {
        "database"@
    } else if has_part(text, "file"@) || has_part(text, "filesystem"@) || has_part(text, "drive"@) {
        "filesystem"@
    } else if has_part(text, "github"@) || has_part(text, "gitlab"@) || has_part(text, "git"@) {
        "development"@
    } else if has_part(text, "slack"@) || has_part(text, "discord"@) || has_part(text, "notion"@) {
        "communication"@
    } else if has_part(text, "search"@) || has_part(text, "brave"@) || has_part(text, "duckduckgo"@) {
        "search"@
    } else if has_part(text, "cloud"@) || has_part(text, "aws"@) || has_part(text, "azure"@) || has_part(
        text,
        "kubernetes"@,
    ) {
        "cloud"@
    } else if has_part(text, "browser"@) || has_part(text, "playwright"@) || has_part(text, "puppeteer"@) {
        "automation"@
    } else {
        "other"@
    }
}

/// The category of a server whose lower-cased name and description read
/// `text`.
pub fn category_of_text(text: &str) -> (r: String)
    ensures
        r@ == category_of(text@),
{
    let t = chars_of(text);
    if contains_text(&t, "database") || contains_text(&t, "sql") || contains_text(&t, "postgres")
        || contains_text(&t, "mysql") || contains_text(&t, "redis") || contains_text(&t, "mongo") {
        String::from_str("database")
    } else if contains_text(&t, "file") || contains_text(&t, "filesystem") || contains_text(&t, "drive") {
        String::from_str("filesystem")
    } else if contains_text(&t, "github") || contains_text(&t, "gitlab") || contains_text(&t, "git") {
        String::from_str("development")
    } else if contains_text(&t, "slack") || contains_text(&t, "discord") || contains_text(&t, "notion") {
        String::from_str("communication")
    } else if contains_text(&t, "search") || contains_text(&t, "brave") || contains_text(&t, "duckduckgo") {
        String::from_str("search")
    } else if contains_text(&t, "cloud") || contains_text(&t, "aws") || contains_text(&t, "azure")
        || contains_text(&t, "kubernetes") {
        String::from_str("cloud")
    } else if contains_text(&t, "browser") || contains_text(&t, "playwright") || contains_text(&t, "puppeteer") {
        String::from_str("automation")
    } else {
        String::from_str("other")
    }
}

/// The category of a server, from its name and description.
pub fn infer_category(name: &str, description: &str) -> (r: String)
    ensures
        r@ == category_of(lower_of(name@ + " "@ + description@)),
{
    let text = String::from_str(name).concat(" ").concat(description);
    let lower = lowercase(text.as_str());
    category_of_text(lower.as_str())
}

/// Whether a catalog entry named `name` is a tool of the catalog itself
/// rather than a server.
pub open spec fn catalog_tool(name: Seq<char>) -> bool {
    name == "docker"@ || name == "signatures"@ || name == "inspector"@
}

/// The entry for the container image `mcp/<repo>` of the container catalog,
/// or `None` for the catalog's own tools.
pub fn docker_entry(repo: &str, description: Option<String>, pull_count: Option<u64>, star_count: Option<u64>) -> (r:
    Option<MarketplaceServer>)
    ensures
        r is None <==> catalog_tool(repo@),
        r matches Some(m) ==> {
            let desc = match description {
                Some(d) => d@,
                None => "MCP server for "@ + repo@,
            };
            &&& m.id@ == "docker-"@ + repo@
            &&& m.name@ == display_name(repo@)
            &&& m.description@ == desc
            &&& m.command@ == "docker"@
            &&& m.args.deep_view() == seq!["run"@, "-i"@, "--rm"@, "mcp/"@ + repo@]
            &&& m.env_variables@.len() == 0
            &&& m.author@ == "mcp"@
            &&& m.source_url@ == "https://hub.docker.com/r/mcp/"@ + repo@
            &&& m.category@ == category_of(lower_of(repo@ + " "@ + desc))
            &&& m.icon_url is None
            &&& m.source@ == "docker"@
            &&& m.verified
            &&& m.package_name@ == "mcp/"@ + repo@
            &&& !m.requires_config
            &&& m.pull_count == pull_count
            &&& m.star_count == star_count
        },
{
    if crate::text::same_text(repo, "docker") || crate::text::same_text(repo, "signatures")
        || crate::text::same_text(repo, "inspector") {
        return None;
    }
    let desc = match description {
        Some(d) => d,
        None => String::from_str("MCP server for ").concat(repo),
    };
    let category = infer_category(repo, desc.as_str());
    let image = String::from_str("mcp/").concat(repo);
    let mut args: Vec<String> = Vec::new();
    args.push(String::from_str("run"));
    args.push(String::from_str("-i"));
    args.push(String::from_str("--rm"));
    args.push(image.clone());
    assert(args.deep_view() =~= seq!["run"@, "-i"@, "--rm"@, "mcp/"@ + repo@]);
    Some(MarketplaceServer {
        id: String::from_str("docker-").concat(repo),
        name: format_name(repo),
        description: desc,
        command: String::from_str("docker"),
        args,
        env_variables: Vec::new(),
        author: String::from_str("mcp"),
        source_url: String::from_str("https://hub.docker.com/r/mcp/").concat(repo),
        category,
        icon_url: None,
        source: String::from_str("docker"),
        verified: true,
        package_name: image,
        requires_config: false,
        pull_count,
        star_count,
    })
}

/// The part of `s` after its last `/`, or all of `s` when it has none.
pub open spec fn last_segment(s: Seq<char>) -> Seq<char>
    decreases s.len(),
{
    if s.len() == 0 {
        s
    } else if s.last() == '/' {
        Seq::empty()
    } else {
        last_segment(s.drop_last()).push(s.last())
    }
}

/// The part of `s` after its last `/`, or all of `s` when it has none.
pub fn last_path_segment(s: &str) -> (r: String)
    ensures
        r@ == last_segment(s@),
{
    let c = chars_of(s);
    let mut out = String::new();
    let mut i: usize = 0;
    while i < c.len()
        invariant
            c@ == s@,
            i <= c@.len(),
            out@ == last_segment(c@.subrange(0, i as int)),
        decreases c@.len() - i,
    {
        assert(c@.subrange(0, i + 1).drop_last() =~= c@.subrange(0, i as int));
        if c[i] == '/' {
            out = String::new();
        } else {
            out.append(char_text(c[i]).as_str());
        }
        i = i + 1;
    }
    assert(c@.subrange(0, c@.len() as int) =~= c@);
    out
}

/// The entry for a package of the public server registry.
pub fn registry_entry(
    name: Option<String>,
    title: Option<String>,
    description: Option<String>,
    website_url: Option<String>,
) -> (r: MarketplaceServer)
    ensures
        ({
            let n = match name {
                Some(x) => x@,
                None => Seq::empty(),
            };
            let desc = match description {
                Some(x) => x@,
                None => Seq::empty(),
            };
            let package = last_segment(n);
            &&& r.id@ == "registry-"@ + n
            &&& r.name@ == match title {
                Some(t) => t@,
                None => display_name(package),
            }
            &&& r.description@ == desc
            &&& r.command@ == "npx"@
            &&& r.args.deep_view() == seq!["-y"@, package]
            &&& r.env_variables@.len() == 0
            &&& r.author@ == "Unknown"@
            &&& r.source_url@ == match website_url {
                Some(u) => u@,
                None => Seq::empty(),
            }
            &&& r.category@ == category_of(lower_of(n + " "@ + desc))
            &&& r.icon_url is None
            &&& r.source@ == "registry"@
            &&& r.verified
            &&& r.package_name@ == package
            &&& !r.requires_config
            &&& r.pull_count is None
            &&& r.star_count is None
        }),
{
    let n = match name {
        Some(x) => x,
        None => String::new(),
    };
    let desc = match description {
        Some(x) => x,
        None => String::new(),
    };
    let package = last_path_segment(n.as_str());
    let category = infer_category(n.as_str(), desc.as_str());
    let display = match title {
        Some(t) => t,
        None => format_name(package.as_str()),
    };
    let mut args: Vec<String> = Vec::new();
    args.push(String::from_str("-y"));
    args.push(package.clone());
    assert(args.deep_view() =~= seq!["-y"@, package@]);
    MarketplaceServer {
        id: String::from_str("registry-").concat(n.as_str()),
        name: display,
        description: desc,
        command: String::from_str("npx"),
        args,
        env_variables: Vec::new(),
        author: String::from_str("Unknown"),
        source_url: match website_url {
            Some(u) => u,
            None => String::new(),
        },
        category,
        icon_url: None,
        source: String::from_str("registry"),
        verified: true,
        package_name: package,
        requires_config: false,
        pull_count: None,
        star_count: None,
    }
}

/// The popularity of an entry: its pull count, none counting as zero.
pub open spec fn pulls(m: MarketplaceServer) -> u64 {
    match m.pull_count {
        Some(n) => n,
        None => 0,
    }
}

/// Whether `v` is ordered from most to least popular.
pub open spec fn by_popularity(v: Seq<MarketplaceServer>) -> bool {
    forall|i: int, j: int| 0 <= i < j < v.len() ==> pulls(v[i]) >= pulls(v[j])
}

fn pull_count_of(m: &MarketplaceServer) -> (r: u64)
    ensures
        r == pulls(*m),
{
    match m.pull_count {
        Some(n) => n,
        None => 0,
    }
}

/// Where `x` goes among the entries `s`: after every leading entry at
/// least as popular.
pub open spec fn slot_for(s: Seq<MarketplaceServer>, x: MarketplaceServer) -> nat
    decreases s.len(),
{
    if s.len() == 0 || pulls(s[0]) < pulls(x) {
        0
    } else {
        1 + slot_for(s.drop_first(), x)
    }
}

/// `v` ordered from most to least popular, each entry placed after every
/// entry before it in `v` that is at least as popular: entries of equal
/// popularity keep their order.
pub open spec fn popularity_sorted(v: Seq<MarketplaceServer>) -> Seq<MarketplaceServer>
    decreases v.len(),
{
    if v.len() == 0 {
        Seq::empty()
    } else {
        let s = popularity_sorted(v.drop_last());
        s.insert(slot_for(s, v.last()) as int, v.last())
    }
}

proof fn lemma_slot_for(s: Seq<MarketplaceServer>, x: MarketplaceServer, p: int)
    requires
        0 <= p <= s.len(),
        forall|k: int| 0 <= k < p ==> pulls(s[k]) >= pulls(x),
        p == s.len() || pulls(s[p]) < pulls(x),
    ensures
        slot_for(s, x) == p,
    decreases p,
{
    if p > 0 {
        assert forall|k: int| 0 <= k < p - 1 implies pulls(s.drop_first()[k]) >= pulls(x) by {
            assert(s.drop_first()[k] == s[k + 1]);
        }
        if p - 1 < s.drop_first().len() {
            assert(s.drop_first()[p - 1] == s[p]);
        }
        lemma_slot_for(s.drop_first(), x, p - 1);
    }
}

/// Orders entries from most to least popular; entries of equal popularity
/// keep their order.
pub fn sort_by_popularity(v: Vec<MarketplaceServer>) -> (r: Vec<MarketplaceServer>)
    ensures
        r@ == popularity_sorted(v@),
        r@.to_multiset() == v@.to_multiset(),
        by_popularity(r@),
{
    broadcast use vstd::seq_lib::group_to_multiset_ensures, vstd::multiset::group_multiset_axioms;

    let ghost all = v@;
    let mut rest = v;
    let mut out: Vec<MarketplaceServer> = Vec::new();
    assert(out@.to_multiset() =~= Multiset::<MarketplaceServer>::empty());
    assert(out@.to_multiset().add(rest@.to_multiset()) =~= all.to_multiset());
    let mut k: usize = 0;
    let n = rest.len();
    assert(all.subrange(0, 0) =~= Seq::<MarketplaceServer>::empty());
    assert(all.subrange(0, all.len() as int) =~= all);
    while rest.len() > 0
        invariant
            by_popularity(out@),
            out@.to_multiset().add(rest@.to_multiset()) == all.to_multiset(),
            k + rest@.len() == all.len(),
            n == all.len(),
            rest@ == all.subrange(k as int, all.len() as int),
            out@ == popularity_sorted(all.subrange(0, k as int)),
        decreases rest@.len(),
    {
        let ghost next = all.subrange(0, k + 1);
        assert(next.drop_last() =~= all.subrange(0, k as int));
        let ghost rest_before = rest@;
        let ghost out_before = out@;
        let x = rest.remove(0);
        proof {
            to_multiset_remove(rest_before, 0);
            assert(rest_before.contains(x));
        }
        let px = pull_count_of(&x);
        let mut p: usize = 0;
        while p < out.len() && pull_count_of(&out[p]) >= px
            invariant
                p <= out@.len(),
                out@ == out_before,
                forall|k: int| 0 <= k < p ==> pulls(out@[k]) >= px,
            decreases out@.len() - p,
        {
            p = p + 1;
        }
        proof {
            to_multiset_insert(out@, p as int, x);
            assert(next.last() == x);
            lemma_slot_for(out@, x, p as int);
        }
        out.insert(p, x);
        assert(rest@ =~= all.subrange(k + 1, all.len() as int));
        assert(by_popularity(out@)) by {
            assert forall|i: int, j: int| 0 <= i < j < out@.len() implies pulls(out@[i]) >= pulls(out@[j]) by {
                if j < p {
                    assert(out@[i] == out_before[i] && out@[j] == out_before[j]);
                } else if j == p {
                    assert(out@[i] == out_before[i]);
                } else if i == p {
                    assert(out@[j] == out_before[j - 1]);
                    if p < out_before.len() {
                        assert(pulls(out_before[p as int]) < px);
                        if j - 1 > p {
                            assert(pulls(out_before[p as int]) >= pulls(out_before[j - 1]));
                        }
                    }
                } else if i < p {
                    assert(out@[i] == out_before[i] && out@[j] == out_before[j - 1]);
                } else {
                    assert(out@[i] == out_before[i - 1] && out@[j] == out_before[j - 1]);
                }
            }
        }
        proof {
            let o = out_before.to_multiset();
            let q = rest_before.to_multiset();
            assert(rest_before[0] == x);
            assert(rest_before.contains(x));
            rest_before.to_multiset_ensures();
            assert(q.count(x) > 0);
            assert(out@.to_multiset() == o.insert(x));
            assert(rest@ == rest_before.remove(0));
            assert(rest@.to_multiset() == q.remove(x));
            assert forall|y: MarketplaceServer| #[trigger] o.insert(x).add(q.remove(x)).count(y) == o.add(q).count(y) by {
                if y == x {
                    assert(q.remove(x).count(x) == q.count(x) - 1);
                }
            }
            assert(o.insert(x).add(q.remove(x)) =~= o.add(q));
        }
        k = k + 1;
    }
    assert(all.subrange(0, k as int) =~= all);
    assert(rest@.to_multiset() =~= Multiset::<MarketplaceServer>::empty());
    assert(out@.to_multiset() =~= out@.to_multiset().add(rest@.to_multiset()));
    out
}

/// The key under which entries of the two sources count as the same server:
/// the lower-cased name with spaces turned into dashes.
pub open spec fn catalog_key(name: Seq<char>) -> Seq<char> {
    lower_of(name).map_values(|c: char| if c == ' ' { '-' } else { c })
}

/// `s` with spaces turned into dashes.
pub fn dashed(s: &str) -> (r: String)
    ensures
        r@ == s@.map_values(|c: char| if c == ' ' { '-' } else { c }),
{
    let c = chars_of(s);
    let mut out = String::new();
    let mut i: usize = 0;
    while i < c.len()
        invariant
            c@ == s@,
            i <= c@.len(),
            out@ == c@.subrange(0, i as int).map_values(|c: char| if c == ' ' { '-' } else { c }),
        decreases c@.len() - i,
    {
        if c[i] == ' ' {
            out.append("-");
        } else {
            out.append(char_text(c[i]).as_str());
        }
        proof {
            reveal_strlit("-");
        }
        assert(out@ =~= c@.subrange(0, i + 1).map_values(|c: char| if c == ' ' { '-' } else { c }));
        i = i + 1;
    }
    assert(c@.subrange(0, c@.len() as int) =~= c@);
    out
}

/// The key of a server name.
pub fn key_of(name: &str) -> (r: String)
    ensures
        r@ == catalog_key(name@),
{
    let lower = lowercase(name);
    dashed(lower.as_str())
}

/// The keys of `v`.
pub open spec fn keys_of(v: Seq<MarketplaceServer>) -> Seq<Seq<char>> {
    Seq::new(v.len(), |i: int| catalog_key(v[i].name@))
}

/// The entries of `extra` whose key is neither in `seen` nor taken by an
/// earlier entry of `extra`, in order.
pub open spec fn fresh_entries(seen: Seq<Seq<char>>, extra: Seq<MarketplaceServer>) -> Seq<MarketplaceServer>
    decreases extra.len(),
{
    if extra.len() == 0 {
        Seq::empty()
    } else {
        let prior = fresh_entries(seen, extra.drop_last());
        let k = catalog_key(extra.last().name@);
        if seen.contains(k) || keys_of(prior).contains(k) {
            prior
        } else {
            prior.push(extra.last())
        }
    }
}

fn holds_text(v: &Vec<String>, x: &str) -> (r: bool)
    ensures
        r == v.deep_view().contains(x@),
{
    let mut i: usize = 0;
    while i < v.len()
        invariant
            i <= v@.len(),
            forall|k: int| 0 <= k < i ==> v@[k]@ != x@,
        decreases v@.len() - i,
    {
        if crate::text::same_text(v[i].as_str(), x) {
            assert(v.deep_view()[i as int] == x@);
            return true;
        }
        i = i + 1;
    }
    assert(!v.deep_view().contains(x@)) by {
        if v.deep_view().contains(x@) {
            let k = choose|k: int| 0 <= k < v.deep_view().len() && v.deep_view()[k] == x@;
            assert(v@[k]@ == x@);
        }
    }
    false
}

/// The entries of both sources: every entry of `primary`, then each entry of
/// `secondary` whose key is new, ordered from most to least popular with
/// entries of equal popularity in that order.
pub fn merge_catalogs(primary: Vec<MarketplaceServer>, secondary: Vec<MarketplaceServer>) -> (r: Vec<MarketplaceServer>)
    ensures
        r@ == popularity_sorted(primary@ + fresh_entries(keys_of(primary@), secondary@)),
        r@.to_multiset() == (primary@ + fresh_entries(keys_of(primary@), secondary@)).to_multiset(),
        by_popularity(r@),
{
    let ghost seen0 = keys_of(primary@);
    let mut seen: Vec<String> = Vec::new();
    let mut i: usize = 0;
    while i < primary.len()
        invariant
            i <= primary@.len(),
            seen.deep_view() == keys_of(primary@).subrange(0, i as int),
        decreases primary@.len() - i,
    {
        let ghost before = seen.deep_view();
        let key = key_of(primary[i].name.as_str());
        seen.push(key);
        assert(seen.deep_view() =~= before.push(keys_of(primary@)[i as int]));
        assert(seen.deep_view() =~= keys_of(primary@).subrange(0, i + 1));
        i = i + 1;
    }
    assert(keys_of(primary@).subrange(0, primary@.len() as int) =~= seen0);
    let ghost first = primary@;
    let mut all = primary;
    let ghost extra = secondary@;
    let mut rest = secondary;
    let ghost mut added: Seq<MarketplaceServer> = Seq::empty();
    let mut k: usize = 0;
    let n = rest.len();
    assert(extra.subrange(0, 0) =~= Seq::<MarketplaceServer>::empty());
    assert(extra.subrange(0, extra.len() as int) =~= extra);
    while rest.len() > 0
        invariant
            k + rest@.len() == extra.len(),
            n == extra.len(),
            rest@ == extra.subrange(k as int, extra.len() as int),
            added == fresh_entries(seen0, extra.subrange(0, k as int)),
            all@ == first + added,
            seen.deep_view() == seen0 + keys_of(added),
        decreases rest@.len(),
    {
        let ghost pre = extra.subrange(0, k as int);
        let ghost next = extra.subrange(0, k + 1);
        assert(next.drop_last() =~= pre);
        let entry = rest.remove(0);
        assert(rest@ =~= extra.subrange(k + 1, extra.len() as int));
        assert(next.last() == entry);
        let key = key_of(entry.name.as_str());
        if !holds_text(&seen, key.as_str()) {
            proof {
                assert(!seen0.contains(key@)) by {
                    if seen0.contains(key@) {
                        let j = choose|j: int| 0 <= j < seen0.len() && seen0[j] == key@;
                        assert(seen.deep_view()[j] == key@);
                    }
                }
                assert(!keys_of(added).contains(key@)) by {
                    if keys_of(added).contains(key@) {
                        let j = choose|j: int| 0 <= j < keys_of(added).len() && keys_of(added)[j] == key@;
                        assert(seen.deep_view()[seen0.len() + j] == key@);
                    }
                }
            }
            let ghost seen_before = seen.deep_view();
            let ghost added_before = added;
            let ghost key_view = key@;
            seen.push(key);
            proof {
                added = added.push(entry);
            }
            all.push(entry);
            assert(seen.deep_view() =~= seen_before.push(key_view));
            assert(keys_of(added) =~= keys_of(added_before).push(key@));
            assert(seen.deep_view() =~= seen0 + keys_of(added));
        } else {
            proof {
                let j = choose|j: int| 0 <= j < seen.deep_view().len() && seen.deep_view()[j] == key@;
                if j < seen0.len() {
                    assert(seen0[j] == key@);
                } else {
                    assert(keys_of(added)[j - seen0.len()] == key@);
                }
            }
        }
        k = k + 1;
    }
    sort_by_popularity(all)
}

/// Whether an entry matches a search: the lower-cased query occurs in the
/// lower-cased name, description or package name.
pub open spec fn matches_query(m: MarketplaceServer, query: Seq<char>) -> bool {
    has_part(lower_of(m.name@), lower_of(query)) || has_part(lower_of(m.description@), lower_of(query))
        || has_part(lower_of(m.package_name@), lower_of(query))
}

/// The entries of `v` that match `query`, in order.
pub open spec fn matching(v: Seq<MarketplaceServer>, query: Seq<char>) -> Seq<MarketplaceServer>
    decreases v.len(),
{
    if v.len() == 0 {
        Seq::empty()
    } else if matches_query(v.last(), query) {
        matching(v.drop_last(), query).push(v.last())
    } else {
        matching(v.drop_last(), query)
    }
}

fn part_of_lowered(text: &str, lowered_query: &Vec<char>) -> (r: bool)
    ensures
        r == has_part(lower_of(text@), lowered_query@),
{
    let lower = lowercase(text);
    let hay = chars_of(lower.as_str());
    crate::text::contains_seq(&hay, lowered_query)
}

/// The entries that match `query`; all of them when the query is empty.
pub fn filter_by_query(servers: Vec<MarketplaceServer>, query: &str) -> (r: Vec<MarketplaceServer>)
    ensures
        query@.len() == 0 ==> r@ == servers@,
        query@.len() > 0 ==> r@ == matching(servers@, query@),
{
    if query.unicode_len() == 0 {
        return servers;
    }
    let q = lowercase(query);
    let qc = chars_of(q.as_str());
    let ghost all = servers@;
    let mut rest = servers;
    let mut out: Vec<MarketplaceServer> = Vec::new();
    let mut k: usize = 0;
    let n = rest.len();
    assert(all.subrange(0, 0) =~= Seq::<MarketplaceServer>::empty());
    assert(all.subrange(0, all.len() as int) =~= all);
    while rest.len() > 0
        invariant
            k + rest@.len() == all.len(),
            n == all.len(),
            rest@ == all.subrange(k as int, all.len() as int),
            out@ == matching(all.subrange(0, k as int), query@),
            qc@ == lower_of(query@),
        decreases rest@.len(),
    {
        let ghost next = all.subrange(0, k + 1);
        assert(next.drop_last() =~= all.subrange(0, k as int));
        let entry = rest.remove(0);
        assert(rest@ =~= all.subrange(k + 1, all.len() as int));
        assert(next.last() == entry);
        if part_of_lowered(entry.name.as_str(), &qc) || part_of_lowered(entry.description.as_str(), &qc)
            || part_of_lowered(entry.package_name.as_str(), &qc) {
            out.push(entry);
        }
        k = k + 1;
    }
    out
}

/// Whether a byte passes through percent-encoding unchanged.
pub open spec fn unreserved(b: u8) -> bool {
    (48 <= b <= 57) || (65 <= b <= 90) || (97 <= b <= 122) || b == 45 || b == 46 || b == 95 || b == 126
}

/// The upper-case hexadecimal digit of `d` (below sixteen).
pub open spec fn hex_digit(d: u8) -> char {
    if d < 10 {
        (48 + d) as char
    } else {
        (55 + d) as char
    }
}

/// `bytes` percent-encoded: unreserved bytes as they are, every other byte
/// as `%` and two upper-case hexadecimal digits.
pub open spec fn percent_encoded(bytes: Seq<u8>) -> Seq<char>
    decreases bytes.len(),
{
    if bytes.len() == 0 {
        Seq::empty()
    } else {
        let b = bytes.last();
        percent_encoded(bytes.drop_last()) + if unreserved(b) {
            seq![b as char]
        } else {
            seq!['%', hex_digit(b / 16), hex_digit(b % 16)]
        }
    }
}

/// Relies on urlencoding::encode: every byte of the UTF-8 text but ASCII
/// letters, digits and `-._~` becomes `%` and two upper-case hex digits.
#[verifier::external_body]
fn url_encode(s: &str) -> (r: String)
    ensures
        r@ == percent_encoded(s.spec_bytes()),
{
    urlencoding::encode(s).into_owned()
}

/// The address of the first page of the container catalog.
pub fn docker_catalog_url() -> (r: String)
    ensures
        r@ == "https://hub.docker.com/v2/repositories/mcp/?page_size=100"@,
{
    String::from_str("https://hub.docker.com/v2/repositories/mcp/?page_size=100")
}

/// The address of the public registry's listing, searching for `query`
/// when it is not empty.
pub fn registry_url(query: &str) -> (r: String)
    ensures
        query@.len() == 0 ==> r@ == "https://registry.modelcontextprotocol.io/v0.1/servers?limit=100"@,
        query@.len() > 0 ==> r@ == "https://registry.modelcontextprotocol.io/v0.1/servers?limit=100&search="@
            + percent_encoded(query.spec_bytes()),
{
    let base = String::from_str("https://registry.modelcontextprotocol.io/v0.1/servers?limit=100");
    if query.unicode_len() == 0 {
        base
    } else {
        let encoded = url_encode(query);
        let r = base.concat("&search=").concat(encoded.as_str());
        proof {
            reveal_strlit("https://registry.modelcontextprotocol.io/v0.1/servers?limit=100");
            reveal_strlit("&search=");
            reveal_strlit("https://registry.modelcontextprotocol.io/v0.1/servers?limit=100&search=");
            assert(r@ =~= "https://registry.modelcontextprotocol.io/v0.1/servers?limit=100&search="@
                + percent_encoded(query.spec_bytes()));
        }
        r
    }
}

} // verus!
