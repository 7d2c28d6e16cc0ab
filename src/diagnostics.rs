//! Diagnostics of a server definition before it is enabled: which binary it
//! runs, which runtimes it needs, install hints, and the verdict of a
//! connection test.

use vstd::prelude::*;
use crate::text::{
    lemma_lex_order, lex_lt, same_text, text_less,
    ascii_lower, chars_of, contains_text, ends_with_text, has_part, has_suffix, is_space, joined,
    lower_chars, unicode_space,
};

verus! {

/// The first position at or after `i` that is not white space.
pub open spec fn skip_space(s: Seq<char>, i: int) -> int
    decreases s.len() - i,
{
    if 0 <= i < s.len() && unicode_space(s[i]) {
        skip_space(s, i + 1)
    } else {
        i
    }
}

/// The first position at or after `i` that is white space, or the end.
pub open spec fn word_end(s: Seq<char>, i: int) -> int
    decreases s.len() - i,
{
    if 0 <= i < s.len() && !unicode_space(s[i]) {
        word_end(s, i + 1)
    } else {
        i
    }
}

/// The first position in `lo..hi` from which `c` no longer repeats.
pub open spec fn strip_front(s: Seq<char>, lo: int, hi: int, c: char) -> int
    decreases hi - lo,
{
    if 0 <= lo < hi && s[lo] == c {
        strip_front(s, lo + 1, hi, c)
    } else {
        lo
    }
}

/// The end of `lo..hi` once trailing copies of `c` are dropped.
pub open spec fn strip_back(s: Seq<char>, lo: int, hi: int, c: char) -> int
    decreases hi - lo,
{
    if lo < hi && 0 < hi <= s.len() && s[hi - 1] == c {
        strip_back(s, lo, hi - 1, c)
    } else {
        hi
    }
}

/// `s` with every leading and trailing `c` removed.
pub open spec fn trim_char(s: Seq<char>, c: char) -> Seq<char> {
    let lo = strip_front(s, 0, s.len() as int, c);
    s.subrange(lo, strip_back(s, lo, s.len() as int, c))
}

/// The first white-space separated word of `s`.
pub open spec fn first_word(s: Seq<char>) -> Seq<char> {
    let start = skip_space(s, 0);
    s.subrange(start, word_end(s, start))
}

/// The binary a command line runs: its first word, without quotes.
pub open spec fn binary_of(command: Seq<char>) -> Seq<char> {
    trim_char(trim_char(first_word(command), '"'), '\'')
}

proof fn lemma_skip_space_bounds(s: Seq<char>, i: int)
    requires
        0 <= i <= s.len(),
    ensures
        i <= skip_space(s, i) <= s.len(),
    decreases s.len() - i,
{
    if i < s.len() && unicode_space(s[i]) {
        lemma_skip_space_bounds(s, i + 1);
    }
}

proof fn lemma_word_end_bounds(s: Seq<char>, i: int)
    requires
        0 <= i <= s.len(),
    ensures
        i <= word_end(s, i) <= s.len(),
    decreases s.len() - i,
{
    if i < s.len() && !unicode_space(s[i]) {
        lemma_word_end_bounds(s, i + 1);
    }
}

proof fn lemma_strip_bounds(s: Seq<char>, lo: int, hi: int, c: char)
    requires
        0 <= lo <= hi <= s.len(),
    ensures
        lo <= strip_front(s, lo, hi, c) <= hi,
        lo <= strip_back(s, lo, hi, c) <= hi,
    decreases hi - lo,
{
    if lo < hi {
        if s[lo] == c {
            lemma_strip_bounds(s, lo + 1, hi, c);
        }
        if s[hi - 1] == c {
            lemma_strip_bounds(s, lo, hi - 1, c);
        }
    }
}

/// Trims leading and trailing `c` from the characters `lo..hi` of `s`.
fn trim_range(s: &Vec<char>, lo: usize, hi: usize, c: char) -> (r: (usize, usize))
    requires
        lo <= hi <= s@.len(),
    ensures
        r.0 == strip_front(s@, lo as int, hi as int, c),
        r.1 == strip_back(s@, r.0 as int, hi as int, c),
        lo <= r.0 <= r.1 <= hi,
{
    let mut a = lo;
    while a < hi && s[a] == c
        invariant
            lo <= a <= hi,
            hi <= s@.len(),
            strip_front(s@, lo as int, hi as int, c) == strip_front(s@, a as int, hi as int, c),
        decreases hi - a,
    {
        a = a + 1;
    }
    let mut b = hi;
    while a < b && s[b - 1] == c
        invariant
            lo <= a <= b <= hi,
            hi <= s@.len(),
            strip_back(s@, a as int, hi as int, c) == strip_back(s@, a as int, b as int, c),
        decreases b - a,
    {
        b = b - 1;
    }
    (a, b)
}

/// The characters `lo..hi` of `s` as a string.
fn text_of(s: &Vec<char>, lo: usize, hi: usize) -> (r: String)
    requires
        lo <= hi <= s@.len(),
    ensures
        r@ == s@.subrange(lo as int, hi as int),
{
    let mut out = String::new();
    let mut i = lo;
    while i < hi
        invariant
            lo <= i <= hi,
            hi <= s@.len(),
            out@ == s@.subrange(lo as int, i as int),
        decreases hi - i,
    {
        let one = char_text(s[i]);
        out.append(one.as_str());
        assert(out@ =~= s@.subrange(lo as int, i + 1));
        i = i + 1;
    }
    out
}

/// Relies on `char`'s `ToString`: the one-character string.
#[verifier::external_body]
pub fn char_text(c: char) -> (r: String)
    ensures
        r@ == seq![c],
{
    c.to_string()
}

/// The binary that `command` runs: its first word, with surrounding double
/// and then single quotes removed.
pub fn extract_binary(command: &str) -> (r: String)
    ensures
        r@ == binary_of(command@),
{
    let s = chars_of(command);
    let mut start: usize = 0;
    while start < s.len() && is_space(s[start])
        invariant
            start <= s@.len(),
            skip_space(s@, 0) == skip_space(s@, start as int),
        decreases s@.len() - start,
    {
        start = start + 1;
    }
    let mut end = start;
    while end < s.len() && !is_space(s[end])
        invariant
            start <= end <= s@.len(),
            word_end(s@, start as int) == word_end(s@, end as int),
        decreases s@.len() - end,
    {
        end = end + 1;
    }
    let word = text_of(&s, start, end);
    let w = chars_of(word.as_str());
    let (a, b) = trim_range(&w, 0, w.len(), '"');
    let inner = text_of(&w, a, b);
    let v = chars_of(inner.as_str());
    let (c, d) = trim_range(&v, 0, v.len(), '\'');
    text_of(&v, c, d)
}

/// Whether `binary` names a file by path rather than a command on PATH.
pub open spec fn path_like(binary: Seq<char>) -> bool {
    binary.contains('/') || binary.contains('\\') || has_suffix(binary, ".exe"@) || has_suffix(
        binary,
        ".cmd"@,
    )
}

/// Whether `binary` names a file by path rather than a command on PATH.
pub fn is_probably_path(binary: &str) -> (r: bool)
    ensures
        r == path_like(binary@),
{
    let s = chars_of(binary);
    let mut i: usize = 0;
    while i < s.len()
        invariant
            s@ == binary@,
            i <= s@.len(),
            forall|k: int| 0 <= k < i ==> s@[k] != '/' && s@[k] != '\\',
        decreases s@.len() - i,
    {
        if s[i] == '/' {
            assert(binary@[i as int] == '/');
            return true;
        }
        if s[i] == '\\' {
            assert(binary@[i as int] == '\\');
            return true;
        }
        i = i + 1;
    }
    ends_with_text(&s, ".exe") || ends_with_text(&s, ".cmd")
}

/// The operating system a hint is written for.
#[derive(Debug, Clone, Copy, PartialEq, Eq, Structural)]
pub enum Platform {
    Windows,
    MacOs,
    Linux,
}

/// The name a hint gives `platform`.
pub open spec fn platform_label(platform: Platform) -> Seq<char> {
    match platform {
        Platform::Windows => "Windows"@,
        Platform::MacOs => "macOS"@,
        Platform::Linux => "Linux"@,
    }
}

/// The name a hint gives `platform`.
pub fn platform_name(platform: Platform) -> (r: String)
    ensures
        r@ == platform_label(platform),
{
    match platform {
        Platform::Windows => String::from_str("Windows"),
        Platform::MacOs => String::from_str("macOS"),
        Platform::Linux => String::from_str("Linux"),
    }
}

/// Binaries that come with Node.js.
pub open spec fn node_tool(b: Seq<char>) -> bool {
    b == "node"@ || b == "npm"@ || b == "npx"@ || b == "pnpm"@ || b == "yarn"@ || b == "bun"@
}

/// Binaries that come with Python.
pub open spec fn python_tool(b: Seq<char>) -> bool {
    b == "python"@ || b == "python3"@ || b == "pip"@ || b == "pip3"@ || b == "uv"@ || b == "pipx"@
}

/// How to install `binary` on `platform`.
pub open spec fn install_hint(binary: Seq<char>, platform: Platform) -> Seq<char> {
    let p = platform_label(platform);
    if node_tool(binary) {
        p + ": install Node.js LTS and ensure `node`/`npm` are on PATH."@
    } else if python_tool(binary) {
        p + ": install Python 3 and ensure `python` is on PATH. For `uv`, see docs.astral.sh/uv."@
    } else if binary == "docker"@ {
        p + ": install Docker Desktop (or Docker Engine) and ensure `docker` is on PATH."@
    } else {
        p + ": install `"@ + binary + "` and make sure it is available on PATH."@
    }
}

fn is_node_tool(b: &str) -> (r: bool)
    ensures
        r == node_tool(b@),
{
    same_text(b, "node") || same_text(b, "npm") || same_text(b, "npx") || same_text(b, "pnpm")
        || same_text(b, "yarn") || same_text(b, "bun")
}

fn is_python_tool(b: &str) -> (r: bool)
    ensures
        r == python_tool(b@),
{
    same_text(b, "python") || same_text(b, "python3") || same_text(b, "pip") || same_text(b, "pip3")
        || same_text(b, "uv") || same_text(b, "pipx")
}

/// How to install `binary` on `platform`.
pub fn install_hint_for(binary: &str, platform: Platform) -> (r: String)
    ensures
        r@ == install_hint(binary@, platform),
{
    let p = platform_name(platform);
    if is_node_tool(binary) {
        p.concat(": install Node.js LTS and ensure `node`/`npm` are on PATH.")
    } else if is_python_tool(binary) {
        p.concat(": install Python 3 and ensure `python` is on PATH. For `uv`, see docs.astral.sh/uv.")
    } else if same_text(binary, "docker") {
        p.concat(": install Docker Desktop (or Docker Engine) and ensure `docker` is on PATH.")
    } else {
        p.concat(": install `").concat(binary).concat("` and make sure it is available on PATH.")
    }
}

/// The troubleshooting hints for a failure `message` (lower-cased) with
/// standard error `blob` (joined and lower-cased).
pub open spec fn hints_for(lower: Seq<char>, blob: Seq<char>) -> Seq<Seq<char>> {
    let h1: Seq<Seq<char>> = if has_part(lower, "enoent"@) || has_part(lower, "not recognized"@)
        || has_part(blob, "not found"@) {
        seq!["Verify the command exists on PATH and is spelled correctly."@]
    } else {
        seq![]
    };
    let h2: Seq<Seq<char>> = if has_part(lower, "permission denied"@) || has_part(blob, "permission denied"@) {
        seq!["Check executable permissions and run the command manually once in your shell."@]
    } else {
        seq![]
    };
    let h3: Seq<Seq<char>> = if has_part(blob, "module not found"@) || has_part(blob, "cannot find module"@) {
        seq!["Install missing Node dependencies (`npm install` / `pnpm install`) in the server project."@]
    } else {
        seq![]
    };
    let h4: Seq<Seq<char>> = if has_part(blob, "no module named"@) {
        seq!["Install required Python packages in the active environment."@]
    } else {
        seq![]
    };
    let all = h1 + h2 + h3 + h4;
    if all.len() == 0 {
        seq!["Open server logs after enabling for additional runtime details."@]
    } else {
        all
    }
}

/// The view of a list of strings.
pub open spec fn texts(v: Seq<String>) -> Seq<Seq<char>> {
    Seq::new(v.len(), |i: int| v[i]@)
}

/// `parts` joined with single spaces.
pub fn join_spaced(parts: &Vec<String>) -> (r: String)
    ensures
        r@ == joined(texts(parts@), " "@),
{
    let mut out = String::new();
    let mut i: usize = 0;
    while i < parts.len()
        invariant
            i <= parts@.len(),
            out@ == joined(texts(parts@).subrange(0, i as int), " "@),
        decreases parts@.len() - i,
    {
        let ghost pre = texts(parts@).subrange(0, i as int);
        let ghost next = texts(parts@).subrange(0, i + 1);
        assert(next.drop_last() =~= pre);
        if i > 0 {
            out.append(" ");
        }
        out.append(parts[i].as_str());
        proof {
            if i == 0 {
                assert(out@ =~= next[0]);
            }
        }
        i = i + 1;
    }
    assert(texts(parts@).subrange(0, parts@.len() as int) =~= texts(parts@));
    out
}

/// Troubleshooting hints for a failed connection test, from its message and
/// the first lines of the server's standard error.
pub fn derive_hints(message: &str, stderr_preview: &Vec<String>) -> (r: Vec<String>)
    ensures
        texts(r@) == hints_for(ascii_lower(message@), ascii_lower(joined(texts(stderr_preview@), " "@))),
{
    let lower = lower_chars(message);
    let blob_text = join_spaced(stderr_preview);
    let blob = lower_chars(blob_text.as_str());
    let mut hints: Vec<String> = Vec::new();
    if contains_text(&lower, "enoent") || contains_text(&lower, "not recognized") || contains_text(&blob, "not found") {
        hints.push(String::from_str("Verify the command exists on PATH and is spelled correctly."));
    }
    let ghost n1 = hints@.len();
    if contains_text(&lower, "permission denied") || contains_text(&blob, "permission denied") {
        hints.push(String::from_str("Check executable permissions and run the command manually once in your shell."));
    }
    if contains_text(&blob, "module not found") || contains_text(&blob, "cannot find module") {
        hints.push(String::from_str("Install missing Node dependencies (`npm install` / `pnpm install`) in the server project."));
    }
    if contains_text(&blob, "no module named") {
        hints.push(String::from_str("Install required Python packages in the active environment."));
    }
    if hints.len() == 0 {
        hints.push(String::from_str("Open server logs after enabling for additional runtime details."));
    }
    let ghost h = hints_for(lower@, blob@);
    assert(texts(hints@) =~= h);
    hints
}

/// How many lines a connection test reads at most for the answer to
/// `initialize`.
pub const CONNECTION_TEST_BUDGET: u64 = 40;

/// How many seconds a connection test waits for the answer to `initialize`.
pub const CONNECTION_TEST_WAIT_SECS: u64 = 12;

/// A runtime or binary that a server needs and that is missing.
#[derive(Debug, Clone)]
pub struct DependencyIssue {
    pub binary: String,
    pub required_by: String,
    pub install_hint: String,
}

/// What the dependency check is run on.
#[derive(Debug, Clone)]
pub struct DependencyCheckInput {
    pub command: String,
    pub args: Vec<String>,
}

/// What a connection test is run on. Secrets named in `secrets` are looked
/// up under `server_id` when the environment does not set them already.
#[derive(Debug, Clone)]
pub struct TestConnectionInput {
    pub server_id: Option<String>,
    pub command: String,
    pub args: Vec<String>,
    pub env: Vec<(String, String)>,
    pub secrets: Vec<String>,
}

/// The verdict of a connection test.
#[derive(Debug, Clone)]
pub struct ConnectionTestResult {
    pub success: bool,
    pub message: String,
    pub exit_code: Option<i32>,
    pub missing_dependencies: Vec<DependencyIssue>,
    pub hints: Vec<String>,
    pub stderr_preview: Vec<String>,
}

/// Whether some argument ends with `.py`.
pub open spec fn runs_python_file(args: Seq<Seq<char>>) -> bool {
    exists|i: int| 0 <= i < args.len() && has_suffix(#[trigger] args[i], ".py"@)
}

/// Whether some argument mentions docker, in any ASCII case.
pub open spec fn mentions_docker(args: Seq<Seq<char>>) -> bool {
    exists|i: int| 0 <= i < args.len() && has_part(ascii_lower(#[trigger] args[i]), "docker"@)
}

/// The binaries a server with this command line needs: its own binary, and
/// the runtime its binary or arguments point to.
pub open spec fn required_set(command: Seq<char>, args: Seq<Seq<char>>) -> Set<Seq<char>> {
    let base = binary_of(command);
    let own = if base.len() > 0 { set![base] } else { Set::empty() };
    let node = if node_tool(base) { set!["node"@] } else { Set::empty() };
    let python = if python_tool(base) || runs_python_file(args) { set!["python"@] } else { Set::empty() };
    let docker = if base == "docker"@ || mentions_docker(args) { set!["docker"@] } else { Set::empty() };
    own.union(node).union(python).union(docker)
}

/// Whether `v` is in strictly ascending code point order.
pub open spec fn strictly_sorted(v: Seq<Seq<char>>) -> bool {
    forall|i: int, j: int| 0 <= i < j < v.len() ==> lex_lt(v[i], v[j])
}

/// Adds `item` to the sorted list `v` unless it is there already.
fn insert_sorted(v: &mut Vec<String>, item: &str)
    requires
        strictly_sorted(texts(old(v)@)),
    ensures
        strictly_sorted(texts(final(v)@)),
        texts(final(v)@).to_set() == texts(old(v)@).to_set().insert(item@),
{
    let ghost before = texts(v@);
    let mut p: usize = 0;
    while p < v.len() && text_less(v[p].as_str(), item)
        invariant
            p <= v@.len(),
            texts(v@) == before,
            forall|k: int| 0 <= k < p ==> lex_lt(#[trigger] before[k], item@),
        decreases v@.len() - p,
    {
        p = p + 1;
    }
    if p < v.len() && same_text(v[p].as_str(), item) {
        assert(before[p as int] == item@);
        assert(before.to_set() =~= before.to_set().insert(item@));
        return;
    }
    proof {
        if p < before.len() {
            lemma_lex_order(before[p as int], item@, item@);
            assert(lex_lt(item@, before[p as int]));
            assert forall|j: int| p < j < before.len() implies lex_lt(item@, #[trigger] before[j]) by {
                lemma_lex_order(item@, before[p as int], before[j]);
            }
        }
    }
    v.insert(p, String::from_str(item));
    let ghost after = texts(v@);
    assert(after =~= before.insert(p as int, item@));
    assert(strictly_sorted(after)) by {
        assert forall|i: int, j: int| 0 <= i < j < after.len() implies lex_lt(after[i], after[j]) by {
            if j < p {
            } else if j == p {
            } else if i == p {
                assert(after[j] == before[j - 1]);
            } else if i < p {
                assert(after[j] == before[j - 1]);
                lemma_lex_order(before[i], item@, before[j - 1]);
                if j - 1 > p {
                    assert(lex_lt(item@, before[j - 1]));
                } else {
                    assert(lex_lt(item@, before[p as int]));
                }
            } else {
                assert(after[i] == before[i - 1] && after[j] == before[j - 1]);
            }
        }
    }
    assert(after.to_set() =~= before.to_set().insert(item@)) by {
        assert forall|x: Seq<char>| after.to_set().contains(x) <==> before.to_set().insert(item@).contains(x) by {
            if after.contains(x) {
                let k = choose|k: int| 0 <= k < after.len() && after[k] == x;
                if k < p {
                    assert(before[k] == x);
                } else if k > p {
                    assert(before[k - 1] == x);
                }
            }
            if before.contains(x) {
                let k = choose|k: int| 0 <= k < before.len() && before[k] == x;
                if k < p {
                    assert(after[k] == x);
                } else {
                    assert(after[k + 1] == x);
                }
            }
            if x == item@ {
                assert(after[p as int] == x);
            }
        }
    }
}

/// The binaries a server with this command line needs, each once, in
/// ascending order.
pub fn required_binaries(command: &str, args: &Vec<String>) -> (r: Vec<String>)
    ensures
        strictly_sorted(texts(r@)),
        texts(r@).to_set() == required_set(command@, texts(args@)),
{
    let base = extract_binary(command);
    let mut python_file = false;
    let mut docker_arg = false;
    let mut i: usize = 0;
    while i < args.len()
        invariant
            i <= args@.len(),
            python_file == exists|k: int| 0 <= k < i && has_suffix(#[trigger] texts(args@)[k], ".py"@),
            docker_arg == exists|k: int|
                0 <= k < i && has_part(ascii_lower(#[trigger] texts(args@)[k]), "docker"@),
        decreases args@.len() - i,
    {
        let a = chars_of(args[i].as_str());
        if ends_with_text(&a, ".py") {
            python_file = true;
        }
        let lower = lower_chars(args[i].as_str());
        if contains_text(&lower, "docker") {
            docker_arg = true;
        }
        assert(texts(args@)[i as int] == args@[i as int]@);
        i = i + 1;
    }
    let mut out: Vec<String> = Vec::new();
    assert(texts(out@).to_set() =~= Set::<Seq<char>>::empty());
    assert(strictly_sorted(texts(out@)));
    if base.unicode_len() > 0 {
        insert_sorted(&mut out, base.as_str());
    }
    if is_node_tool(base.as_str()) {
        insert_sorted(&mut out, "node");
    }
    if is_python_tool(base.as_str()) || python_file {
        insert_sorted(&mut out, "python");
    }
    if same_text(base.as_str(), "docker") || docker_arg {
        insert_sorted(&mut out, "docker");
    }
    assert(texts(out@).to_set() =~= required_set(command@, texts(args@)));
    out
}

/// The issue reported for a missing `binary` of a server whose command runs
/// `base`.
pub fn dependency_issue(binary: &str, base: &str, platform: Platform) -> (r: DependencyIssue)
    ensures
        r.binary@ == binary@,
        r.required_by@ == (if binary@ == base@ {
            "server command"@
        } else {
            "command/runtime requirements"@
        }),
        r.install_hint@ == install_hint(binary@, platform),
{
    DependencyIssue {
        binary: String::from_str(binary),
        required_by: if same_text(binary, base) {
            String::from_str("server command")
        } else {
            String::from_str("command/runtime requirements")
        },
        install_hint: install_hint_for(binary, platform),
    }
}

/// The verdict on a test with no command: it is refused before anything
/// runs. `None` when the command is present.
pub fn check_command_present(command: &str) -> (r: Option<ConnectionTestResult>)
    ensures
        r is Some <==> crate::text::blank(command@),
        r matches Some(v) ==> !v.success && v.message@ == "Command is required"@ && v.exit_code is None
            && v.missing_dependencies@.len() == 0 && texts(v.hints@) == seq![
            "Provide a server command (for example `npx` or `python`)."@,
        ] && v.stderr_preview@.len() == 0,
{
    if !crate::text::is_blank(command) {
        return None;
    }
    let mut hints: Vec<String> = Vec::new();
    hints.push(String::from_str("Provide a server command (for example `npx` or `python`)."));
    assert(texts(hints@) =~= seq!["Provide a server command (for example `npx` or `python`)."@]);
    Some(ConnectionTestResult {
        success: false,
        message: String::from_str("Command is required"),
        exit_code: None,
        missing_dependencies: Vec::new(),
        hints,
        stderr_preview: Vec::new(),
    })
}

/// The verdict on a test whose prerequisites are missing; `None` when none
/// is. Its hints are the install hints of the missing binaries, in order.
pub fn check_prerequisites(missing: Vec<DependencyIssue>) -> (r: Option<ConnectionTestResult>)
    ensures
        r is Some <==> missing@.len() > 0,
        r matches Some(v) ==> !v.success && v.message@ == "Missing prerequisites detected"@
            && v.exit_code is None && v.missing_dependencies@ == missing@ && texts(v.hints@) == Seq::new(
            missing@.len(),
            |i: int| missing@[i].install_hint@,
        ) && v.stderr_preview@.len() == 0,
{
    if missing.len() == 0 {
        return None;
    }
    let mut hints: Vec<String> = Vec::new();
    let mut i: usize = 0;
    while i < missing.len()
        invariant
            i <= missing@.len(),
            hints@.len() == i,
            forall|k: int| 0 <= k < i ==> #[trigger] hints@[k]@ == missing@[k].install_hint@,
        decreases missing@.len() - i,
    {
        hints.push(missing[i].install_hint.clone());
        i = i + 1;
    }
    assert(texts(hints@) =~= Seq::new(missing@.len(), |i: int| missing@[i].install_hint@));
    Some(ConnectionTestResult {
        success: false,
        message: String::from_str("Missing prerequisites detected"),
        exit_code: None,
        missing_dependencies: missing,
        hints,
        stderr_preview: Vec::new(),
    })
}

/// The verdict on a test whose process could not be started.
pub fn spawn_failure_result(reason: &str) -> (r: ConnectionTestResult)
    ensures
        !r.success,
        r.message@ == "Failed to spawn server process: "@ + reason@,
        r.exit_code is None,
        r.missing_dependencies@.len() == 0,
        texts(r.hints@) == hints_for(ascii_lower(r.message@), ascii_lower(joined(Seq::empty(), " "@))),
        r.stderr_preview@.len() == 0,
{
    let message = String::from_str("Failed to spawn server process: ").concat(reason);
    let none: Vec<String> = Vec::new();
    let hints = derive_hints(message.as_str(), &none);
    assert(texts(none@) =~= Seq::<Seq<char>>::empty());
    ConnectionTestResult {
        success: false,
        message,
        exit_code: None,
        missing_dependencies: Vec::new(),
        hints,
        stderr_preview: Vec::new(),
    }
}

/// How the server answered `initialize` in a connection test.
#[derive(Debug, Clone, PartialEq, Eq)]
pub enum InitializeReply {
    /// A response without an error member.
    Accepted,
    /// A response with an error member, given as JSON text.
    Rejected(String),
    /// No response: the failure message of the exchange.
    Failed(String),
}

/// The verdict on a test that reached the handshake, given the server's
/// reply, its exit code once terminated, and its first standard error lines.
pub fn handshake_result(reply: InitializeReply, exit_code: Option<i32>, stderr_lines: Vec<String>) -> (r:
    ConnectionTestResult)
    ensures
        r.exit_code == exit_code,
        r.stderr_preview@ == stderr_lines@,
        r.missing_dependencies@.len() == 0,
        r.success <==> reply == InitializeReply::Accepted,
        reply == InitializeReply::Accepted ==> r.message@ == "Server responded to MCP initialize successfully."@
            && texts(r.hints@) == seq!["Connection test passed. You can safely save or enable this server."@],
        reply matches InitializeReply::Rejected(e) ==> r.message@ == "Server returned MCP initialize error: "@
            + e@,
        reply matches InitializeReply::Failed(m) ==> r.message@ == m@,
        reply != InitializeReply::Accepted ==> texts(r.hints@) == hints_for(
            ascii_lower(r.message@),
            ascii_lower(joined(texts(stderr_lines@), " "@)),
        ),
{
    match reply {
        InitializeReply::Accepted => {
            let mut hints: Vec<String> = Vec::new();
            hints.push(String::from_str("Connection test passed. You can safely save or enable this server."));
            assert(texts(hints@) =~= seq!["Connection test passed. You can safely save or enable this server."@]);
            ConnectionTestResult {
                success: true,
                message: String::from_str("Server responded to MCP initialize successfully."),
                exit_code,
                missing_dependencies: Vec::new(),
                hints,
                stderr_preview: stderr_lines,
            }
        },
        InitializeReply::Rejected(error) => {
            let message = String::from_str("Server returned MCP initialize error: ").concat(error.as_str());
            let hints = derive_hints(message.as_str(), &stderr_lines);
            ConnectionTestResult {
                success: false,
                message,
                exit_code,
                missing_dependencies: Vec::new(),
                hints,
                stderr_preview: stderr_lines,
            }
        },
        InitializeReply::Failed(message) => {
            let hints = derive_hints(message.as_str(), &stderr_lines);
            ConnectionTestResult {
                success: false,
                message,
                exit_code,
                missing_dependencies: Vec::new(),
                hints,
                stderr_preview: stderr_lines,
            }
        },
    }
}

} // verus!
