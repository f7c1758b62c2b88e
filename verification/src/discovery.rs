//! Discovery of root directories that may hold usage logs.
//!
//! A comma-separated environment value contributes candidate paths, each
//! trimmed of surrounding whitespace and kept only when it exists on disk.
//! Two conventional per-user locations are appended afterwards, skipping any
//! that is textually identical to a path already found.

use vstd::prelude::*;
use vstd::string::*;

verus! {

/// True when `c` is one of the whitespace characters that entry trimming
/// removes from the ends of a configured path.
pub open spec fn is_space_char(c: char) -> bool {
    c == ' ' || c == '\t' || c == '\n' || c == '\r' || c == '\u{000B}' || c == '\u{000C}'
}

/// Executable counterpart of [`is_space_char`].
pub fn is_space(c: char) -> (r: bool)
    ensures
        r == is_space_char(c),
{
    c == ' ' || c == '\t' || c == '\n' || c == '\r' || c == '\u{000B}' || c == '\u{000C}'
}

/// `s` without its leading whitespace.
pub open spec fn trim_start(s: Seq<char>) -> Seq<char>
    decreases s.len(),
{
    if s.len() > 0 && is_space_char(s[0]) {
        trim_start(s.drop_first())
    } else {
        s
    }
}

/// `s` without its trailing whitespace.
pub open spec fn trim_end(s: Seq<char>) -> Seq<char>
    decreases s.len(),
{
    if s.len() > 0 && is_space_char(s.last()) {
        trim_end(s.drop_last())
    } else {
        s
    }
}

/// `s` without leading and trailing whitespace.
pub open spec fn trimmed(s: Seq<char>) -> Seq<char> {
    trim_end(trim_start(s))
}

/// Dropping a whitespace prefix: if everything before `lo` is whitespace and
/// `lo` is either the end or the first non-whitespace position, then
/// `trim_start` keeps exactly the suffix from `lo`.
proof fn lemma_trim_start_at(s: Seq<char>, lo: int)
    requires
        0 <= lo <= s.len(),
        forall|i: int| 0 <= i < lo ==> is_space_char(s[i]),
        lo < s.len() ==> !is_space_char(s[lo]),
    ensures
        trim_start(s) =~= s.subrange(lo, s.len() as int),
    decreases lo,
{
    if lo == 0 {
        if s.len() > 0 {
            assert(!is_space_char(s[0]));
        }
        assert(trim_start(s) =~= s.subrange(0, s.len() as int));
    } else {
        assert(is_space_char(s[0]));
        let s1 = s.drop_first();
        assert(forall|i: int| 0 <= i < lo - 1 ==> is_space_char(s1[i]));
        lemma_trim_start_at(s1, lo - 1);
        assert(s1.subrange(lo - 1, s1.len() as int) =~= s.subrange(lo, s.len() as int));
    }
}

/// Dropping a whitespace suffix: if everything from `hi` on is whitespace and
/// `hi` is either zero or just past the last non-whitespace position, then
/// `trim_end` keeps exactly the prefix up to `hi`.
proof fn lemma_trim_end_at(s: Seq<char>, hi: int)
    requires
        0 <= hi <= s.len(),
        forall|i: int| hi <= i < s.len() ==> is_space_char(s[i]),
        hi > 0 ==> !is_space_char(s[hi - 1]),
    ensures
        trim_end(s) =~= s.subrange(0, hi),
    decreases s.len() - hi,
{
    if hi == s.len() {
        if s.len() > 0 {
            assert(!is_space_char(s.last()));
        }
        assert(trim_end(s) =~= s.subrange(0, hi));
    } else {
        assert(is_space_char(s.last()));
        let s1 = s.drop_last();
        lemma_trim_end_at(s1, hi);
        assert(s1.subrange(0, hi) =~= s.subrange(0, hi));
    }
}

/// Returns `s` with surrounding whitespace removed.
pub fn trim_entry(s: &str) -> (r: String)
    ensures
        r@ == trimmed(s@),
{
    let n: usize = s.unicode_len();
    let mut lo: usize = 0;
    while lo < n && is_space(s.get_char(lo))
        invariant
            0 <= lo <= n,
            n == s@.len(),
            forall|i: int| 0 <= i < lo ==> is_space_char(s@[i]),
        decreases n - lo,
    {
        lo = lo + 1;
    }
    proof {
        lemma_trim_start_at(s@, lo as int);
    }
    if lo == n {
        proof {
            lemma_trim_end_at(trim_start(s@), 0);
        }
        return String::new();
    }
    let mut hi: usize = n;
    while hi > lo && is_space(s.get_char(hi - 1))
        invariant
            lo <= hi <= n,
            n == s@.len(),
            lo < n,
            !is_space_char(s@[lo as int]),
            forall|i: int| hi <= i < n ==> is_space_char(s@[i]),
        decreases hi,
    {
        hi = hi - 1;
    }
    assert(hi > lo);
    let r = s.substring_char(lo, hi);
    proof {
        let tail = s@.subrange(lo as int, n as int);
        assert(forall|i: int| hi - lo <= i < tail.len() ==> is_space_char(#[trigger] tail[i]));
        assert(!is_space_char(tail[hi - lo - 1]));
        lemma_trim_end_at(tail, hi - lo);
        assert(tail.subrange(0, hi - lo) =~= s@.subrange(lo as int, hi as int));
    }
    String::from_str(r)
}

/// Position of the first comma in `s`, or `s.len()` when there is none.
pub open spec fn comma_split_point(s: Seq<char>) -> int
    decreases s.len(),
{
    if s.len() == 0 {
        0
    } else if s[0] == ',' {
        0
    } else {
        1 + comma_split_point(s.drop_first())
    }
}

/// The split point is where the first comma stands: no comma before `p`,
/// and either a comma at `p` or no comma at all.
proof fn lemma_comma_split_point_at(s: Seq<char>, p: int)
    requires
        0 <= p <= s.len(),
        forall|i: int| 0 <= i < p ==> s[i] != ',',
        p < s.len() ==> s[p] == ',',
    ensures
        comma_split_point(s) == p,
    decreases p,
{
    if p == 0 {
    } else {
        assert(s[0] != ',');
        let s1 = s.drop_first();
        assert(forall|i: int| 0 <= i < p - 1 ==> s1[i] != ',');
        lemma_comma_split_point_at(s1, p - 1);
    }
}

/// The comma-separated pieces of `s`, in order, separators removed.
/// An input without commas yields a single piece.
pub open spec fn split_commas(s: Seq<char>) -> Seq<Seq<char>>
    decreases s.len(),
{
    let p = comma_split_point_clipped(s);
    if p == s.len() {
        seq![s]
    } else {
        seq![s.subrange(0, p)] + split_commas(s.subrange(p + 1, s.len() as int))
    }
}

/// `comma_split_point`, clipped into `[0, s.len()]` so that recursion over
/// the remainder of the string visibly terminates.
pub open spec fn comma_split_point_clipped(s: Seq<char>) -> int {
    let p = comma_split_point(s);
    if 0 <= p <= s.len() {
        p
    } else {
        s.len() as int
    }
}

/// Every configured entry of `s`: the comma-separated pieces, each trimmed.
pub open spec fn split_and_trim(s: Seq<char>) -> Seq<Seq<char>> {
    split_commas(s).map_values(|e: Seq<char>| trimmed(e))
}

/// Splits `raw` on commas and trims each piece.
pub fn split_config_paths(raw: &str) -> (out: Vec<String>)
    ensures
        out.deep_view() == split_and_trim(raw@),
{
    let n: usize = raw.unicode_len();
    let mut out: Vec<String> = Vec::new();
    let mut start: usize = 0;
    let mut i: usize = 0;
    proof {
        assert(raw@.subrange(0, n as int) =~= raw@);
        assert(out.deep_view() =~= Seq::<Seq<char>>::empty());
        assert(out.deep_view() + split_and_trim(raw@) =~= split_and_trim(raw@));
    }
    while i < n
        invariant
            0 <= start <= i <= n,
            n == raw@.len(),
            forall|j: int| start <= j < i ==> raw@[j] != ',',
            split_and_trim(raw@) =~= out.deep_view() + split_and_trim(
                raw@.subrange(start as int, n as int),
            ),
        decreases n - i,
    {
        if raw.get_char(i) == ',' {
            let piece = raw.substring_char(start, i);
            let t = trim_entry(piece);
            proof {
                let rest = raw@.subrange(start as int, n as int);
                assert(forall|j: int| 0 <= j < i - start ==> rest[j] != ',');
                assert(rest[i - start] == ',');
                lemma_comma_split_point_at(rest, i - start);
                assert(rest.subrange(0, i - start) =~= raw@.subrange(start as int, i as int));
                assert(rest.subrange(i - start + 1, rest.len() as int) =~= raw@.subrange(
                    i as int + 1,
                    n as int,
                ));
                assert(split_commas(rest) =~= seq![raw@.subrange(start as int, i as int)]
                    + split_commas(raw@.subrange(i as int + 1, n as int)));
                assert(split_and_trim(rest) =~= seq![trimmed(raw@.subrange(start as int, i as int))]
                    + split_and_trim(raw@.subrange(i as int + 1, n as int)));
            }
            let ghost prev = out.deep_view();
            out.push(t);
            proof {
                assert(out.deep_view() =~= prev.push(t@));
                assert(prev.push(t@) + split_and_trim(raw@.subrange(i as int + 1, n as int)) =~= prev
                    + (seq![t@] + split_and_trim(raw@.subrange(i as int + 1, n as int))));
            }
            start = i + 1;
        }
        i = i + 1;
    }
    let piece = raw.substring_char(start, n);
    let t = trim_entry(piece);
    proof {
        let rest = raw@.subrange(start as int, n as int);
        assert(forall|j: int| 0 <= j < rest.len() ==> rest[j] != ',');
        lemma_comma_split_point_at(rest, rest.len() as int);
        assert(split_commas(rest) =~= seq![rest]);
        assert(split_and_trim(rest) =~= seq![trimmed(rest)]);
    }
    let ghost prev = out.deep_view();
    out.push(t);
    proof {
        assert(out.deep_view() =~= prev.push(t@));
        assert(prev.push(t@) =~= prev + seq![t@]);
        assert(out.deep_view() =~= split_and_trim(raw@));
    }
    out
}

/// The entries of `entries` whose existence flag is set, in order.
pub open spec fn picked(entries: Seq<Seq<char>>, ok: Seq<bool>) -> Seq<Seq<char>>
    decreases entries.len(),
{
    if entries.len() == 0 {
        Seq::empty()
    } else if ok[0] {
        seq![entries[0]] + picked(entries.drop_first(), ok.drop_first())
    } else {
        picked(entries.drop_first(), ok.drop_first())
    }
}

/// `acc` with each existing default appended, unless it is already present.
pub open spec fn with_defaults(
    acc: Seq<Seq<char>>,
    defs: Seq<Seq<char>>,
    ok: Seq<bool>,
) -> Seq<Seq<char>>
    decreases defs.len(),
{
    if defs.len() == 0 {
        acc
    } else {
        let acc2 = if ok[0] && !acc.contains(defs[0]) {
            acc.push(defs[0])
        } else {
            acc
        };
        with_defaults(acc2, defs.drop_first(), ok.drop_first())
    }
}

/// The discovered roots: the existing configured entries first, then the
/// existing defaults that are not already present.
pub open spec fn selected_roots(
    env: Seq<Seq<char>>,
    env_ok: Seq<bool>,
    defs: Seq<Seq<char>>,
    defs_ok: Seq<bool>,
) -> Seq<Seq<char>> {
    with_defaults(picked(env, env_ok), defs, defs_ok)
}

/// Keeps the configured entries whose flag is set, then appends each default
/// whose flag is set and that is not already in the result.
pub fn select_roots(
    env_entries: &Vec<String>,
    env_ok: &Vec<bool>,
    defaults: &Vec<String>,
    defaults_ok: &Vec<bool>,
) -> (roots: Vec<String>)
    requires
        env_entries@.len() == env_ok@.len(),
        defaults@.len() == defaults_ok@.len(),
    ensures
        roots.deep_view() == selected_roots(
            env_entries.deep_view(),
            env_ok@,
            defaults.deep_view(),
            defaults_ok@,
        ),
{
    let n = env_entries.len();
    let mut roots: Vec<String> = Vec::new();
    let mut i: usize = 0;
    proof {
        assert(env_entries.deep_view().subrange(0, n as int) =~= env_entries.deep_view());
        assert(env_ok@.subrange(0, n as int) =~= env_ok@);
        assert(roots.deep_view() =~= Seq::<Seq<char>>::empty());
        assert(roots.deep_view() + picked(env_entries.deep_view(), env_ok@) =~= picked(
            env_entries.deep_view(),
            env_ok@,
        ));
    }
    while i < n
        invariant
            0 <= i <= n,
            n == env_entries@.len(),
            n == env_ok@.len(),
            picked(env_entries.deep_view(), env_ok@) =~= roots.deep_view() + picked(
                env_entries.deep_view().subrange(i as int, n as int),
                env_ok@.subrange(i as int, n as int),
            ),
        decreases n - i,
    {
        let ghost es = env_entries.deep_view().subrange(i as int, n as int);
        let ghost os = env_ok@.subrange(i as int, n as int);
        proof {
            assert(es.drop_first() =~= env_entries.deep_view().subrange(i as int + 1, n as int));
            assert(os.drop_first() =~= env_ok@.subrange(i as int + 1, n as int));
        }
        if env_ok[i] {
            let ghost prev = roots.deep_view();
            roots.push(env_entries[i].clone());
            proof {
                assert(roots.deep_view() =~= prev.push(es[0]));
                assert(prev.push(es[0]) + picked(es.drop_first(), os.drop_first()) =~= prev + (seq![
                    es[0],
                ] + picked(es.drop_first(), os.drop_first())));
            }
        }
        i = i + 1;
    }
    proof {
        assert(env_entries.deep_view().subrange(n as int, n as int)
            =~= Seq::<Seq<char>>::empty());
        assert(roots.deep_view() + Seq::<Seq<char>>::empty() =~= roots.deep_view());
    }
    let m = defaults.len();
    let mut k: usize = 0;
    proof {
        assert(defaults.deep_view().subrange(0, m as int) =~= defaults.deep_view());
        assert(defaults_ok@.subrange(0, m as int) =~= defaults_ok@);
    }
    while k < m
        invariant
            0 <= k <= m,
            m == defaults@.len(),
            m == defaults_ok@.len(),
            selected_roots(env_entries.deep_view(), env_ok@, defaults.deep_view(), defaults_ok@)
                =~= with_defaults(
                roots.deep_view(),
                defaults.deep_view().subrange(k as int, m as int),
                defaults_ok@.subrange(k as int, m as int),
            ),
        decreases m - k,
    {
        let ghost ds = defaults.deep_view().subrange(k as int, m as int);
        let ghost os = defaults_ok@.subrange(k as int, m as int);
        proof {
            assert(ds.drop_first() =~= defaults.deep_view().subrange(k as int + 1, m as int));
            assert(os.drop_first() =~= defaults_ok@.subrange(k as int + 1, m as int));
        }
        if defaults_ok[k] && !contains_string(&roots, &defaults[k]) {
            let ghost prev = roots.deep_view();
            roots.push(defaults[k].clone());
            proof {
                assert(roots.deep_view() =~= prev.push(ds[0]));
            }
        }
        k = k + 1;
    }
    proof {
        assert(defaults.deep_view().subrange(m as int, m as int) =~= Seq::<Seq<char>>::empty());
    }
    roots
}

/// True when some element of `v` has the same characters as `target`.
pub fn contains_string(v: &Vec<String>, target: &String) -> (r: bool)
    ensures
        r == v.deep_view().contains(target@),
{
    let mut i: usize = 0;
    while i < v.len()
        invariant
            0 <= i <= v@.len(),
            forall|j: int| 0 <= j < i ==> v.deep_view()[j] != target@,
        decreases v@.len() - i,
    {
        if v[i] == *target {
            assert(v.deep_view()[i as int] == target@);
            return true;
        }
        i = i + 1;
    }
    assert(forall|j: int| 0 <= j < v.deep_view().len() ==> v.deep_view()[j] != target@);
    false
}

/// Relies on `std::path::Path::exists`. Whether a path is present on disk
/// depends on the machine at the moment of the call, so nothing is promised
/// of the result.
#[verifier::external_body]
fn path_exists(path: &str) -> bool {
    std::path::Path::new(path).exists()
}

/// Relies on `dirs::home_dir`: the user's home directory, if the platform
/// knows one and it is valid Unicode. The result depends on the machine, so
/// nothing is promised of it.
#[verifier::external_body]
fn home_dir() -> Option<String> {
    match dirs::home_dir() {
        Some(p) => p.into_os_string().into_string().ok(),
        None => None,
    }
}

/// One existence flag per path, probed on disk.
fn probe_existing(paths: &Vec<String>) -> (flags: Vec<bool>)
    ensures
        flags@.len() == paths@.len(),
{
    let mut flags: Vec<bool> = Vec::new();
    let mut i: usize = 0;
    while i < paths.len()
        invariant
            flags@.len() == i,
            0 <= i <= paths@.len(),
        decreases paths@.len() - i,
    {
        flags.push(path_exists(paths[i].as_str()));
        i = i + 1;
    }
    flags
}

/// The two conventional per-user locations under a home directory.
pub fn default_candidate_paths(home: &str) -> (defs: Vec<String>)
    ensures
        defs.deep_view() =~= seq![home@ + "/.config/claudedeck"@, home@ + "/.claudedeck"@],
{
    let mut defs: Vec<String> = Vec::new();
    defs.push(String::from_str(home).concat("/.config/claudedeck"));
    defs.push(String::from_str(home).concat("/.claudedeck"));
    defs
}

/// The configured entries contributed by an environment value: its
/// comma-separated pieces, trimmed; none when the variable is unset.
pub open spec fn env_entries_of(env_value: Option<Seq<char>>) -> Seq<Seq<char>> {
    match env_value {
        Some(s) => split_and_trim(s),
        None => Seq::empty(),
    }
}

/// The default candidate locations for a home directory; none when the
/// platform reports no home.
pub open spec fn default_candidates_of(home: Option<Seq<char>>) -> Seq<Seq<char>> {
    match home {
        Some(h) => seq![h + "/.config/claudedeck"@, h + "/.claudedeck"@],
        None => Seq::empty(),
    }
}

/// The view of an optional environment value.
pub open spec fn opt_str_view(v: Option<&str>) -> Option<Seq<char>> {
    match v {
        Some(s) => Some(s@),
        None => None,
    }
}

/// Discovers the root directories that may hold usage logs: the existing
/// entries of the configured environment value first, in order, then the
/// existing conventional per-user locations that are not already present.
///
/// Which entries exist, and whether a home directory is known, depend on the
/// machine; the result is exact for some outcome of those probes.
pub fn discover_claude_paths(env_value: Option<&str>) -> (roots: Vec<String>)
    ensures
        exists|home: Option<Seq<char>>, eok: Seq<bool>, dok: Seq<bool>|
            {
                &&& eok.len() == env_entries_of(opt_str_view(env_value)).len()
                &&& dok.len() == default_candidates_of(home).len()
                &&& roots.deep_view() == selected_roots(
                    env_entries_of(opt_str_view(env_value)),
                    eok,
                    default_candidates_of(home),
                    dok,
                )
            },
{
    let env_entries: Vec<String> = match env_value {
        Some(s) => split_config_paths(s),
        None => Vec::new(),
    };
    proof {
        assert(env_entries.deep_view() =~= env_entries_of(opt_str_view(env_value)));
    }
    let env_ok = probe_existing(&env_entries);
    let home = home_dir();
    let ghost home_v: Option<Seq<char>> = match &home {
        Some(h) => Some(h@),
        None => None,
    };
    let defaults: Vec<String> = match &home {
        Some(h) => default_candidate_paths(h.as_str()),
        None => Vec::new(),
    };
    proof {
        assert(defaults.deep_view() =~= default_candidates_of(home_v));
    }
    let defaults_ok = probe_existing(&defaults);
    let roots = select_roots(&env_entries, &env_ok, &defaults, &defaults_ok);
    proof {
        assert({
            &&& env_ok@.len() == env_entries_of(opt_str_view(env_value)).len()
            &&& defaults_ok@.len() == default_candidates_of(home_v).len()
            &&& roots.deep_view() == selected_roots(
                env_entries_of(opt_str_view(env_value)),
                env_ok@,
                default_candidates_of(home_v),
                defaults_ok@,
            )
        });
    }
    roots
}

/// Discovers the usage-log root directories; see [`discover_claude_paths`].
pub fn get_claude_directories(env_value: Option<&str>) -> (roots: Vec<String>)
    ensures
        exists|home: Option<Seq<char>>, eok: Seq<bool>, dok: Seq<bool>|
            {
                &&& eok.len() == env_entries_of(opt_str_view(env_value)).len()
                &&& dok.len() == default_candidates_of(home).len()
                &&& roots.deep_view() == selected_roots(
                    env_entries_of(opt_str_view(env_value)),
                    eok,
                    default_candidates_of(home),
                    dok,
                )
            },
{
    discover_claude_paths(env_value)
}

/// With every flag set, the selection keeps all entries.
proof fn lemma_picked_all_true(entries: Seq<Seq<char>>, ok: Seq<bool>)
    requires
        ok.len() == entries.len(),
        forall|i: int| 0 <= i < ok.len() ==> ok[i],
    ensures
        picked(entries, ok) =~= entries,
    decreases entries.len(),
{
    if entries.len() > 0 {
        lemma_picked_all_true(entries.drop_first(), ok.drop_first());
        assert(picked(entries, ok) =~= seq![entries[0]] + entries.drop_first());
    }
}

/// Appending the defaults only extends the accumulated roots: the
/// accumulator stays as an unchanged prefix, and whatever follows it is one
/// of the defaults.
proof fn lemma_with_defaults_extends(acc: Seq<Seq<char>>, defs: Seq<Seq<char>>, ok: Seq<bool>)
    requires
        defs.len() == ok.len(),
    ensures
        with_defaults(acc, defs, ok).len() >= acc.len(),
        with_defaults(acc, defs, ok).subrange(0, acc.len() as int) =~= acc,
        forall|j: int|
            acc.len() <= j < with_defaults(acc, defs, ok).len() ==> defs.contains(
                #[trigger] with_defaults(acc, defs, ok)[j],
            ),
    decreases defs.len(),
{
    if defs.len() == 0 {
    } else {
        let r = with_defaults(acc, defs, ok);
        let pushed = ok[0] && !acc.contains(defs[0]);
        let acc2 = if pushed {
            acc.push(defs[0])
        } else {
            acc
        };
        lemma_with_defaults_extends(acc2, defs.drop_first(), ok.drop_first());
        assert(r.subrange(0, acc.len() as int) =~= r.subrange(0, acc2.len() as int).subrange(
            0,
            acc.len() as int,
        ));
        assert forall|j: int| acc.len() <= j < r.len() implies defs.contains(#[trigger] r[j]) by {
            if j < acc2.len() {
                assert(pushed);
                assert(r[j] == r.subrange(0, acc2.len() as int)[j]);
                assert(r[j] == defs[0]);
            } else {
                assert(defs.drop_first().contains(r[j]));
                let w = choose|w: int|
                    0 <= w < defs.drop_first().len() && defs.drop_first()[w] == r[j];
                assert(defs[w + 1] == r[j]);
            }
        }
    }
}

/// When every configured entry exists, discovery returns exactly those
/// entries, trimmed order preserved, before any default path; everything
/// after them is one of the defaults.
pub proof fn lemma_env_paths_first(
    env: Seq<Seq<char>>,
    eok: Seq<bool>,
    defs: Seq<Seq<char>>,
    dok: Seq<bool>,
)
    requires
        eok.len() == env.len(),
        forall|i: int| 0 <= i < eok.len() ==> eok[i],
        defs.len() == dok.len(),
    ensures
        selected_roots(env, eok, defs, dok).len() >= env.len(),
        selected_roots(env, eok, defs, dok).subrange(0, env.len() as int) == env,
        forall|j: int|
            env.len() <= j < selected_roots(env, eok, defs, dok).len() ==> defs.contains(
                #[trigger] selected_roots(env, eok, defs, dok)[j],
            ),
{
    lemma_picked_all_true(env, eok);
    lemma_with_defaults_extends(env, defs, dok);
    assert(selected_roots(env, eok, defs, dok) == with_defaults(env, defs, dok));
}

/// How often `v` occurs in `s`.
pub open spec fn occurrences(s: Seq<Seq<char>>, v: Seq<char>) -> nat
    decreases s.len(),
{
    if s.len() == 0 {
        0
    } else {
        occurrences(s.drop_last(), v) + (if s.last() == v {
            1nat
        } else {
            0nat
        })
    }
}

proof fn lemma_occurrences_contains(s: Seq<Seq<char>>, v: Seq<char>)
    ensures
        s.contains(v) <==> occurrences(s, v) >= 1,
    decreases s.len(),
{
    if s.len() > 0 {
        lemma_occurrences_contains(s.drop_last(), v);
        if s.contains(v) && s.last() != v {
            let w = choose|w: int| 0 <= w < s.len() && s[w] == v;
            assert(s.drop_last()[w] == v);
        }
        if s.drop_last().contains(v) {
            let w = choose|w: int| 0 <= w < s.drop_last().len() && s.drop_last()[w] == v;
            assert(s[w] == v);
        }
    }
}

/// Appending the defaults never adds an occurrence of a path that is
/// already present: a default textually identical to a configured entry is
/// not appended a second time.
pub proof fn lemma_no_duplicate_from_defaults(
    acc: Seq<Seq<char>>,
    defs: Seq<Seq<char>>,
    ok: Seq<bool>,
    v: Seq<char>,
)
    requires
        defs.len() == ok.len(),
        acc.contains(v),
    ensures
        occurrences(with_defaults(acc, defs, ok), v) == occurrences(acc, v),
    decreases defs.len(),
{
    if defs.len() == 0 {
    } else {
        let pushed = ok[0] && !acc.contains(defs[0]);
        let acc2 = if pushed {
            acc.push(defs[0])
        } else {
            acc
        };
        if pushed {
            assert(defs[0] != v);
            assert(acc2.drop_last() =~= acc);
            assert(occurrences(acc2, v) == occurrences(acc, v));
            let w = choose|w: int| 0 <= w < acc.len() && acc[w] == v;
            assert(acc2[w] == v);
        }
        lemma_no_duplicate_from_defaults(acc2, defs.drop_first(), ok.drop_first(), v);
    }
}

/// A path that the configured entries contribute exactly once occurs
/// exactly once in the whole discovery result, even when a default is
/// textually identical to it.
pub proof fn lemma_default_identical_to_env_not_repeated(
    env: Seq<Seq<char>>,
    eok: Seq<bool>,
    defs: Seq<Seq<char>>,
    dok: Seq<bool>,
    v: Seq<char>,
)
    requires
        eok.len() == env.len(),
        defs.len() == dok.len(),
        occurrences(picked(env, eok), v) == 1,
    ensures
        occurrences(selected_roots(env, eok, defs, dok), v) == 1,
{
    lemma_occurrences_contains(picked(env, eok), v);
    lemma_no_duplicate_from_defaults(picked(env, eok), defs, dok, v);
}

} // verus!
