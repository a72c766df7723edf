//! The library's error type, and the "did you mean" suggestions that come
//! with an unknown package name.

use vstd::prelude::*;
use vstd::string::*;
use crate::text::{concat, contains, has_infix, join, join_all, owned};

verus! {

/// What can go wrong while managing links.
#[derive(Clone, Debug, PartialEq, Eq)]
pub enum SpineError {
    Config(String),
    PackageJson(String),
    Io(String),
    TomlParsing(String),
    JsonParsing(String),
    InvalidPath(String),
    PackageNotFound(String),
    PackageNotFoundWithSuggestion { package: String, suggestion: String },
    AngularWorkspace { message: String, suggestion: String },
    CommandFailed { command: String, error: String, suggestion: String },
    /// The link command reported success, yet no live link is found afterwards.
    VerificationFailed(String),
    /// The link command itself failed; the text is what it reported.
    LinkCommandFailed(String),
    /// Persisted state could not be taken as a registry.
    ConfigCorrupt(String),
    Timeout(String),
}

/// `r` is a `PackageNotFound` error naming `name`.
pub open spec fn is_not_found<T>(r: Result<T, SpineError>, name: Seq<char>) -> bool {
    match r {
        Err(SpineError::PackageNotFound(m)) => m@ == name,
        _ => false,
    }
}

/// `r` is an `InvalidPath` error with message `msg`.
pub open spec fn is_invalid_path<T>(r: Result<T, SpineError>, msg: Seq<char>) -> bool {
    match r {
        Err(SpineError::InvalidPath(m)) => m@ == msg,
        _ => false,
    }
}

pub open spec fn min3(a: int, b: int, c: int) -> int {
    if a <= b && a <= c {
        a
    } else if b <= c {
        b
    } else {
        c
    }
}

/// Edit distance between the first `i` characters of `a` and the first `j`
/// characters of `b` (insertions, deletions and substitutions cost one).
pub open spec fn lev(a: Seq<char>, b: Seq<char>, i: int, j: int) -> int
    decreases i + j,
{
    if i <= 0 {
        if j <= 0 { 0 } else { j }
    } else if j <= 0 {
        i
    } else {
        min3(
            lev(a, b, i - 1, j) + 1,
            lev(a, b, i, j - 1) + 1,
            lev(a, b, i - 1, j - 1) + if a[i - 1] == b[j - 1] { 0int } else { 1int },
        )
    }
}

/// Levenshtein distance of two character sequences.
pub open spec fn edit_distance(a: Seq<char>, b: Seq<char>) -> int {
    lev(a, b, a.len() as int, b.len() as int)
}

proof fn lemma_lev_bounds(a: Seq<char>, b: Seq<char>, i: int, j: int)
    requires
        0 <= i,
        0 <= j,
    ensures
        0 <= lev(a, b, i, j) <= if i <= j { j } else { i },
    decreases i + j,
{
    if i > 0 && j > 0 {
        lemma_lev_bounds(a, b, i - 1, j);
        lemma_lev_bounds(a, b, i, j - 1);
        lemma_lev_bounds(a, b, i - 1, j - 1);
    }
}

proof fn lemma_lev_lower(a: Seq<char>, b: Seq<char>, i: int, j: int)
    requires
        0 <= i,
        0 <= j,
    ensures
        lev(a, b, i, j) >= i - j,
        lev(a, b, i, j) >= j - i,
    decreases i + j,
{
    if i > 0 && j > 0 {
        lemma_lev_lower(a, b, i - 1, j);
        lemma_lev_lower(a, b, i, j - 1);
        lemma_lev_lower(a, b, i - 1, j - 1);
    }
}

/// Levenshtein distance of `s1` and `s2`, counted in characters.
pub fn levenshtein_distance(s1: &str, s2: &str) -> (r: usize)
    requires
        s1@.len() < usize::MAX,
        s2@.len() < usize::MAX,
    ensures
        r == edit_distance(s1@, s2@),
{
    let n1 = s1.unicode_len();
    let n2 = s2.unicode_len();
    let ghost a = s1@;
    let ghost b = s2@;
    let mut prev: Vec<usize> = Vec::new();
    let mut j: usize = 0;
    while j <= n2
        invariant
            n2 == b.len(),
            n2 < usize::MAX,
            j <= n2 + 1,
            prev@.len() == j,
            forall|k: int| 0 <= k < j ==> prev@[k] == lev(a, b, 0, k),
        decreases n2 + 1 - j,
    {
        prev.push(j);
        j = j + 1;
    }
    let mut i: usize = 1;
    while i <= n1
        invariant
            n1 == a.len(),
            n2 == b.len(),
            a == s1@,
            b == s2@,
            n1 < usize::MAX,
            n2 < usize::MAX,
            1 <= i <= n1 + 1,
            prev@.len() == n2 + 1,
            forall|k: int| 0 <= k <= n2 ==> prev@[k] == lev(a, b, i - 1, k),
        decreases n1 + 1 - i,
    {
        let mut cur: Vec<usize> = Vec::new();
        cur.push(i);
        let ci = s1.get_char(i - 1);
        let mut j: usize = 1;
        while j <= n2
            invariant
                n1 == a.len(),
                n2 == b.len(),
                a == s1@,
                b == s2@,
                n1 < usize::MAX,
                n2 < usize::MAX,
                1 <= i <= n1,
                ci == a[i - 1],
                1 <= j <= n2 + 1,
                prev@.len() == n2 + 1,
                cur@.len() == j,
                forall|k: int| 0 <= k <= n2 ==> prev@[k] == lev(a, b, i - 1, k),
                forall|k: int| 0 <= k < j ==> cur@[k] == lev(a, b, i as int, k),
            decreases n2 + 1 - j,
        {
            proof {
                lemma_lev_bounds(a, b, i - 1, j as int);
                lemma_lev_bounds(a, b, i as int, j - 1);
                lemma_lev_bounds(a, b, i - 1, j - 1);
            }
            let cost: usize = if ci == s2.get_char(j - 1) { 0 } else { 1 };
            let del = prev[j] + 1;
            let ins = cur[j - 1] + 1;
            let sub = prev[j - 1] + cost;
            let best = if del <= ins && del <= sub {
                del
            } else if ins <= sub {
                ins
            } else {
                sub
            };
            cur.push(best);
            j = j + 1;
        }
        prev = cur;
        i = i + 1;
    }
    prev[n2]
}

/// Those of the first `n` candidates whose distance to `target` is exactly `d`,
/// in their original order.
pub open spec fn at_distance(target: Seq<char>, cands: Seq<Seq<char>>, d: int, n: int) -> Seq<
    Seq<char>,
>
    decreases n,
{
    if n <= 0 {
        Seq::empty()
    } else {
        at_distance(target, cands, d, n - 1) + if edit_distance(target, cands[n - 1]) == d {
            seq![cands[n - 1]]
        } else {
            Seq::empty()
        }
    }
}

/// Candidates within distance three of `target`, nearest first; equally near
/// ones keep their original order.
pub open spec fn ranked(target: Seq<char>, cands: Seq<Seq<char>>) -> Seq<Seq<char>> {
    let n = cands.len() as int;
    at_distance(target, cands, 0, n) + at_distance(target, cands, 1, n) + at_distance(
        target,
        cands,
        2,
        n,
    ) + at_distance(target, cands, 3, n)
}

/// The (at most three) nearest names to `target`.
pub open spec fn similar_names(target: Seq<char>, cands: Seq<Seq<char>>) -> Seq<Seq<char>> {
    let r = ranked(target, cands);
    if r.len() <= 3 {
        r
    } else {
        r.take(3)
    }
}

/// `x` is the distance `e` where that is at most three, and above three
/// otherwise.
pub open spec fn close_enough(x: usize, e: int) -> bool {
    (e <= 3 ==> x == e) && (e > 3 ==> x > 3)
}

pub open spec fn views(v: Seq<String>) -> Seq<Seq<char>> {
    v.map_values(|s: String| s@)
}

/// Up to three registered names close to `target` (edit distance at most
/// three), nearest first.
pub fn find_similar_names(target: &str, candidates: &[String]) -> (r: Vec<String>)
    requires
        target@.len() + 3 < usize::MAX,
    ensures
        views(r@) == similar_names(target@, views(candidates@)),
{
    let ghost t = target@;
    let ghost cs = views(candidates@);
    let n = candidates.len();
    let tl = target.unicode_len();
    let mut dists: Vec<usize> = Vec::new();
    let mut k: usize = 0;
    while k < n
        invariant
            n == candidates@.len(),
            t == target@,
            cs == views(candidates@),
            t.len() + 3 < usize::MAX,
            tl == t.len(),
            k <= n,
            dists@.len() == k,
            forall|i: int| 0 <= i < k ==> close_enough(dists@[i], #[trigger] edit_distance(t, cs[i])),
        decreases n - k,
    {
        let c = candidates[k].as_str();
        let cl = c.unicode_len();
        proof {
            lemma_lev_lower(t, c@, t.len() as int, c@.len() as int);
        }
        let d = if cl > tl + 3 || (tl > 3 && tl - 3 > cl) {
            4
        } else {
            levenshtein_distance(target, c)
        };
        dists.push(d);
        k = k + 1;
    }
    let mut all: Vec<String> = Vec::new();
    let mut d: usize = 0;
    while d <= 3
        invariant
            n == candidates@.len(),
            cs == views(candidates@),
            dists@.len() == n,
            forall|i: int| 0 <= i < n ==> close_enough(dists@[i], #[trigger] edit_distance(t, cs[i])),
            d <= 4,
            views(all@) == if d == 0 {
                Seq::empty()
            } else if d == 1 {
                at_distance(t, cs, 0, n as int)
            } else if d == 2 {
                at_distance(t, cs, 0, n as int) + at_distance(t, cs, 1, n as int)
            } else if d == 3 {
                at_distance(t, cs, 0, n as int) + at_distance(t, cs, 1, n as int) + at_distance(t, cs, 2, n as int)
            } else {
                ranked(t, cs)
            },
        decreases 4 - d,
    {
        let ghost base = views(all@);
        let mut k: usize = 0;
        while k < n
            invariant
                n == candidates@.len(),
                cs == views(candidates@),
                dists@.len() == n,
                forall|i: int| 0 <= i < n ==> close_enough(dists@[i], #[trigger] edit_distance(t, cs[i])),
                d <= 3,
                k <= n,
                views(all@) == base + at_distance(t, cs, d as int, k as int),
            decreases n - k,
        {
            if dists[k] == d {
                let c = candidates[k].clone();
                let ghost before = views(all@);
                all.push(c);
                assert(views(all@) =~= before.push(cs[k as int]));
                assert(at_distance(t, cs, d as int, k + 1) == at_distance(t, cs, d as int, k as int)
                    + seq![cs[k as int]]);
            } else {
                assert(views(all@) =~= base + at_distance(t, cs, d as int, k + 1));
            }
            assert(views(all@) =~= base + at_distance(t, cs, d as int, k + 1));
            k = k + 1;
        }
        d = d + 1;
    }
    let mut r: Vec<String> = Vec::new();
    let m: usize = if all.len() <= 3 { all.len() } else { 3 };
    let mut k: usize = 0;
    while k < m
        invariant
            m <= all@.len(),
            k <= m,
            views(r@) == views(all@).take(k as int),
        decreases m - k,
    {
        r.push(all[k].clone());
        assert(views(all@).take(k + 1) =~= views(all@).take(k as int).push(all@[k as int]@));
        assert(views(r@) =~= views(all@).take(k + 1));
        k = k + 1;
    }
    assert(views(all@).take(m as int) =~= similar_names(t, cs));
    r
}

/// The hint attached to an unknown package name.
pub open spec fn not_found_hint(package: Seq<char>, available: Seq<Seq<char>>) -> Seq<char> {
    if available.len() == 0 {
        "No packages are currently configured. Use 'spine add <package> <path>' to add one."@
    } else {
        let similar = similar_names(package, available);
        if similar.len() == 0 {
            "Available packages: "@ + join(available, ", "@)
        } else {
            "Did you mean '"@ + similar[0] + "'? Available: "@ + join(available, ", "@)
        }
    }
}

/// The hint for a failed external command, by the tool it names.
pub open spec fn command_hint(command: Seq<char>) -> Seq<char> {
    if has_infix(command, "ng"@) {
        "Make sure Angular CLI is installed: npm install -g @angular/cli"@
    } else if has_infix(command, "npm"@) {
        "Make sure you're in a directory with package.json"@
    } else {
        "Check that all required tools are installed and accessible"@
    }
}

impl SpineError {
    /// An unknown package name, with the nearest registered names as a hint.
    pub fn package_not_found_with_suggestions(package: &str, available_packages: &[String]) -> (r:
        SpineError)
        requires
            package@.len() + 3 < usize::MAX,
        ensures
            r matches SpineError::PackageNotFoundWithSuggestion { package: p, suggestion: s } && p@
                == package@ && s@ == not_found_hint(package@, views(available_packages@)),
    {
        let suggestion = if available_packages.len() == 0 {
            owned("No packages are currently configured. Use 'spine add <package> <path>' to add one.")
        } else {
            let similar = find_similar_names(package, available_packages);
            let names = join_all(available_packages, ", ");
            if similar.len() == 0 {
                concat("Available packages: ", names.as_str())
            } else {
                let head = concat("Did you mean '", similar[0].as_str());
                let head = concat(head.as_str(), "'? Available: ");
                concat(head.as_str(), names.as_str())
            }
        };
        SpineError::PackageNotFoundWithSuggestion { package: owned(package), suggestion }
    }

    /// No `angular.json` in `current_dir`.
    pub fn angular_workspace_not_found(current_dir: &str) -> (r: SpineError)
        ensures
            r matches SpineError::AngularWorkspace { message: m, suggestion: s } && m@
                == "No angular.json found in "@ + current_dir@ && s@
                == "Make sure you're in an Angular project root directory, or run 'ng new' to create a new project."@,
    {
        SpineError::AngularWorkspace {
            message: concat("No angular.json found in ", current_dir),
            suggestion: owned(
                "Make sure you're in an Angular project root directory, or run 'ng new' to create a new project.",
            ),
        }
    }

    /// A failed external command, with a hint chosen by the tool it names.
    pub fn command_failed_with_suggestion(command: &str, error: &str) -> (r: SpineError)
        ensures
            r matches SpineError::CommandFailed { command: c, error: e, suggestion: s } && c@
                == command@ && e@ == error@ && s@ == command_hint(command@),
    {
        let suggestion = if contains(command, "ng") {
            owned("Make sure Angular CLI is installed: npm install -g @angular/cli")
        } else if contains(command, "npm") {
            owned("Make sure you're in a directory with package.json")
        } else {
            owned("Check that all required tools are installed and accessible")
        };
        SpineError::CommandFailed { command: owned(command), error: owned(error), suggestion }
    }
}

} // verus!
