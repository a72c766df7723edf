//! Per-workspace auto-link settings and the rules that pick, among the
//! packages found in a workspace, those to register.

use vstd::prelude::*;
use vstd::string::*;
use crate::config::strings_view;
use crate::text::{contains, ends_with, has_infix, has_prefix, has_suffix, lemma_seq_lt_irreflexive, lemma_seq_lt_transitive, owned, seq_lt, starts_with, str_eq, str_lt};

verus! {

/// The settings file of a workspace.
#[derive(Clone, Debug)]
pub struct WorkspaceConfig {
    pub auto_link: AutoLinkConfig,
}

/// Which discovered packages to register automatically.
#[derive(Clone, Debug)]
pub struct AutoLinkConfig {
    /// Name patterns to include; none means every name.
    pub patterns: Vec<String>,
    /// Name patterns to leave out; they win over `patterns`.
    pub exclude: Vec<String>,
    /// When off, every discovered package is taken.
    pub enabled: bool,
}

/// A package found while scanning a directory tree.
#[derive(Clone, Debug)]
pub struct DiscoveredPackage {
    pub name: String,
    pub path: String,
    pub version: String,
    /// Found in a build output directory.
    pub is_dist: bool,
}

/// Scans workspaces for packages.
pub struct WorkspaceManager;

/// Glob-style match: `pre*` matches names beginning with `pre`, `*suf`
/// names ending with `suf`, anything else the name itself.
pub open spec fn pattern_matches(name: Seq<char>, pattern: Seq<char>) -> bool {
    if pattern.len() > 0 && pattern.last() == '*' {
        has_prefix(name, pattern.drop_last())
    } else if pattern.len() > 0 && pattern[0] == '*' {
        has_suffix(name, pattern.drop_first())
    } else {
        name == pattern
    }
}

/// Some pattern of `patterns` matches `name`.
pub open spec fn any_matches(name: Seq<char>, patterns: Seq<Seq<char>>) -> bool {
    exists|i: int| 0 <= i < patterns.len() && pattern_matches(name, #[trigger] patterns[i])
}

/// Whether the auto-link settings take a package called `name`.
pub open spec fn selected(cfg: WorkspaceConfig, name: Seq<char>) -> bool {
    let a = cfg.auto_link;
    !a.enabled || (!any_matches(name, strings_view(a.exclude@)) && (a.patterns@.len() == 0
        || any_matches(name, strings_view(a.patterns@))))
}

/// The packages of `ps` that the settings take, order kept.
pub open spec fn selected_packages(cfg: WorkspaceConfig, ps: Seq<DiscoveredPackage>) -> Seq<
    DiscoveredPackage,
>
    decreases ps.len(),
{
    if ps.len() == 0 {
        ps
    } else {
        selected_packages(cfg, ps.drop_last()) + if selected(cfg, ps.last().name@) {
            seq![ps.last()]
        } else {
            Seq::empty()
        }
    }
}

/// The packages of `ps` whose name is among `deps`, order kept.
pub open spec fn depended_on(ps: Seq<DiscoveredPackage>, deps: Seq<Seq<char>>) -> Seq<
    DiscoveredPackage,
>
    decreases ps.len(),
{
    if ps.len() == 0 {
        ps
    } else {
        depended_on(ps.drop_last(), deps) + if deps.contains(ps.last().name@) {
            seq![ps.last()]
        } else {
            Seq::empty()
        }
    }
}

pub open spec fn derefs(s: Seq<&DiscoveredPackage>) -> Seq<DiscoveredPackage> {
    s.map_values(|p: &DiscoveredPackage| *p)
}

fn any_pattern(name: &str, patterns: &Vec<String>) -> (r: bool)
    ensures
        r == any_matches(name@, strings_view(patterns@)),
{
    let ghost pv = strings_view(patterns@);
    let mut i: usize = 0;
    while i < patterns.len()
        invariant
            pv == strings_view(patterns@),
            i <= patterns@.len(),
            forall|j: int| 0 <= j < i ==> !pattern_matches(name@, #[trigger] pv[j]),
        decreases patterns@.len() - i,
    {
        if WorkspaceManager::matches_pattern(name, patterns[i].as_str()) {
            assert(pattern_matches(name@, pv[i as int]));
            return true;
        }
        i = i + 1;
    }
    false
}

impl WorkspaceManager {
    /// Name of the per-workspace settings file.
    pub fn workspace_config_path() -> (r: String)
        ensures
            r@ == ".spine.toml"@,
    {
        owned(".spine.toml")
    }

    /// Whether `name` matches the glob-style `pattern`.
    pub fn matches_pattern(name: &str, pattern: &str) -> (r: bool)
        ensures
            r == pattern_matches(name@, pattern@),
    {
        let n = pattern.unicode_len();
        if n > 0 && pattern.get_char(n - 1) == '*' {
            let prefix = pattern.substring_char(0, n - 1);
            assert(prefix@ =~= pattern@.drop_last());
            starts_with(name, prefix)
        } else if n > 0 && pattern.get_char(0) == '*' {
            let suffix = pattern.substring_char(1, n);
            assert(suffix@ =~= pattern@.drop_first());
            ends_with(name, suffix)
        } else {
            str_eq(name, pattern)
        }
    }

    /// The packages the workspace settings take: all of them when auto-link
    /// is off; else those matching no exclude pattern and, where include
    /// patterns are given, one of those.
    pub fn filter_packages_by_workspace_config<'a>(
        packages: &'a [DiscoveredPackage],
        workspace_config: &WorkspaceConfig,
    ) -> (r: Vec<&'a DiscoveredPackage>)
        ensures
            derefs(r@) == selected_packages(*workspace_config, packages@),
    {
        let mut r: Vec<&'a DiscoveredPackage> = Vec::new();
        let mut i: usize = 0;
        while i < packages.len()
            invariant
                i <= packages@.len(),
                derefs(r@) == selected_packages(*workspace_config, packages@.take(i as int)),
            decreases packages@.len() - i,
        {
            assert(packages@.take(i + 1).drop_last() =~= packages@.take(i as int));
            let p = &packages[i];
            let a = &workspace_config.auto_link;
            let take = !a.enabled || (!any_pattern(p.name.as_str(), &a.exclude) && (a.patterns.len()
                == 0 || any_pattern(p.name.as_str(), &a.patterns)));
            if take {
                r.push(p);
            }
            assert(derefs(r@) =~= selected_packages(*workspace_config, packages@.take(i + 1)));
            i = i + 1;
        }
        assert(packages@.take(packages@.len() as int) =~= packages@);
        r
    }

    /// The packages in name order.
    pub fn sort_by_name(packages: Vec<DiscoveredPackage>) -> (r: Vec<DiscoveredPackage>)
        ensures
            r@.to_multiset() == packages@.to_multiset(),
            forall|i: int, j: int| 0 <= i < j < r@.len() ==> !seq_lt(#[trigger] r@[j].name@, #[trigger] r@[i].name@),
    {
        broadcast use vstd::seq_lib::group_to_multiset_ensures;
        let ghost all = packages@;
        let n = packages.len();
        let mut pending = packages;
        let mut r: Vec<DiscoveredPackage> = Vec::new();
        let mut i: usize = 0;
        while i < n
            invariant
                n == all.len(),
                i <= n,
                pending@ == all.subrange(i as int, n as int),
                r@.to_multiset() == all.take(i as int).to_multiset(),
                forall|a: int, b: int| 0 <= a < b < r@.len() ==> !seq_lt(#[trigger] r@[b].name@, #[trigger] r@[a].name@),
            decreases n - i,
        {
            let p = pending.remove(0);
            assert(p == all[i as int]);
            assert(pending@ =~= all.subrange(i + 1, n as int));
            assert(all.take(i + 1) =~= all.take(i as int).push(p));
            let mut pos: usize = 0;
            while pos < r.len() && !str_lt(p.name.as_str(), r[pos].name.as_str())
                invariant
                    pos <= r@.len(),
                    forall|a: int| 0 <= a < pos ==> !seq_lt(p.name@, #[trigger] r@[a].name@),
                decreases r@.len() - pos,
            {
                pos = pos + 1;
            }
            let ghost old_r = r@;
            r.insert(pos, p);
            assert(r@ == old_r.insert(pos as int, p));
            proof {
                vstd::seq_lib::to_multiset_insert(old_r, pos as int, p);
                all.take(i as int).to_multiset_ensures();
                assert(all.take(i as int).push(p).to_multiset() =~= all.take(i as int).to_multiset().insert(p));
                assert(r@.to_multiset() == all.take(i + 1).to_multiset());
            }
            assert forall|a: int, b: int| 0 <= a < b < r@.len() implies !seq_lt(#[trigger] r@[b].name@, #[trigger] r@[a].name@) by {
                if b < pos {
                    assert(r@[a] == old_r[a] && r@[b] == old_r[b]);
                } else if b == pos {
                    assert(r@[a] == old_r[a]);
                } else if a == pos {
                    assert(r@[b] == old_r[b - 1]);
                    if seq_lt(old_r[b - 1].name@, p.name@) {
                        assert(seq_lt(p.name@, old_r[pos as int].name@));
                        if b - 1 > pos {
                            lemma_seq_lt_transitive(old_r[b - 1].name@, p.name@, old_r[pos as int].name@);
                        } else {
                            lemma_seq_lt_transitive(old_r[b - 1].name@, p.name@, old_r[b - 1].name@);
                            lemma_seq_lt_irreflexive(old_r[b - 1].name@);
                        }
                    }
                } else if a < pos {
                    assert(r@[a] == old_r[a] && r@[b] == old_r[b - 1]);
                    if seq_lt(old_r[b - 1].name@, old_r[a].name@) {
                        assert(!seq_lt(p.name@, old_r[a].name@));
                        assert(seq_lt(p.name@, old_r[pos as int].name@));
                        if b - 1 > pos {
                            assert(!seq_lt(old_r[b - 1].name@, old_r[pos as int].name@));
                        }
                        lemma_seq_lt_transitive(p.name@, old_r[pos as int].name@, old_r[a].name@);
                    }
                } else {
                    assert(r@[a] == old_r[a - 1] && r@[b] == old_r[b - 1]);
                }
            }
            i = i + 1;
        }
        assert(all.take(n as int) =~= all);
        r
    }

    /// Whether a directory called `dir_name` holds build output.
    pub fn is_dist_dir(dir_name: &str) -> (r: bool)
        ensures
            r == has_infix(dir_name@, "dist"@),
    {
        contains(dir_name, "dist")
    }

    /// The discovered packages that the current project depends on
    /// (`deps`: its dependencies and dev-dependencies), order kept.
    pub fn filter_by_dependencies(discovered: Vec<DiscoveredPackage>, deps: &Vec<String>) -> (r: Vec<
        DiscoveredPackage,
    >)
        ensures
            r@ == depended_on(discovered@, strings_view(deps@)),
    {
        let ghost dv = strings_view(deps@);
        let ghost all = discovered@;
        let n = discovered.len();
        let mut pending = discovered;
        let mut r: Vec<DiscoveredPackage> = Vec::new();
        let mut i: usize = 0;
        while i < n
            invariant
                dv == strings_view(deps@),
                n == all.len(),
                i <= n,
                pending@ == all.subrange(i as int, n as int),
                r@ == depended_on(all.take(i as int), dv),
            decreases n - i,
        {
            assert(all.take(i + 1).drop_last() =~= all.take(i as int));
            let p = pending.remove(0);
            assert(p == all[i as int]);
            assert(pending@ =~= all.subrange(i + 1, n as int));
            if crate::config::list_has(deps, p.name.as_str()) {
                r.push(p);
            }
            assert(r@ =~= depended_on(all.take(i + 1), dv));
            i = i + 1;
        }
        assert(all.take(n as int) =~= all);
        r
    }
}

} // verus!
