//! The link registry: which local package is linked into which projects.
//!
//! Entries are kept sorted by name with no name twice, so the registry reads
//! as a map from package name to its link and lists in name order.

use vstd::prelude::*;
use vstd::string::*;
use crate::error::{is_invalid_path, is_not_found, not_found_hint, views, SpineError};
use crate::text::{concat, lemma_seq_lt_irreflexive, lemma_seq_lt_total, lemma_seq_lt_transitive, owned, seq_lt, str_eq, str_lt};

verus! {

/// One registered package.
#[derive(Clone, Debug)]
pub struct PackageLink {
    pub name: String,
    /// Where the package's sources live.
    pub path: String,
    /// The version last read from the package's manifest, if any.
    pub version: Option<String>,
    /// Projects this package is linked into, each stored once.
    pub linked_projects: Vec<String>,
}

/// What a [`PackageLink`] holds, as plain sequences.
pub struct LinkView {
    pub name: Seq<char>,
    pub path: Seq<char>,
    pub version: Option<Seq<char>>,
    pub linked_projects: Seq<Seq<char>>,
}

pub open spec fn opt_view(o: Option<String>) -> Option<Seq<char>> {
    match o {
        Some(s) => Some(s@),
        None => None,
    }
}

pub open spec fn strings_view(v: Seq<String>) -> Seq<Seq<char>> {
    v.map_values(|s: String| s@)
}

impl View for PackageLink {
    type V = LinkView;

    open spec fn view(&self) -> LinkView {
        LinkView {
            name: self.name@,
            path: self.path@,
            version: opt_view(self.version),
            linked_projects: strings_view(self.linked_projects@),
        }
    }
}

/// Settings for regenerating shell completion scripts.
#[derive(Clone, Debug)]
pub struct CompletionConfig {
    pub auto_regenerate: bool,
    pub shell: Option<String>,
    pub script_path: Option<String>,
}

/// The registry of package links.
#[derive(Clone, Debug)]
pub struct Config {
    pub links: Vec<PackageLink>,
    pub completion: CompletionConfig,
}

/// Names strictly increase along `es`.
pub open spec fn sorted_by_name(es: Seq<LinkView>) -> bool {
    forall|i: int, j: int| 0 <= i < j < es.len() ==> seq_lt(#[trigger] es[i].name, #[trigger] es[j].name)
}

/// No entry of `es` lists a project twice.
pub open spec fn projects_distinct(es: Seq<LinkView>) -> bool {
    forall|i: int| 0 <= i < es.len() ==> (#[trigger] es[i]).linked_projects.no_duplicates()
}

pub open spec fn has_name(es: Seq<LinkView>, k: Seq<char>) -> bool {
    exists|i: int| 0 <= i < es.len() && (#[trigger] es[i]).name == k
}

/// The map from name to entry that a sequence of entries stands for.
pub open spec fn registry_map(es: Seq<LinkView>) -> Map<Seq<char>, LinkView> {
    Map::new(
        |k: Seq<char>| has_name(es, k),
        |k: Seq<char>| es[choose|i: int| 0 <= i < es.len() && (#[trigger] es[i]).name == k],
    )
}

pub proof fn lemma_map_at(es: Seq<LinkView>, i: int)
    requires
        sorted_by_name(es),
        0 <= i < es.len(),
    ensures
        registry_map(es).contains_key(es[i].name),
        registry_map(es)[es[i].name] == es[i],
{
    let k = es[i].name;
    assert(has_name(es, k));
    let j = choose|j: int| 0 <= j < es.len() && (#[trigger] es[j]).name == k;
    if j != i {
        lemma_seq_lt_irreflexive(k);
        if j < i {
            assert(seq_lt(es[j].name, es[i].name));
        } else {
            assert(seq_lt(es[i].name, es[j].name));
        }
    }
}

pub proof fn lemma_map_absent(es: Seq<LinkView>, k: Seq<char>)
    requires
        forall|i: int| 0 <= i < es.len() ==> (#[trigger] es[i]).name != k,
    ensures
        !registry_map(es).contains_key(k),
{
}

/// Inserting an entry at its place in name order.
pub proof fn lemma_insert_at(es: Seq<LinkView>, p: int, l: LinkView)
    requires
        sorted_by_name(es),
        0 <= p <= es.len(),
        p == 0 || seq_lt(es[p - 1].name, l.name),
        p == es.len() || seq_lt(l.name, es[p].name),
    ensures
        sorted_by_name(es.insert(p, l)),
        registry_map(es.insert(p, l)) == registry_map(es).insert(l.name, l),
{
    let ns = es.insert(p, l);
    assert forall|i: int, j: int| 0 <= i < j < ns.len() implies seq_lt(
        #[trigger] ns[i].name,
        #[trigger] ns[j].name,
    ) by {
        if i < p && j == p {
            if i < p - 1 {
                lemma_seq_lt_transitive(es[i].name, es[p - 1].name, l.name);
            }
        } else if i == p && j > p {
            if j - 1 > p {
                lemma_seq_lt_transitive(l.name, es[p].name, es[j - 1].name);
            }
        } else if i < p && j > p {
            assert(seq_lt(es[i].name, es[j - 1].name));
        } else if i > p {
            assert(seq_lt(es[i - 1].name, es[j - 1].name));
        }
    }
    let m = registry_map(es).insert(l.name, l);
    assert forall|k: Seq<char>| #[trigger] registry_map(ns).contains_key(k) <==> m.contains_key(k) by {
        if has_name(es, k) {
            let i = choose|i: int| 0 <= i < es.len() && (#[trigger] es[i]).name == k;
            if i < p {
                assert(ns[i] == es[i]);
            } else {
                assert(ns[i + 1] == es[i]);
            }
        }
        if k == l.name {
            assert(ns[p] == l);
        }
        if has_name(ns, k) {
            let i = choose|i: int| 0 <= i < ns.len() && (#[trigger] ns[i]).name == k;
            if i < p {
                assert(es[i] == ns[i]);
            } else if i > p {
                assert(es[i - 1] == ns[i]);
            }
        }
    }
    assert forall|k: Seq<char>| #[trigger] registry_map(ns).contains_key(k) implies registry_map(ns)[k]
        == m[k] by {
        let i = choose|i: int| 0 <= i < ns.len() && (#[trigger] ns[i]).name == k;
        lemma_map_at(ns, i);
        if i < p {
            lemma_map_at(es, i);
            lemma_seq_lt_irreflexive(k);
        } else if i > p {
            lemma_map_at(es, i - 1);
            lemma_seq_lt_irreflexive(k);
        }
    }
    assert(registry_map(ns) =~= m);
}

/// Replacing an entry by one of the same name.
pub proof fn lemma_update_at(es: Seq<LinkView>, p: int, l: LinkView)
    requires
        sorted_by_name(es),
        0 <= p < es.len(),
        es[p].name == l.name,
    ensures
        sorted_by_name(es.update(p, l)),
        registry_map(es.update(p, l)) == registry_map(es).insert(l.name, l),
{
    let ns = es.update(p, l);
    assert forall|i: int, j: int| 0 <= i < j < ns.len() implies seq_lt(
        #[trigger] ns[i].name,
        #[trigger] ns[j].name,
    ) by {
        assert(seq_lt(es[i].name, es[j].name));
    }
    let m = registry_map(es).insert(l.name, l);
    assert forall|k: Seq<char>| #[trigger] registry_map(ns).contains_key(k) <==> m.contains_key(k) by {
        if has_name(es, k) {
            let i = choose|i: int| 0 <= i < es.len() && (#[trigger] es[i]).name == k;
            assert(ns[i].name == k);
        }
        if has_name(ns, k) {
            let i = choose|i: int| 0 <= i < ns.len() && (#[trigger] ns[i]).name == k;
            assert(es[i].name == k);
        }
    }
    assert forall|k: Seq<char>| #[trigger] registry_map(ns).contains_key(k) implies registry_map(ns)[k]
        == m[k] by {
        let i = choose|i: int| 0 <= i < ns.len() && (#[trigger] ns[i]).name == k;
        lemma_map_at(ns, i);
        lemma_map_at(es, i);
        if i != p {
            lemma_seq_lt_irreflexive(k);
            if i < p {
                assert(seq_lt(es[i].name, es[p].name));
            } else {
                assert(seq_lt(es[p].name, es[i].name));
            }
            assert(ns[i] == es[i]);
        }
    }
    assert(registry_map(ns) =~= m);
}

/// The map of a list of entries is empty exactly when the list is.
pub proof fn lemma_map_nonempty(es: Seq<LinkView>)
    ensures
        (registry_map(es).dom().len() > 0) == (es.len() > 0),
{
    let m = registry_map(es);
    if es.len() > 0 {
        assert(m.dom().contains(es[0].name)) by {
            assert(has_name(es, es[0].name));
        }
        assert(m.dom().finite()) by {
            assert(m.dom() =~= Set::new(|k: Seq<char>| has_name(es, k)));
            lemma_names_finite(es);
        }
        vstd::set_lib::lemma_set_empty_equivalency_len(m.dom());
    } else {
        assert(m.dom() =~= Set::<Seq<char>>::empty());
    }
}

proof fn lemma_names_finite(es: Seq<LinkView>)
    ensures
        Set::new(|k: Seq<char>| has_name(es, k)).finite(),
{
    let f = es.map_values(|l: LinkView| l.name);
    assert(Set::new(|k: Seq<char>| has_name(es, k)) =~= f.to_set()) by {
        assert forall|k: Seq<char>| has_name(es, k) <==> f.to_set().contains(k) by {
            if has_name(es, k) {
                let i = choose|i: int| 0 <= i < es.len() && (#[trigger] es[i]).name == k;
                assert(f[i] == k);
            }
            if f.to_set().contains(k) {
                let i = choose|i: int| 0 <= i < f.len() && f[i] == k;
                assert(es[i].name == k);
            }
        }
    }
    vstd::seq_lib::seq_to_set_is_finite(f);
}

/// Dropping the entry at `p`.
pub proof fn lemma_remove_at(es: Seq<LinkView>, p: int)
    requires
        sorted_by_name(es),
        0 <= p < es.len(),
    ensures
        sorted_by_name(es.remove(p)),
        registry_map(es.remove(p)) == registry_map(es).remove(es[p].name),
{
    let ns = es.remove(p);
    let name = es[p].name;
    assert forall|i: int, j: int| 0 <= i < j < ns.len() implies seq_lt(
        #[trigger] ns[i].name,
        #[trigger] ns[j].name,
    ) by {
        if j < p {
            assert(seq_lt(es[i].name, es[j].name));
        } else if i < p {
            assert(seq_lt(es[i].name, es[j + 1].name));
        } else {
            assert(seq_lt(es[i + 1].name, es[j + 1].name));
        }
    }
    let m = registry_map(es).remove(name);
    assert forall|k: Seq<char>| #[trigger] registry_map(ns).contains_key(k) <==> m.contains_key(k) by {
        if has_name(es, k) && k != name {
            let i = choose|i: int| 0 <= i < es.len() && (#[trigger] es[i]).name == k;
            if i < p {
                assert(ns[i] == es[i]);
            } else {
                assert(ns[i - 1] == es[i]);
            }
        }
        if has_name(ns, k) {
            let i = choose|i: int| 0 <= i < ns.len() && (#[trigger] ns[i]).name == k;
            lemma_seq_lt_irreflexive(name);
            if i < p {
                assert(seq_lt(es[i].name, es[p].name));
            } else {
                assert(seq_lt(es[p].name, es[i + 1].name));
            }
        }
    }
    assert forall|k: Seq<char>| #[trigger] registry_map(ns).contains_key(k) implies registry_map(ns)[k]
        == m[k] by {
        let i = choose|i: int| 0 <= i < ns.len() && (#[trigger] ns[i]).name == k;
        let j = if i < p { i } else { i + 1 };
        assert(ns[i] == es[j]);
        lemma_map_at(ns, i);
        lemma_map_at(es, j);
        assert(m.contains_key(k));
        assert(registry_map(ns)[k] == ns[i]);
        assert(registry_map(es)[k] == es[j]);
    }
    assert(registry_map(ns) =~= m);
}

/// `l` with its project list replaced by `ps`.
pub open spec fn with_projects(l: LinkView, ps: Seq<Seq<char>>) -> LinkView {
    LinkView { name: l.name, path: l.path, version: l.version, linked_projects: ps }
}

/// `ps` with `p` added at the end unless it is there already.
pub open spec fn add_project(ps: Seq<Seq<char>>, p: Seq<char>) -> Seq<Seq<char>> {
    if ps.contains(p) {
        ps
    } else {
        ps.push(p)
    }
}

/// `ps` without `x`, order kept.
pub open spec fn without(ps: Seq<Seq<char>>, x: Seq<char>) -> Seq<Seq<char>>
    decreases ps.len(),
{
    if ps.len() == 0 {
        ps
    } else {
        without(ps.drop_last(), x) + if ps.last() == x {
            Seq::empty()
        } else {
            seq![ps.last()]
        }
    }
}

/// The prober reported a live link of package `name` in project `proj`.
pub open spec fn live(obs: Seq<(Seq<char>, Seq<char>)>, name: Seq<char>, proj: Seq<char>) -> bool {
    obs.contains((name, proj))
}

/// The projects of `ps` in which package `name` is live, order kept.
pub open spec fn kept(obs: Seq<(Seq<char>, Seq<char>)>, name: Seq<char>, ps: Seq<Seq<char>>) -> Seq<
    Seq<char>,
>
    decreases ps.len(),
{
    if ps.len() == 0 {
        ps
    } else {
        kept(obs, name, ps.drop_last()) + if live(obs, name, ps.last()) {
            seq![ps.last()]
        } else {
            Seq::empty()
        }
    }
}

pub proof fn lemma_without(ps: Seq<Seq<char>>, x: Seq<char>)
    ensures
        forall|y: Seq<char>|
            #![trigger without(ps, x).contains(y)]
            #![trigger ps.contains(y)]
            without(ps, x).contains(y) <==> ps.contains(y) && y != x,
        ps.no_duplicates() ==> without(ps, x).no_duplicates(),
    decreases ps.len(),
{
    if ps.len() > 0 {
        let init = ps.drop_last();
        lemma_without(init, x);
        let w = without(init, x);
        assert forall|y: Seq<char>| without(ps, x).contains(y) <==> ps.contains(y) && y != x by {
            if ps.contains(y) && y != x {
                let i = choose|i: int| 0 <= i < ps.len() && ps[i] == y;
                if i < ps.len() - 1 {
                    assert(init[i] == y);
                    assert(init.contains(y));
                    let j = choose|j: int| 0 <= j < w.len() && w[j] == y;
                    assert(without(ps, x)[j] == y);
                } else {
                    assert(without(ps, x)[w.len() as int] == y);
                }
            }
            if without(ps, x).contains(y) {
                let j = choose|j: int| 0 <= j < without(ps, x).len() && without(ps, x)[j] == y;
                if j < w.len() {
                    assert(w[j] == y);
                    assert(w.contains(y));
                    assert(init.contains(y) && y != x);
                    let i = choose|i: int| 0 <= i < init.len() && init[i] == y;
                    assert(ps[i] == y);
                } else {
                    assert(ps.last() != x);
                    assert(ps[ps.len() - 1] == y);
                }
            }
        }
        if ps.no_duplicates() {
            assert(init.no_duplicates()) by {
                assert forall|i: int, j: int| 0 <= i < init.len() && 0 <= j < init.len() && i != j implies init[i] != init[j] by {
                    assert(ps[i] == init[i] && ps[j] == init[j]);
                }
            }
            if ps.last() != x {
                assert(!init.contains(ps.last())) by {
                    if init.contains(ps.last()) {
                        let i = choose|i: int| 0 <= i < init.len() && init[i] == ps.last();
                        assert(ps[i] == ps[ps.len() - 1]);
                    }
                }
                assert(!w.contains(ps.last()));
                let r = without(ps, x);
                assert forall|i: int, j: int| 0 <= i < r.len() && 0 <= j < r.len() && i != j implies r[i] != r[j] by {
                    if i < w.len() && j < w.len() {
                        assert(r[i] == w[i] && r[j] == w[j]);
                    } else if i < w.len() {
                        assert(r[i] == w[i]);
                        assert(w.contains(w[i]));
                    } else if j < w.len() {
                        assert(r[j] == w[j]);
                        assert(w.contains(w[j]));
                    }
                }
            } else {
                assert(without(ps, x) =~= w);
            }
        }
    }
}

pub proof fn lemma_kept(obs: Seq<(Seq<char>, Seq<char>)>, name: Seq<char>, ps: Seq<Seq<char>>)
    ensures
        forall|y: Seq<char>|
            #![trigger kept(obs, name, ps).contains(y)]
            #![trigger ps.contains(y)]
            kept(obs, name, ps).contains(y) <==> ps.contains(y) && live(obs, name, y),
        ps.no_duplicates() ==> kept(obs, name, ps).no_duplicates(),
    decreases ps.len(),
{
    if ps.len() > 0 {
        let init = ps.drop_last();
        lemma_kept(obs, name, init);
        let w = kept(obs, name, init);
        assert forall|y: Seq<char>| kept(obs, name, ps).contains(y) <==> ps.contains(y) && live(obs, name, y) by {
            if ps.contains(y) && live(obs, name, y) {
                let i = choose|i: int| 0 <= i < ps.len() && ps[i] == y;
                if i < ps.len() - 1 {
                    assert(init[i] == y);
                    assert(init.contains(y));
                    let j = choose|j: int| 0 <= j < w.len() && w[j] == y;
                    assert(kept(obs, name, ps)[j] == y);
                } else {
                    assert(kept(obs, name, ps)[w.len() as int] == y);
                }
            }
            if kept(obs, name, ps).contains(y) {
                let j = choose|j: int| 0 <= j < kept(obs, name, ps).len() && kept(obs, name, ps)[j] == y;
                if j < w.len() {
                    assert(w[j] == y);
                    assert(w.contains(y));
                    assert(init.contains(y) && live(obs, name, y));
                    let i = choose|i: int| 0 <= i < init.len() && init[i] == y;
                    assert(ps[i] == y);
                } else {
                    assert(live(obs, name, ps.last()));
                    assert(ps[ps.len() - 1] == y);
                }
            }
        }
        if ps.no_duplicates() {
            assert(init.no_duplicates()) by {
                assert forall|i: int, j: int| 0 <= i < init.len() && 0 <= j < init.len() && i != j implies init[i] != init[j] by {
                    assert(ps[i] == init[i] && ps[j] == init[j]);
                }
            }
            if live(obs, name, ps.last()) {
                assert(!init.contains(ps.last())) by {
                    if init.contains(ps.last()) {
                        let i = choose|i: int| 0 <= i < init.len() && init[i] == ps.last();
                        assert(ps[i] == ps[ps.len() - 1]);
                    }
                }
                assert(!w.contains(ps.last()));
                let r = kept(obs, name, ps);
                assert forall|i: int, j: int| 0 <= i < r.len() && 0 <= j < r.len() && i != j implies r[i] != r[j] by {
                    if i < w.len() && j < w.len() {
                        assert(r[i] == w[i] && r[j] == w[j]);
                    } else if i < w.len() {
                        assert(r[i] == w[i]);
                        assert(w.contains(w[i]));
                    } else if j < w.len() {
                        assert(r[j] == w[j]);
                        assert(w.contains(w[j]));
                    }
                }
            } else {
                assert(kept(obs, name, ps) =~= w);
            }
        }
    }
}


proof fn lemma_records_prefix(rs: Seq<LinkView>, n: int)
    requires
        0 <= n <= rs.len(),
        !records_ok(rs.take(n)),
    ensures
        !records_ok(rs),
{
    let t = rs.take(n);
    if !names_distinct(t) {
        let (i, j) = choose|i: int, j: int| 0 <= i < t.len() && 0 <= j < t.len() && i != j && (#[trigger] t[i]).name == (#[trigger] t[j]).name;
        assert(rs[i].name == rs[j].name);
    } else {
        let i = choose|i: int| 0 <= i < t.len() && !(#[trigger] t[i]).linked_projects.no_duplicates();
        assert(rs[i] == t[i]);
    }
}

pub fn distinct_strings(items: &Vec<String>) -> (r: bool)
    ensures
        r == strings_view(items@).no_duplicates(),
{
    let ghost v = strings_view(items@);
    let mut i: usize = 0;
    while i < items.len()
        invariant
            v == strings_view(items@),
            i <= items@.len(),
            v.take(i as int).no_duplicates(),
        decreases items@.len() - i,
    {
        let mut j: usize = 0;
        while j < i
            invariant
                v == strings_view(items@),
                j <= i < items@.len(),
                forall|k: int| 0 <= k < j ==> v[k] != v[i as int],
            decreases i - j,
        {
            if str_eq(items[j].as_str(), items[i].as_str()) {
                assert(v[j as int] == v[i as int]);
                return false;
            }
            j = j + 1;
        }
        assert(v.take(i + 1).no_duplicates()) by {
            let t = v.take(i + 1);
            assert forall|a: int, b: int| 0 <= a < t.len() && 0 <= b < t.len() && a != b implies t[a] != t[b] by {
                if a < i && b < i {
                    assert(v.take(i as int)[a] == t[a] && v.take(i as int)[b] == t[b]);
                }
            }
        }
        i = i + 1;
    }
    assert(v.take(items@.len() as int) =~= v);
    true
}


/// Whether `items` holds `x`.
pub fn list_has(items: &Vec<String>, x: &str) -> (r: bool)
    ensures
        r == strings_view(items@).contains(x@),
{
    let mut i: usize = 0;
    while i < items.len()
        invariant
            i <= items@.len(),
            forall|j: int| 0 <= j < i ==> (#[trigger] items@[j])@ != x@,
        decreases items@.len() - i,
    {
        if str_eq(items[i].as_str(), x) {
            assert(strings_view(items@)[i as int] == x@);
            return true;
        }
        i = i + 1;
    }
    assert forall|j: int| 0 <= j < items@.len() implies strings_view(items@)[j] != x@ by {
        assert(strings_view(items@)[j] == items@[j]@);
    }
    false
}

/// The items of `items` other than `x`, in order.
pub fn list_without(items: &Vec<String>, x: &str) -> (r: Vec<String>)
    ensures
        strings_view(r@) == without(strings_view(items@), x@),
{
    let ghost v = strings_view(items@);
    let mut r: Vec<String> = Vec::new();
    let mut i: usize = 0;
    while i < items.len()
        invariant
            v == strings_view(items@),
            i <= items@.len(),
            strings_view(r@) == without(v.take(i as int), x@),
        decreases items@.len() - i,
    {
        assert(v.take(i + 1).drop_last() =~= v.take(i as int));
        if !str_eq(items[i].as_str(), x) {
            let c = items[i].clone();
            r.push(c);
        }
        assert(strings_view(r@) =~= without(v.take(i + 1), x@));
        i = i + 1;
    }
    assert(v.take(items@.len() as int) =~= v);
    r
}

/// The key a project is stored under: its canonical path where that could
/// be resolved, else the path as given.
pub fn path_key(canonical: Option<String>, raw: String) -> (r: String)
    ensures
        r@ == match canonical {
            Some(c) => c@,
            None => raw@,
        },
{
    match canonical {
        Some(c) => c,
        None => raw,
    }
}

/// A package together with a project, as the prober or a report names them.
#[derive(Clone, Debug, PartialEq, Eq)]
pub struct LinkPair {
    pub package: String,
    pub project: String,
}

impl View for LinkPair {
    type V = (Seq<char>, Seq<char>);

    open spec fn view(&self) -> (Seq<char>, Seq<char>) {
        (self.package@, self.project@)
    }
}

pub open spec fn pairs_view(v: Seq<LinkPair>) -> Seq<(Seq<char>, Seq<char>)> {
    v.map_values(|p: LinkPair| p@)
}

/// The pairs of `name` with each project of `ps` that is not live, in order.
pub open spec fn dropped(obs: Seq<(Seq<char>, Seq<char>)>, name: Seq<char>, ps: Seq<Seq<char>>) -> Seq<
    (Seq<char>, Seq<char>),
>
    decreases ps.len(),
{
    if ps.len() == 0 {
        Seq::empty()
    } else {
        dropped(obs, name, ps.drop_last()) + if live(obs, name, ps.last()) {
            Seq::empty()
        } else {
            seq![(name, ps.last())]
        }
    }
}

/// An entry with the projects where it is not live dropped.
pub open spec fn cleaned(obs: Seq<(Seq<char>, Seq<char>)>, l: LinkView) -> LinkView {
    with_projects(l, kept(obs, l.name, l.linked_projects))
}

/// An entry cleaned, then given the current project if it is live there.
pub open spec fn synced(obs: Seq<(Seq<char>, Seq<char>)>, cur: Seq<char>, l: LinkView) -> LinkView {
    let ks = kept(obs, l.name, l.linked_projects);
    if live(obs, l.name, cur) && !ks.contains(cur) {
        with_projects(l, ks.push(cur))
    } else {
        with_projects(l, ks)
    }
}

/// Every (package, project) pair of `es` whose link is not live, in order.
pub open spec fn removed_pairs(obs: Seq<(Seq<char>, Seq<char>)>, es: Seq<LinkView>) -> Seq<
    (Seq<char>, Seq<char>),
>
    decreases es.len(),
{
    if es.len() == 0 {
        Seq::empty()
    } else {
        removed_pairs(obs, es.drop_last()) + dropped(obs, es.last().name, es.last().linked_projects)
    }
}

/// The pairs (package, current project) that reconciliation adds, in order.
pub open spec fn added_pairs(obs: Seq<(Seq<char>, Seq<char>)>, cur: Seq<char>, es: Seq<LinkView>) -> Seq<
    (Seq<char>, Seq<char>),
>
    decreases es.len(),
{
    if es.len() == 0 {
        Seq::empty()
    } else {
        let l = es.last();
        added_pairs(obs, cur, es.drop_last()) + if live(obs, l.name, cur) && !kept(
            obs,
            l.name,
            l.linked_projects,
        ).contains(cur) {
            seq![(l.name, cur)]
        } else {
            Seq::empty()
        }
    }
}

/// The names of `found` that `m` does not register, in order.
pub open spec fn untracked(m: Map<Seq<char>, LinkView>, found: Seq<Seq<char>>) -> Seq<Seq<char>>
    decreases found.len(),
{
    if found.len() == 0 {
        Seq::empty()
    } else {
        untracked(m, found.drop_last()) + if m.contains_key(found.last()) {
            Seq::empty()
        } else {
            seq![found.last()]
        }
    }
}

/// The names of `found` that `m` registers, in order.
pub open spec fn registered_names(m: Map<Seq<char>, LinkView>, found: Seq<Seq<char>>) -> Seq<Seq<char>>
    decreases found.len(),
{
    if found.len() == 0 {
        Seq::empty()
    } else {
        registered_names(m, found.drop_last()) + if m.contains_key(found.last()) {
            seq![found.last()]
        } else {
            Seq::empty()
        }
    }
}

/// What one reconciliation found and changed.
#[derive(Clone, Debug)]
pub struct SyncReport {
    /// Links recorded in the registry but not live; dropped from it.
    pub removed_invalid_links: Vec<LinkPair>,
    /// Live links into the current project that were not recorded; added.
    pub added_missing_links: Vec<LinkPair>,
    /// Linked package names the registry does not know; left alone.
    pub untracked_links: Vec<String>,
}

impl SyncReport {
    /// A report with nothing in it.
    pub fn new() -> (r: SyncReport)
        ensures
            r.removed_invalid_links@.len() == 0,
            r.added_missing_links@.len() == 0,
            r.untracked_links@.len() == 0,
    {
        SyncReport {
            removed_invalid_links: Vec::new(),
            added_missing_links: Vec::new(),
            untracked_links: Vec::new(),
        }
    }
}

/// Whether the prober reported package `name` live in project `proj`.
pub fn is_observed(observed: &Vec<LinkPair>, name: &str, proj: &str) -> (r: bool)
    ensures
        r == live(pairs_view(observed@), name@, proj@),
{
    let ghost ov = pairs_view(observed@);
    let mut i: usize = 0;
    while i < observed.len()
        invariant
            ov == pairs_view(observed@),
            i <= observed@.len(),
            forall|j: int| 0 <= j < i ==> ov[j] != (name@, proj@),
        decreases observed@.len() - i,
    {
        if str_eq(observed[i].package.as_str(), name) && str_eq(observed[i].project.as_str(), proj) {
            assert(ov[i as int] == (name@, proj@));
            return true;
        }
        i = i + 1;
    }
    false
}

/// Splits `ps` into the projects where `name` is live and the pairs where
/// it is not.
fn split_live(observed: &Vec<LinkPair>, name: &str, ps: &Vec<String>) -> (r: (Vec<String>, Vec<LinkPair>))
    ensures
        strings_view(r.0@) == kept(pairs_view(observed@), name@, strings_view(ps@)),
        pairs_view(r.1@) == dropped(pairs_view(observed@), name@, strings_view(ps@)),
{
    let ghost ov = pairs_view(observed@);
    let ghost v = strings_view(ps@);
    let mut good: Vec<String> = Vec::new();
    let mut bad: Vec<LinkPair> = Vec::new();
    let mut i: usize = 0;
    while i < ps.len()
        invariant
            ov == pairs_view(observed@),
            v == strings_view(ps@),
            i <= ps@.len(),
            strings_view(good@) == kept(ov, name@, v.take(i as int)),
            pairs_view(bad@) == dropped(ov, name@, v.take(i as int)),
        decreases ps@.len() - i,
    {
        assert(v.take(i + 1).drop_last() =~= v.take(i as int));
        if is_observed(observed, name, ps[i].as_str()) {
            good.push(ps[i].clone());
        } else {
            bad.push(LinkPair { package: owned(name), project: ps[i].clone() });
        }
        assert(strings_view(good@) =~= kept(ov, name@, v.take(i + 1)));
        assert(pairs_view(bad@) =~= dropped(ov, name@, v.take(i + 1)));
        i = i + 1;
    }
    assert(v.take(ps@.len() as int) =~= v);
    (good, bad)
}

proof fn lemma_all_live(obs: Seq<(Seq<char>, Seq<char>)>, name: Seq<char>, ps: Seq<Seq<char>>)
    requires
        forall|y: Seq<char>| ps.contains(y) ==> live(obs, name, y),
    ensures
        kept(obs, name, ps) == ps,
        dropped(obs, name, ps) == Seq::<(Seq<char>, Seq<char>)>::empty(),
    decreases ps.len(),
{
    if ps.len() > 0 {
        let init = ps.drop_last();
        assert forall|y: Seq<char>| init.contains(y) implies live(obs, name, y) by {
            let i = choose|i: int| 0 <= i < init.len() && init[i] == y;
            assert(ps[i] == y);
            assert(ps.contains(y));
        }
        lemma_all_live(obs, name, init);
        assert(ps.contains(ps.last())) by {
            assert(ps[ps.len() - 1] == ps.last());
        }
        assert(ps =~= init.push(ps.last()));
        assert(kept(obs, name, ps) =~= init + seq![ps.last()]);
        assert(dropped(obs, name, ps) =~= Seq::<(Seq<char>, Seq<char>)>::empty());
    }
}

proof fn lemma_synced_stable(obs: Seq<(Seq<char>, Seq<char>)>, cur: Seq<char>, l: LinkView)
    ensures
        kept(obs, l.name, synced(obs, cur, l).linked_projects) == synced(obs, cur, l).linked_projects,
        dropped(obs, l.name, synced(obs, cur, l).linked_projects) == Seq::<
            (Seq<char>, Seq<char>),
        >::empty(),
        live(obs, l.name, cur) ==> synced(obs, cur, l).linked_projects.contains(cur),
        synced(obs, cur, synced(obs, cur, l)) == synced(obs, cur, l),
{
    let ks = kept(obs, l.name, l.linked_projects);
    lemma_kept(obs, l.name, l.linked_projects);
    let ps = synced(obs, cur, l).linked_projects;
    assert forall|y: Seq<char>| ps.contains(y) implies live(obs, l.name, y) by {
        if ps.len() > ks.len() {
            let i = choose|i: int| 0 <= i < ps.len() && ps[i] == y;
            if i < ks.len() {
                assert(ks[i] == y);
                assert(ks.contains(y));
            }
        }
    }
    lemma_all_live(obs, l.name, ps);
    if live(obs, l.name, cur) && !ks.contains(cur) {
        assert(ps[ks.len() as int] == cur);
    }
}

/// Every name stands at most once in a well-formed registry.
pub proof fn lemma_names_unique(c: Config)
    requires
        c.wf(),
    ensures
        forall|i: int, j: int|
            0 <= i < c.entries().len() && 0 <= j < c.entries().len() && i != j ==> (
            #[trigger] c.entries()[i]).name != (#[trigger] c.entries()[j]).name,
{
    assert forall|i: int, j: int|
        0 <= i < c.entries().len() && 0 <= j < c.entries().len() && i != j implies (
        #[trigger] c.entries()[i]).name != (#[trigger] c.entries()[j]).name by {
        lemma_seq_lt_irreflexive(c.entries()[i].name);
        if i < j {
            assert(seq_lt(c.entries()[i].name, c.entries()[j].name));
        } else {
            assert(seq_lt(c.entries()[j].name, c.entries()[i].name));
        }
    }
}

/// Reconciling a second time with nothing changed on disk removes nothing,
/// adds nothing and leaves the registry as the first pass left it.
pub proof fn lemma_reconcile_idempotent(
    es: Seq<LinkView>,
    obs: Seq<(Seq<char>, Seq<char>)>,
    cur: Seq<char>,
)
    ensures
        removed_pairs(obs, es.map_values(|l: LinkView| synced(obs, cur, l))) == Seq::<
            (Seq<char>, Seq<char>),
        >::empty(),
        added_pairs(obs, cur, es.map_values(|l: LinkView| synced(obs, cur, l))) == Seq::<
            (Seq<char>, Seq<char>),
        >::empty(),
        es.map_values(|l: LinkView| synced(obs, cur, l)).map_values(
            |l: LinkView| synced(obs, cur, l),
        ) == es.map_values(|l: LinkView| synced(obs, cur, l)),
    decreases es.len(),
{
    let once = es.map_values(|l: LinkView| synced(obs, cur, l));
    if es.len() > 0 {
        let init = es.drop_last();
        lemma_reconcile_idempotent(init, obs, cur);
        assert(once.drop_last() =~= init.map_values(|l: LinkView| synced(obs, cur, l)));
        let l = es.last();
        assert(once.last() == synced(obs, cur, l));
        lemma_synced_stable(obs, cur, l);
        assert(removed_pairs(obs, once) =~= Seq::<(Seq<char>, Seq<char>)>::empty());
        assert(added_pairs(obs, cur, once) =~= Seq::<(Seq<char>, Seq<char>)>::empty());
    } else {
        assert(once =~= Seq::<LinkView>::empty());
    }
    assert forall|i: int| 0 <= i < once.len() implies synced(obs, cur, #[trigger] once[i]) == once[i] by {
        lemma_synced_stable(obs, cur, es[i]);
    }
    assert(once.map_values(|l: LinkView| synced(obs, cur, l)) =~= once);
}

/// How one restore attempt ended.
#[derive(Clone, Debug, PartialEq, Eq)]
pub enum RestoreOutcome {
    /// The link command succeeded and the link is live.
    Restored,
    /// The link command failed; the text is what it reported.
    LinkCommandFailed(String),
    /// The link command succeeded, yet the prober still finds no live link.
    VerificationFailed,
}

/// Classifies a restore attempt from the link command's result and from
/// whether the prober found the link live afterwards.
pub fn restore_outcome(link_result: &Result<(), String>, verified: bool) -> (r: RestoreOutcome)
    ensures
        match link_result {
            Err(e) => (r matches RestoreOutcome::LinkCommandFailed(m) && m@ == e@),
            Ok(_) => if verified {
                r is Restored
            } else {
                r is VerificationFailed
            },
        },
{
    match link_result {
        Err(e) => RestoreOutcome::LinkCommandFailed(e.clone()),
        Ok(_) => if verified {
            RestoreOutcome::Restored
        } else {
            RestoreOutcome::VerificationFailed
        },
    }
}

/// Where an entry stands with respect to the current project: 0 when the
/// registry does not link it there, 1 when it does and the link is live,
/// 2 when it does and the link is gone.
pub open spec fn restore_class(obs: Seq<(Seq<char>, Seq<char>)>, cur: Seq<char>, l: LinkView) -> int {
    if !l.linked_projects.contains(cur) {
        0
    } else if live(obs, l.name, cur) {
        1
    } else {
        2
    }
}

/// The names of the entries of `es` in class `k`, in order.
pub open spec fn names_in_class(
    obs: Seq<(Seq<char>, Seq<char>)>,
    cur: Seq<char>,
    es: Seq<LinkView>,
    k: int,
) -> Seq<Seq<char>>
    decreases es.len(),
{
    if es.len() == 0 {
        Seq::empty()
    } else {
        names_in_class(obs, cur, es.drop_last(), k) + if restore_class(obs, cur, es.last()) == k {
            seq![es.last().name]
        } else {
            Seq::empty()
        }
    }
}

/// Which packages a restore must relink in the current project.
#[derive(Clone, Debug)]
pub struct RestorePlan {
    pub to_restore: Vec<String>,
    pub already_linked: Vec<String>,
    pub not_configured: Vec<String>,
}

/// No name stands twice in `es`.
pub open spec fn names_distinct(es: Seq<LinkView>) -> bool {
    forall|i: int, j: int| 0 <= i < es.len() && 0 <= j < es.len() && i != j ==> (#[trigger] es[i]).name != (#[trigger] es[j]).name
}

/// What a loaded list of entries must satisfy to be taken as a registry.
pub open spec fn records_ok(es: Seq<LinkView>) -> bool {
    names_distinct(es) && projects_distinct(es)
}

proof fn lemma_map_at_distinct(es: Seq<LinkView>, i: int)
    requires
        names_distinct(es),
        0 <= i < es.len(),
    ensures
        registry_map(es).contains_key(es[i].name),
        registry_map(es)[es[i].name] == es[i],
{
    assert(has_name(es, es[i].name));
}

proof fn lemma_map_push(es: Seq<LinkView>, l: LinkView)
    requires
        names_distinct(es),
        !has_name(es, l.name),
    ensures
        names_distinct(es.push(l)),
        registry_map(es.push(l)) == registry_map(es).insert(l.name, l),
{
    let ns = es.push(l);
    assert(names_distinct(ns)) by {
        assert forall|i: int, j: int| 0 <= i < ns.len() && 0 <= j < ns.len() && i != j implies (#[trigger] ns[i]).name != (#[trigger] ns[j]).name by {
            if i < es.len() && j < es.len() {
                assert(es[i].name != es[j].name);
            } else if i < es.len() {
                assert(es[i].name != l.name);
            } else {
                assert(es[j].name != l.name);
            }
        }
    }
    let m = registry_map(es).insert(l.name, l);
    assert forall|k: Seq<char>| #[trigger] registry_map(ns).contains_key(k) <==> m.contains_key(k) by {
        if has_name(es, k) {
            let i = choose|i: int| 0 <= i < es.len() && (#[trigger] es[i]).name == k;
            assert(ns[i].name == k);
        }
        if k == l.name {
            assert(ns[es.len() as int].name == k);
        }
        if has_name(ns, k) {
            let i = choose|i: int| 0 <= i < ns.len() && (#[trigger] ns[i]).name == k;
            if i < es.len() {
                assert(es[i].name == k);
            }
        }
    }
    assert forall|k: Seq<char>| #[trigger] registry_map(ns).contains_key(k) implies registry_map(ns)[k] == m[k] by {
        let i = choose|i: int| 0 <= i < ns.len() && (#[trigger] ns[i]).name == k;
        lemma_map_at_distinct(ns, i);
        if i < es.len() {
            assert(ns[i] == es[i]);
            lemma_map_at_distinct(es, i);
        }
    }
    assert(registry_map(ns) =~= m);
}

/// Two name-ordered lists that stand for the same map are the same list.
pub proof fn lemma_same_map_same_entries(a: Seq<LinkView>, b: Seq<LinkView>)
    requires
        sorted_by_name(a),
        sorted_by_name(b),
        registry_map(a) == registry_map(b),
    ensures
        a == b,
    decreases a.len(),
{
    if a.len() == 0 {
        if b.len() > 0 {
            lemma_map_at(b, 0);
        }
        assert(a =~= b);
    } else {
        lemma_map_at(a, 0);
        if b.len() == 0 {
            assert(!has_name(b, a[0].name));
        }
        lemma_map_at(b, 0);
        let j = choose|j: int| 0 <= j < b.len() && (#[trigger] b[j]).name == a[0].name;
        let k = choose|k: int| 0 <= k < a.len() && (#[trigger] a[k]).name == b[0].name;
        if j > 0 {
            assert(seq_lt(b[0].name, b[j].name));
            lemma_seq_lt_irreflexive(a[0].name);
            if k > 0 {
                assert(seq_lt(a[0].name, a[k].name));
                lemma_seq_lt_transitive(a[0].name, b[0].name, a[0].name);
            }
        }
        assert(b[0] == a[0]);
        lemma_remove_at(a, 0);
        lemma_remove_at(b, 0);
        lemma_same_map_same_entries(a.remove(0), b.remove(0));
        assert(a =~= seq![a[0]] + a.remove(0));
        assert(b =~= seq![b[0]] + b.remove(0));
    }
}

/// What is saved, loaded back, gives the registry that was saved: the
/// entries of a well-formed registry are accepted as records, and any
/// well-formed registry holding what they stand for (which is what loading
/// returns) lists the same entries in the same order.
pub proof fn lemma_save_load_round_trip(c: Config, loaded: Config)
    requires
        c.wf(),
        loaded.wf(),
        loaded@ == registry_map(c.entries()),
    ensures
        records_ok(c.entries()),
        loaded.entries() == c.entries(),
{
    lemma_names_unique(c);
    lemma_same_map_same_entries(loaded.entries(), c.entries());
}

impl View for Config {
    type V = Map<Seq<char>, LinkView>;

    open spec fn view(&self) -> Map<Seq<char>, LinkView> {
        registry_map(self.entries())
    }
}

impl Config {
    /// The entries in name order.
    pub open spec fn entries(&self) -> Seq<LinkView> {
        self.links@.map_values(|l: PackageLink| l@)
    }

    /// Names are unique and in order; no entry lists a project twice.
    pub open spec fn wf(&self) -> bool {
        sorted_by_name(self.entries()) && projects_distinct(self.entries())
    }

    /// An empty registry, with completion regeneration off.
    pub fn new() -> (r: Config)
        ensures
            r.wf(),
            r@ == Map::<Seq<char>, LinkView>::empty(),
            r.entries().len() == 0,
            !r.completion.auto_regenerate,
            r.completion.shell is None,
            r.completion.script_path is None,
    {
        let r = Config {
            links: Vec::new(),
            completion: CompletionConfig { auto_regenerate: false, shell: None, script_path: None },
        };
        assert(r@ =~= Map::<Seq<char>, LinkView>::empty());
        r
    }

    /// Where `name` stands, or where it would be inserted.
    fn position(&self, name: &str) -> (r: (usize, bool))
        requires
            self.wf(),
        ensures
            r.0 <= self.entries().len(),
            r.1 ==> r.0 < self.entries().len() && self.entries()[r.0 as int].name == name@,
            !r.1 ==> (r.0 == 0 || seq_lt(self.entries()[r.0 - 1].name, name@)) && (r.0
                == self.entries().len() || seq_lt(name@, self.entries()[r.0 as int].name)),
            r.1 <==> self@.contains_key(name@),
    {
        let ghost es = self.entries();
        let n = self.links.len();
        let mut i: usize = 0;
        while i < n
            invariant
                es == self.entries(),
                n == es.len(),
                i <= n,
                i == 0 || seq_lt(es[i - 1].name, name@),
                sorted_by_name(es),
            decreases n - i,
        {
            let here = self.links[i].name.as_str();
            if str_eq(here, name) {
                proof {
                    lemma_map_at(es, i as int);
                }
                return (i, true);
            }
            if !str_lt(here, name) {
                proof {
                    lemma_seq_lt_total(es[i as int].name, name@);
                    assert forall|j: int| 0 <= j < n implies (#[trigger] es[j]).name != name@ by {
                        lemma_seq_lt_irreflexive(name@);
                        if j < i - 1 {
                            lemma_seq_lt_transitive(es[j].name, es[i - 1].name, name@);
                        } else if j > i {
                            lemma_seq_lt_transitive(name@, es[i as int].name, es[j].name);
                        }
                    }
                    lemma_map_absent(es, name@);
                }
                return (i, false);
            }
            i = i + 1;
        }
        proof {
            assert forall|j: int| 0 <= j < n implies (#[trigger] es[j]).name != name@ by {
                lemma_seq_lt_irreflexive(name@);
                if j < n - 1 {
                    lemma_seq_lt_transitive(es[j].name, es[n - 1].name, name@);
                }
            }
            lemma_map_absent(es, name@);
        }
        (n, false)
    }

    /// The entry for `name`, if registered.
    pub fn lookup(&self, name: &str) -> (r: Option<&PackageLink>)
        requires
            self.wf(),
        ensures
            r is Some <==> self@.contains_key(name@),
            r is Some ==> r->0@ == self@[name@],
    {
        let (p, found) = self.position(name);
        if found {
            proof {
                lemma_map_at(self.entries(), p as int);
            }
            Some(&self.links[p])
        } else {
            None
        }
    }

    /// Whether `name` is registered.
    pub fn contains(&self, name: &str) -> (r: bool)
        requires
            self.wf(),
        ensures
            r == self@.contains_key(name@),
    {
        self.position(name).1
    }

    /// Registers `name` at `path`, replacing any earlier entry of that name
    /// together with the projects it listed. `path_exists` says whether
    /// `path` is on disk; `version` is what its manifest gave, if anything.
    pub fn add_link(&mut self, name: String, path: String, path_exists: bool, version: Option<
        String,
    >) -> (r: Result<(), SpineError>)
        requires
            old(self).wf(),
        ensures
            final(self).wf(),
            final(self).completion == old(self).completion,
            !path_exists ==> final(self)@ == old(self)@ && is_invalid_path(
                r,
                "Path does not exist: "@ + path@,
            ),
            path_exists ==> r is Ok && final(self)@ == old(self)@.insert(
                name@,
                LinkView {
                    name: name@,
                    path: path@,
                    version: opt_view(version),
                    linked_projects: Seq::empty(),
                },
            ),
    {
        if !path_exists {
            return Err(SpineError::InvalidPath(concat("Path does not exist: ", path.as_str())));
        }
        let (p, found) = self.position(name.as_str());
        let link = PackageLink { name, path, version, linked_projects: Vec::new() };
        let ghost es = self.entries();
        let ghost lv = link@;
        assert(lv.linked_projects =~= Seq::<Seq<char>>::empty());
        if found {
            self.links[p] = link;
            assert(self.entries() =~= es.update(p as int, lv));
            proof {
                lemma_update_at(es, p as int, lv);
            }
        } else {
            self.links.insert(p, link);
            assert(self.entries() =~= es.insert(p as int, lv));
            proof {
                lemma_insert_at(es, p as int, lv);
            }
        }
        assert(projects_distinct(self.entries()));
        Ok(())
    }

    /// Deregisters `name`, with every project it listed.
    pub fn remove_link(&mut self, name: &str) -> (r: Result<(), SpineError>)
        requires
            old(self).wf(),
        ensures
            final(self).wf(),
            final(self).completion == old(self).completion,
            old(self)@.contains_key(name@) ==> r is Ok && final(self)@ == old(self)@.remove(name@)
                && final(self).entries().len() + 1 == old(self).entries().len(),
            !old(self)@.contains_key(name@) ==> final(self)@ == old(self)@ && is_not_found(r, name@),
    {
        let (p, found) = self.position(name);
        if !found {
            return Err(SpineError::PackageNotFound(owned(name)));
        }
        let ghost es = self.entries();
        self.links.remove(p);
        assert(self.entries() =~= es.remove(p as int));
        proof {
            lemma_remove_at(es, p as int);
        }
        assert(projects_distinct(self.entries()));
        Ok(())
    }

    /// Records that `package_name` is linked into the project at
    /// `project_path` (a key made by [`path_key`]); nothing changes if that
    /// project is listed already.
    pub fn add_linked_project(&mut self, package_name: &str, project_path: String) -> (r: Result<
        (),
        SpineError,
    >)
        requires
            old(self).wf(),
        ensures
            final(self).wf(),
            final(self).completion == old(self).completion,
            old(self)@.contains_key(package_name@) ==> r is Ok && final(self)@ == old(self)@.insert(
                package_name@,
                with_projects(
                    old(self)@[package_name@],
                    add_project(old(self)@[package_name@].linked_projects, project_path@),
                ),
            ),
            !old(self)@.contains_key(package_name@) ==> final(self)@ == old(self)@ && is_not_found(r, package_name@),
    {
        let (p, found) = self.position(package_name);
        if !found {
            return Err(SpineError::PackageNotFound(owned(package_name)));
        }
        let ghost es = self.entries();
        proof {
            lemma_map_at(es, p as int);
        }
        let present = list_has(&self.links[p].linked_projects, project_path.as_str());
        if !present {
            let ghost old_link = es[p as int];
            let ghost pv = project_path@;
            self.links[p].linked_projects.push(project_path);
            let ghost nl = with_projects(old_link, old_link.linked_projects.push(pv));
            assert(self.links@[p as int]@.linked_projects =~= old_link.linked_projects.push(pv));
            assert(self.entries() =~= es.update(p as int, nl));
            proof {
                lemma_update_at(es, p as int, nl);
            }
            assert(projects_distinct(self.entries())) by {
                assert(es[p as int].linked_projects.no_duplicates());
            }
        } else {
            assert(with_projects(es[p as int], es[p as int].linked_projects) == es[p as int]);
            assert(old(self)@.insert(package_name@, es[p as int]) =~= old(self)@);
        }
        Ok(())
    }

    /// Records that `package_name` is no longer linked into `project_path`;
    /// nothing changes if that project was not listed.
    pub fn remove_linked_project(&mut self, package_name: &str, project_path: &str) -> (r: Result<
        (),
        SpineError,
    >)
        requires
            old(self).wf(),
        ensures
            final(self).wf(),
            final(self).completion == old(self).completion,
            old(self)@.contains_key(package_name@) ==> r is Ok && final(self)@ == old(self)@.insert(
                package_name@,
                with_projects(
                    old(self)@[package_name@],
                    without(old(self)@[package_name@].linked_projects, project_path@),
                ),
            ),
            !old(self)@.contains_key(package_name@) ==> final(self)@ == old(self)@ && is_not_found(r, package_name@),
    {
        let (p, found) = self.position(package_name);
        if !found {
            return Err(SpineError::PackageNotFound(owned(package_name)));
        }
        let ghost es = self.entries();
        proof {
            lemma_map_at(es, p as int);
        }
        let kept = list_without(&self.links[p].linked_projects, project_path);
        let ghost nl = with_projects(es[p as int], without(es[p as int].linked_projects, project_path@));
        proof {
            lemma_without(es[p as int].linked_projects, project_path@);
        }
        self.links[p].linked_projects = kept;
        assert(self.entries() =~= es.update(p as int, nl));
        proof {
            lemma_update_at(es, p as int, nl);
        }
        Ok(())
    }


    /// Drops every recorded project in which the prober found no live link
    /// (`observed` lists the pairs it found live); returns the dropped pairs.
    pub fn verify_and_clean_links(&mut self, observed: &Vec<LinkPair>) -> (r: Vec<LinkPair>)
        requires
            old(self).wf(),
        ensures
            final(self).wf(),
            final(self).completion == old(self).completion,
            final(self).entries() == old(self).entries().map_values(
                |l: LinkView| cleaned(pairs_view(observed@), l),
            ),
            pairs_view(r@) == removed_pairs(pairs_view(observed@), old(self).entries()),
    {
        let ghost ov = pairs_view(observed@);
        let ghost es = self.entries();
        let mut removed: Vec<LinkPair> = Vec::new();
        let n = self.links.len();
        let mut i: usize = 0;
        while i < n
            invariant
                ov == pairs_view(observed@),
                n == es.len(),
                self.links@.len() == n,
                sorted_by_name(es),
                projects_distinct(es),
                self.completion == old(self).completion,
                es == old(self).entries(),
                i <= n,
                forall|j: int| 0 <= j < i ==> self.entries()[j] == cleaned(ov, es[j]),
                forall|j: int| i <= j < n ==> self.entries()[j] == es[j],
                pairs_view(removed@) == removed_pairs(ov, es.take(i as int)),
            decreases n - i,
        {
            let (good, bad) = split_live(observed, self.links[i].name.as_str(), &self.links[i].linked_projects);
            proof {
                assert(self.entries()[i as int] == es[i as int]);
                lemma_kept(ov, es[i as int].name, es[i as int].linked_projects);
            }
            let ghost before = self.entries();
            self.links[i].linked_projects = good;
            assert(self.entries() =~= before.update(i as int, cleaned(ov, es[i as int])));
            let ghost rb = pairs_view(removed@);
            let mut bad = bad;
            removed.append(&mut bad);
            assert(es.take(i + 1).drop_last() =~= es.take(i as int));
            assert(pairs_view(removed@) =~= removed_pairs(ov, es.take(i + 1)));
            i = i + 1;
        }
        assert(es.take(n as int) =~= es);
        assert(self.entries() =~= es.map_values(|l: LinkView| cleaned(ov, l)));
        assert(sorted_by_name(self.entries())) by {
            assert forall|a: int, b: int| 0 <= a < b < n implies seq_lt(
                #[trigger] self.entries()[a].name,
                #[trigger] self.entries()[b].name,
            ) by {
                assert(seq_lt(es[a].name, es[b].name));
            }
        }
        assert(projects_distinct(self.entries())) by {
            assert forall|a: int| 0 <= a < n implies (#[trigger] self.entries()[a]).linked_projects.no_duplicates() by {
                assert(es[a].linked_projects.no_duplicates());
                lemma_kept(ov, es[a].name, es[a].linked_projects);
            }
        }
        removed
    }

    /// The names of `discovered` that are not registered, in order.
    pub fn untracked_names(&self, discovered: &Vec<String>) -> (r: Vec<String>)
        requires
            self.wf(),
        ensures
            strings_view(r@) == untracked(self@, strings_view(discovered@)),
    {
        let ghost dv = strings_view(discovered@);
        let mut r: Vec<String> = Vec::new();
        let mut k: usize = 0;
        while k < discovered.len()
            invariant
                dv == strings_view(discovered@),
                self.wf(),
                k <= discovered@.len(),
                strings_view(r@) == untracked(self@, dv.take(k as int)),
            decreases discovered@.len() - k,
        {
            assert(dv.take(k + 1).drop_last() =~= dv.take(k as int));
            if !self.contains(discovered[k].as_str()) {
                r.push(discovered[k].clone());
            }
            assert(strings_view(r@) =~= untracked(self@, dv.take(k + 1)));
            k = k + 1;
        }
        assert(dv.take(discovered@.len() as int) =~= dv);
        r
    }

    /// Reconciles the registry with what is on disk: drops recorded projects
    /// whose link is not live (`observed` lists the pairs the prober found
    /// live), records the current project for each package live there, and
    /// lists the discovered names the registry lacks.
    pub fn sync_with_filesystem(
        &mut self,
        current_dir: &str,
        observed: &Vec<LinkPair>,
        discovered: &Vec<String>,
    ) -> (r: SyncReport)
        requires
            old(self).wf(),
        ensures
            final(self).wf(),
            final(self).completion == old(self).completion,
            final(self).entries() == old(self).entries().map_values(
                |l: LinkView| synced(pairs_view(observed@), current_dir@, l),
            ),
            pairs_view(r.removed_invalid_links@) == removed_pairs(
                pairs_view(observed@),
                old(self).entries(),
            ),
            pairs_view(r.added_missing_links@) == added_pairs(
                pairs_view(observed@),
                current_dir@,
                old(self).entries(),
            ),
            strings_view(r.untracked_links@) == untracked(old(self)@, strings_view(discovered@)),
    {
        let untracked_links = self.untracked_names(discovered);
        let (removed, added) = self.sync_entries(current_dir, observed);
        SyncReport { removed_invalid_links: removed, added_missing_links: added, untracked_links }
    }

    fn sync_entries(&mut self, current_dir: &str, observed: &Vec<LinkPair>) -> (r: (
        Vec<LinkPair>,
        Vec<LinkPair>,
    ))
        requires
            old(self).wf(),
        ensures
            final(self).wf(),
            final(self).completion == old(self).completion,
            final(self).entries() == old(self).entries().map_values(
                |l: LinkView| synced(pairs_view(observed@), current_dir@, l),
            ),
            pairs_view(r.0@) == removed_pairs(pairs_view(observed@), old(self).entries()),
            pairs_view(r.1@) == added_pairs(pairs_view(observed@), current_dir@, old(self).entries()),
    {
        let ghost ov = pairs_view(observed@);
        let ghost es = self.entries();
        let ghost cur = current_dir@;
        let mut removed: Vec<LinkPair> = Vec::new();
        let mut added: Vec<LinkPair> = Vec::new();
        let n = self.links.len();
        let mut i: usize = 0;
        while i < n
            invariant
                ov == pairs_view(observed@),
                cur == current_dir@,
                n == es.len(),
                self.links@.len() == n,
                sorted_by_name(es),
                projects_distinct(es),
                self.completion == old(self).completion,
                es == old(self).entries(),
                i <= n,
                forall|j: int| 0 <= j < i ==> self.entries()[j] == synced(ov, cur, es[j]),
                forall|j: int| i <= j < n ==> self.entries()[j] == es[j],
                pairs_view(removed@) == removed_pairs(ov, es.take(i as int)),
                pairs_view(added@) == added_pairs(ov, cur, es.take(i as int)),
            decreases n - i,
        {
            let (good, bad) = split_live(observed, self.links[i].name.as_str(), &self.links[i].linked_projects);
            proof {
                assert(self.entries()[i as int] == es[i as int]);
                lemma_kept(ov, es[i as int].name, es[i as int].linked_projects);
            }
            let ghost ks = strings_view(good@);
            let mut good = good;
            let add_here = is_observed(observed, self.links[i].name.as_str(), current_dir)
                && !list_has(&good, current_dir);
            if add_here {
                good.push(owned(current_dir));
                added.push(
                    LinkPair { package: self.links[i].name.clone(), project: owned(current_dir) },
                );
                assert(strings_view(good@) =~= ks.push(cur));
            }
            let ghost before = self.entries();
            self.links[i].linked_projects = good;
            assert(self.entries() =~= before.update(i as int, synced(ov, cur, es[i as int])));
            let mut bad = bad;
            removed.append(&mut bad);
            assert(es.take(i + 1).drop_last() =~= es.take(i as int));
            assert(pairs_view(removed@) =~= removed_pairs(ov, es.take(i + 1)));
            assert(pairs_view(added@) =~= added_pairs(ov, cur, es.take(i + 1)));
            i = i + 1;
        }
        assert(es.take(n as int) =~= es);
        assert(self.entries() =~= es.map_values(|l: LinkView| synced(ov, cur, l)));
        assert(sorted_by_name(self.entries())) by {
            assert forall|a: int, b: int| 0 <= a < b < n implies seq_lt(
                #[trigger] self.entries()[a].name,
                #[trigger] self.entries()[b].name,
            ) by {
                assert(seq_lt(es[a].name, es[b].name));
            }
        }
        assert(projects_distinct(self.entries())) by {
            assert forall|a: int| 0 <= a < n implies (#[trigger] self.entries()[a]).linked_projects.no_duplicates() by {
                assert(es[a].linked_projects.no_duplicates());
                lemma_kept(ov, es[a].name, es[a].linked_projects);
                let ks = kept(ov, es[a].name, es[a].linked_projects);
                if live(ov, es[a].name, cur) && !ks.contains(cur) {
                    let ps = ks.push(cur);
                    assert forall|x: int, y: int| 0 <= x < ps.len() && 0 <= y < ps.len() && x != y implies ps[x] != ps[y] by {
                        if x < ks.len() && y < ks.len() {
                        } else if x < ks.len() {
                            assert(ks.contains(ks[x]));
                        } else if y < ks.len() {
                            assert(ks.contains(ks[y]));
                        }
                    }
                }
            }
        }
        (removed, added)
    }


    /// Sorts the entries for a restore of the current project: those the
    /// registry links there whose link is gone must be relinked.
    pub fn plan_restore(&self, current_dir: &str, observed: &Vec<LinkPair>) -> (r: RestorePlan)
        requires
            self.wf(),
        ensures
            strings_view(r.not_configured@) == names_in_class(
                pairs_view(observed@),
                current_dir@,
                self.entries(),
                0,
            ),
            strings_view(r.already_linked@) == names_in_class(
                pairs_view(observed@),
                current_dir@,
                self.entries(),
                1,
            ),
            strings_view(r.to_restore@) == names_in_class(
                pairs_view(observed@),
                current_dir@,
                self.entries(),
                2,
            ),
    {
        let ghost ov = pairs_view(observed@);
        let ghost es = self.entries();
        let ghost cur = current_dir@;
        let mut plan = RestorePlan {
            to_restore: Vec::new(),
            already_linked: Vec::new(),
            not_configured: Vec::new(),
        };
        let mut i: usize = 0;
        while i < self.links.len()
            invariant
                ov == pairs_view(observed@),
                es == self.entries(),
                cur == current_dir@,
                i <= es.len(),
                strings_view(plan.not_configured@) == names_in_class(ov, cur, es.take(i as int), 0),
                strings_view(plan.already_linked@) == names_in_class(ov, cur, es.take(i as int), 1),
                strings_view(plan.to_restore@) == names_in_class(ov, cur, es.take(i as int), 2),
            decreases es.len() - i,
        {
            assert(es.take(i + 1).drop_last() =~= es.take(i as int));
            let link = &self.links[i];
            if !list_has(&link.linked_projects, current_dir) {
                plan.not_configured.push(link.name.clone());
            } else if is_observed(observed, link.name.as_str(), current_dir) {
                plan.already_linked.push(link.name.clone());
            } else {
                plan.to_restore.push(link.name.clone());
            }
            assert(strings_view(plan.not_configured@) =~= names_in_class(ov, cur, es.take(i + 1), 0));
            assert(strings_view(plan.already_linked@) =~= names_in_class(ov, cur, es.take(i + 1), 1));
            assert(strings_view(plan.to_restore@) =~= names_in_class(ov, cur, es.take(i + 1), 2));
            i = i + 1;
        }
        assert(es.take(es.len() as int) =~= es);
        plan
    }

    /// The source path of `package_name`, or an error that suggests the
    /// nearest registered names.
    pub fn link_target(&self, package_name: &str) -> (r: Result<String, SpineError>)
        requires
            self.wf(),
            package_name@.len() + 3 < usize::MAX,
        ensures
            self@.contains_key(package_name@) ==> (r matches Ok(p) && p@ == self@[package_name@].path),
            !self@.contains_key(package_name@) ==> match r {
                Err(SpineError::PackageNotFoundWithSuggestion { package: p, suggestion: h }) => p@
                    == package_name@ && h@ == not_found_hint(
                    package_name@,
                    self.entries().map_values(|l: LinkView| l.name),
                ),
                _ => false,
            },
    {
        match self.lookup(package_name) {
            Some(link) => Ok(link.path.clone()),
            None => {
                let names = self.package_names();
                assert(views(names@) =~= self.entries().map_values(|l: LinkView| l.name));
                Err(SpineError::package_not_found_with_suggestions(package_name, names.as_slice()))
            },
        }
    }

    /// Records the result of linking `package_name` into `project`: the
    /// project is recorded only when the link command succeeded and the
    /// prober then found the link live (`verified`).
    pub fn record_link(
        &mut self,
        package_name: &str,
        project: String,
        link_result: Result<(), String>,
        verified: bool,
    ) -> (r: Result<(), SpineError>)
        requires
            old(self).wf(),
        ensures
            final(self).wf(),
            final(self).completion == old(self).completion,
            link_result is Err ==> final(self)@ == old(self)@ && match (r, link_result) {
                (Err(SpineError::LinkCommandFailed(m)), Err(e)) => m@ == e@,
                _ => false,
            },
            link_result is Ok && !verified ==> final(self)@ == old(self)@ && match r {
                Err(SpineError::VerificationFailed(m)) => m@ == package_name@,
                _ => false,
            },
            link_result is Ok && verified && old(self)@.contains_key(package_name@) ==> r is Ok
                && final(self)@ == old(self)@.insert(
                package_name@,
                with_projects(
                    old(self)@[package_name@],
                    add_project(old(self)@[package_name@].linked_projects, project@),
                ),
            ),
            link_result is Ok && verified && !old(self)@.contains_key(package_name@) ==> final(self)@ == old(self)@ && is_not_found(r, package_name@),
    {
        match link_result {
            Err(e) => Err(SpineError::LinkCommandFailed(e)),
            Ok(_) => if verified {
                self.add_linked_project(package_name, project)
            } else {
                Err(SpineError::VerificationFailed(owned(package_name)))
            },
        }
    }

    /// Records the result of unlinking `package_name` from `project`: when
    /// the unlink command succeeded the project is dropped from the entry.
    pub fn record_unlink(&mut self, package_name: &str, project: &str, unlink_result: Result<
        (),
        String,
    >) -> (r: Result<(), SpineError>)
        requires
            old(self).wf(),
        ensures
            final(self).wf(),
            final(self).completion == old(self).completion,
            unlink_result is Err ==> final(self)@ == old(self)@ && match (r, unlink_result) {
                (Err(SpineError::LinkCommandFailed(m)), Err(e)) => m@ == e@,
                _ => false,
            },
            unlink_result is Ok && old(self)@.contains_key(package_name@) ==> r is Ok && final(self)@ == old(self)@.insert(
                package_name@,
                with_projects(
                    old(self)@[package_name@],
                    without(old(self)@[package_name@].linked_projects, project@),
                ),
            ),
            unlink_result is Ok && !old(self)@.contains_key(package_name@) ==> final(self)@ == old(self)@ && is_not_found(r, package_name@),
    {
        match unlink_result {
            Err(e) => Err(SpineError::LinkCommandFailed(e)),
            Ok(_) => self.remove_linked_project(package_name, project),
        }
    }


    /// A registry from loaded entries, refused when a name or a project
    /// within one entry stands twice.
    pub fn from_links(links: Vec<PackageLink>, completion: CompletionConfig) -> (r: Result<
        Config,
        SpineError,
    >)
        ensures
            r is Ok <==> records_ok(links@.map_values(|l: PackageLink| l@)),
            r is Err ==> r matches Err(SpineError::ConfigCorrupt(_)),
            r matches Ok(c) ==> c.wf() && c@ == registry_map(links@.map_values(|l: PackageLink| l@))
                && c.completion == completion,
    {
        let ghost rs = links@.map_values(|l: PackageLink| l@);
        let mut c = Config { links: Vec::new(), completion };
        assert(c@ =~= registry_map(rs.take(0)));
        let n = links.len();
        let mut pending = links;
        let mut i: usize = 0;
        while i < n
            invariant
                n == rs.len(),
                pending@.len() == n - i,
                rs == links@.map_values(|l: PackageLink| l@),
                forall|j: int| 0 <= j < n - i ==> (#[trigger] pending@[j])@ == rs[j + i],
                i <= n,
                c.wf(),
                c.completion == completion,
                records_ok(rs.take(i as int)),
                c@ == registry_map(rs.take(i as int)),
            decreases n - i,
        {
            let link = pending.remove(0);
            assert(link@ == rs[i as int]);
            let ghost pre = rs.take(i as int);
            assert(rs.take(i + 1) =~= pre.push(link@));
            if !distinct_strings(&link.linked_projects) {
                proof {
                    assert(!rs.take(i + 1)[i as int].linked_projects.no_duplicates());
                    lemma_records_prefix(rs, i + 1);
                }
                return Err(SpineError::ConfigCorrupt(concat("a project is listed twice for ", link.name.as_str())));
            }
            let (p, found) = c.position(link.name.as_str());
            if found {
                proof {
                    let q = choose|q: int| 0 <= q < pre.len() && (#[trigger] pre[q]).name == link@.name;
                    assert(rs.take(i + 1)[q].name == rs.take(i + 1)[i as int].name);
                    lemma_records_prefix(rs, i + 1);
                }
                return Err(SpineError::ConfigCorrupt(concat("a package is registered twice: ", link.name.as_str())));
            }
            proof {
                assert(!has_name(pre, link@.name));
                lemma_map_push(pre, link@);
            }
            let ghost es = c.entries();
            c.links.insert(p, link);
            assert(c.entries() =~= es.insert(p as int, rs[i as int]));
            proof {
                lemma_insert_at(es, p as int, rs[i as int]);
            }
            assert(projects_distinct(rs.take(i + 1)));
            i = i + 1;
        }
        assert(rs.take(n as int) =~= rs);
        Ok(c)
    }

    /// Turns completion regeneration on for `shell`, writing the script to
    /// `script_path`, or where one is not given and a shell is known, to
    /// `default_path` (the platform's place for that shell).
    pub fn enable_auto_completion(
        &mut self,
        shell: Option<String>,
        script_path: Option<String>,
        default_path: Option<String>,
    )
        requires
            old(self).wf(),
        ensures
            final(self).wf(),
            final(self)@ == old(self)@,
            final(self).completion.auto_regenerate,
            final(self).completion.shell == shell,
            final(self).completion.script_path == if script_path is None && shell is Some {
                default_path
            } else {
                script_path
            },
    {
        self.completion.auto_regenerate = true;
        let use_default = script_path.is_none() && shell.is_some();
        self.completion.shell = shell;
        self.completion.script_path = if use_default {
            default_path
        } else {
            script_path
        };
    }

    /// Turns completion regeneration off.
    pub fn disable_auto_completion(&mut self)
        requires
            old(self).wf(),
        ensures
            final(self).wf(),
            final(self)@ == old(self)@,
            !final(self).completion.auto_regenerate,
            final(self).completion.shell == old(self).completion.shell,
            final(self).completion.script_path == old(self).completion.script_path,
    {
        self.completion.auto_regenerate = false;
    }

    /// The entries in name order.
    pub fn get_links(&self) -> (r: &Vec<PackageLink>)
        requires
            self.wf(),
        ensures
            r@.map_values(|l: PackageLink| l@) == self.entries(),
            sorted_by_name(self.entries()),
            registry_map(self.entries()) == self@,
    {
        &self.links
    }

    /// The registered names in order.
    pub fn package_names(&self) -> (r: Vec<String>)
        requires
            self.wf(),
        ensures
            r@.len() == self.entries().len(),
            forall|i: int| 0 <= i < r@.len() ==> (#[trigger] r@[i])@ == self.entries()[i].name,
    {
        let mut r: Vec<String> = Vec::new();
        let mut i: usize = 0;
        while i < self.links.len()
            invariant
                i <= self.links@.len(),
                r@.len() == i,
                forall|j: int| 0 <= j < i ==> (#[trigger] r@[j])@ == self.entries()[j].name,
            decreases self.links@.len() - i,
        {
            r.push(self.links[i].name.clone());
            i = i + 1;
        }
        r
    }
}

} // verus!
