//! Decisions around the package manager's link commands: the arguments it
//! is run with, how its result is read, and how the linked names found on
//! disk are ordered.

use vstd::prelude::*;
use vstd::string::*;
use crate::config::{list_has, opt_view, strings_view, registered_names, untracked, Config, PackageLink};
use crate::error::SpineError;
use crate::text::{concat, lemma_seq_lt_total, lemma_seq_lt_transitive, owned, seq_lt, str_eq, str_lt};

verus! {

/// Runs link and unlink commands through the package manager.
pub struct NpmManager;

/// The health check's findings on one registered package.
#[derive(Clone, Debug)]
pub struct PackageHealth {
    pub errors: Vec<String>,
    pub warnings: Vec<String>,
    /// The registry links it into the current project.
    pub linked_here: bool,
}

/// The warning for a stored version that differs from the manifest's.
pub open spec fn mismatch_text(stored: Option<Seq<char>>, actual: Seq<char>) -> Seq<char> {
    "Version mismatch: stored '"@ + match stored {
        Some(v) => v,
        None => "unset"@,
    } + "', actual '"@ + actual + "'"@
}

/// A warning when the manifest gives a version other than the stored one
/// (an unset stored version differs from every version).
pub fn version_mismatch(stored: &Option<String>, actual: &Option<String>) -> (r: Option<String>)
    ensures
        match actual {
            None => r is None,
            Some(a) => if opt_view(*stored) == Some(a@) {
                r is None
            } else {
                r matches Some(w) && w@ == mismatch_text(opt_view(*stored), a@)
            },
        },
{
    match actual {
        None => None,
        Some(a) => {
            let same = match stored {
                Some(v) => str_eq(v.as_str(), a.as_str()),
                None => false,
            };
            if same {
                None
            } else {
                let shown = match stored {
                    Some(v) => v.as_str(),
                    None => "unset",
                };
                let t = concat("Version mismatch: stored '", shown);
                let t = concat(t.as_str(), "', actual '");
                let t = concat(t.as_str(), a.as_str());
                Some(concat(t.as_str(), "'"))
            }
        },
    }
}

/// Names strictly increase along `s`.
pub open spec fn strictly_sorted(s: Seq<Seq<char>>) -> bool {
    forall|i: int, j: int| 0 <= i < j < s.len() ==> seq_lt(#[trigger] s[i], #[trigger] s[j])
}

proof fn lemma_sorted_insert(s: Seq<Seq<char>>, p: int, x: Seq<char>)
    requires
        strictly_sorted(s),
        0 <= p <= s.len(),
        p == 0 || seq_lt(s[p - 1], x),
        p == s.len() || seq_lt(x, s[p]),
    ensures
        strictly_sorted(s.insert(p, x)),
        forall|y: Seq<char>| #[trigger] s.insert(p, x).contains(y) <==> s.contains(y) || y == x,
{
    let ns = s.insert(p, x);
    assert forall|i: int, j: int| 0 <= i < j < ns.len() implies seq_lt(#[trigger] ns[i], #[trigger] ns[j]) by {
        if i < p && j == p {
            if i < p - 1 {
                lemma_seq_lt_transitive(s[i], s[p - 1], x);
            }
        } else if i == p && j > p {
            if j - 1 > p {
                lemma_seq_lt_transitive(x, s[p], s[j - 1]);
            }
        } else if i < p && j > p {
            assert(seq_lt(s[i], s[j - 1]));
        } else if i > p {
            assert(seq_lt(s[i - 1], s[j - 1]));
        }
    }
    assert forall|y: Seq<char>| #[trigger] ns.contains(y) <==> s.contains(y) || y == x by {
        if s.contains(y) {
            let i = choose|i: int| 0 <= i < s.len() && s[i] == y;
            if i < p {
                assert(ns[i] == y);
            } else {
                assert(ns[i + 1] == y);
            }
        }
        if y == x {
            assert(ns[p] == y);
        }
        if ns.contains(y) {
            let i = choose|i: int| 0 <= i < ns.len() && ns[i] == y;
            if i < p {
                assert(s[i] == y);
            } else if i > p {
                assert(s[i - 1] == y);
            }
        }
    }
}

impl NpmManager {
    /// Arguments of the package manager's link command for `package_path`.
    pub fn link_args(package_path: &str) -> (r: Vec<String>)
        ensures
            strings_view(r@) == seq!["link"@, package_path@],
    {
        let mut r: Vec<String> = Vec::new();
        r.push(owned("link"));
        r.push(owned(package_path));
        assert(strings_view(r@) =~= seq!["link"@, package_path@]);
        r
    }

    /// Arguments of the package manager's unlink command for `package_name`.
    pub fn unlink_args(package_name: &str) -> (r: Vec<String>)
        ensures
            strings_view(r@) == seq!["unlink"@, package_name@],
    {
        let mut r: Vec<String> = Vec::new();
        r.push(owned("unlink"));
        r.push(owned(package_name));
        assert(strings_view(r@) =~= seq!["unlink"@, package_name@]);
        r
    }

    /// Reads the link command's result: success is its exit status; on
    /// failure what it wrote to stderr is handed on as it stands.
    pub fn npm_link_static(succeeded: bool, stderr: &str) -> (r: Result<(), SpineError>)
        ensures
            succeeded ==> r is Ok,
            !succeeded ==> match r {
                Err(SpineError::LinkCommandFailed(m)) => m@ == stderr@,
                _ => false,
            },
    {
        if succeeded {
            Ok(())
        } else {
            Err(SpineError::LinkCommandFailed(owned(stderr)))
        }
    }

    /// The full name of a scoped package found under `scope`.
    pub fn scoped_name(scope: &str, name: &str) -> (r: String)
        ensures
            r@ == scope@ + "/"@ + name@,
    {
        let s = concat(scope, "/");
        concat(s.as_str(), name)
    }

    /// The health of `link`: an error when its path is gone or holds no
    /// manifest, a warning when the manifest's version (`actual_version`)
    /// differs from the stored one. The stored version is left as it is.
    pub fn check_health(
        link: &PackageLink,
        current_dir: &str,
        path_exists: bool,
        manifest_exists: bool,
        actual_version: &Option<String>,
    ) -> (r: PackageHealth)
        ensures
            strings_view(r.errors@) == if !path_exists {
                seq!["Path does not exist"@]
            } else if !manifest_exists {
                seq!["Missing package.json"@]
            } else {
                Seq::empty()
            },
            strings_view(r.warnings@) == match actual_version {
                Some(a) => if opt_view(link.version) == Some(a@) {
                    Seq::empty()
                } else {
                    seq![mismatch_text(opt_view(link.version), a@)]
                },
                None => Seq::empty(),
            },
            r.linked_here == link@.linked_projects.contains(current_dir@),
    {
        let mut errors: Vec<String> = Vec::new();
        if !path_exists {
            errors.push(owned("Path does not exist"));
        } else if !manifest_exists {
            errors.push(owned("Missing package.json"));
        }
        let mut warnings: Vec<String> = Vec::new();
        match version_mismatch(&link.version, actual_version) {
            Some(w) => warnings.push(w),
            None => {},
        }
        let linked_here = list_has(&link.linked_projects, current_dir);
        assert(strings_view(errors@) =~= if !path_exists {
            seq!["Path does not exist"@]
        } else if !manifest_exists {
            seq!["Missing package.json"@]
        } else {
            Seq::empty()
        });
        assert(strings_view(warnings@) =~= match actual_version {
            Some(a) => if opt_view(link.version) == Some(a@) {
                Seq::empty()
            } else {
                seq![mismatch_text(opt_view(link.version), a@)]
            },
            None => Seq::empty(),
        });
        PackageHealth { errors, warnings, linked_here }
    }

    /// The linked names found on disk, sorted, each once.
    pub fn get_linked_packages_static(found: &Vec<String>) -> (r: Vec<String>)
        ensures
            strictly_sorted(strings_view(r@)),
            forall|y: Seq<char>|
                #[trigger] strings_view(r@).contains(y) <==> strings_view(found@).contains(y),
    {
        let ghost fv = strings_view(found@);
        let mut r: Vec<String> = Vec::new();
        let mut i: usize = 0;
        while i < found.len()
            invariant
                fv == strings_view(found@),
                i <= found@.len(),
                strictly_sorted(strings_view(r@)),
                forall|y: Seq<char>|
                    #[trigger] strings_view(r@).contains(y) <==> fv.take(i as int).contains(y),
            decreases found@.len() - i,
        {
            let x = found[i].as_str();
            let ghost rv = strings_view(r@);
            let ghost pre = fv.take(i as int);
            let ghost nxt = fv.take(i + 1);
            assert(nxt =~= pre.push(x@));
            assert forall|y: Seq<char>| #[trigger] nxt.contains(y) <==> pre.contains(y) || y == x@ by {
                if nxt.contains(y) {
                    let j = choose|j: int| 0 <= j < nxt.len() && nxt[j] == y;
                    if j < i {
                        assert(pre[j] == y);
                    }
                }
                if pre.contains(y) {
                    let j = choose|j: int| 0 <= j < pre.len() && pre[j] == y;
                    assert(nxt[j] == y);
                }
                if y == x@ {
                    assert(nxt[i as int] == y);
                }
            }
            let mut p: usize = 0;
            let mut dup = false;
            while p < r.len()
                invariant_except_break
                    !dup,
                invariant
                    rv == strings_view(r@),
                    p <= r@.len(),
                    strictly_sorted(rv),
                    p == 0 || seq_lt(rv[p - 1], x@),
                ensures
                    p <= r@.len(),
                    p == 0 || seq_lt(rv[p - 1], x@),
                    dup ==> p < r@.len() && rv[p as int] == x@,
                    !dup ==> p == r@.len() || seq_lt(x@, rv[p as int]),
                decreases r@.len() - p,
            {
                if str_eq(r[p].as_str(), x) {
                    dup = true;
                    break;
                }
                if !str_lt(r[p].as_str(), x) {
                    proof {
                        lemma_seq_lt_total(rv[p as int], x@);
                    }
                    break;
                }
                p = p + 1;
            }
            if dup {
                assert(rv[p as int] == x@);
                assert(rv.contains(x@));
            } else {
                r.insert(p, found[i].clone());
                assert(strings_view(r@) =~= rv.insert(p as int, x@));
                proof {
                    lemma_sorted_insert(rv, p as int, x@);
                }
            }
            i = i + 1;
        }
        assert(fv.take(found@.len() as int) =~= fv);
        r
    }

    /// Of the names linked in the current project, those the registry
    /// manages (to unlink) and those it does not (to leave), in order.
    pub fn split_managed(config: &Config, linked: &Vec<String>) -> (r: (Vec<String>, Vec<String>))
        requires
            config.wf(),
        ensures
            strings_view(r.0@) == registered_names(config@, strings_view(linked@)),
            strings_view(r.1@) == untracked(config@, strings_view(linked@)),
    {
        let ghost lv = strings_view(linked@);
        let mut managed: Vec<String> = Vec::new();
        let mut other: Vec<String> = Vec::new();
        let mut i: usize = 0;
        while i < linked.len()
            invariant
                lv == strings_view(linked@),
                config.wf(),
                i <= linked@.len(),
                strings_view(managed@) == registered_names(config@, lv.take(i as int)),
                strings_view(other@) == untracked(config@, lv.take(i as int)),
            decreases linked@.len() - i,
        {
            assert(lv.take(i + 1).drop_last() =~= lv.take(i as int));
            if config.contains(linked[i].as_str()) {
                managed.push(linked[i].clone());
            } else {
                other.push(linked[i].clone());
            }
            assert(strings_view(managed@) =~= registered_names(config@, lv.take(i + 1)));
            assert(strings_view(other@) =~= untracked(config@, lv.take(i + 1)));
            i = i + 1;
        }
        assert(lv.take(linked@.len() as int) =~= lv);
        (managed, other)
    }
}

} // verus!
