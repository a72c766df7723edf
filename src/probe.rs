//! The link prober's decisions. Whether a package is linked into a project
//! is read off a few facts about the file system, gathered by the caller at
//! the path that [`module_path_parts`] names.

use vstd::prelude::*;
use vstd::string::*;
use crate::config::Config;
use crate::text::{has_prefix, owned, starts_with};

verus! {

/// What the file system shows at the place where a package would be linked.
#[derive(Clone, Debug)]
pub struct LinkProbe {
    /// The project's module cache directory exists.
    pub cache_exists: bool,
    /// The package's entry in it is a symbolic link.
    pub is_symlink: bool,
    /// The link's target can be read.
    pub target_readable: bool,
    /// The link resolves to something that exists.
    pub target_exists: bool,
}

/// Link state of a package in the current project, as the status view shows it.
#[derive(Clone, Debug, PartialEq, Eq)]
pub enum LinkStatus {
    Linked,
    Unlinked,
    /// A symbolic link whose target is gone.
    Unknown,
}

/// `k` is the first position of `c` in `s`.
pub open spec fn first_at(s: Seq<char>, c: char, k: int) -> bool {
    0 <= k < s.len() && s[k] == c && forall|j: int| 0 <= j < k ==> s[j] != c
}

/// The path, relative to a project directory, where package `name` is
/// linked: `node_modules/<name>`, with a scoped `@scope/pkg` split in two.
pub open spec fn module_parts(name: Seq<char>) -> Seq<Seq<char>> {
    if has_prefix(name, "@"@) && exists|k: int| first_at(name, '/', k) {
        let k = choose|k: int| first_at(name, '/', k);
        seq!["node_modules"@, name.subrange(0, k), name.subrange(k + 1, name.len() as int)]
    } else {
        seq!["node_modules"@, name]
    }
}

proof fn lemma_first_unique(s: Seq<char>, c: char, k: int, m: int)
    requires
        first_at(s, c, k),
        first_at(s, c, m),
    ensures
        k == m,
{
}

/// The first position of `c` in `s`, if any.
pub fn find_char(s: &str, c: char) -> (r: Option<usize>)
    ensures
        r matches Some(k) ==> first_at(s@, c, k as int),
        r is None ==> forall|j: int| 0 <= j < s@.len() ==> s@[j] != c,
{
    let n = s.unicode_len();
    let mut i: usize = 0;
    while i < n
        invariant
            n == s@.len(),
            i <= n,
            forall|j: int| 0 <= j < i ==> s@[j] != c,
        decreases n - i,
    {
        if s.get_char(i) == c {
            return Some(i);
        }
        i = i + 1;
    }
    None
}

/// The path components under a project directory where `package_name`
/// would be linked.
pub fn module_path_parts(package_name: &str) -> (r: Vec<String>)
    ensures
        r@.map_values(|s: String| s@) == module_parts(package_name@),
{
    let mut r: Vec<String> = Vec::new();
    r.push(owned("node_modules"));
    let ghost name = package_name@;
    if starts_with(package_name, "@") {
        match find_char(package_name, '/') {
            Some(k) => {
                let n = package_name.unicode_len();
                r.push(owned(package_name.substring_char(0, k)));
                r.push(owned(package_name.substring_char(k + 1, n)));
                proof {
                    let m = choose|m: int| first_at(name, '/', m);
                    lemma_first_unique(name, '/', k as int, m);
                }
                assert(r@.map_values(|s: String| s@) =~= module_parts(name));
                return r;
            },
            None => {},
        }
    }
    r.push(owned(package_name));
    assert(r@.map_values(|s: String| s@) =~= module_parts(name));
    r
}

impl Config {
    /// Whether a package counts as linked: only when the module cache exists and the
    /// package's entry is a symbolic link whose target can be read and exists.
    pub fn is_package_linked_in_project_static(probe: &LinkProbe) -> (r: bool)
        ensures
            r == (probe.cache_exists && probe.is_symlink && probe.target_readable
                && probe.target_exists),
    {
        probe.cache_exists && probe.is_symlink && probe.target_readable && probe.target_exists
    }
}

/// The status shown for a package: linked for a live link, unknown for a
/// symbolic link that does not resolve, unlinked otherwise.
pub fn check_link_status(probe: &LinkProbe) -> (r: LinkStatus)
    ensures
        !probe.cache_exists ==> r is Unlinked,
        probe.cache_exists && probe.is_symlink ==> if probe.target_readable
            && probe.target_exists {
            r is Linked
        } else {
            r is Unknown
        },
        probe.cache_exists && !probe.is_symlink ==> r is Unlinked,
{
    if !probe.cache_exists {
        LinkStatus::Unlinked
    } else if probe.is_symlink {
        if probe.target_readable && probe.target_exists {
            LinkStatus::Linked
        } else {
            LinkStatus::Unknown
        }
    } else {
        LinkStatus::Unlinked
    }
}

} // verus!
