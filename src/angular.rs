//! The Angular workspace model and the build decisions made on it: which
//! projects are libraries, which of those are linked, which a change
//! touches, and what a build request asks for.

use vstd::prelude::*;
use vstd::string::*;
use crate::config::{list_has, opt_view, strings_view, Config, LinkView};
use crate::error::SpineError;
use crate::platform::{join_path, joined};
use crate::text::{ends_with, has_prefix, has_suffix, owned, starts_with, str_eq};

verus! {

/// One project of an Angular workspace.
#[derive(Clone, Debug)]
pub struct AngularProject {
    pub name: String,
    /// Its directory, relative to the workspace root.
    pub root: String,
    pub source_root: Option<String>,
    /// `library` or `application`.
    pub project_type: String,
    /// The output path of its build target, if the workspace gives one.
    pub output_path: Option<String>,
    /// The style extension its build target names, if any.
    pub style_ext: Option<String>,
}

/// What the logic reads of `angular.json`.
#[derive(Clone, Debug)]
pub struct AngularWorkspace {
    pub projects: Vec<AngularProject>,
    pub default_project: Option<String>,
}

/// The outcome of one library build.
#[derive(Clone, Debug)]
pub struct BuildResult {
    pub library: String,
    pub success: bool,
    pub duration_ms: u64,
    pub output: String,
    pub error: Option<String>,
}

/// What a build request asks for.
#[derive(Clone, Debug, PartialEq, Eq)]
pub enum BuildAction {
    One { library: String, watch: bool },
    All,
    Affected,
    ShowStatus,
}

/// Builds the libraries of an Angular workspace.
#[derive(Clone, Debug)]
pub struct AngularBuildManager {
    pub workspace: Option<AngularWorkspace>,
    pub workspace_root: String,
    pub config: Config,
}

pub open spec fn is_library(p: AngularProject) -> bool {
    p.project_type@ == "library"@
}

/// The names of the library projects of `ps`, in order.
pub open spec fn library_names(ps: Seq<AngularProject>) -> Seq<Seq<char>>
    decreases ps.len(),
{
    if ps.len() == 0 {
        Seq::empty()
    } else {
        library_names(ps.drop_last()) + if is_library(ps.last()) {
            seq![ps.last().name@]
        } else {
            Seq::empty()
        }
    }
}

/// The names of the library projects of `ps` that `m` registers, in order.
pub open spec fn linked_library_names(ps: Seq<AngularProject>, m: Map<Seq<char>, LinkView>) -> Seq<
    Seq<char>,
>
    decreases ps.len(),
{
    if ps.len() == 0 {
        Seq::empty()
    } else {
        linked_library_names(ps.drop_last(), m) + if is_library(ps.last()) && m.contains_key(
            ps.last().name@,
        ) {
            seq![ps.last().name@]
        } else {
            Seq::empty()
        }
    }
}

/// Some library project of `ps` is called `name`.
pub open spec fn has_library(ps: Seq<AngularProject>, name: Seq<char>) -> bool {
    exists|i: int| 0 <= i < ps.len() && (#[trigger] ps[i]).name@ == name && is_library(ps[i])
}

/// A changed file that may affect every library: a manifest or lock file.
pub open spec fn is_manifest_change(f: Seq<char>) -> bool {
    f == "package.json"@ || f == "package-lock.json"@ || has_suffix(f, "/package.json"@)
}

/// Some file of `files` lies under `root`.
pub open spec fn touches(files: Seq<Seq<char>>, root: Seq<char>) -> bool {
    exists|i: int| 0 <= i < files.len() && has_prefix(#[trigger] files[i], root)
}

/// The linked libraries of `ps` that the changed `files` affect, in order:
/// all of them when a manifest changed, else those with a file changed
/// under their root.
pub open spec fn affected_names(
    ps: Seq<AngularProject>,
    m: Map<Seq<char>, LinkView>,
    files: Seq<Seq<char>>,
) -> Seq<Seq<char>>
    decreases ps.len(),
{
    if ps.len() == 0 {
        Seq::empty()
    } else {
        let p = ps.last();
        affected_names(ps.drop_last(), m, files) + if is_library(p) && m.contains_key(p.name@) && (
        touches(files, p.root@) || exists|i: int|
            0 <= i < files.len() && is_manifest_change(#[trigger] files[i])) {
            seq![p.name@]
        } else {
            Seq::empty()
        }
    }
}

/// The names of `ds` that name a library of `ps`, in order.
pub open spec fn libraries_among(ps: Seq<AngularProject>, ds: Seq<Seq<char>>) -> Seq<Seq<char>>
    decreases ds.len(),
{
    if ds.len() == 0 {
        Seq::empty()
    } else {
        libraries_among(ps, ds.drop_last()) + if has_library(ps, ds.last()) {
            seq![ds.last()]
        } else {
            Seq::empty()
        }
    }
}

/// `dir` with one trailing separator.
pub open spec fn as_dir(dir: Seq<char>) -> Seq<char> {
    if has_suffix(dir, "/"@) {
        dir
    } else {
        dir + "/"@
    }
}

/// `p` is `dir` or lies below it, comparing whole path components.
pub open spec fn path_within(p: Seq<char>, dir: Seq<char>) -> bool {
    p == dir || has_prefix(p, as_dir(dir))
}

/// `p` is `dir` or lies below it, comparing whole path components.
pub fn is_within(p: &str, dir: &str) -> (r: bool)
    ensures
        r == path_within(p@, dir@),
{
    if str_eq(p, dir) {
        return true;
    }
    if ends_with(dir, "/") {
        starts_with(p, dir)
    } else {
        let d = crate::text::concat(dir, "/");
        starts_with(p, d.as_str())
    }
}

/// The first library project (from position `i` on) that package path `pkg`
/// belongs to: its canonical path equals the project's canonical build
/// output (`dists[i]`), or it lies in the project's sources.
pub open spec fn owner_from(
    ps: Seq<AngularProject>,
    root: Seq<char>,
    pkg: Seq<char>,
    canonical: Option<Seq<char>>,
    dists: Seq<Option<Seq<char>>>,
    i: int,
) -> Option<Seq<char>>
    decreases ps.len() - i,
{
    if i < 0 || i >= ps.len() {
        None
    } else if is_library(ps[i]) && ((canonical is Some && i < dists.len() && dists[i] == canonical)
        || path_within(pkg, joined(root, ps[i].root@))) {
        Some(ps[i].name@)
    } else {
        owner_from(ps, root, pkg, canonical, dists, i + 1)
    }
}

/// The names of the entries of `es` that list project `proj`, in order.
pub open spec fn packages_linked_to(es: Seq<LinkView>, proj: Seq<char>) -> Seq<Seq<char>>
    decreases es.len(),
{
    if es.len() == 0 {
        Seq::empty()
    } else {
        packages_linked_to(es.drop_last(), proj) + if es.last().linked_projects.contains(proj) {
            seq![es.last().name]
        } else {
            Seq::empty()
        }
    }
}

/// The registered packages that list `project_path` among their projects,
/// in name order (paths are compared as stored keys).
pub fn get_linked_packages_for_project(config: &Config, project_path: &str) -> (r: Vec<String>)
    requires
        config.wf(),
    ensures
        strings_view(r@) == packages_linked_to(config.entries(), project_path@),
{
    let ghost es = config.entries();
    let mut r: Vec<String> = Vec::new();
    let mut i: usize = 0;
    while i < config.links.len()
        invariant
            es == config.entries(),
            i <= es.len(),
            strings_view(r@) == packages_linked_to(es.take(i as int), project_path@),
        decreases es.len() - i,
    {
        assert(es.take(i + 1).drop_last() =~= es.take(i as int));
        if list_has(&config.links[i].linked_projects, project_path) {
            r.push(config.links[i].name.clone());
        }
        assert(strings_view(r@) =~= packages_linked_to(es.take(i + 1), project_path@));
        i = i + 1;
    }
    assert(es.take(es.len() as int) =~= es);
    r
}

/// The application project to serve: the workspace's default project if it
/// names one, else its first application project.
pub open spec fn app_project_of(w: AngularWorkspace) -> Option<Seq<char>> {
    match w.default_project {
        Some(d) => Some(d@),
        None => first_application(w.projects@, 0),
    }
}

pub open spec fn first_application(ps: Seq<AngularProject>, i: int) -> Option<Seq<char>>
    decreases ps.len() - i,
{
    if i < 0 || i >= ps.len() {
        None
    } else if ps[i].project_type@ == "application"@ {
        Some(ps[i].name@)
    } else {
        first_application(ps, i + 1)
    }
}

/// The application project to serve, or an error when there is none.
pub fn app_project(w: &AngularWorkspace) -> (r: Result<String, SpineError>)
    ensures
        match app_project_of(*w) {
            Some(n) => r matches Ok(x) && x@ == n,
            None => r matches Err(SpineError::Config(m)) && m@
                == "No application project found in workspace"@,
        },
{
    match &w.default_project {
        Some(d) => Ok(d.clone()),
        None => {
            let mut i: usize = 0;
            while i < w.projects.len()
                invariant
                    w.default_project is None,
                    i <= w.projects@.len(),
                    first_application(w.projects@, i as int) == first_application(w.projects@, 0),
                decreases w.projects@.len() - i,
            {
                if str_eq(w.projects[i].project_type.as_str(), "application") {
                    return Ok(w.projects[i].name.clone());
                }
                i = i + 1;
            }
            Err(SpineError::Config(owned("No application project found in workspace")))
        },
    }
}

/// The library projects of `w`, in order.
pub fn workspace_libraries(w: &AngularWorkspace) -> (r: Vec<String>)
    ensures
        strings_view(r@) == library_names(w.projects@),
{
    let mut r: Vec<String> = Vec::new();
    let mut i: usize = 0;
    while i < w.projects.len()
        invariant
            i <= w.projects@.len(),
            strings_view(r@) == library_names(w.projects@.take(i as int)),
        decreases w.projects@.len() - i,
    {
        assert(w.projects@.take(i + 1).drop_last() =~= w.projects@.take(i as int));
        if is_library_exec(&w.projects[i]) {
            r.push(w.projects[i].name.clone());
        }
        assert(strings_view(r@) =~= library_names(w.projects@.take(i + 1)));
        i = i + 1;
    }
    assert(w.projects@.take(w.projects@.len() as int) =~= w.projects@);
    r
}

/// Whether `w` has a library project called `library`.
pub fn workspace_has_library(w: &AngularWorkspace, library: &str) -> (r: bool)
    ensures
        r == has_library(w.projects@, library@),
{
    let mut i: usize = 0;
    while i < w.projects.len()
        invariant
            i <= w.projects@.len(),
            forall|j: int|
                0 <= j < i ==> !((#[trigger] w.projects@[j]).name@ == library@ && is_library(
                    w.projects@[j],
                )),
        decreases w.projects@.len() - i,
    {
        if str_eq(w.projects[i].name.as_str(), library) && is_library_exec(&w.projects[i]) {
            assert(w.projects@[i as int].name@ == library@ && is_library(w.projects@[i as int]));
            return true;
        }
        i = i + 1;
    }
    false
}

/// Whether `p` is a library project.
pub fn is_library_exec(p: &AngularProject) -> (r: bool)
    ensures
        r == is_library(*p),
{
    str_eq(p.project_type.as_str(), "library")
}

fn any_under(files: &Vec<String>, root: &str) -> (r: bool)
    ensures
        r == touches(strings_view(files@), root@),
{
    let ghost fv = strings_view(files@);
    let mut i: usize = 0;
    while i < files.len()
        invariant
            fv == strings_view(files@),
            i <= files@.len(),
            forall|j: int| 0 <= j < i ==> !has_prefix(#[trigger] fv[j], root@),
        decreases files@.len() - i,
    {
        if starts_with(files[i].as_str(), root) {
            assert(has_prefix(fv[i as int], root@));
            return true;
        }
        i = i + 1;
    }
    false
}

fn any_manifest_change(files: &Vec<String>) -> (r: bool)
    ensures
        r == exists|i: int|
            0 <= i < files@.len() && is_manifest_change(#[trigger] strings_view(files@)[i]),
{
    let ghost fv = strings_view(files@);
    let mut i: usize = 0;
    while i < files.len()
        invariant
            fv == strings_view(files@),
            i <= files@.len(),
            forall|j: int| 0 <= j < i ==> !is_manifest_change(#[trigger] fv[j]),
        decreases files@.len() - i,
    {
        let f = files[i].as_str();
        if str_eq(f, "package.json") || str_eq(f, "package-lock.json") || ends_with(f, "/package.json") {
            assert(is_manifest_change(fv[i as int]));
            return true;
        }
        i = i + 1;
    }
    false
}

/// What a build request asks for: one library (with or without watching),
/// every linked library, the affected ones, or the status view; watching
/// goes only with a single library, and other combinations are refused.
pub fn build_command(library: Option<String>, all: bool, watch: bool, affected: bool) -> (r: Result<
    BuildAction,
    SpineError,
>)
    ensures
        match (library, all, affected) {
            (Some(l), false, false) => r matches Ok(BuildAction::One { library: x, watch: w }) && x
                == l && w == watch,
            (None, true, false) => if watch {
                r matches Err(SpineError::Config(m)) && m@
                    == "Watch mode is not supported with --all. Use individual library builds for watch mode."@
            } else {
                r matches Ok(BuildAction::All)
            },
            (None, false, true) => if watch {
                r matches Err(SpineError::Config(m)) && m@
                    == "Watch mode is not supported with --affected. Use individual library builds for watch mode."@
            } else {
                r matches Ok(BuildAction::Affected)
            },
            (None, false, false) => r matches Ok(BuildAction::ShowStatus),
            _ => r matches Err(SpineError::Config(m)) && m@ == "Invalid combination of build options"@,
        },
{
    match (library, all, affected) {
        (Some(l), false, false) => Ok(BuildAction::One { library: l, watch }),
        (None, true, false) => if watch {
            Err(
                SpineError::Config(
                    owned(
                        "Watch mode is not supported with --all. Use individual library builds for watch mode.",
                    ),
                ),
            )
        } else {
            Ok(BuildAction::All)
        },
        (None, false, true) => if watch {
            Err(
                SpineError::Config(
                    owned(
                        "Watch mode is not supported with --affected. Use individual library builds for watch mode.",
                    ),
                ),
            )
        } else {
            Ok(BuildAction::Affected)
        },
        (None, false, false) => Ok(BuildAction::ShowStatus),
        _ => Err(SpineError::Config(owned("Invalid combination of build options"))),
    }
}

impl BuildResult {
    /// The result of a finished build: it failed exactly when the command
    /// did, and then carries what the command wrote to stderr.
    pub fn from_output(
        library: String,
        succeeded: bool,
        duration_ms: u64,
        stdout: String,
        stderr: String,
    ) -> (r: BuildResult)
        ensures
            r.library == library,
            r.success == succeeded,
            r.duration_ms == duration_ms,
            r.output == stdout,
            succeeded ==> r.error is None,
            !succeeded ==> r.error == Some(stderr),
    {
        BuildResult {
            library,
            success: succeeded,
            duration_ms,
            output: stdout,
            error: if succeeded {
                None
            } else {
                Some(stderr)
            },
        }
    }
}

/// How many of `rs` succeeded.
pub open spec fn successes(rs: Seq<BuildResult>) -> int
    decreases rs.len(),
{
    if rs.len() == 0 {
        0
    } else {
        successes(rs.drop_last()) + if rs.last().success {
            1int
        } else {
            0int
        }
    }
}

/// How many builds succeeded.
pub fn count_successful(results: &Vec<BuildResult>) -> (r: usize)
    ensures
        r == successes(results@),
{
    let mut n: usize = 0;
    let mut i: usize = 0;
    while i < results.len()
        invariant
            i <= results@.len(),
            n == successes(results@.take(i as int)),
            n <= i,
        decreases results@.len() - i,
    {
        assert(results@.take(i + 1).drop_last() =~= results@.take(i as int));
        if results[i].success {
            n = n + 1;
        }
        i = i + 1;
    }
    assert(results@.take(results@.len() as int) =~= results@);
    n
}

impl AngularBuildManager {
    /// The library projects of the workspace, in order; none without one.
    pub fn get_library_projects(&self) -> (r: Vec<String>)
        ensures
            match self.workspace {
                Some(w) => strings_view(r@) == library_names(w.projects@),
                None => r@.len() == 0,
            },
    {
        match &self.workspace {
            Some(w) => workspace_libraries(w),
            None => Vec::new(),
        }
    }

    /// The library projects that are registered, in order.
    pub fn get_linked_libraries(&self) -> (r: Vec<String>)
        requires
            self.config.wf(),
        ensures
            match self.workspace {
                Some(w) => strings_view(r@) == linked_library_names(w.projects@, self.config@),
                None => r@.len() == 0,
            },
    {
        let mut r: Vec<String> = Vec::new();
        match &self.workspace {
            Some(w) => {
                let mut i: usize = 0;
                while i < w.projects.len()
                    invariant
                        self.config.wf(),
                        i <= w.projects@.len(),
                        strings_view(r@) == linked_library_names(w.projects@.take(i as int), self.config@),
                    decreases w.projects@.len() - i,
                {
                    assert(w.projects@.take(i + 1).drop_last() =~= w.projects@.take(i as int));
                    if is_library_exec(&w.projects[i]) && self.config.contains(w.projects[i].name.as_str()) {
                        r.push(w.projects[i].name.clone());
                    }
                    assert(strings_view(r@) =~= linked_library_names(w.projects@.take(i + 1), self.config@));
                    i = i + 1;
                }
                assert(w.projects@.take(w.projects@.len() as int) =~= w.projects@);
            },
            None => {},
        }
        r
    }

    /// Whether the workspace has a library project called `library`.
    pub fn library_exists(&self, library: &str) -> (r: bool)
        ensures
            r == match self.workspace {
                Some(w) => has_library(w.projects@, library@),
                None => false,
            },
    {
        match &self.workspace {
            Some(w) => workspace_has_library(w, library),
            None => false,
        }
    }

    /// The linked libraries affected by a change to `changed_files`, in
    /// workspace order: all of them when a manifest or lock file changed,
    /// else those with a changed file under their root.
    pub fn get_affected_from_files(&self, changed_files: &Vec<String>) -> (r: Vec<String>)
        requires
            self.config.wf(),
        ensures
            match self.workspace {
                Some(w) => strings_view(r@) == affected_names(
                    w.projects@,
                    self.config@,
                    strings_view(changed_files@),
                ),
                None => r@.len() == 0,
            },
    {
        let mut r: Vec<String> = Vec::new();
        let ghost fv = strings_view(changed_files@);
        let manifest_changed = any_manifest_change(changed_files);
        match &self.workspace {
            Some(w) => {
                let mut i: usize = 0;
                while i < w.projects.len()
                    invariant
                        self.config.wf(),
                        fv == strings_view(changed_files@),
                        manifest_changed == exists|k: int|
                            0 <= k < fv.len() && is_manifest_change(#[trigger] fv[k]),
                        i <= w.projects@.len(),
                        strings_view(r@) == affected_names(w.projects@.take(i as int), self.config@, fv),
                    decreases w.projects@.len() - i,
                {
                    assert(w.projects@.take(i + 1).drop_last() =~= w.projects@.take(i as int));
                    let p = &w.projects[i];
                    if is_library_exec(p) && self.config.contains(p.name.as_str()) && (any_under(
                        changed_files,
                        p.root.as_str(),
                    ) || manifest_changed) {
                        r.push(p.name.clone());
                    }
                    assert(strings_view(r@) =~= affected_names(w.projects@.take(i + 1), self.config@, fv));
                    i = i + 1;
                }
                assert(w.projects@.take(w.projects@.len() as int) =~= w.projects@);
            },
            None => {},
        }
        r
    }


    /// The workspace library a registered package stands for: the library
    /// of that name if there is one; else the first library whose build
    /// output is the package's path (`canonical_package`, and in
    /// `canonical_dists` one entry per project: its `dist/<name>` resolved,
    /// where it resolves) or whose sources hold the package's path; else
    /// the package name itself.
    pub fn resolve_package_to_library_name(
        &self,
        package_name: &str,
        canonical_package: Option<String>,
        canonical_dists: &Vec<Option<String>>,
    ) -> (r: String)
        requires
            self.config.wf(),
        ensures
            match self.workspace {
                Some(w) => if has_library(w.projects@, package_name@) {
                    r@ == package_name@
                } else if self.config@.contains_key(package_name@) {
                    match owner_from(
                        w.projects@,
                        self.workspace_root@,
                        self.config@[package_name@].path,
                        opt_view(canonical_package),
                        canonical_dists@.map_values(|o: Option<String>| opt_view(o)),
                        0,
                    ) {
                        Some(n) => r@ == n,
                        None => r@ == package_name@,
                    }
                } else {
                    r@ == package_name@
                },
                None => r@ == package_name@,
            },
    {
        if self.library_exists(package_name) {
            return owned(package_name);
        }
        let w = match &self.workspace {
            Some(w) => w,
            None => return owned(package_name),
        };
        let link = match self.config.lookup(package_name) {
            Some(l) => l,
            None => return owned(package_name),
        };
        let ghost cv = opt_view(canonical_package);
        let ghost dv = canonical_dists@.map_values(|o: Option<String>| opt_view(o));
        let ghost pkg = self.config@[package_name@].path;
        assert(link.path@ == pkg);
        let mut i: usize = 0;
        while i < w.projects.len()
            invariant
                self.workspace == Some(*w),
                self.config.wf(),
                !has_library(w.projects@, package_name@),
                self.config@.contains_key(package_name@),
                pkg == self.config@[package_name@].path,
                link.path@ == pkg,
                cv == opt_view(canonical_package),
                dv == canonical_dists@.map_values(|o: Option<String>| opt_view(o)),
                i <= w.projects@.len(),
                owner_from(w.projects@, self.workspace_root@, pkg, cv, dv, i as int) == owner_from(
                    w.projects@,
                    self.workspace_root@,
                    pkg,
                    cv,
                    dv,
                    0,
                ),
            decreases w.projects@.len() - i,
        {
            let p = &w.projects[i];
            if is_library_exec(p) {
                let same_output = match (&canonical_package, i < canonical_dists.len()) {
                    (Some(c), true) => match &canonical_dists[i] {
                        Some(d) => str_eq(c.as_str(), d.as_str()),
                        None => false,
                    },
                    _ => false,
                };
                let lib_root = join_path(self.workspace_root.as_str(), p.root.as_str());
                proof {
                    if same_output {
                        assert(dv[i as int] == opt_view(canonical_dists@[i as int]));
                        assert(cv is Some && (i as int) < dv.len() && dv[i as int] == cv);
                    }
                }
                if same_output || is_within(link.path.as_str(), lib_root.as_str()) {
                    assert(owner_from(w.projects@, self.workspace_root@, pkg, cv, dv, i as int) == Some(
                        w.projects@[i as int].name@,
                    ));
                    return p.name.clone();
                }
            }
            i = i + 1;
        }
        owned(package_name)
    }

    /// Where a built library may be found, in the order to try: the
    /// package's own path, `dist/<lib>`, `dist/libs/<lib>`,
    /// `projects/<lib>/dist`, then the build target's output path if the
    /// workspace gives one.
    pub fn publish_candidates(&self, library_name: &str, package_path: &str) -> (r: Vec<String>)
        ensures
            r@.len() >= 4,
            r@[0]@ == package_path@,
            r@[1]@ == joined(joined(self.workspace_root@, "dist"@), library_name@),
            r@[2]@ == joined(joined(joined(self.workspace_root@, "dist"@), "libs"@), library_name@),
            r@[3]@ == joined(joined(joined(self.workspace_root@, "projects"@), library_name@), "dist"@),
    {
        let root = self.workspace_root.as_str();
        let mut r: Vec<String> = Vec::new();
        r.push(owned(package_path));
        let dist = join_path(root, "dist");
        r.push(join_path(dist.as_str(), library_name));
        let libs = join_path(dist.as_str(), "libs");
        r.push(join_path(libs.as_str(), library_name));
        let projects = join_path(root, "projects");
        let lib = join_path(projects.as_str(), library_name);
        r.push(join_path(lib.as_str(), "dist"));
        match &self.workspace {
            Some(w) => {
                let mut i: usize = 0;
                while i < w.projects.len()
                    invariant
                        i <= w.projects@.len(),
                        r@.len() >= 4,
                        r@[0]@ == package_path@,
                        r@[1]@ == joined(joined(self.workspace_root@, "dist"@), library_name@),
                        r@[2]@ == joined(joined(joined(self.workspace_root@, "dist"@), "libs"@), library_name@),
                        r@[3]@ == joined(joined(joined(self.workspace_root@, "projects"@), library_name@), "dist"@),
                    decreases w.projects@.len() - i,
                {
                    if str_eq(w.projects[i].name.as_str(), library_name) {
                        match &w.projects[i].output_path {
                            Some(o) => {
                                r.push(join_path(root, o.as_str()));
                            },
                            None => {},
                        }
                        break;
                    }
                    i = i + 1;
                }
            },
            None => {},
        }
        r
    }

    /// Of a library's dependency names, those that are libraries of this
    /// workspace, in order.
    pub fn library_dependencies(&self, deps: &Vec<String>) -> (r: Vec<String>)
        ensures
            strings_view(r@) == match self.workspace {
                Some(w) => libraries_among(w.projects@, strings_view(deps@)),
                None => Seq::empty(),
            },
    {
        let ghost dv = strings_view(deps@);
        let mut r: Vec<String> = Vec::new();
        if self.workspace.is_none() {
            return r;
        }
        let mut i: usize = 0;
        while i < deps.len()
            invariant
                self.workspace is Some,
                dv == strings_view(deps@),
                i <= deps@.len(),
                strings_view(r@) == libraries_among(self.workspace->0.projects@, dv.take(i as int)),
            decreases deps@.len() - i,
        {
            assert(dv.take(i + 1).drop_last() =~= dv.take(i as int));
            if self.library_exists(deps[i].as_str()) {
                r.push(deps[i].clone());
            }
            assert(strings_view(r@) =~= libraries_among(self.workspace->0.projects@, dv.take(i + 1)));
            i = i + 1;
        }
        assert(dv.take(deps@.len() as int) =~= dv);
        r
    }
}

} // verus!
