//! Angular schematics generated inside a linked library: the checks on the
//! library, and the arguments the Angular CLI is run with.

use vstd::prelude::*;
use vstd::string::*;
use crate::angular::{has_library, library_names, workspace_has_library, workspace_libraries, AngularProject, AngularWorkspace};
use crate::config::{strings_view, Config};
use crate::error::{not_found_hint, views, SpineError};
use crate::platform::{join_path, joined};
use crate::text::{concat, contains, ends_with, has_infix, has_suffix, join, join_all, owned, str_eq};

verus! {

/// Runs Angular CLI generators in the context of a linked library.
#[derive(Clone, Debug)]
pub struct AngularCliIntegration {
    pub config: Config,
    pub workspace: AngularWorkspace,
    pub workspace_root: String,
}

/// The value of a run of decimal digits.
pub open spec fn digits_value(ds: Seq<char>) -> int
    decreases ds.len(),
{
    if ds.len() == 0 {
        0
    } else {
        digits_value(ds.drop_last()) * 10 + (ds.last() as int - '0' as int)
    }
}

pub open spec fn is_digit(c: char) -> bool {
    '0' <= c && c <= '9'
}

/// The digits and dots of `s`, in order.
pub open spec fn digits_and_dots(s: Seq<char>) -> Seq<char>
    decreases s.len(),
{
    if s.len() == 0 {
        s
    } else {
        digits_and_dots(s.drop_last()) + if is_digit(s.last()) || s.last() == '.' {
            seq![s.last()]
        } else {
            Seq::empty()
        }
    }
}

/// What comes before the first dot of `s`.
pub open spec fn before_dot(s: Seq<char>) -> Seq<char>
    decreases s.len(),
{
    if s.len() == 0 {
        s
    } else if s[0] == '.' {
        Seq::empty()
    } else {
        seq![s[0]] + before_dot(s.drop_first())
    }
}

/// A version requirement such as `^17.0.0` or `>=14` asks for Angular 14
/// or later: its digits and dots are kept, and the number before the
/// first dot must read as a `u32` of at least 14.
pub open spec fn angular_14_plus(spec: Seq<char>) -> bool {
    let major = before_dot(digits_and_dots(spec));
    major.len() > 0 && digits_value(major) <= u32::MAX && digits_value(major) >= 14
}

proof fn lemma_before_dot_digits(s: Seq<char>)
    requires
        forall|i: int| 0 <= i < s.len() ==> is_digit(s[i]) || s[i] == '.',
    ensures
        forall|i: int| 0 <= i < before_dot(s).len() ==> is_digit(#[trigger] before_dot(s)[i]),
    decreases s.len(),
{
    if s.len() > 0 && s[0] != '.' {
        lemma_before_dot_digits(s.drop_first());
        assert forall|i: int| 0 <= i < before_dot(s).len() implies is_digit(#[trigger] before_dot(s)[i]) by {
            if i > 0 {
                assert(before_dot(s)[i] == before_dot(s.drop_first())[i - 1]);
            }
        }
    }
}

proof fn lemma_value_nonneg(ds: Seq<char>)
    requires
        forall|i: int| 0 <= i < ds.len() ==> is_digit(ds[i]),
    ensures
        digits_value(ds) >= 0,
    decreases ds.len(),
{
    if ds.len() > 0 {
        lemma_value_nonneg(ds.drop_last());
    }
}

/// Whether a version requirement asks for Angular 14 or later.
pub fn is_angular_version_14_plus(version_spec: &str) -> (r: bool)
    ensures
        r == angular_14_plus(version_spec@),
{
    let n = version_spec.unicode_len();
    let ghost s = version_spec@;
    let mut kept: Vec<char> = Vec::new();
    let mut i: usize = 0;
    while i < n
        invariant
            n == s.len(),
            s == version_spec@,
            i <= n,
            kept@ == digits_and_dots(s.take(i as int)),
        decreases n - i,
    {
        let c = version_spec.get_char(i);
        assert(s.take(i + 1).drop_last() =~= s.take(i as int));
        if ('0' <= c && c <= '9') || c == '.' {
            kept.push(c);
        }
        assert(kept@ =~= digits_and_dots(s.take(i + 1)));
        i = i + 1;
    }
    assert(s.take(n as int) =~= s);
    let ghost d = kept@;
    proof {
        assert forall|j: int| 0 <= j < d.len() implies is_digit(d[j]) || d[j] == '.' by {
            lemma_digits_and_dots_only(s, j);
        }
        lemma_before_dot_digits(d);
    }
    assert(d.skip(0) =~= d);
    assert(d.take(0) =~= Seq::<char>::empty());
    let mut k: usize = 0;
    while k < kept.len() && kept[k] != '.'
        invariant
            d == kept@,
            k <= d.len(),
            forall|j: int| 0 <= j < k ==> d[j] != '.',
            before_dot(d) == d.take(k as int) + before_dot(d.skip(k as int)),
        decreases d.len() - k,
    {
        assert(d.take(k + 1) =~= d.take(k as int) + seq![d[k as int]]);
        assert(d.skip(k as int).drop_first() =~= d.skip(k + 1));
        k = k + 1;
    }
    assert(before_dot(d.skip(k as int)) =~= Seq::<char>::empty());
    assert(before_dot(d) =~= d.take(k as int));
    if k == 0 {
        return false;
    }
    let mut value: u64 = 0;
    let mut j: usize = 0;
    while j < k
        invariant
            d == kept@,
            d == digits_and_dots(version_spec@),
            before_dot(d) == d.take(k as int),
            j <= k <= d.len(),
            forall|x: int| 0 <= x < k ==> is_digit(#[trigger] d.take(k as int)[x]),
            value as int == digits_value(d.take(j as int)),
            value <= u32::MAX,
        decreases k - j,
    {
        let ghost pre = d.take(j as int);
        assert(d.take(j + 1).drop_last() =~= pre);
        assert(d.take(k as int)[j as int] == d[j as int]);
        let digit = (kept[j] as u32 - '0' as u32) as u64;
        let next = value * 10 + digit;
        proof {
            lemma_value_nonneg(pre);
        }
        assert(next as int == digits_value(d.take(j + 1)));
        if next > 0xffff_ffff {
            proof {
                lemma_value_grows(d.take(k as int), j + 1);
                assert(d.take(k as int).take(j + 1) =~= d.take(j + 1));
            }
            return false;
        }
        value = next;
        j = j + 1;
    }
    value >= 14
}

proof fn lemma_digits_and_dots_only(s: Seq<char>, j: int)
    requires
        0 <= j < digits_and_dots(s).len(),
    ensures
        is_digit(digits_and_dots(s)[j]) || digits_and_dots(s)[j] == '.',
    decreases s.len(),
{
    if s.len() > 0 {
        let init = digits_and_dots(s.drop_last());
        if j < init.len() {
            lemma_digits_and_dots_only(s.drop_last(), j);
        }
    }
}

/// A longer run of digits never reads as less.
proof fn lemma_value_grows(ds: Seq<char>, m: int)
    requires
        0 <= m <= ds.len(),
        forall|x: int| 0 <= x < ds.len() ==> is_digit(#[trigger] ds[x]),
    ensures
        digits_value(ds) >= digits_value(ds.take(m)),
    decreases ds.len() - m,
{
    if m < ds.len() {
        lemma_value_grows(ds, m + 1);
        assert(ds.take(m + 1).drop_last() =~= ds.take(m));
        assert forall|x: int| 0 <= x < m implies is_digit(#[trigger] ds.take(m)[x]) by {
            assert(ds.take(m)[x] == ds[x]);
        }
        lemma_value_nonneg(ds.take(m));
    } else {
        assert(ds.take(m) =~= ds);
    }
}

/// Whether a file name is that of a component file.
pub fn is_component_file(name: &str) -> (r: bool)
    ensures
        r == has_infix(name@, ".component."@),
{
    contains(name, ".component.")
}

/// Whether a component's source declares it standalone.
pub fn declares_standalone(source: &str) -> (r: bool)
    ensures
        r == has_infix(source@, "standalone: true"@),
{
    contains(source, "standalone: true")
}

/// The style the library's components use: the first component file with a
/// `scss`, `sass` or `less` style decides; else the workspace's configured
/// style extension; else plain CSS.
pub open spec fn style_from(files: Seq<Seq<char>>, configured: Option<Seq<char>>) -> Seq<char>
    decreases files.len(),
{
    if files.len() == 0 {
        match configured {
            Some(e) => e,
            None => "css"@,
        }
    } else if has_suffix(files[0], ".component.scss"@) {
        "scss"@
    } else if has_suffix(files[0], ".component.sass"@) {
        "sass"@
    } else if has_suffix(files[0], ".component.less"@) {
        "less"@
    } else {
        style_from(files.drop_first(), configured)
    }
}

/// The style extension for a new component (see [`style_from`]).
pub fn detect_style_extension(component_files: &Vec<String>, configured: Option<String>) -> (r: String)
    ensures
        r@ == style_from(strings_view(component_files@), crate::config::opt_view(configured)),
{
    let ghost fv = strings_view(component_files@);
    assert(fv.skip(0) =~= fv);
    let mut i: usize = 0;
    while i < component_files.len()
        invariant
            fv == strings_view(component_files@),
            i <= fv.len(),
            style_from(fv.skip(i as int), crate::config::opt_view(configured)) == style_from(
                fv,
                crate::config::opt_view(configured),
            ),
        decreases fv.len() - i,
    {
        let f = component_files[i].as_str();
        assert(fv.skip(i as int)[0] == f@);
        if ends_with(f, ".component.scss") {
            return owned("scss");
        } else if ends_with(f, ".component.sass") {
            return owned("sass");
        } else if ends_with(f, ".component.less") {
            return owned("less");
        }
        assert(fv.skip(i as int).drop_first() =~= fv.skip(i + 1));
        i = i + 1;
    }
    assert(fv.skip(i as int) =~= Seq::<Seq<char>>::empty());
    match configured {
        Some(e) => e,
        None => owned("css"),
    }
}

impl AngularCliIntegration {
    /// Needs the workspace read from `angular.json` under `workspace_root`.
    pub fn new(config: Config, workspace: Option<AngularWorkspace>, workspace_root: String) -> (r: Result<
        AngularCliIntegration,
        SpineError,
    >)
        ensures
            workspace is None ==> (r matches Err(SpineError::AngularWorkspace { message: m, .. }) && m@
                == "No angular.json found in "@ + workspace_root@),
            workspace is Some ==> (r matches Ok(a) && a.config == config && Some(a.workspace)
                == workspace && a.workspace_root == workspace_root),
    {
        match workspace {
            None => Err(SpineError::angular_workspace_not_found(workspace_root.as_str())),
            Some(w) => Ok(AngularCliIntegration { config, workspace: w, workspace_root }),
        }
    }

    /// A library to generate into must be registered and be a library
    /// project of the workspace.
    pub fn validate_library_exists(&self, lib: &str) -> (r: Result<(), SpineError>)
        requires
            self.config.wf(),
            lib@.len() + 3 < usize::MAX,
        ensures
            !self.config@.contains_key(lib@) ==> match r {
                Err(SpineError::PackageNotFoundWithSuggestion { package: p, suggestion: h }) => p@
                    == lib@ && h@ == not_found_hint(
                    lib@,
                    self.config.entries().map_values(|l: crate::config::LinkView| l.name),
                ),
                _ => false,
            },
            self.config@.contains_key(lib@) && !has_library(self.workspace.projects@, lib@) ==> match r {
                Err(SpineError::AngularWorkspace { message: m, suggestion: h }) => m@ == "Library '"@
                    + lib@ + "' not found in Angular workspace"@ && h@ == if library_names(
                    self.workspace.projects@,
                ).len() == 0 {
                    "No libraries found in Angular workspace. Create one with 'ng generate library <name>'."@
                } else {
                    "Available libraries in workspace: "@ + join(
                        library_names(self.workspace.projects@),
                        ", "@,
                    )
                },
                _ => false,
            },
            self.config@.contains_key(lib@) && has_library(self.workspace.projects@, lib@) ==> r is Ok,
    {
        if !self.config.contains(lib) {
            let names = self.config.package_names();
            assert(views(names@) =~= self.config.entries().map_values(|l: crate::config::LinkView| l.name));
            return Err(SpineError::package_not_found_with_suggestions(lib, names.as_slice()));
        }
        if workspace_has_library(&self.workspace, lib) {
            return Ok(());
        }
        let libs = workspace_libraries(&self.workspace);
        let suggestion = if libs.len() == 0 {
            owned("No libraries found in Angular workspace. Create one with 'ng generate library <name>'.")
        } else {
            let names = join_all(libs.as_slice(), ", ");
            concat("Available libraries in workspace: ", names.as_str())
        };
        let m = concat("Library '", lib);
        let message = concat(m.as_str(), "' not found in Angular workspace");
        Err(SpineError::AngularWorkspace { message, suggestion })
    }

    /// The source directory of library project `lib`: its source root, else
    /// `<root>/src`, below the workspace root.
    pub fn get_library_source_path(&self, lib: &str) -> (r: Result<String, SpineError>)
        ensures
            match find_project(self.workspace.projects@, lib@) {
                Some(p) => r matches Ok(x) && x@ == joined(
                    self.workspace_root@,
                    match p.source_root {
                        Some(sr) => sr@,
                        None => p.root@ + "/src"@,
                    },
                ),
                None => r matches Err(SpineError::PackageNotFound(m)) && m@ == "Library '"@ + lib@
                    + "' not found in workspace"@,
            },
    {
        assert(self.workspace.projects@.skip(0) =~= self.workspace.projects@);
        let mut i: usize = 0;
        while i < self.workspace.projects.len()
            invariant
                i <= self.workspace.projects@.len(),
                find_project(self.workspace.projects@.skip(i as int), lib@) == find_project(
                    self.workspace.projects@,
                    lib@,
                ),
            decreases self.workspace.projects@.len() - i,
        {
            let p = &self.workspace.projects[i];
            assert(self.workspace.projects@.skip(i as int)[0] == *p);
            if str_eq(p.name.as_str(), lib) {
                let src = match &p.source_root {
                    Some(sr) => sr.clone(),
                    None => concat(p.root.as_str(), "/src"),
                };
                return Ok(join_path(self.workspace_root.as_str(), src.as_str()));
            }
            assert(self.workspace.projects@.skip(i as int).drop_first() =~= self.workspace.projects@.skip(i + 1));
            i = i + 1;
        }
        assert(self.workspace.projects@.skip(i as int) =~= Seq::<AngularProject>::empty());
        let m = concat("Library '", lib);
        Err(SpineError::PackageNotFound(concat(m.as_str(), "' not found in workspace")))
    }

    /// The Angular CLI arguments for generating `schematic` `name`: with a
    /// library, after checking it, `--project <lib>`, and for a component
    /// `--standalone` where the library uses standalone components, its
    /// style and OnPush change detection; then the caller's own arguments.
    pub fn generate_args(
        &self,
        schematic: &str,
        name: &str,
        lib: Option<&str>,
        standalone: bool,
        style: &str,
        extra: &Vec<String>,
    ) -> (r: Result<Vec<String>, SpineError>)
        requires
            self.config.wf(),
            lib matches Some(l) ==> l@.len() + 3 < usize::MAX,
        ensures
            match lib {
                None => r matches Ok(v) && strings_view(v@) == seq!["generate"@, schematic@, name@]
                    + strings_view(extra@),
                Some(l) => if self.config@.contains_key(l@) && has_library(self.workspace.projects@, l@) {
                    r matches Ok(v) && strings_view(v@) == seq!["generate"@, schematic@, name@] + seq![
                        "--project"@,
                        l@,
                    ] + component_args(schematic@, standalone, style@) + strings_view(extra@)
                } else {
                    r is Err
                },
            },
    {
        let mut v: Vec<String> = Vec::new();
        v.push(owned("generate"));
        v.push(owned(schematic));
        v.push(owned(name));
        let ghost base = seq!["generate"@, schematic@, name@];
        assert(strings_view(v@) =~= base);
        match lib {
            Some(l) => {
                self.validate_library_exists(l)?;
                v.push(owned("--project"));
                v.push(owned(l));
                let ghost b2 = base + seq!["--project"@, l@];
                assert(strings_view(v@) =~= b2);
                if str_eq(schematic, "component") {
                    if standalone {
                        v.push(owned("--standalone"));
                    }
                    v.push(owned("--style"));
                    v.push(owned(style));
                    v.push(owned("--change-detection"));
                    v.push(owned("OnPush"));
                }
                assert(strings_view(v@) =~= b2 + component_args(schematic@, standalone, style@));
            },
            None => {},
        }
        let ghost pre = strings_view(v@);
        let mut i: usize = 0;
        while i < extra.len()
            invariant
                i <= extra@.len(),
                strings_view(v@) == pre + strings_view(extra@).take(i as int),
            decreases extra@.len() - i,
        {
            let ghost before = strings_view(v@);
            let item = extra[i].clone();
            assert(item@ == extra@[i as int]@);
            v.push(item);
            assert(strings_view(v@) =~= before.push(extra@[i as int]@));
            assert(strings_view(extra@).take(i + 1) =~= strings_view(extra@).take(i as int).push(
                extra@[i as int]@,
            ));
            assert(strings_view(v@) =~= pre + strings_view(extra@).take(i + 1));
            i = i + 1;
        }
        assert(strings_view(extra@).take(extra@.len() as int) =~= strings_view(extra@));
        Ok(v)
    }
}

/// The component-only arguments.
pub open spec fn component_args(schematic: Seq<char>, standalone: bool, style: Seq<char>) -> Seq<Seq<char>> {
    if schematic == "component"@ {
        (if standalone {
            seq!["--standalone"@]
        } else {
            Seq::empty()
        }) + seq!["--style"@, style, "--change-detection"@, "OnPush"@]
    } else {
        Seq::empty()
    }
}

/// The first project of `ps` called `name`.
pub open spec fn find_project(ps: Seq<AngularProject>, name: Seq<char>) -> Option<AngularProject>
    decreases ps.len(),
{
    if ps.len() == 0 {
        None
    } else if ps[0].name@ == name {
        Some(ps[0])
    } else {
        find_project(ps.drop_first(), name)
    }
}

} // verus!
