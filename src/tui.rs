//! The model behind the terminal view: the health and link state shown for
//! each package, and the list of rows the cursor moves over (a package, a
//! line for its health issue if it has one, then a line per linked project).

use vstd::prelude::*;
use vstd::string::*;
use crate::config::{Config, LinkView};
use crate::probe::LinkStatus;
use crate::text::{contains, has_infix, owned, push_char};

verus! {

/// The health of a registered package.
#[derive(Clone, Debug, PartialEq, Eq)]
pub enum HealthStatus {
    Healthy,
    Warning(String),
    Broken(String),
}

/// What the view shows for one package.
#[derive(Clone, Debug)]
pub struct PackageStatus {
    pub health: HealthStatus,
    pub link_status: LinkStatus,
    pub is_angular_lib: bool,
}

/// What the file system shows of a package's source directory.
#[derive(Clone, Debug)]
pub struct PackageFacts {
    pub path_exists: bool,
    pub manifest_exists: bool,
    /// The manifest parses and gives a name and a version.
    pub manifest_valid: bool,
    pub path_is_symlink: bool,
    pub link_readable: bool,
}

/// What the view is doing.
#[derive(Clone, Copy, Debug, PartialEq, Eq)]
pub enum AppMode {
    Normal,
    AddPackage,
    RemovePackage,
    Help,
    LinkPackage,
    UnlinkPackage,
    BuildPackage,
    TestPackage,
}

/// Which field the add form is filling.
#[derive(Clone, Debug, PartialEq, Eq)]
pub enum AddModeField {
    Name,
    Path,
}

/// A key press, as the view reads it.
#[derive(Clone, Debug, PartialEq, Eq)]
pub enum Key {
    Char(char),
    Up,
    Down,
    Enter,
    Esc,
    Backspace,
    Delete,
    Refresh,
    Other,
}

/// What the caller must do after a key press.
#[derive(Clone, Debug, PartialEq, Eq)]
pub enum TuiAction {
    Nothing,
    Quit,
    Refresh,
    AddLink { name: String, path: String },
    Remove(String),
    Link(String),
    Unlink(String),
    Build(String),
    Test(String),
}

/// State of the terminal view.
#[derive(Clone, Debug)]
pub struct TuiApp {
    pub config: Config,
    pub selected_index: usize,
    /// One status per registry entry, in the registry's order.
    pub package_status: Vec<PackageStatus>,
    pub current_project_path: String,
    pub mode: AppMode,
    /// What has been typed into the add form: the name, then a line break
    /// and the path.
    pub input_buffer: Vec<char>,
    pub add_mode_field: AddModeField,
    /// The view runs inside an Angular workspace.
    pub in_angular_workspace: bool,
}

/// Unicode's White_Space property (the characters `char::is_whitespace`
/// accepts): tab to carriage return, space, next line, no-break space,
/// ogham space mark, the spaces U+2000 to U+200A, the line and paragraph
/// separators, narrow no-break space, medium mathematical space and
/// ideographic space.
pub open spec fn is_space(c: char) -> bool {
    let n = c as u32;
    (0x09 <= n <= 0x0d) || n == 0x20 || n == 0x85 || n == 0xa0 || n == 0x1680 || (0x2000 <= n
        <= 0x200a) || n == 0x2028 || n == 0x2029 || n == 0x202f || n == 0x205f || n == 0x3000
}

/// Whether `c` is white space.
pub fn space(c: char) -> (r: bool)
    ensures
        r == is_space(c),
{
    let n = c as u32;
    (0x09 <= n && n <= 0x0d) || n == 0x20 || n == 0x85 || n == 0xa0 || n == 0x1680 || (0x2000 <= n
        && n <= 0x200a) || n == 0x2028 || n == 0x2029 || n == 0x202f || n == 0x205f || n == 0x3000
}

/// `s` without white space at either end.
pub open spec fn trimmed(s: Seq<char>) -> Seq<char>
    decreases s.len(),
{
    if s.len() > 0 && is_space(s[0]) {
        trimmed(s.drop_first())
    } else if s.len() > 0 && is_space(s.last()) {
        trimmed(s.drop_last())
    } else {
        s
    }
}

/// The characters of `s[from..to]` without white space at either end.
pub fn trim_range(s: &Vec<char>, from: usize, to: usize) -> (r: String)
    requires
        from <= to <= s@.len(),
    ensures
        r@ == trimmed(s@.subrange(from as int, to as int)),
{
    let mut a = from;
    let mut b = to;
    while a < b && (space(s[a]) || space(s[b - 1]))
        invariant
            from <= a <= b <= to <= s@.len(),
            trimmed(s@.subrange(a as int, b as int)) == trimmed(s@.subrange(from as int, to as int)),
        decreases b - a,
    {
        let ghost t = s@.subrange(a as int, b as int);
        if space(s[a]) {
            assert(t.drop_first() =~= s@.subrange(a + 1, b as int));
            a = a + 1;
        } else {
            assert(t.drop_last() =~= s@.subrange(a as int, b - 1));
            b = b - 1;
        }
    }
    let ghost t = s@.subrange(a as int, b as int);
    assert(trimmed(t) == t);
    let mut part = String::new();
    let mut i = a;
    while i < b
        invariant
            a <= i <= b <= s@.len(),
            part@ == s@.subrange(a as int, i as int),
        decreases b - i,
    {
        push_char(&mut part, s[i]);
        assert(part@ =~= s@.subrange(a as int, i + 1));
        i = i + 1;
    }
    part
}


/// The health of a package's source directory, first failing check first.
pub fn check_package_health(f: &PackageFacts) -> (r: HealthStatus)
    ensures
        !f.path_exists ==> (r matches HealthStatus::Broken(m) && m@ == "Path does not exist"@),
        f.path_exists && !f.manifest_exists ==> (r matches HealthStatus::Broken(m) && m@
            == "No package.json found"@),
        f.path_exists && f.manifest_exists && !f.manifest_valid ==> (r matches HealthStatus::Broken(
            m,
        ) && m@ == "Invalid package.json"@),
        f.path_exists && f.manifest_exists && f.manifest_valid ==> if f.path_is_symlink
            && !f.link_readable {
            r matches HealthStatus::Warning(m) && m@ == "Broken symlink"@
        } else {
            r is Healthy
        },
{
    if !f.path_exists {
        return HealthStatus::Broken(owned("Path does not exist"));
    }
    if !f.manifest_exists {
        return HealthStatus::Broken(owned("No package.json found"));
    }
    if !f.manifest_valid {
        return HealthStatus::Broken(owned("Invalid package.json"));
    }
    if f.path_is_symlink && !f.link_readable {
        return HealthStatus::Warning(owned("Broken symlink"));
    }
    HealthStatus::Healthy
}

/// Whether a package looks like an Angular library: it has an
/// `ng-package.json` or a `public-api.ts`, or the view runs in an Angular
/// workspace and the package lives in a build output directory.
pub fn is_angular_library(has_ng_package: bool, has_public_api: bool, in_angular_workspace: bool, path: &str) -> (r: bool)
    ensures
        r == (has_ng_package || has_public_api || (in_angular_workspace && has_infix(path@, "dist"@))),
{
    has_ng_package || has_public_api || (in_angular_workspace && contains(path, "dist"))
}

pub open spec fn has_issue(s: PackageStatus) -> bool {
    !(s.health is Healthy)
}

/// Rows taken by one package.
pub open spec fn block(l: LinkView, s: PackageStatus) -> int {
    1 + (if has_issue(s) { 1int } else { 0int }) + l.linked_projects.len()
}

/// Rows taken by the first `n` packages.
pub open spec fn rows(es: Seq<LinkView>, ss: Seq<PackageStatus>, n: int) -> int
    decreases n,
{
    if n <= 0 {
        0
    } else {
        rows(es, ss, n - 1) + block(es[n - 1], ss[n - 1])
    }
}

proof fn lemma_rows_monotone(es: Seq<LinkView>, ss: Seq<PackageStatus>, a: int, b: int)
    requires
        0 <= a <= b,
    ensures
        rows(es, ss, a) <= rows(es, ss, b),
    decreases b - a,
{
    if a < b {
        lemma_rows_monotone(es, ss, a, b - 1);
    }
}

/// The modes that pick a package from the list.
pub open spec fn picks_package(m: AppMode) -> bool {
    m == AppMode::RemovePackage || m == AppMode::LinkPackage || m == AppMode::UnlinkPackage || m
        == AppMode::BuildPackage || m == AppMode::TestPackage
}

pub open spec fn is_up(k: Key) -> bool {
    k == Key::Up || k == Key::Char('k')
}

pub open spec fn is_down(k: Key) -> bool {
    k == Key::Down || k == Key::Char('j')
}

/// The cursor after an up or down key.
pub open spec fn cursor_after(a: TuiApp, k: Key) -> int {
    let total = if a.total_rows() <= usize::MAX {
        a.total_rows()
    } else {
        usize::MAX as int
    };
    if is_up(k) {
        if a.selected_index > 0 {
            a.selected_index - 1
        } else {
            0
        }
    } else if is_down(k) && a.selected_index + 1 < total {
        a.selected_index + 1
    } else {
        a.selected_index as int
    }
}

/// The mode a key leads to from the list view.
pub open spec fn mode_after_normal(a: TuiApp, k: Key) -> AppMode {
    let has = a.config.entries().len() > 0;
    if k == Key::Char('h') {
        AppMode::Help
    } else if k == Key::Char('a') {
        AppMode::AddPackage
    } else if (k == Key::Char('r') || k == Key::Delete) && has {
        AppMode::RemovePackage
    } else if k == Key::Char('l') && has {
        AppMode::LinkPackage
    } else if k == Key::Char('u') && has {
        AppMode::UnlinkPackage
    } else if k == Key::Char('b') && has && a.in_angular_workspace {
        AppMode::BuildPackage
    } else if k == Key::Char('t') && has && a.in_angular_workspace {
        AppMode::TestPackage
    } else {
        AppMode::Normal
    }
}

/// The entry whose rows hold row `t`.
pub open spec fn row_owner(a: TuiApp, t: int, i: int) -> bool {
    0 <= i < a.config.entries().len() && rows(a.config.entries(), a.package_status@, i) <= t < rows(
        a.config.entries(),
        a.package_status@,
        i + 1,
    )
}

impl TuiApp {
    /// One status per entry.
    pub open spec fn wf(&self) -> bool {
        self.config.wf() && self.package_status@.len() == self.config.entries().len()
    }

    pub open spec fn total_rows(&self) -> int {
        rows(self.config.entries(), self.package_status@, self.config.entries().len() as int)
    }

    /// A view of `config` with the cursor on the first row.
    pub fn new(
        config: Config,
        package_status: Vec<PackageStatus>,
        current_project_path: String,
        in_angular_workspace: bool,
    ) -> (r: Option<TuiApp>)
        requires
            config.wf(),
        ensures
            package_status@.len() == config.entries().len() ==> (r matches Some(a) && a.wf()
                && a.selected_index == 0 && a.config == config && a.package_status == package_status
                && a.mode == AppMode::Normal && a.input_buffer@.len() == 0),
            package_status@.len() != config.entries().len() ==> r is None,
    {
        if package_status.len() != config.links.len() {
            return None;
        }
        Some(
            TuiApp {
                config,
                selected_index: 0,
                package_status,
                current_project_path,
                mode: AppMode::Normal,
                input_buffer: Vec::new(),
                add_mode_field: AddModeField::Name,
                in_angular_workspace,
            },
        )
    }

    /// Replaces the statuses, one per entry; refused when the count differs.
    pub fn refresh_package_status(&mut self, package_status: Vec<PackageStatus>) -> (r: bool)
        requires
            old(self).config.wf(),
        ensures
            final(self).config.wf(),
            r ==> final(self).wf(),
            r == (package_status@.len() == old(self).config.entries().len()),
            r ==> *final(self) == (TuiApp { package_status, ..*old(self) }),
            !r ==> *final(self) == *old(self),
    {
        if package_status.len() != self.config.links.len() {
            return false;
        }
        self.package_status = package_status;
        true
    }

    /// How many rows the list has, saturating at the largest `usize`.
    pub fn get_total_items(&self) -> (r: usize)
        requires
            self.wf(),
        ensures
            r as int == if self.total_rows() <= usize::MAX {
                self.total_rows()
            } else {
                usize::MAX as int
            },
    {
        let ghost es = self.config.entries();
        let ghost ss = self.package_status@;
        let n = self.config.links.len();
        let mut count: usize = 0;
        let mut i: usize = 0;
        while i < n
            invariant
                self.wf(),
                es == self.config.entries(),
                ss == self.package_status@,
                n == es.len(),
                i <= n,
                count as int == if rows(es, ss, i as int) <= usize::MAX {
                    rows(es, ss, i as int)
                } else {
                    usize::MAX as int
                },
            decreases n - i,
        {
            proof {
                lemma_rows_monotone(es, ss, i as int, i as int);
            }
            let extra: usize = match self.package_status[i].health {
                HealthStatus::Healthy => 0,
                _ => 1,
            };
            let projects = self.config.links[i].linked_projects.len();
            assert(es[i as int].linked_projects.len() == projects);
            count = count.saturating_add(1).saturating_add(extra).saturating_add(projects);
            i = i + 1;
        }
        count
    }

    /// The package whose rows hold row `target`, if the list reaches it.
    pub fn get_package_at_index(&self, target: usize) -> (r: Option<String>)
        requires
            self.wf(),
        ensures
            target >= self.total_rows() ==> r is None,
            target < self.total_rows() ==> (r matches Some(name) && exists|i: int|
                0 <= i < self.config.entries().len() && #[trigger] rows(
                    self.config.entries(),
                    self.package_status@,
                    i,
                ) <= target < rows(self.config.entries(), self.package_status@, i + 1) && name@
                    == self.config.entries()[i].name),
    {
        let ghost es = self.config.entries();
        let ghost ss = self.package_status@;
        let n = self.config.links.len();
        let mut start: usize = 0;
        let mut i: usize = 0;
        while i < n
            invariant
                self.wf(),
                es == self.config.entries(),
                ss == self.package_status@,
                n == es.len(),
                i <= n,
                start as int == rows(es, ss, i as int),
                start <= target,
            decreases n - i,
        {
            let extra: usize = match self.package_status[i].health {
                HealthStatus::Healthy => 0,
                _ => 1,
            };
            let projects = self.config.links[i].linked_projects.len();
            assert(es[i as int].linked_projects.len() == projects);
            let offset = target - start;
            if offset < 1 + extra || offset - 1 - extra < projects {
                let name = self.config.links[i].name.clone();
                proof {
                    assert(rows(es, ss, i as int) <= target < rows(es, ss, i + 1));
                    if target >= self.total_rows() {
                        lemma_rows_monotone(es, ss, i + 1, n as int);
                    }
                }
                return Some(name);
            }
            start = start + 1 + extra + projects;
            i = i + 1;
        }
        None
    }


    /// The entry whose rows hold row `target`, if the list reaches it.
    pub fn entry_at_row(&self, target: usize) -> (r: Option<usize>)
        requires
            self.wf(),
        ensures
            target >= self.total_rows() ==> r is None,
            target < self.total_rows() ==> (r matches Some(i) && row_owner(*self, target as int, i as int)),
    {
        let ghost es = self.config.entries();
        let ghost ss = self.package_status@;
        let n = self.config.links.len();
        let mut start: usize = 0;
        let mut i: usize = 0;
        while i < n
            invariant
                self.wf(),
                es == self.config.entries(),
                ss == self.package_status@,
                n == es.len(),
                i <= n,
                start as int == rows(es, ss, i as int),
                start <= target,
            decreases n - i,
        {
            let extra: usize = match self.package_status[i].health {
                HealthStatus::Healthy => 0,
                _ => 1,
            };
            let projects = self.config.links[i].linked_projects.len();
            assert(es[i as int].linked_projects.len() == projects);
            let offset = target - start;
            if offset < 1 + extra || offset - 1 - extra < projects {
                proof {
                    if target >= self.total_rows() {
                        lemma_rows_monotone(es, ss, i + 1, n as int);
                    }
                }
                return Some(i);
            }
            start = start + 1 + extra + projects;
            i = i + 1;
        }
        None
    }

    fn move_cursor(&mut self, key: &Key)
        requires
            old(self).wf(),
        ensures
            final(self).wf(),
            final(self).selected_index == cursor_after(*old(self), *key),
            *final(self) == (TuiApp { selected_index: final(self).selected_index, ..*old(self) }),
    {
        let up = match key {
            Key::Up => true,
            Key::Char(c) => *c == 'k',
            _ => false,
        };
        let down = match key {
            Key::Down => true,
            Key::Char(c) => *c == 'j',
            _ => false,
        };
        if up {
            self.select_previous();
        } else if down {
            self.select_next();
        }
    }

    /// Handles one key press. The registry changes only when a package is
    /// removed from the remove list; everything else that touches the disk
    /// or the registry is handed back as an action.
    pub fn handle_key(&mut self, key: Key) -> (r: TuiAction)
        requires
            old(self).wf(),
        ensures
            final(self).config.wf(),
            final(self).package_status@.len() == final(self).config.entries().len(),
            old(self).mode == AppMode::Normal ==> {
                &&& final(self).mode == mode_after_normal(*old(self), key)
                &&& final(self).config == old(self).config
                &&& r == if key == Key::Char('q') || key == Key::Esc {
                    TuiAction::Quit
                } else if key == Key::Refresh {
                    TuiAction::Refresh
                } else {
                    TuiAction::Nothing
                }
                &&& (is_up(key) || is_down(key)) ==> final(self).selected_index == cursor_after(
                    *old(self),
                    key,
                )
                &&& key == Key::Char('a') ==> final(self).input_buffer@.len() == 0
                    && final(self).add_mode_field == AddModeField::Name
            },
            old(self).mode == AppMode::Help ==> {
                &&& final(self).config == old(self).config
                &&& r == TuiAction::Nothing
                &&& final(self).mode == if key == Key::Esc || key == Key::Char('q') || key
                    == Key::Char('h') {
                    AppMode::Normal
                } else {
                    AppMode::Help
                }
            },
            picks_package(old(self).mode) ==> {
                &&& key == Key::Esc ==> final(self).mode == AppMode::Normal && r == TuiAction::Nothing
                    && final(self).config == old(self).config
                &&& (is_up(key) || is_down(key)) ==> final(self).selected_index == cursor_after(
                    *old(self),
                    key,
                ) && final(self).mode == old(self).mode && r == TuiAction::Nothing
                &&& key == Key::Enter ==> final(self).mode == AppMode::Normal
                &&& key == Key::Enter && old(self).mode != AppMode::RemovePackage ==> final(self).config
                    == old(self).config
                &&& key == Key::Enter && (old(self).selected_index >= old(self).total_rows()) ==> r
                    == TuiAction::Nothing && final(self).config == old(self).config
                &&& key == Key::Enter && old(self).selected_index < old(self).total_rows() ==> exists|
                    i: int,
                | #[trigger] row_owner(*old(self), old(self).selected_index as int, i) && {
                    let name = old(self).config.entries()[i].name;
                    let angular = old(self).package_status@[i].is_angular_lib;
                    match old(self).mode {
                        AppMode::RemovePackage => (r matches TuiAction::Remove(n) && n@ == name)
                            && final(self).config@ == old(self).config@.remove(name),
                        AppMode::LinkPackage => r matches TuiAction::Link(n) && n@ == name,
                        AppMode::UnlinkPackage => r matches TuiAction::Unlink(n) && n@ == name,
                        AppMode::BuildPackage => if angular {
                            r matches TuiAction::Build(n) && n@ == name
                        } else {
                            r == TuiAction::Nothing
                        },
                        _ => if angular {
                            r matches TuiAction::Test(n) && n@ == name
                        } else {
                            r == TuiAction::Nothing
                        },
                    }
                }
            },
            old(self).mode == AppMode::AddPackage ==> {
                &&& final(self).config == old(self).config
                &&& key == Key::Esc ==> final(self).mode == AppMode::Normal && r == TuiAction::Nothing
                &&& (key matches Key::Char(c) ==> final(self).input_buffer@ == old(self).input_buffer@.push(c)
                    && r == TuiAction::Nothing)
                &&& r matches TuiAction::AddLink { name: n, path: p } ==> final(self).mode
                    == AppMode::Normal && final(self).input_buffer@.len() == 0
            },
    {
        match self.mode {
            AppMode::Normal => self.normal_key(key),
            AppMode::Help => {
                let leave = match key {
                    Key::Esc => true,
                    Key::Char(c) => c == 'q' || c == 'h',
                    _ => false,
                };
                if leave {
                    self.mode = AppMode::Normal;
                }
                TuiAction::Nothing
            },
            AppMode::AddPackage => self.add_key(key),
            _ => self.pick_key(key),
        }
    }

    fn normal_key(&mut self, key: Key) -> (r: TuiAction)
        requires
            old(self).wf(),
            old(self).mode == AppMode::Normal,
        ensures
            final(self).wf(),
            final(self).mode == mode_after_normal(*old(self), key),
            final(self).config == old(self).config,
            r == if key == Key::Char('q') || key == Key::Esc {
                TuiAction::Quit
            } else if key == Key::Refresh {
                TuiAction::Refresh
            } else {
                TuiAction::Nothing
            },
            (is_up(key) || is_down(key)) ==> final(self).selected_index == cursor_after(*old(self), key),
            key == Key::Char('a') ==> final(self).input_buffer@.len() == 0 && final(self).add_mode_field
                == AddModeField::Name,
    {
        let has = self.config.links.len() > 0;
        match key {
            Key::Esc => TuiAction::Quit,
            Key::Refresh => TuiAction::Refresh,
            Key::Delete => {
                if has {
                    self.mode = AppMode::RemovePackage;
                }
                TuiAction::Nothing
            },
            Key::Up | Key::Down => {
                self.move_cursor(&key);
                TuiAction::Nothing
            },
            Key::Char(c) => {
                if c == 'q' {
                    return TuiAction::Quit;
                } else if c == 'h' {
                    self.mode = AppMode::Help;
                } else if c == 'a' {
                    self.mode = AppMode::AddPackage;
                    self.input_buffer = Vec::new();
                    self.add_mode_field = AddModeField::Name;
                } else if c == 'r' {
                    if has {
                        self.mode = AppMode::RemovePackage;
                    }
                } else if c == 'l' {
                    if has {
                        self.mode = AppMode::LinkPackage;
                    }
                } else if c == 'u' {
                    if has {
                        self.mode = AppMode::UnlinkPackage;
                    }
                } else if c == 'b' {
                    if has && self.in_angular_workspace {
                        self.mode = AppMode::BuildPackage;
                    }
                } else if c == 't' {
                    if has && self.in_angular_workspace {
                        self.mode = AppMode::TestPackage;
                    }
                } else if c == 'k' || c == 'j' {
                    self.move_cursor(&key);
                }
                TuiAction::Nothing
            },
            _ => TuiAction::Nothing,
        }
    }

    fn pick_key(&mut self, key: Key) -> (r: TuiAction)
        requires
            old(self).wf(),
            picks_package(old(self).mode),
        ensures
            final(self).config.wf(),
            final(self).package_status@.len() == final(self).config.entries().len(),
            key == Key::Esc ==> final(self).mode == AppMode::Normal && r == TuiAction::Nothing
                && final(self).config == old(self).config,
            (is_up(key) || is_down(key)) ==> final(self).selected_index == cursor_after(*old(self), key)
                && final(self).mode == old(self).mode && r == TuiAction::Nothing,
            key == Key::Enter ==> final(self).mode == AppMode::Normal,
            key == Key::Enter && old(self).mode != AppMode::RemovePackage ==> final(self).config
                == old(self).config,
            key == Key::Enter && (old(self).selected_index >= old(self).total_rows()) ==> r
                == TuiAction::Nothing && final(self).config == old(self).config,
            key == Key::Enter && old(self).selected_index < old(self).total_rows() ==> exists|i: int|
                #[trigger] row_owner(*old(self), old(self).selected_index as int, i) && {
                    let name = old(self).config.entries()[i].name;
                    let angular = old(self).package_status@[i].is_angular_lib;
                    match old(self).mode {
                        AppMode::RemovePackage => (r matches TuiAction::Remove(n) && n@ == name)
                            && final(self).config@ == old(self).config@.remove(name),
                        AppMode::LinkPackage => r matches TuiAction::Link(n) && n@ == name,
                        AppMode::UnlinkPackage => r matches TuiAction::Unlink(n) && n@ == name,
                        AppMode::BuildPackage => if angular {
                            r matches TuiAction::Build(n) && n@ == name
                        } else {
                            r == TuiAction::Nothing
                        },
                        _ => if angular {
                            r matches TuiAction::Test(n) && n@ == name
                        } else {
                            r == TuiAction::Nothing
                        },
                    }
                },
            !(key == Key::Esc || key == Key::Enter || is_up(key) || is_down(key)) ==> *final(self)
                == *old(self) && r == TuiAction::Nothing,
    {
        match key {
            Key::Esc => {
                self.mode = AppMode::Normal;
                TuiAction::Nothing
            },
            Key::Up | Key::Down => {
                self.move_cursor(&key);
                TuiAction::Nothing
            },
            Key::Char(c) => {
                if c == 'k' || c == 'j' {
                    self.move_cursor(&key);
                }
                TuiAction::Nothing
            },
            Key::Enter => {
                let mode = self.mode;
                let row = self.entry_at_row(self.selected_index);
                self.mode = AppMode::Normal;
                match row {
                    None => TuiAction::Nothing,
                    Some(i) => {
                        let name = self.config.links[i].name.clone();
                        let angular = self.package_status[i].is_angular_lib;
                        match mode {
                            AppMode::RemovePackage => {
                                let _ = self.config.remove_link(name.as_str());
                                self.package_status.remove(i);
                                TuiAction::Remove(name)
                            },
                            AppMode::LinkPackage => TuiAction::Link(name),
                            AppMode::UnlinkPackage => TuiAction::Unlink(name),
                            AppMode::BuildPackage => if angular {
                                TuiAction::Build(name)
                            } else {
                                TuiAction::Nothing
                            },
                            _ => if angular {
                                TuiAction::Test(name)
                            } else {
                                TuiAction::Nothing
                            },
                        }
                    },
                }
            },
            _ => TuiAction::Nothing,
        }
    }

    /// Typing into the add form: a name, Enter, a path, Enter.
    fn add_key(&mut self, key: Key) -> (r: TuiAction)
        requires
            old(self).wf(),
            old(self).mode == AppMode::AddPackage,
        ensures
            final(self).wf(),
            final(self).config == old(self).config,
            key == Key::Esc ==> final(self).mode == AppMode::Normal && r == TuiAction::Nothing,
            key matches Key::Char(c) ==> final(self).input_buffer@ == old(self).input_buffer@.push(c)
                && r == TuiAction::Nothing,
            r matches TuiAction::AddLink { name: n, path: p } ==> final(self).mode == AppMode::Normal
                && final(self).input_buffer@.len() == 0,
    {
        match key {
            Key::Esc => {
                self.mode = AppMode::Normal;
                TuiAction::Nothing
            },
            Key::Char(c) => {
                self.input_buffer.push(c);
                TuiAction::Nothing
            },
            Key::Backspace => {
                let n = self.input_buffer.len();
                if n > 0 {
                    let last = self.input_buffer[n - 1];
                    self.input_buffer.pop();
                    if last == '\n' && matches!(self.add_mode_field, AddModeField::Path) {
                        self.add_mode_field = AddModeField::Name;
                    }
                }
                TuiAction::Nothing
            },
            Key::Enter => {
                let n = self.input_buffer.len();
                if matches!(self.add_mode_field, AddModeField::Name) {
                    let name = trim_range(&self.input_buffer, 0, n);
                    if name.as_str().unicode_len() > 0 {
                        self.add_mode_field = AddModeField::Path;
                        self.input_buffer.push('\n');
                    }
                    TuiAction::Nothing
                } else {
                    let mut k: usize = 0;
                    while k < n && self.input_buffer[k] != '\n'
                        invariant
                            k <= n == self.input_buffer@.len(),
                        decreases n - k,
                    {
                        k = k + 1;
                    }
                    let mut m: usize = if k < n { k + 1 } else { n };
                    let mut one_break = k < n;
                    while m < n
                        invariant
                            k <= n,
                            one_break ==> k < n,
                            k < n ==> k + 1 <= m,
                            m <= n == self.input_buffer@.len(),
                        decreases n - m,
                    {
                        if self.input_buffer[m] == '\n' {
                            one_break = false;
                        }
                        m = m + 1;
                    }
                    if one_break {
                        let path = trim_range(&self.input_buffer, k + 1, n);
                        if path.as_str().unicode_len() > 0 {
                            let name = trim_range(&self.input_buffer, 0, k);
                            self.input_buffer = Vec::new();
                            self.mode = AppMode::Normal;
                            return TuiAction::AddLink { name, path };
                        }
                    }
                    TuiAction::Nothing
                }
            },
            _ => TuiAction::Nothing,
        }
    }

    /// Moves the cursor one row up, staying on the first row.
    pub fn select_previous(&mut self)
        requires
            old(self).wf(),
        ensures
            final(self).wf(),
            final(self).selected_index == if old(self).selected_index > 0 {
                (old(self).selected_index - 1) as usize
            } else {
                0
            },
            final(self).config == old(self).config,
            final(self).package_status == old(self).package_status,
            *final(self) == (TuiApp { selected_index: final(self).selected_index, ..*old(self) }),
    {
        if self.selected_index > 0 {
            self.selected_index = self.selected_index - 1;
        }
    }

    /// Moves the cursor one row down, staying on the last row.
    pub fn select_next(&mut self)
        requires
            old(self).wf(),
        ensures
            final(self).wf(),
            final(self).config == old(self).config,
            final(self).package_status == old(self).package_status,
            *final(self) == (TuiApp { selected_index: final(self).selected_index, ..*old(self) }),
            ({
                let total = if old(self).total_rows() <= usize::MAX {
                    old(self).total_rows()
                } else {
                    usize::MAX as int
                };
                final(self).selected_index == if old(self).selected_index + 1 < total {
                    old(self).selected_index + 1
                } else {
                    old(self).selected_index as int
                }
            }),
    {
        let total = self.get_total_items();
        if self.selected_index < total.saturating_sub(1) {
            self.selected_index = self.selected_index + 1;
        }
    }
}

} // verus!
