use spine::angular::{build_command, AngularBuildManager, AngularProject, AngularWorkspace, BuildAction, BuildResult, count_successful};
use spine::config::Config;
use spine::error::{find_similar_names, levenshtein_distance, SpineError};
use spine::generate::{declares_standalone, detect_style_extension, is_angular_version_14_plus, is_component_file, AngularCliIntegration};
use spine::package::{angular_core_peer_version, get_configured_port};
use spine::ng::NgProxy;
use spine::npm::NpmManager;
use spine::package::{detect_package_name, escape_pointer_token, get_package_name, get_package_version, parse_package_json, validate_package_path, version_for_registration};
use spine::platform::{join_path, Platform};
use spine::probe::{check_link_status, module_path_parts, LinkProbe, LinkStatus};
use spine::tui::{check_package_health, is_angular_library, AppMode, HealthStatus, Key, PackageFacts, PackageStatus, TuiAction, TuiApp};
use spine::workspace::{AutoLinkConfig, DiscoveredPackage, WorkspaceConfig, WorkspaceManager};

fn s(x: &str) -> String {
    x.to_string()
}

fn sv(xs: &[&str]) -> Vec<String> {
    xs.iter().map(|x| x.to_string()).collect()
}

#[test]
fn levenshtein_values() {
    assert_eq!(levenshtein_distance("kitten", "sitting"), 3);
    assert_eq!(levenshtein_distance("", "abc"), 3);
    assert_eq!(levenshtein_distance("abc", ""), 3);
    assert_eq!(levenshtein_distance("raect", "react"), 2);
    assert_eq!(levenshtein_distance("same", "same"), 0);
    assert_eq!(levenshtein_distance("flaw", "lawn"), 2);
}

#[test]
fn suggestion_for_typo_is_react_first() {
    let reg = sv(&["react", "redux", "lodash"]);
    let r = find_similar_names("raect", &reg);
    assert_eq!(r[0], "react");
    assert!(!r.contains(&s("lodash")));
    match SpineError::package_not_found_with_suggestions("raect", &reg) {
        SpineError::PackageNotFoundWithSuggestion { package, suggestion } => {
            assert_eq!(package, "raect");
            assert_eq!(suggestion, "Did you mean 'react'? Available: react, redux, lodash");
        }
        other => panic!("unexpected {:?}", other),
    }
}

#[test]
fn suggestions_keep_three_nearest_in_order() {
    let reg = sv(&["abcd", "abce", "abc", "zzzzzzzz", "abcf", "abcg"]);
    assert_eq!(find_similar_names("abc", &reg), sv(&["abc", "abcd", "abce"]));
    assert!(find_similar_names("qqqqqqqq", &sv(&["a"])).is_empty());
}

#[test]
fn suggestion_texts_without_matches() {
    match SpineError::package_not_found_with_suggestions("x", &[]) {
        SpineError::PackageNotFoundWithSuggestion { suggestion, .. } => assert_eq!(
            suggestion,
            "No packages are currently configured. Use 'spine add <package> <path>' to add one."
        ),
        other => panic!("unexpected {:?}", other),
    }
    match SpineError::package_not_found_with_suggestions("zzzzzzzz", &sv(&["a", "b"])) {
        SpineError::PackageNotFoundWithSuggestion { suggestion, .. } => {
            assert_eq!(suggestion, "Available packages: a, b")
        }
        other => panic!("unexpected {:?}", other),
    }
}

#[test]
fn command_failure_hints() {
    match SpineError::command_failed_with_suggestion("ng build lib", "boom") {
        SpineError::CommandFailed { command, error, suggestion } => {
            assert_eq!(command, "ng build lib");
            assert_eq!(error, "boom");
            assert_eq!(suggestion, "Make sure Angular CLI is installed: npm install -g @angular/cli");
        }
        other => panic!("unexpected {:?}", other),
    }
    match SpineError::command_failed_with_suggestion("npm link", "x") {
        SpineError::CommandFailed { suggestion, .. } => {
            assert_eq!(suggestion, "Make sure you're in a directory with package.json")
        }
        other => panic!("unexpected {:?}", other),
    }
    match SpineError::command_failed_with_suggestion("git", "x") {
        SpineError::CommandFailed { suggestion, .. } => {
            assert_eq!(suggestion, "Check that all required tools are installed and accessible")
        }
        other => panic!("unexpected {:?}", other),
    }
    match SpineError::angular_workspace_not_found("/w") {
        SpineError::AngularWorkspace { message, .. } => {
            assert_eq!(message, "No angular.json found in /w")
        }
        other => panic!("unexpected {:?}", other),
    }
}

fn probe(cache: bool, link: bool, readable: bool, exists: bool) -> LinkProbe {
    LinkProbe { cache_exists: cache, is_symlink: link, target_readable: readable, target_exists: exists }
}

#[test]
fn prober_outcomes() {
    assert!(Config::is_package_linked_in_project_static(&probe(true, true, true, true)));
    assert!(!Config::is_package_linked_in_project_static(&probe(true, true, true, false)));
    assert!(!Config::is_package_linked_in_project_static(&probe(true, false, false, true)));
    assert!(!Config::is_package_linked_in_project_static(&probe(false, false, false, false)));
    assert_eq!(check_link_status(&probe(true, true, true, true)), LinkStatus::Linked);
    assert_eq!(check_link_status(&probe(true, true, true, false)), LinkStatus::Unknown);
    assert_eq!(check_link_status(&probe(true, false, false, true)), LinkStatus::Unlinked);
    assert_eq!(check_link_status(&probe(false, true, true, true)), LinkStatus::Unlinked);
}

#[test]
fn module_cache_paths() {
    assert_eq!(module_path_parts("react"), sv(&["node_modules", "react"]));
    assert_eq!(module_path_parts("@scope/pkg"), sv(&["node_modules", "@scope", "pkg"]));
    assert_eq!(module_path_parts("@scope"), sv(&["node_modules", "@scope"]));
    assert_eq!(module_path_parts("a/b"), sv(&["node_modules", "a/b"]));
}

#[test]
fn linked_names_sorted_once() {
    let found = sv(&["redux", "@s/a", "react", "redux", "@s/a"]);
    assert_eq!(NpmManager::get_linked_packages_static(&found), sv(&["@s/a", "react", "redux"]));
    assert_eq!(NpmManager::scoped_name("@s", "a"), "@s/a");
    assert_eq!(NpmManager::link_args("/x"), sv(&["link", "/x"]));
    assert_eq!(NpmManager::unlink_args("react"), sv(&["unlink", "react"]));
    assert_eq!(NpmManager::npm_link_static(false, "ERR"), Err(SpineError::LinkCommandFailed(s("ERR"))));
    assert!(NpmManager::npm_link_static(true, "").is_ok());
}

#[test]
fn managed_split() {
    let mut c = Config::new();
    c.add_link(s("a"), s("/a"), true, None).unwrap();
    let (m, o) = NpmManager::split_managed(&c, &sv(&["a", "b"]));
    assert_eq!(m, sv(&["a"]));
    assert_eq!(o, sv(&["b"]));
}

#[test]
fn glob_patterns() {
    assert!(WorkspaceManager::matches_pattern("@acme/ui", "@acme/*"));
    assert!(WorkspaceManager::matches_pattern("ui-lib", "*-lib"));
    assert!(WorkspaceManager::matches_pattern("exact", "exact"));
    assert!(!WorkspaceManager::matches_pattern("other", "exact"));
    assert!(WorkspaceManager::matches_pattern("anything", "*"));
    assert!(!WorkspaceManager::matches_pattern("ui", "@acme/*"));
    assert_eq!(WorkspaceManager::workspace_config_path(), ".spine.toml");
    assert!(WorkspaceManager::is_dist_dir("dist"));
    assert!(WorkspaceManager::is_dist_dir("my-dist-out"));
    assert!(!WorkspaceManager::is_dist_dir("src"));
}

fn pkg(n: &str) -> DiscoveredPackage {
    DiscoveredPackage { name: s(n), path: format!("/w/{}", n), version: s("1.0.0"), is_dist: false }
}

#[test]
fn workspace_filter() {
    let pkgs = vec![pkg("@acme/ui"), pkg("@acme/test-utils"), pkg("other")];
    let off = WorkspaceConfig { auto_link: AutoLinkConfig { patterns: vec![], exclude: vec![], enabled: false } };
    assert_eq!(WorkspaceManager::filter_packages_by_workspace_config(&pkgs, &off).len(), 3);
    let on = WorkspaceConfig {
        auto_link: AutoLinkConfig { patterns: sv(&["@acme/*"]), exclude: sv(&["*-utils"]), enabled: true },
    };
    let r = WorkspaceManager::filter_packages_by_workspace_config(&pkgs, &on);
    assert_eq!(r.iter().map(|p| p.name.clone()).collect::<Vec<_>>(), sv(&["@acme/ui"]));
    let deps = sv(&["other"]);
    let kept = WorkspaceManager::filter_by_dependencies(pkgs, &deps);
    assert_eq!(kept.len(), 1);
    assert_eq!(kept[0].name, "other");
}

#[test]
fn ng_arguments() {
    let mut c = Config::new();
    c.add_link(s("ui"), s("/ui"), true, None).unwrap();
    let proxy = NgProxy::new(c, s("/w"));
    assert_eq!(
        proxy.proxy_args(sv(&["build", "ui"])).unwrap(),
        sv(&["build", "ui", "--configuration", "production", "--source-map"])
    );
    assert_eq!(
        proxy.proxy_args(sv(&["build", "ui", "--configuration", "dev"])).unwrap(),
        sv(&["build", "ui", "--configuration", "dev", "--source-map"])
    );
    assert_eq!(proxy.proxy_args(sv(&["build", "app"])).unwrap(), sv(&["build", "app"]));
    assert_eq!(proxy.proxy_args(sv(&["test", "ui"])).unwrap(), sv(&["test", "ui", "--code-coverage"]));
    assert_eq!(
        proxy.proxy_args(sv(&["serve"])).unwrap(),
        sv(&["serve", "--host", "0.0.0.0", "--live-reload", "--hmr"])
    );
    assert_eq!(proxy.proxy_args(sv(&["lint"])).unwrap(), sv(&["lint"]));
    assert_eq!(
        proxy.proxy_args(vec![]),
        Err(SpineError::Config(s("No Angular CLI command provided")))
    );
    let empty = NgProxy::new(Config::new(), s("/w"));
    assert_eq!(empty.proxy_args(sv(&["serve", "--host", "h"])).unwrap(), sv(&["serve", "--host", "h", "--live-reload"]));
}

#[test]
fn platform_rules() {
    assert_eq!(Platform::get_command_name("npm", true), "npm.cmd");
    assert_eq!(Platform::get_command_name("npm", false), "npm");
    assert_eq!(Platform::get_command_name("git", true), "git");
    assert_eq!(Platform::detect_current_shell(false, Some("zsh"), false, None), Some(s("zsh")));
    assert_eq!(Platform::detect_current_shell(false, Some("tcsh"), false, None), None);
    assert_eq!(Platform::detect_current_shell(true, None, false, Some("c:\\windows\\cmd.exe")), Some(s("cmd")));
    assert_eq!(Platform::detect_current_shell(true, None, true, Some("cmd.exe")), Some(s("powershell")));
    assert_eq!(
        Platform::get_completion_script_path("bash", "/home/u", None, false),
        Some(s("/home/u/.spine_completion.bash"))
    );
    assert_eq!(
        Platform::get_completion_script_path("fish", "/home/u", Some("/home/u/.config"), false),
        Some(s("/home/u/.config/fish/completions/spine.fish"))
    );
    assert_eq!(Platform::get_completion_script_path("fish", "/home/u", None, true), None);
    assert_eq!(
        Platform::get_completion_script_path("elvish", "/home/u/", None, false),
        Some(s("/home/u/.spine_completion.elvish"))
    );
    assert_eq!(join_path("/a", "b"), "/a/b");
}

#[test]
fn manifest_reading() {
    assert_eq!(get_package_version("{\"version\":\"2.0.0\"}").unwrap(), "2.0.0");
    assert_eq!(get_package_name("{\"name\":\"@s/p\",\"version\":\"1\"}").unwrap(), "@s/p");
    assert!(matches!(get_package_version("not json"), Err(SpineError::JsonParsing(_))));
    assert_eq!(
        get_package_version("{\"name\":\"x\"}"),
        Err(SpineError::PackageJson(s("No version field found")))
    );
    let info = parse_package_json(
        "{\"name\":\"app\",\"version\":\"1.0.0\",\"dependencies\":{\"react\":\"^18\",\"lodash\":\"4\"},\"devDependencies\":{\"jest\":\"1\"}}",
    )
    .unwrap();
    assert_eq!(info.name, "app");
    assert_eq!(info.dependencies, sv(&["lodash", "react"]));
    assert_eq!(info.dev_dependencies, sv(&["jest"]));
    assert_eq!(validate_package_path(false, None), Ok(false));
    assert_eq!(validate_package_path(true, None), Ok(false));
    assert_eq!(validate_package_path(true, Some("{\"name\":\"a\",\"version\":\"1\"}")), Ok(true));
    assert!(validate_package_path(true, Some("{")).is_err());
}

fn project(name: &str, root: &str, kind: &str) -> AngularProject {
    AngularProject { name: s(name), root: s(root), source_root: None, project_type: s(kind), output_path: None, style_ext: None }
}

fn manager() -> AngularBuildManager {
    let mut c = Config::new();
    c.add_link(s("ui"), s("/w/dist/ui"), true, None).unwrap();
    c.add_link(s("core"), s("/w/dist/core"), true, None).unwrap();
    let ws = AngularWorkspace {
        projects: vec![
            project("app", "projects/app", "application"),
            project("ui", "projects/ui", "library"),
            project("core", "projects/core", "library"),
            project("extra", "projects/extra", "library"),
        ],
        default_project: None,
    };
    AngularBuildManager { workspace: Some(ws), workspace_root: s("/w"), config: c }
}

#[test]
fn angular_libraries() {
    let m = manager();
    assert_eq!(m.get_library_projects(), sv(&["ui", "core", "extra"]));
    assert_eq!(m.get_linked_libraries(), sv(&["ui", "core"]));
    assert!(m.library_exists("extra"));
    assert!(!m.library_exists("app"));
    assert_eq!(m.get_affected_from_files(&sv(&["projects/ui/src/a.ts", "README.md"])), sv(&["ui"]));
    assert_eq!(m.get_affected_from_files(&sv(&["package.json"])), sv(&["ui", "core"]));
    assert!(m.get_affected_from_files(&sv(&["projects/extra/x.ts"])).is_empty());
    assert_eq!(m.library_dependencies(&sv(&["core", "rxjs"])), sv(&["core"]));
}

#[test]
fn build_requests() {
    assert_eq!(build_command(Some(s("ui")), false, true, false), Ok(BuildAction::One { library: s("ui"), watch: true }));
    assert_eq!(build_command(None, true, false, false), Ok(BuildAction::All));
    assert!(matches!(build_command(None, true, true, false), Err(SpineError::Config(_))));
    assert!(matches!(build_command(None, false, true, true), Err(SpineError::Config(_))));
    assert_eq!(build_command(None, false, false, true), Ok(BuildAction::Affected));
    assert_eq!(build_command(None, false, false, false), Ok(BuildAction::ShowStatus));
    assert_eq!(
        build_command(Some(s("ui")), true, false, false),
        Err(SpineError::Config(s("Invalid combination of build options")))
    );
    let ok = BuildResult::from_output(s("ui"), true, 5, s("out"), s("err"));
    let bad = BuildResult::from_output(s("core"), false, 5, s("out"), s("err"));
    assert_eq!(ok.error, None);
    assert_eq!(bad.error, Some(s("err")));
    assert_eq!(count_successful(&vec![ok, bad]), 1);
}

fn facts(p: bool, m: bool, v: bool, l: bool, r: bool) -> PackageFacts {
    PackageFacts { path_exists: p, manifest_exists: m, manifest_valid: v, path_is_symlink: l, link_readable: r }
}

#[test]
fn package_health_outcomes() {
    assert_eq!(check_package_health(&facts(false, false, false, false, false)), HealthStatus::Broken(s("Path does not exist")));
    assert_eq!(check_package_health(&facts(true, false, false, false, false)), HealthStatus::Broken(s("No package.json found")));
    assert_eq!(check_package_health(&facts(true, true, false, false, false)), HealthStatus::Broken(s("Invalid package.json")));
    assert_eq!(check_package_health(&facts(true, true, true, true, false)), HealthStatus::Warning(s("Broken symlink")));
    assert_eq!(check_package_health(&facts(true, true, true, false, false)), HealthStatus::Healthy);
    assert!(is_angular_library(false, false, true, "/w/dist/ui"));
    assert!(!is_angular_library(false, false, false, "/w/dist/ui"));
    assert!(is_angular_library(true, false, false, "/x"));
}

fn status(h: HealthStatus) -> PackageStatus {
    PackageStatus { health: h, link_status: LinkStatus::Unlinked, is_angular_lib: false }
}

#[test]
fn view_rows_and_cursor() {
    let mut c = Config::new();
    c.add_link(s("a"), s("/a"), true, None).unwrap();
    c.add_link(s("b"), s("/b"), true, None).unwrap();
    c.add_linked_project("a", s("/site")).unwrap();
    c.add_linked_project("a", s("/shop")).unwrap();
    let statuses = vec![status(HealthStatus::Healthy), status(HealthStatus::Broken(s("x")))];
    let mut app = TuiApp::new(c.clone(), statuses, s("/cur"), false).unwrap();
    assert_eq!(app.get_total_items(), 5);
    assert_eq!(app.get_package_at_index(0), Some(s("a")));
    assert_eq!(app.get_package_at_index(2), Some(s("a")));
    assert_eq!(app.get_package_at_index(3), Some(s("b")));
    assert_eq!(app.get_package_at_index(4), Some(s("b")));
    assert_eq!(app.get_package_at_index(5), None);
    app.select_previous();
    assert_eq!(app.selected_index, 0);
    for _ in 0..10 {
        app.select_next();
    }
    assert_eq!(app.selected_index, 4);
    assert!(TuiApp::new(c, vec![], s("/cur"), false).is_none());
}

#[test]
fn view_keys() {
    let mut c = Config::new();
    c.add_link(s("a"), s("/a"), true, None).unwrap();
    c.add_link(s("b"), s("/b"), true, None).unwrap();
    let statuses = vec![status(HealthStatus::Healthy), status(HealthStatus::Healthy)];
    let mut app = TuiApp::new(c, statuses, s("/cur"), false).unwrap();
    assert_eq!(app.handle_key(Key::Char('b')), TuiAction::Nothing);
    assert_eq!(app.mode, AppMode::Normal);
    app.handle_key(Key::Char('l'));
    assert_eq!(app.mode, AppMode::LinkPackage);
    app.handle_key(Key::Down);
    assert_eq!(app.handle_key(Key::Enter), TuiAction::Link(s("b")));
    assert_eq!(app.mode, AppMode::Normal);
    app.handle_key(Key::Char('a'));
    assert_eq!(app.mode, AppMode::AddPackage);
    for ch in " lib ".chars() {
        app.handle_key(Key::Char(ch));
    }
    app.handle_key(Key::Enter);
    for ch in "/src/lib ".chars() {
        app.handle_key(Key::Char(ch));
    }
    assert_eq!(app.handle_key(Key::Enter), TuiAction::AddLink { name: s("lib"), path: s("/src/lib") });
    assert_eq!(app.mode, AppMode::Normal);
    app.handle_key(Key::Char('r'));
    assert_eq!(app.handle_key(Key::Enter), TuiAction::Remove(s("b")));
    assert_eq!(app.config.get_links().len(), 1);
    assert_eq!(app.package_status.len(), 1);
    app.handle_key(Key::Char('h'));
    assert_eq!(app.mode, AppMode::Help);
    app.handle_key(Key::Esc);
    assert_eq!(app.handle_key(Key::Char('q')), TuiAction::Quit);
}

#[test]
fn angular_version_requirements() {
    assert!(is_angular_version_14_plus("^17.0.0"));
    assert!(is_angular_version_14_plus(">=14.0.0"));
    assert!(!is_angular_version_14_plus("~13.2.1"));
    assert!(!is_angular_version_14_plus("latest"));
    assert!(!is_angular_version_14_plus("99999999999.0"));
    assert!(is_angular_version_14_plus("14"));
}

#[test]
fn style_detection() {
    assert_eq!(detect_style_extension(&sv(&["a.component.ts", "a.component.scss"]), None), "scss");
    assert_eq!(detect_style_extension(&sv(&["a.component.less", "b.component.sass"]), None), "less");
    assert_eq!(detect_style_extension(&sv(&["a.component.ts"]), Some(s("styl"))), "styl");
    assert_eq!(detect_style_extension(&vec![], None), "css");
    assert!(is_component_file("x.component.ts"));
    assert!(!is_component_file("x.service.ts"));
    assert!(declares_standalone("@Component({ standalone: true })"));
    assert_eq!(
        angular_core_peer_version("{\"peerDependencies\":{\"@angular/core\":\"^17.1.0\"}}"),
        Some(s("^17.1.0"))
    );
    assert_eq!(angular_core_peer_version("{}"), None);
}

#[test]
fn generation_arguments() {
    let m = manager();
    let gen = AngularCliIntegration::new(m.config.clone(), m.workspace.clone(), s("/w")).unwrap();
    assert_eq!(
        gen.generate_args("component", "button", Some("ui"), true, "scss", &sv(&["--skip-tests"])).unwrap(),
        sv(&["generate", "component", "button", "--project", "ui", "--standalone", "--style", "scss", "--change-detection", "OnPush", "--skip-tests"])
    );
    assert_eq!(
        gen.generate_args("service", "api", Some("core"), true, "css", &vec![]).unwrap(),
        sv(&["generate", "service", "api", "--project", "core"])
    );
    assert_eq!(gen.generate_args("pipe", "p", None, false, "", &vec![]).unwrap(), sv(&["generate", "pipe", "p"]));
    match gen.generate_args("component", "x", Some("extra"), false, "css", &vec![]) {
        Err(SpineError::PackageNotFoundWithSuggestion { package, .. }) => assert_eq!(package, "extra"),
        other => panic!("unexpected {:?}", other),
    }
    let mut c = m.config.clone();
    c.add_link(s("ghost"), s("/g"), true, None).unwrap();
    let gen2 = AngularCliIntegration::new(c, m.workspace.clone(), s("/w")).unwrap();
    match gen2.validate_library_exists("ghost") {
        Err(SpineError::AngularWorkspace { message, suggestion }) => {
            assert_eq!(message, "Library 'ghost' not found in Angular workspace");
            assert_eq!(suggestion, "Available libraries in workspace: ui, core, extra");
        }
        other => panic!("unexpected {:?}", other),
    }
    assert_eq!(gen.get_library_source_path("ui").unwrap(), "/w/projects/ui/src");
    assert!(matches!(gen.get_library_source_path("nope"), Err(SpineError::PackageNotFound(_))));
    assert!(matches!(AngularCliIntegration::new(Config::new(), None, s("/w")), Err(SpineError::AngularWorkspace { .. })));
}

#[test]
fn package_name_detection() {
    assert_eq!(detect_package_name(Some(s("given")), ".", None), Ok(s("given")));
    assert_eq!(detect_package_name(None, ".", Some("{\"name\":\"lib\"}")), Ok(s("lib")));
    assert_eq!(
        detect_package_name(None, "/p", None),
        Err(SpineError::Config(s("No package.json found in /p. Please provide package name explicitly or ensure you're in a package directory.")))
    );
    assert_eq!(
        detect_package_name(None, "/p", Some("{}")),
        Err(SpineError::Config(s("Could not detect package name from package.json. Please provide package name explicitly.")))
    );
}

#[test]
fn packages_sorted_by_name() {
    let sorted = WorkspaceManager::sort_by_name(vec![pkg("zeta"), pkg("alpha"), pkg("@s/x"), pkg("alpha")]);
    let names: Vec<String> = sorted.iter().map(|p| p.name.clone()).collect();
    assert_eq!(names, sv(&["@s/x", "alpha", "alpha", "zeta"]));
    assert!(WorkspaceManager::sort_by_name(vec![]).is_empty());
}

#[test]
fn serve_port_from_workspace_file() {
    let doc = "{\"projects\":{\"app\":{\"architect\":{\"serve\":{\"options\":{\"port\":4300}}}}}}";
    assert_eq!(get_configured_port(doc, "app"), Some(4300));
    let dev = "{\"projects\":{\"app\":{\"architect\":{\"serve\":{\"configurations\":{\"development\":{\"port\":4400}}}}}}}";
    assert_eq!(get_configured_port(dev, "app"), Some(4400));
    let big = "{\"projects\":{\"app\":{\"architect\":{\"serve\":{\"options\":{\"port\":70000}}}}}}";
    assert_eq!(get_configured_port(big, "app"), None);
    assert_eq!(get_configured_port(doc, "other"), None);
    assert_eq!(get_configured_port("nope", "app"), None);
}

#[test]
fn registration_version_comes_from_manifest() {
    assert_eq!(version_for_registration(None), None);
    assert_eq!(version_for_registration(Some("{\"version\":\"2.0.0\"}")), Some(s("2.0.0")));
    assert_eq!(version_for_registration(Some("{\"version\":2}")), None);
    assert_eq!(version_for_registration(Some("not json")), None);
    assert_eq!(validate_package_path(true, Some("{\"name\":\"a\"}")), Err(SpineError::PackageJson(s("No version field found"))));
    assert_eq!(validate_package_path(true, Some("{\"version\":\"1\"}")), Err(SpineError::PackageJson(s("No name field found"))));
    assert_eq!(get_package_name("[1,2]"), Err(SpineError::PackageJson(s("No name field found"))));
}

#[test]
fn pointer_tokens_and_escaped_projects() {
    assert_eq!(escape_pointer_token("@scope/app~x"), "@scope~1app~0x");
    let doc = "{\"projects\":{\"@s/app\":{\"architect\":{\"serve\":{\"options\":{\"port\":4500}}}}}}";
    assert_eq!(get_configured_port(doc, "@s/app"), Some(4500));
}
