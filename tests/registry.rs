use spine::config::{path_key, restore_outcome, Config, LinkPair, PackageLink, RestoreOutcome};
use spine::error::SpineError;
use spine::npm::NpmManager;
use spine::scanner::Scanner;

fn s(x: &str) -> String {
    x.to_string()
}

fn pair(p: &str, q: &str) -> LinkPair {
    LinkPair { package: s(p), project: s(q) }
}

fn names(c: &Config) -> Vec<String> {
    c.get_links().iter().map(|l| l.name.clone()).collect()
}

#[test]
fn add_rejects_missing_path() {
    let mut c = Config::new();
    let r = c.add_link(s("react"), s("/nowhere"), false, None);
    assert_eq!(r, Err(SpineError::InvalidPath(s("Path does not exist: /nowhere"))));
    assert!(c.get_links().is_empty());
}

#[test]
fn re_adding_replaces_entry_and_clears_projects() {
    let mut c = Config::new();
    c.add_link(s("react"), s("/src/react"), true, Some(s("1.0.0"))).unwrap();
    c.add_linked_project("react", s("/app")).unwrap();
    assert_eq!(c.lookup("react").unwrap().linked_projects, vec![s("/app")]);
    c.add_link(s("react"), s("/src/react2"), true, None).unwrap();
    let l = c.lookup("react").unwrap();
    assert_eq!(l.path, "/src/react2");
    assert_eq!(l.version, None);
    assert!(l.linked_projects.is_empty());
    assert_eq!(names(&c), vec![s("react")]);
}

#[test]
fn names_stay_unique_and_sorted() {
    let mut c = Config::new();
    for n in ["redux", "@scope/pkg", "lodash", "redux", "axios", "lodash"] {
        c.add_link(s(n), format!("/src/{}", n), true, None).unwrap();
    }
    assert_eq!(names(&c), vec![s("@scope/pkg"), s("axios"), s("lodash"), s("redux")]);
}

#[test]
fn remove_unknown_is_not_found() {
    let mut c = Config::new();
    c.add_link(s("a"), s("/a"), true, None).unwrap();
    assert_eq!(c.remove_link("b"), Err(SpineError::PackageNotFound(s("b"))));
    assert!(c.remove_link("a").is_ok());
    assert!(c.get_links().is_empty());
}

#[test]
fn linked_projects_behave_as_a_set() {
    let mut c = Config::new();
    c.add_link(s("a"), s("/a"), true, None).unwrap();
    c.add_linked_project("a", s("/site")).unwrap();
    c.add_linked_project("a", s("/shop")).unwrap();
    c.add_linked_project("a", s("/site")).unwrap();
    assert_eq!(c.lookup("a").unwrap().linked_projects, vec![s("/site"), s("/shop")]);
    c.remove_linked_project("a", "/site").unwrap();
    assert_eq!(c.lookup("a").unwrap().linked_projects, vec![s("/shop")]);
    c.remove_linked_project("a", "/missing").unwrap();
    assert_eq!(c.lookup("a").unwrap().linked_projects, vec![s("/shop")]);
    assert_eq!(
        c.add_linked_project("zz", s("/p")),
        Err(SpineError::PackageNotFound(s("zz")))
    );
    assert_eq!(
        c.remove_linked_project("zz", "/p"),
        Err(SpineError::PackageNotFound(s("zz")))
    );
}

#[test]
fn path_key_prefers_canonical() {
    assert_eq!(path_key(Some(s("/real/app")), s("./app")), "/real/app");
    assert_eq!(path_key(None, s("./app")), "./app");
}

#[test]
fn save_then_load_keeps_registry() {
    let mut c = Config::new();
    c.add_link(s("@scope/pkg"), s("/src/scoped"), true, Some(s("0.1.0"))).unwrap();
    c.add_link(s("react"), s("/src/react"), true, None).unwrap();
    c.add_linked_project("react", s("/app1")).unwrap();
    c.add_linked_project("react", s("/app2")).unwrap();
    let saved: Vec<PackageLink> = c.get_links().clone();
    let loaded = Config::from_links(saved.clone(), c.completion.clone()).unwrap();
    assert_eq!(loaded.get_links().len(), 2);
    for (a, b) in loaded.get_links().iter().zip(saved.iter()) {
        assert_eq!(a.name, b.name);
        assert_eq!(a.path, b.path);
        assert_eq!(a.version, b.version);
        assert_eq!(a.linked_projects, b.linked_projects);
    }
}

#[test]
fn load_refuses_duplicates() {
    let link = |n: &str, ps: Vec<String>| PackageLink {
        name: s(n),
        path: s("/x"),
        version: None,
        linked_projects: ps,
    };
    let c = Config::new();
    let dup_names = vec![link("a", vec![]), link("b", vec![]), link("a", vec![])];
    assert!(matches!(
        Config::from_links(dup_names, c.completion.clone()),
        Err(SpineError::ConfigCorrupt(_))
    ));
    let dup_projects = vec![link("a", vec![s("/p"), s("/p")])];
    assert!(matches!(
        Config::from_links(dup_projects, c.completion.clone()),
        Err(SpineError::ConfigCorrupt(_))
    ));
    let unsorted = vec![link("b", vec![]), link("a", vec![s("/p")])];
    let ok = Config::from_links(unsorted, c.completion.clone()).unwrap();
    assert_eq!(names(&ok), vec![s("a"), s("b")]);
}

fn sample() -> Config {
    let mut c = Config::new();
    c.add_link(s("a"), s("/a"), true, None).unwrap();
    c.add_link(s("b"), s("/b"), true, None).unwrap();
    c.add_linked_project("a", s("/site")).unwrap();
    c.add_linked_project("a", s("/shop")).unwrap();
    c.add_linked_project("b", s("/site")).unwrap();
    c
}

#[test]
fn verify_drops_dead_links() {
    let mut c = sample();
    let live = vec![pair("a", "/shop")];
    let removed = c.verify_and_clean_links(&live);
    assert_eq!(removed, vec![pair("a", "/site"), pair("b", "/site")]);
    assert_eq!(c.lookup("a").unwrap().linked_projects, vec![s("/shop")]);
    assert!(c.lookup("b").unwrap().linked_projects.is_empty());
}

#[test]
fn sync_reports_three_ways() {
    let mut c = sample();
    let live = vec![pair("a", "/shop"), pair("b", "/cur"), pair("b", "/site")];
    let found = vec![s("a"), s("stranger"), s("b")];
    let r = c.sync_with_filesystem("/cur", &live, &found);
    assert_eq!(r.removed_invalid_links, vec![pair("a", "/site")]);
    assert_eq!(r.added_missing_links, vec![pair("b", "/cur")]);
    assert_eq!(r.untracked_links, vec![s("stranger")]);
    assert_eq!(c.lookup("b").unwrap().linked_projects, vec![s("/site"), s("/cur")]);
}

#[test]
fn second_reconcile_is_empty() {
    let mut c = sample();
    let live = vec![pair("a", "/cur"), pair("b", "/site")];
    let first = c.sync_with_filesystem("/cur", &live, &vec![]);
    assert!(!first.removed_invalid_links.is_empty());
    assert!(!first.added_missing_links.is_empty());
    let after_first: Vec<PackageLink> = c.get_links().clone();
    let second = c.sync_with_filesystem("/cur", &live, &vec![]);
    assert!(second.removed_invalid_links.is_empty());
    assert!(second.added_missing_links.is_empty());
    let after_second = c.get_links();
    for (x, y) in after_first.iter().zip(after_second.iter()) {
        assert_eq!(x.linked_projects, y.linked_projects);
    }
}

#[test]
fn restore_plan_sorts_entries() {
    let mut c = sample();
    c.add_link(s("c"), s("/c"), true, None).unwrap();
    c.add_linked_project("c", s("/site")).unwrap();
    let live = vec![pair("b", "/site")];
    let plan = c.plan_restore("/site", &live);
    assert_eq!(plan.already_linked, vec![s("b")]);
    assert_eq!(plan.to_restore, vec![s("a"), s("c")]);
    let plan2 = c.plan_restore("/shop", &live);
    assert_eq!(plan2.to_restore, vec![s("a")]);
    assert_eq!(plan2.not_configured, vec![s("b"), s("c")]);
}

#[test]
fn linker_success_without_live_link_is_verification_failure() {
    assert_eq!(restore_outcome(&Ok(()), false), RestoreOutcome::VerificationFailed);
    assert_eq!(restore_outcome(&Ok(()), true), RestoreOutcome::Restored);
    assert_eq!(
        restore_outcome(&Err(s("npm ERR! 404")), false),
        RestoreOutcome::LinkCommandFailed(s("npm ERR! 404"))
    );
    let mut c = sample();
    let r = c.record_link("b", s("/cur"), Ok(()), false);
    assert_eq!(r, Err(SpineError::VerificationFailed(s("b"))));
    assert_eq!(c.lookup("b").unwrap().linked_projects, vec![s("/site")]);
    let r = c.record_link("b", s("/cur"), Err(s("boom")), true);
    assert_eq!(r, Err(SpineError::LinkCommandFailed(s("boom"))));
    assert!(c.record_link("b", s("/cur"), Ok(()), true).is_ok());
    assert_eq!(c.lookup("b").unwrap().linked_projects, vec![s("/site"), s("/cur")]);
}

#[test]
fn unlink_result_updates_projects() {
    let mut c = sample();
    assert_eq!(
        c.record_unlink("a", "/site", Err(s("nope"))),
        Err(SpineError::LinkCommandFailed(s("nope")))
    );
    assert!(c.record_unlink("a", "/site", Ok(())).is_ok());
    assert_eq!(c.lookup("a").unwrap().linked_projects, vec![s("/shop")]);
}

#[test]
fn link_target_suggests_on_typo() {
    let mut c = Config::new();
    for n in ["react", "redux", "lodash"] {
        c.add_link(s(n), format!("/src/{}", n), true, None).unwrap();
    }
    assert_eq!(c.link_target("react").unwrap(), "/src/react");
    match c.link_target("raect") {
        Err(SpineError::PackageNotFoundWithSuggestion { package, suggestion }) => {
            assert_eq!(package, "raect");
            assert_eq!(suggestion, "Did you mean 'react'? Available: lodash, react, redux");
        }
        other => panic!("unexpected {:?}", other),
    }
}

#[test]
fn end_to_end_version_mismatch_is_flagged() {
    let mut c = Config::new();
    c.add_link(s("foo"), s("/tmp/foo"), true, None).unwrap();
    assert_eq!(c.lookup("foo").unwrap().version, None);
    let link = c.lookup("foo").unwrap();
    let h = NpmManager::check_health(link, "/cur", true, true, &Some(s("2.0.0")));
    assert_eq!(h.warnings, vec![s("Version mismatch: stored 'unset', actual '2.0.0'")]);
    assert!(h.errors.is_empty());
    assert_eq!(c.lookup("foo").unwrap().version, None);
}

#[test]
fn health_errors_and_matching_versions() {
    let mut c = Config::new();
    c.add_link(s("foo"), s("/tmp/foo"), true, Some(s("1.0.0"))).unwrap();
    c.add_linked_project("foo", s("/cur")).unwrap();
    let link = c.lookup("foo").unwrap();
    let h = NpmManager::check_health(link, "/cur", true, true, &Some(s("1.0.0")));
    assert!(h.warnings.is_empty());
    assert!(h.linked_here);
    let h = NpmManager::check_health(link, "/other", false, false, &None);
    assert_eq!(h.errors, vec![s("Path does not exist")]);
    assert!(!h.linked_here);
    let h = NpmManager::check_health(link, "/cur", true, false, &Some(s("1.1.0")));
    assert_eq!(h.errors, vec![s("Missing package.json")]);
    assert_eq!(h.warnings, vec![s("Version mismatch: stored '1.0.0', actual '1.1.0'")]);
}

#[test]
fn batch_summary_counts_every_item() {
    let names = vec![s("a"), s("b"), s("c")];
    let sum = Scanner::summarize(&names, &vec![true, false, true]);
    assert_eq!(sum.succeeded, 2);
    assert_eq!(sum.failed, vec![s("b")]);
    let outcomes = vec![
        RestoreOutcome::Restored,
        RestoreOutcome::VerificationFailed,
        RestoreOutcome::LinkCommandFailed(s("x")),
    ];
    let sum = Scanner::summarize_restores(&names, &outcomes);
    assert_eq!(sum.succeeded, 1);
    assert_eq!(sum.failed, vec![s("b"), s("c")]);
}

#[test]
fn completion_settings() {
    let mut c = Config::new();
    c.enable_auto_completion(Some(s("zsh")), None, Some(s("/h/.spine_completion.zsh")));
    assert!(c.completion.auto_regenerate);
    assert_eq!(c.completion.script_path, Some(s("/h/.spine_completion.zsh")));
    c.enable_auto_completion(Some(s("zsh")), Some(s("/x")), Some(s("/h/y")));
    assert_eq!(c.completion.script_path, Some(s("/x")));
    c.enable_auto_completion(None, None, Some(s("/h/y")));
    assert_eq!(c.completion.script_path, None);
    c.disable_auto_completion();
    assert!(!c.completion.auto_regenerate);
}
