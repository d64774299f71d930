use helm_cleaner::lister::{Label, MetadataObject};
use helm_cleaner::protocol::{
    accepts_event, classify_choice, init, resolve_selection, state_wf, step, uninstall_args,
    Action, Config, Event, Outcome, Selection, State,
};

fn obj(labels: &[(&str, &str)]) -> MetadataObject {
    MetadataObject {
        labels: labels
            .iter()
            .map(|(k, v)| Label { key: k.to_string(), value: v.to_string() })
            .collect(),
    }
}

fn demo_objects() -> Vec<MetadataObject> {
    vec![
        obj(&[("owner", "helm"), ("name", "app-a")]),
        obj(&[("owner", "helm"), ("name", "app-b")]),
    ]
}

fn config(release: Option<&str>, delete_namespace: bool, force: bool) -> Config {
    Config {
        namespace: "demo".to_string(),
        release: release.map(|r| r.to_string()),
        delete_namespace,
        force,
    }
}

fn expect_uninstall(action: &Action, name: &str) {
    match action {
        Action::RunUninstall(n) => assert_eq!(n, name),
        _ => panic!("expected an uninstall launch"),
    }
}

fn expect_finish(action: &Action, outcome: Outcome) {
    match action {
        Action::Finish(o) => assert_eq!(*o, outcome),
        _ => panic!("expected the run to finish"),
    }
}

#[test]
fn preselected_release_with_force_runs_once() {
    // `--release app-a --force`: one uninstall, no prompt, success.
    let cfg = config(Some("app-a"), false, true);
    let (s0, a0) = init();
    assert!(matches!(a0, Action::QueryReleases));
    let (s1, a1) = step(&cfg, s0, Event::Listed(demo_objects()));
    expect_uninstall(&a1, "app-a");
    let (_s2, a2) = step(&cfg, s1, Event::UninstallExited(true));
    match &a2 {
        Action::Finish(o) => {
            assert_eq!(*o, Outcome::Completed);
            assert!(o.exit_ok());
        }
        _ => panic!("expected the run to finish"),
    }
}

#[test]
fn selecting_all_uninstalls_in_sorted_order() {
    // Interactive run: the operator picks the synthetic all-releases entry.
    let cfg = config(None, false, false);
    let (s0, _) = init();
    let (s1, a1) = step(&cfg, s0, Event::Listed(demo_objects()));
    match &a1 {
        Action::PromptSelect(items) => {
            assert_eq!(items, &vec!["app-a".to_string(), "app-b".to_string()]);
        }
        _ => panic!("expected a selection prompt"),
    }
    // Index 2 is the synthetic entry behind the two listed releases.
    let (s2, a2) = step(&cfg, s1, Event::Chosen(2));
    match &a2 {
        Action::PromptConfirm(items) => {
            assert_eq!(items, &vec!["app-a".to_string(), "app-b".to_string()]);
        }
        _ => panic!("expected a confirmation prompt"),
    }
    let (s3, a3) = step(&cfg, s2, Event::ConfirmLine("y".to_string()));
    expect_uninstall(&a3, "app-a");
    let (s4, a4) = step(&cfg, s3, Event::UninstallExited(true));
    expect_uninstall(&a4, "app-b");
    let (_s5, a5) = step(&cfg, s4, Event::UninstallExited(true));
    expect_finish(&a5, Outcome::Completed);
}

#[test]
fn failed_uninstall_skips_namespace_delete() {
    // `--delete-namespace` with the only uninstall failing: the delete is
    // never requested and the run exits with a failure.
    let cfg = config(Some("app-a"), true, true);
    let (s0, _) = init();
    let (s1, a1) = step(&cfg, s0, Event::Listed(demo_objects()));
    expect_uninstall(&a1, "app-a");
    let (s2, a2) = step(&cfg, s1, Event::UninstallExited(false));
    match &a2 {
        Action::Finish(o) => {
            assert_eq!(*o, Outcome::UninstallFailed);
            assert!(!o.exit_ok());
        }
        _ => panic!("expected the run to finish"),
    }
    assert!(matches!(
        s2,
        State::Done { outcome: Outcome::UninstallFailed }
    ));
}

#[test]
fn failed_uninstall_stops_remaining_releases() {
    let cfg = config(None, false, true);
    let (s0, _) = init();
    let (s1, _) = step(&cfg, s0, Event::Listed(demo_objects()));
    // Force is set: choosing the synthetic entry launches straight away.
    let (s2, a2) = step(&cfg, s1, Event::Chosen(2));
    expect_uninstall(&a2, "app-a");
    let (s3, a3) = step(&cfg, s2, Event::UninstallExited(false));
    expect_finish(&a3, Outcome::UninstallFailed);
    assert!(matches!(s3, State::Done { .. }));
}

#[test]
fn empty_listing_terminates_successfully() {
    let cfg = config(None, false, false);
    let (s0, _) = init();
    let objects = vec![obj(&[("owner", "helm")])];
    let (s1, a1) = step(&cfg, s0, Event::Listed(objects));
    match &a1 {
        Action::Finish(o) => {
            assert_eq!(*o, Outcome::NoReleases);
            assert!(o.exit_ok());
        }
        _ => panic!("expected the run to finish"),
    }
    assert!(matches!(s1, State::Done { outcome: Outcome::NoReleases }));
}

#[test]
fn empty_listing_ends_even_with_preselected_release() {
    let cfg = config(Some("app-a"), false, true);
    let (s0, _) = init();
    let (_s1, a1) = step(&cfg, s0, Event::Listed(Vec::new()));
    expect_finish(&a1, Outcome::NoReleases);
}

#[test]
fn declined_confirmation_aborts_cleanly() {
    let cfg = config(None, false, false);
    let (s0, _) = init();
    let (s1, _) = step(&cfg, s0, Event::Listed(demo_objects()));
    let (s2, _) = step(&cfg, s1, Event::Chosen(0));
    let (s3, a3) = step(&cfg, s2, Event::ConfirmLine("n".to_string()));
    match &a3 {
        Action::Finish(o) => {
            assert_eq!(*o, Outcome::Declined);
            assert!(o.exit_ok());
        }
        _ => panic!("expected the run to finish"),
    }
    assert!(matches!(s3, State::Done { outcome: Outcome::Declined }));
}

#[test]
fn confirmation_requires_exact_affirmation() {
    let cfg = config(None, false, false);
    for (answer, accepted) in [
        ("y", true),
        ("Y", true),
        (" y \n", true),
        ("Y\n", true),
        ("yes", false),
        ("n", false),
        ("", false),
        ("  ", false),
        ("yy", false),
    ] {
        let (s0, _) = init();
        let (s1, _) = step(&cfg, s0, Event::Listed(demo_objects()));
        let (s2, _) = step(&cfg, s1, Event::Chosen(0));
        let (_s3, a3) = step(&cfg, s2, Event::ConfirmLine(answer.to_string()));
        match (&a3, accepted) {
            (Action::RunUninstall(n), true) => assert_eq!(n, "app-a"),
            (Action::Finish(o), false) => assert_eq!(*o, Outcome::Declined),
            _ => panic!("answer {:?} handled wrongly", answer),
        }
    }
}

#[test]
fn single_selection_uninstalls_that_release_only() {
    let cfg = config(None, false, false);
    let (s0, _) = init();
    let (s1, _) = step(&cfg, s0, Event::Listed(demo_objects()));
    let (s2, _) = step(&cfg, s1, Event::Chosen(1));
    let (s3, a3) = step(&cfg, s2, Event::ConfirmLine("Y".to_string()));
    expect_uninstall(&a3, "app-b");
    let (_s4, a4) = step(&cfg, s3, Event::UninstallExited(true));
    expect_finish(&a4, Outcome::Completed);
}

#[test]
fn successful_run_requests_namespace_delete_when_asked() {
    let cfg = config(Some("app-a"), true, true);
    let (s0, _) = init();
    let (s1, _) = step(&cfg, s0, Event::Listed(demo_objects()));
    let (s2, a2) = step(&cfg, s1, Event::UninstallExited(true));
    assert!(matches!(a2, Action::RequestNamespaceDelete));
    let (_s3, a3) = step(&cfg, s2, Event::NamespaceDeleted);
    expect_finish(&a3, Outcome::Completed);
}

#[test]
fn namespace_delete_failure_fails_the_run() {
    let cfg = config(Some("app-a"), true, true);
    let (s0, _) = init();
    let (s1, _) = step(&cfg, s0, Event::Listed(demo_objects()));
    let (s2, _) = step(&cfg, s1, Event::UninstallExited(true));
    let (_s3, a3) = step(&cfg, s2, Event::NamespaceDeleteFailed);
    match &a3 {
        Action::Finish(o) => {
            assert_eq!(*o, Outcome::DeleteFailed);
            assert!(!o.exit_ok());
        }
        _ => panic!("expected the run to finish"),
    }
}

#[test]
fn list_failure_fails_the_run() {
    let cfg = config(None, false, false);
    let (s0, _) = init();
    let (_s1, a1) = step(&cfg, s0, Event::ListFailed);
    match &a1 {
        Action::Finish(o) => {
            assert_eq!(*o, Outcome::ListFailed);
            assert!(!o.exit_ok());
        }
        _ => panic!("expected the run to finish"),
    }
}

#[test]
fn launch_failure_fails_the_run() {
    let cfg = config(Some("app-a"), false, true);
    let (s0, _) = init();
    let (s1, _) = step(&cfg, s0, Event::Listed(demo_objects()));
    let (_s2, a2) = step(&cfg, s1, Event::UninstallLaunchFailed);
    match &a2 {
        Action::Finish(o) => {
            assert_eq!(*o, Outcome::LaunchFailed);
            assert!(!o.exit_ok());
        }
        _ => panic!("expected the run to finish"),
    }
}

#[test]
fn classify_and_resolve_selection() {
    let releases = vec!["app-a".to_string(), "app-b".to_string()];
    match classify_choice(&releases, 0) {
        Selection::Single(n) => assert_eq!(n, "app-a"),
        Selection::All => panic!("expected a single choice"),
    }
    match classify_choice(&releases, 2) {
        Selection::All => {}
        Selection::Single(_) => panic!("expected the all entry"),
    }
    let all = resolve_selection(releases.clone(), Selection::All);
    assert_eq!(all, releases);
    let one = resolve_selection(releases, Selection::Single("app-b".to_string()));
    assert_eq!(one, vec!["app-b".to_string()]);
}

#[test]
fn uninstall_args_have_fixed_shape() {
    let args = uninstall_args("app-a", "demo");
    assert_eq!(
        args,
        vec![
            "uninstall".to_string(),
            "app-a".to_string(),
            "-n".to_string(),
            "demo".to_string()
        ]
    );
}

#[test]
fn protocol_guards_report_what_a_state_awaits() {
    let (s0, _) = init();
    assert!(state_wf(&s0));
    assert!(accepts_event(&s0, &Event::Listed(Vec::new())));
    assert!(accepts_event(&s0, &Event::ListFailed));
    assert!(!accepts_event(&s0, &Event::Chosen(0)));
    let done = State::Done { outcome: Outcome::Completed };
    assert!(!accepts_event(&done, &Event::NamespaceDeleted));
    assert!(state_wf(&done));
    let bad = State::Selecting { releases: Vec::new() };
    assert!(!state_wf(&bad));
}

#[test]
fn every_outcome_maps_to_its_exit_status() {
    assert!(Outcome::Completed.exit_ok());
    assert!(Outcome::NoReleases.exit_ok());
    assert!(Outcome::Declined.exit_ok());
    assert!(!Outcome::ListFailed.exit_ok());
    assert!(!Outcome::LaunchFailed.exit_ok());
    assert!(!Outcome::UninstallFailed.exit_ok());
    assert!(!Outcome::DeleteFailed.exit_ok());
}
