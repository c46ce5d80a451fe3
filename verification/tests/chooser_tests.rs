use kozutsumi::chooser::{
    interpret_finder_result, select_by_indices, Chooser, ChooserOutcome, ChooserSession,
    CANCEL_EXIT_CODE, NO_MATCH_EXIT_CODE,
};

#[test]
fn default_backend_is_the_fuzzy_finder() {
    assert!(matches!(Chooser::default(), Chooser::Fzf));
}

fn names(v: &[&str]) -> Vec<String> {
    v.iter().map(|s| s.to_string()).collect()
}

fn drive_to_waiting(session: &mut ChooserSession) -> Vec<String> {
    assert!(session.start());
    session.on_spawned();
    let mut written = Vec::new();
    while let Some(line) = session.next_candidate() {
        written.push(line);
    }
    written
}

#[test]
fn single_selection_from_exit_zero() {
    let mut session = ChooserSession::new(names(&["work", "home"]), false);
    let written = drive_to_waiting(&mut session);
    assert_eq!(written, names(&["work", "home"]));
    match session.finish(Some(0), "work\n") {
        ChooserOutcome::Selected(picked) => assert_eq!(picked, names(&["work"])),
        other => panic!("expected a selection, got {:?}", other),
    }
}

#[test]
fn cancel_code_wins_regardless_of_output() {
    let mut session = ChooserSession::new(names(&["work", "home"]), false);
    drive_to_waiting(&mut session);
    match session.finish(Some(CANCEL_EXIT_CODE), "work\n") {
        ChooserOutcome::Cancelled => {}
        other => panic!("expected a cancel, got {:?}", other),
    }
}

#[test]
fn empty_candidates_never_spawn() {
    let mut session = ChooserSession::new(Vec::new(), false);
    assert!(!session.start());
}

#[test]
fn multi_selection_keeps_finder_order() {
    let mut session = ChooserSession::new(names(&["work", "home", "games"]), true);
    drive_to_waiting(&mut session);
    match session.finish(Some(0), "home\nwork\n") {
        ChooserOutcome::Selected(picked) => assert_eq!(picked, names(&["home", "work"])),
        other => panic!("expected a selection, got {:?}", other),
    }
}

#[test]
fn no_match_code_is_quiet() {
    match interpret_finder_result(Some(NO_MATCH_EXIT_CODE), "") {
        ChooserOutcome::NoneSelected => {}
        other => panic!("expected a quiet no-op, got {:?}", other),
    }
}

#[test]
fn success_with_blank_output_is_quiet() {
    match interpret_finder_result(Some(0), "  \n") {
        ChooserOutcome::NoneSelected => {}
        other => panic!("expected a quiet no-op, got {:?}", other),
    }
}

#[test]
fn unclassified_status_is_a_hard_failure() {
    match interpret_finder_result(Some(2), "") {
        ChooserOutcome::FinderFailed(Some(2)) => {}
        other => panic!("expected a hard failure, got {:?}", other),
    }
}

#[test]
fn death_without_exit_code_is_a_hard_failure() {
    match interpret_finder_result(None, "") {
        ChooserOutcome::FinderFailed(None) => {}
        other => panic!("expected a hard failure, got {:?}", other),
    }
}

#[test]
fn output_is_trimmed_before_splitting() {
    match interpret_finder_result(Some(0), "\n  work\nhome\t\n") {
        ChooserOutcome::Selected(picked) => assert_eq!(picked, names(&["work", "home"])),
        other => panic!("expected a selection, got {:?}", other),
    }
}

#[test]
fn invocation_without_multi() {
    let session = {
        let mut s = ChooserSession::new(names(&["work"]), false);
        assert!(s.start());
        s
    };
    let invocation = session.invocation("/usr/local/bin/kozutsumi", "/tmp/parcel.yml");
    assert_eq!(invocation.program, "fzf".to_string());
    assert_eq!(
        invocation.args,
        names(&[
            "--preview-window=right:60%:wrap",
            "--layout=reverse",
            "--bind=tab:down,shift-tab:up",
            "--cycle",
            "--no-sort",
            "--ansi",
            "--tmux=center,70%,40%",
            "--preview",
            "sh -c '/usr/local/bin/kozutsumi --config /tmp/parcel.yml list \"$1\" | bat --color=always -pp' sh {}",
        ])
    );
}

#[test]
fn invocation_with_multi_adds_selection_flags() {
    let session = {
        let mut s = ChooserSession::new(names(&["work"]), true);
        assert!(s.start());
        s
    };
    let invocation = session.invocation("/bin/k", "/tmp/p.yml");
    let args = invocation.args;
    assert!(args.contains(&"--multi".to_string()));
    assert!(args.contains(&"--bind=ctrl-a:select-all".to_string()));
    assert!(args.contains(&"--bind=space:toggle+down".to_string()));
}

#[test]
fn indices_pick_names_in_pick_order() {
    let candidates = names(&["work", "home", "games"]);
    assert_eq!(
        select_by_indices(&candidates, &vec![2, 0]),
        Some(names(&["games", "work"]))
    );
    assert_eq!(select_by_indices(&candidates, &vec![3]), None);
    assert_eq!(select_by_indices(&candidates, &Vec::new()), Some(Vec::new()));
}
