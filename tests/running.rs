use tarballer::{
    pathfinder, remove_dir_step, tarball_path, Action, Event, ListedEntry, PromptReason,
    RemovalStep, RemoveOutcome, RunConfig, Stage, Tarballer,
};

fn listing() -> Vec<ListedEntry> {
    vec![
        ListedEntry { name: "a".to_string(), path: "root/a".to_string(), is_dir: true },
        ListedEntry { name: "b".to_string(), path: "root/b".to_string(), is_dir: true },
        ListedEntry { name: "c.txt".to_string(), path: "root/c.txt".to_string(), is_dir: false },
    ]
}

fn config(remove: bool, dry_run: bool) -> RunConfig {
    RunConfig { verbose: false, remove, dry_run }
}

/// Drives a run, answering every archive with `archive_ok`, and returns the
/// actions with the paths they name.
fn drive(run: &mut Tarballer, archive_ok: bool) -> Vec<(Action, String)> {
    let mut out = Vec::new();
    let mut event = Event::Proceed;
    loop {
        assert!(run.accepts(event));
        let action = run.step(event);
        let path = match action {
            Action::Archive { index } => run.archive_path(index),
            Action::Remove { index } | Action::ReportDryRun { index, .. } => run.source_path(index).clone(),
            _ => String::new(),
        };
        out.push((action, path));
        event = match action {
            Action::Archive { .. } if archive_ok => Event::ArchiveSucceeded,
            Action::Archive { .. } => Event::ArchiveFailed,
            Action::Remove { .. } => Event::RemovalFinished,
            Action::ReportDryRun { .. } => Event::Proceed,
            Action::Finish | Action::Abort => return out,
        };
    }
}

fn archived(actions: &[(Action, String)]) -> Vec<String> {
    let mut v: Vec<String> = actions
        .iter()
        .filter(|(a, _)| matches!(a, Action::Archive { .. }))
        .map(|(_, p)| p.clone())
        .collect();
    v.sort();
    v
}

fn removed(actions: &[(Action, String)]) -> Vec<String> {
    let mut v: Vec<String> = actions
        .iter()
        .filter(|(a, _)| matches!(a, Action::Remove { .. }))
        .map(|(_, p)| p.clone())
        .collect();
    v.sort();
    v
}

#[test]
fn tarball_path_joins_with_slash() {
    assert_eq!(tarball_path(&"root".to_string(), &"a.tar".to_string()), "root/a.tar");
    assert_eq!(tarball_path(&".".to_string(), &"b.tar".to_string()), "./b.tar");
}

#[test]
fn basic_run_archives_each_directory() {
    let mut run = Tarballer::new(config(false, false), "root".to_string(), pathfinder(&listing()));
    let actions = drive(&mut run, true);
    assert_eq!(archived(&actions), vec!["root/a.tar".to_string(), "root/b.tar".to_string()]);
    assert!(removed(&actions).is_empty());
    assert_eq!(actions.len(), 3);
    assert_eq!(actions.last().unwrap().0, Action::Finish);
    assert_eq!(run.progress().stage, Stage::Finished);
}

#[test]
fn remove_flag_removes_after_each_archive() {
    let mut run = Tarballer::new(config(true, false), "root".to_string(), pathfinder(&listing()));
    let actions = drive(&mut run, true);
    assert_eq!(archived(&actions), vec!["root/a.tar".to_string(), "root/b.tar".to_string()]);
    assert_eq!(removed(&actions), vec!["root/a".to_string(), "root/b".to_string()]);
    assert_eq!(actions.len(), 5);
    for (k, (a, _)) in actions.iter().enumerate() {
        if let Action::Remove { index } = a {
            assert_eq!(actions[k - 1].0, Action::Archive { index: *index });
        }
    }
}

#[test]
fn dry_run_with_remove_only_reports() {
    let mut run = Tarballer::new(config(true, true), "root".to_string(), pathfinder(&listing()));
    let actions = drive(&mut run, true);
    assert!(archived(&actions).is_empty());
    assert!(removed(&actions).is_empty());
    let mut reported: Vec<String> = actions
        .iter()
        .filter(|(a, _)| matches!(a, Action::ReportDryRun { would_remove: true, .. }))
        .map(|(_, p)| p.clone())
        .collect();
    reported.sort();
    assert_eq!(reported, vec!["root/a".to_string(), "root/b".to_string()]);
    assert_eq!(actions.last().unwrap().0, Action::Finish);
}

#[test]
fn dry_run_without_remove_reports_no_removal() {
    let mut run = Tarballer::new(config(false, true), "root".to_string(), pathfinder(&listing()));
    let actions = drive(&mut run, true);
    assert_eq!(actions.len(), 3);
    for (a, _) in &actions[..2] {
        assert!(matches!(a, Action::ReportDryRun { would_remove: false, .. }));
    }
}

#[test]
fn empty_target_finishes_at_once() {
    let candidates = pathfinder(&Vec::new());
    assert!(candidates.is_empty());
    let mut run = Tarballer::new(config(true, false), "root".to_string(), candidates);
    assert_eq!(run.len(), 0);
    let actions = drive(&mut run, true);
    assert_eq!(actions.len(), 1);
    assert_eq!(actions[0].0, Action::Finish);
}

#[test]
fn failed_archive_aborts_without_removal() {
    let mut run = Tarballer::new(config(true, false), "root".to_string(), pathfinder(&listing()));
    let actions = drive(&mut run, false);
    assert_eq!(actions.len(), 2);
    assert!(matches!(actions[0].0, Action::Archive { .. }));
    assert_eq!(actions[1].0, Action::Abort);
    assert_eq!(run.progress().stage, Stage::Aborted);
    assert_eq!(run.step(Event::Proceed), Action::Abort);
}

#[test]
fn stage_waits_for_matching_events() {
    let mut run = Tarballer::new(config(true, false), "root".to_string(), pathfinder(&listing()));
    assert!(run.accepts(Event::Proceed));
    assert!(!run.accepts(Event::ArchiveSucceeded));
    assert_eq!(run.step(Event::Proceed), Action::Archive { index: 0 });
    assert!(run.accepts(Event::ArchiveFailed));
    assert!(!run.accepts(Event::RemovalFinished));
    assert_eq!(run.step(Event::ArchiveSucceeded), Action::Remove { index: 0 });
    assert!(run.accepts(Event::RemovalFinished));
    assert!(!run.accepts(Event::Proceed));
    assert_eq!(run.step(Event::RemovalFinished), Action::Archive { index: 1 });
}

#[test]
fn removal_of_absent_tree_succeeds() {
    assert_eq!(remove_dir_step(RemoveOutcome::NotFound), RemovalStep::Done);
}

#[test]
fn removal_decisions_by_outcome() {
    assert_eq!(remove_dir_step(RemoveOutcome::Removed), RemovalStep::Done);
    assert_eq!(remove_dir_step(RemoveOutcome::ResourceBusy), RemovalStep::AwaitOperator(PromptReason::Busy));
    assert_eq!(
        remove_dir_step(RemoveOutcome::PermissionDenied),
        RemovalStep::AwaitOperator(PromptReason::PermissionDenied)
    );
    assert_eq!(remove_dir_step(RemoveOutcome::Other), RemovalStep::Failed);
}
