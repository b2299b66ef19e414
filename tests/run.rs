use nclbk::bookmark::Bookmark;
use nclbk::sync::{Action, Phase, RunConfig, RunReport, SyncRun};

fn bookmark(id: u64, url: &str) -> Bookmark {
    let mut b = Bookmark::blank();
    b.id = id;
    b.url = url.to_string();
    b
}

fn three() -> Vec<Bookmark> {
    vec![
        bookmark(10, "https://one.example/"),
        bookmark(20, "\"https://two.example/\""),
        bookmark(30, "https://three.example/"),
    ]
}

fn config(do_download: bool, do_remove_bookmark: bool) -> RunConfig {
    RunConfig {
        command: "archiver".to_string(),
        output_dir: Some("out".to_string()),
        do_download,
        do_remove_bookmark,
    }
}

/// Drives a run to its end: archiving succeeds where `archive_ok` says so (by
/// position) and every deletion succeeds. Returns the archived links, the
/// deleted ids and the kept links, in order.
fn drive(run: &mut SyncRun, archive_ok: &[bool]) -> (Vec<String>, Vec<u64>, Vec<String>) {
    let mut archived = Vec::new();
    let mut deleted = Vec::new();
    let mut kept = Vec::new();
    let mut position = 0;
    loop {
        assert_eq!(run.phase(), Phase::Ready);
        let mut action = run.next_action();
        if let Action::Archive { url } = &action {
            archived.push(url.clone());
            action = run.archive_finished(archive_ok[position]);
        }
        match action {
            Action::Finished => break,
            Action::Delete { id, .. } => {
                deleted.push(id);
                run.delete_finished(true);
            }
            Action::Keep { url } => kept.push(url),
            Action::Archive { .. } => panic!("archive asked twice"),
        }
        position += 1;
    }
    (archived, deleted, kept)
}

#[test]
fn delete_only_run_deletes_every_bookmark() {
    let mut run = SyncRun::new(config(false, true), three());
    let (archived, deleted, kept) = drive(&mut run, &[]);
    assert!(archived.is_empty());
    assert_eq!(deleted, vec![10, 20, 30]);
    assert!(kept.is_empty());
    assert_eq!(
        run.report(),
        RunReport { archived: 0, archive_failed: 0, deleted: 3, delete_failed: 0, kept: 0 }
    );
}

#[test]
fn failed_archive_keeps_bookmark_and_run_goes_on() {
    let mut run = SyncRun::new(config(true, true), three());
    let (archived, deleted, kept) = drive(&mut run, &[true, false, true]);
    assert_eq!(
        archived,
        vec!["https://one.example/", "https://two.example/", "https://three.example/"]
    );
    assert_eq!(deleted, vec![10, 30]);
    assert_eq!(kept, vec!["https://two.example/"]);
    assert_eq!(
        run.report(),
        RunReport { archived: 2, archive_failed: 1, deleted: 2, delete_failed: 0, kept: 1 }
    );
}

#[test]
fn dry_run_never_deletes() {
    for download in [false, true] {
        for outcomes in [[true, true, true], [false, true, false], [false, false, false]] {
            let mut run = SyncRun::new(config(download, false), three());
            let (_, deleted, kept) = drive(&mut run, &outcomes);
            assert!(deleted.is_empty());
            assert_eq!(kept.len(), 3);
            assert_eq!(run.report().deleted, 0);
            assert_eq!(run.report().kept, 3);
        }
    }
}

#[test]
fn archive_action_carries_unquoted_link() {
    let mut run = SyncRun::new(config(true, true), vec![bookmark(7, "\"https://example.com/\"")]);
    match run.next_action() {
        Action::Archive { url } => assert_eq!(url, "https://example.com/"),
        other => panic!("unexpected {:?}", other),
    }
    assert_eq!(run.phase(), Phase::Archiving);
    match run.archive_finished(true) {
        Action::Delete { id, url } => {
            assert_eq!(id, 7);
            assert_eq!(url, "https://example.com/");
        }
        other => panic!("unexpected {:?}", other),
    }
    assert_eq!(run.phase(), Phase::Deleting);
    run.delete_finished(false);
    assert!(matches!(run.next_action(), Action::Finished));
    assert_eq!(
        run.report(),
        RunReport { archived: 1, archive_failed: 0, deleted: 0, delete_failed: 1, kept: 0 }
    );
}

#[test]
fn run_over_no_bookmarks_finishes_at_once() {
    let mut run = SyncRun::new(config(true, true), vec![]);
    assert!(matches!(run.next_action(), Action::Finished));
    assert_eq!(run.command(), "archiver");
    assert_eq!(run.output_dir(), &Some("out".to_string()));
}
