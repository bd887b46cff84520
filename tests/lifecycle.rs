use ccg::restore::{restore_next, restore_start, RestoreAction, RestoreEvent, RestorePhase};
use ccg::lifecycle::{change_summary_text, list_entry_at, time_text_of, ChangeSummary};
use ccg::diff_types::ChangeKind;
use ccg::error::CheckpointError;
use ccg::lifecycle::{
    check_changes, checkpoint_details, choose_commit_message, format_commit_message, format_commit_time,
    has_changes_to_commit, list_entries, plan_restore, settle_create, summarize_changes, CreateOutcome,
    FileDelta, HookData, RestorePlan,
};
use ccg::resolver::CommitRecord;

fn record(hash: &str, message: Option<&str>, time: i64) -> CommitRecord {
    CommitRecord { hash: hash.to_string(), message: message.map(|m| m.to_string()), time }
}

#[test]
fn two_checkpoints_list_newest_first() {
    let history = vec![
        record("bbbbbbbbbbbbbbbbbbbbbbbbbbbbbbbbbbbbbbbb", Some("second\n\ndetails"), 86_400),
        record("aaaaaaaaaaaaaaaaaaaaaaaaaaaaaaaaaaaaaaaa", Some("first"), 0),
    ];
    let entries = list_entries(&history, 10);
    assert_eq!(entries.len(), 2);
    assert!(entries[0].summary.contains("second"));
    assert_eq!(entries[0].short_hash, "bbbbbbb");
    assert_eq!(entries[0].time, "1970-01-02 00:00:00");
    assert_eq!(entries[1].summary, "first");
    assert_eq!(entries[1].time, "1970-01-01 00:00:00");
}

#[test]
fn list_stops_at_the_limit_and_strips_raw_input_prefix() {
    let history = vec![
        record("1111111111", Some("Checkpoint created with raw input: hello"), 0),
        record("2222222222", None, 0),
    ];
    let one = list_entries(&history, 1);
    assert_eq!(one.len(), 1);
    assert_eq!(one[0].summary, "hello");
    let all = list_entries(&history, 5);
    assert_eq!(all[1].summary, "No commit message");
}

#[test]
fn commit_time_formats_or_falls_back() {
    assert_eq!(format_commit_time(1_700_000_000), "2023-11-14 22:13:20");
    assert_eq!(format_commit_time(i64::MAX), "Unknown time");
}

#[test]
fn show_summarizes_changed_files() {
    let deltas = vec![
        FileDelta { path: Some("a.rs".to_string()), status: ChangeKind::Added },
        FileDelta { path: Some("b.rs".to_string()), status: ChangeKind::Modified },
        FileDelta { path: None, status: ChangeKind::Deleted },
        FileDelta { path: Some("c.rs".to_string()), status: ChangeKind::Deleted },
        FileDelta { path: Some("d.rs".to_string()), status: ChangeKind::Renamed },
    ];
    let s = summarize_changes(&deltas);
    assert_eq!(s.files.len(), 4);
    assert_eq!(s.files[0], ('A', "a.rs".to_string()));
    assert_eq!(s.files[3], ('R', "d.rs".to_string()));
    assert_eq!((s.added, s.modified, s.deleted), (1, 1, 1));
}

#[test]
fn details_fill_in_missing_author() {
    let r = record("abcdef", Some("msg"), 0);
    let d = checkpoint_details(&r, &None, &Some("me@x".to_string()));
    assert_eq!(d.full_hash, "abcdef");
    assert_eq!(d.author_name, "Unknown");
    assert_eq!(d.author_email, "me@x");
    assert_eq!(d.date, "1970-01-01 00:00:00");
    assert_eq!(d.message, "msg");
    let none = checkpoint_details(&record("x", None, 0), &None, &None);
    assert_eq!(none.author_email, "unknown");
    assert_eq!(none.message, "");
}

fn payload(path: Option<&str>, patches: Option<Vec<Vec<&str>>>) -> HookData {
    HookData {
        tool_name: "Edit".to_string(),
        file_path: path.map(|p| p.to_string()),
        patches: patches.map(|g| g.into_iter().map(|v| v.into_iter().map(|l| l.to_string()).collect()).collect()),
        tool_input_text: "{}".to_string(),
    }
}

#[test]
fn payload_message_names_tool_file_and_changes() {
    let h = payload(Some("/src/lib.rs"), Some(vec![vec!["-a", "+b"], vec![" c"]]));
    assert_eq!(
        format_commit_message(&h),
        "Edit on lib.rs\n\nChanges:\n  -a\n  +b\n   c\n\nTool Input:\n{}"
    );
    let bare = payload(None, None);
    assert_eq!(format_commit_message(&bare), "Edit\n\nTool Input:\n{}");
}

#[test]
fn message_choice_prefers_given_then_input() {
    let h = payload(Some("x.rs"), None);
    assert_eq!(choose_commit_message(&Some("given".to_string()), &None, &None), "given");
    assert_eq!(choose_commit_message(&None, &Some(" raw \n".to_string()), &None), " raw \n");
    assert_eq!(
        choose_commit_message(&None, &Some("{...}".to_string()), &Some(h)),
        "Edit on x.rs\n\nTool Input:\n{}"
    );
    assert_eq!(choose_commit_message(&None, &Some("  \n".to_string()), &None), "Manual checkpoint");
    assert_eq!(choose_commit_message(&None, &None, &None), "Manual checkpoint");
}

#[test]
fn unchanged_tree_commits_nothing() {
    assert!(!has_changes_to_commit(true, true, 0));
    assert!(has_changes_to_commit(true, false, 2));
    assert!(has_changes_to_commit(false, true, 0));
    assert!(!has_changes_to_commit(false, false, 0));
    let refused = check_changes(false);
    assert!(matches!(refused, Err(CheckpointError::NoChangesToCommit)));
    assert!(matches!(settle_create(Err(CheckpointError::NoChangesToCommit)), Ok(CreateOutcome::NothingToCommit)));
    assert!(check_changes(true).is_ok());
    assert!(matches!(settle_create(Ok("h".to_string())), Ok(CreateOutcome::Created(h)) if h == "h"));
    assert!(matches!(settle_create(Err(CheckpointError::UserCancelled)), Err(CheckpointError::UserCancelled)));
}

#[test]
fn dirty_tree_refuses_restore() {
    assert!(matches!(plan_restore(true, 3), Err(CheckpointError::UncommittedChanges)));
    assert_eq!(plan_restore(false, 3).unwrap(), RestorePlan { discarded: 3, warn: true });
    assert_eq!(plan_restore(false, 0).unwrap(), RestorePlan { discarded: 0, warn: false });
}

#[test]
fn change_line_lists_nonzero_kinds() {
    let s = ChangeSummary { files: vec![('A', "a".to_string()), ('D', "b".to_string())], added: 1, modified: 0, deleted: 1 };
    assert_eq!(change_summary_text(&s), "2 files changed (1 added, 1 deleted)");
    let none = ChangeSummary { files: vec![('R', "r".to_string())], added: 0, modified: 0, deleted: 0 };
    assert_eq!(change_summary_text(&none), "1 files changed");
    assert_eq!(time_text_of(None), "Unknown time");
    assert_eq!(time_text_of(Some("t".to_string())), "t");
    let e = list_entry_at(&record("0123456789", Some("msg\nmore"), 5), "when".to_string());
    assert_eq!((e.short_hash.as_str(), e.time.as_str(), e.summary.as_str()), ("0123456", "when", "msg"));
}

#[test]
fn restore_steps_check_the_tree_before_resetting() {
    let (p, a) = restore_start();
    assert!(matches!(a, RestoreAction::CheckTree));
    let (done, refused) = restore_next(p, RestoreEvent::TreeDirty(true));
    assert_eq!(done, RestorePhase::Done);
    assert!(matches!(refused, RestoreAction::Fail(CheckpointError::UncommittedChanges)));
    let (p, a) = restore_next(p, RestoreEvent::TreeDirty(false));
    assert!(matches!(a, RestoreAction::CountNewer));
    let (p, a) = restore_next(p, RestoreEvent::Newer(2));
    assert!(matches!(a, RestoreAction::Reset(RestorePlan { discarded: 2, warn: true })));
    let (p, a) = restore_next(p, RestoreEvent::ResetDone(Ok(())));
    assert_eq!(p, RestorePhase::Done);
    assert!(matches!(a, RestoreAction::Finish));
    let (_, a) = restore_next(RestorePhase::Done, RestoreEvent::Newer(0));
    assert!(matches!(a, RestoreAction::Fail(_)));
}
