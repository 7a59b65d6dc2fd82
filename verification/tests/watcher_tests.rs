use proctor_core::history::HistoryCursor;
use proctor_core::watcher::change_message;
use proctor_core::watcher::ChangeKind;
use proctor_core::watcher::ClassifiedEvent;
use proctor_core::watcher::noise_name;
use proctor_core::watcher::RawEventKind;
use proctor_core::watcher::WatchAction;
use proctor_core::watcher::WatchRoots;
use proctor_core::workspace::Workspace;

fn roots() -> WatchRoots {
    WatchRoots {
        workspace: String::from("/home/u/.proctor_workspace"),
        internal: String::from("/home/u/.proctor_internal"),
    }
}

#[test]
fn swap_files_never_produce_events() {
    let r = roots();
    assert_eq!(
        r.triage("/home/u/.proctor_workspace/.x.txt.swp", RawEventKind::Modify),
        WatchAction::Ignore
    );
    assert_eq!(
        r.triage("/home/u/.proctor_internal/file~", RawEventKind::Create),
        WatchAction::Ignore
    );
    assert_eq!(
        r.triage("/home/u/.proctor_workspace/session_log.txt", RawEventKind::Modify),
        WatchAction::Ignore
    );
}

#[test]
fn noise_names() {
    assert!(noise_name("x.swp"));
    assert!(noise_name("backup~"));
    assert!(noise_name("session_log.txt"));
    assert!(!noise_name("x.txt"));
}

#[test]
fn history_file_notification_is_inspected() {
    let r = roots();
    assert_eq!(
        r.triage("/home/u/.proctor_internal/.cmd_history", RawEventKind::Modify),
        WatchAction::InspectHistory
    );
}

#[test]
fn workspace_changes_are_classified() {
    let r = roots();
    assert_eq!(
        r.triage("/home/u/.proctor_workspace/a.txt", RawEventKind::Create),
        WatchAction::Emit(ClassifiedEvent::FileChange(ChangeKind::Created, String::from("a.txt")))
    );
    assert_eq!(
        r.triage("/home/u/.proctor_workspace/a.txt", RawEventKind::Remove),
        WatchAction::Emit(ClassifiedEvent::FileChange(ChangeKind::Deleted, String::from("a.txt")))
    );
    assert_eq!(
        r.triage("/home/u/.proctor_workspace/a.txt", RawEventKind::Other),
        WatchAction::Ignore
    );
}

#[test]
fn foreign_paths_are_ignored() {
    let r = roots();
    assert_eq!(r.triage("/tmp/elsewhere.txt", RawEventKind::Create), WatchAction::Ignore);
}

#[test]
fn run_ls_emits_one_command_event() {
    // the shell appends "ls\n" to an empty history file; the filesystem
    // delivers two modify notifications for the same append
    let r = roots();
    let mut cursor = HistoryCursor::new(0);
    let action = r.triage("/home/u/.proctor_internal/.cmd_history", RawEventKind::Modify);
    assert_eq!(action, WatchAction::InspectHistory);
    let first = cursor.observe(3, Some(String::from("ls")));
    assert_eq!(first, Some(String::from("ls")));
    let second = cursor.observe(3, Some(String::from("ls")));
    assert_eq!(second, None);
}

#[test]
fn create_answer_file_emits_one_file_change() {
    let mut ws = Workspace::new();
    assert_eq!(ws.create_file("answer.txt"), Ok(()));
    let r = roots();
    let action = r.triage("/home/u/.proctor_workspace/answer.txt", RawEventKind::Create);
    match action {
        WatchAction::Emit(ev) => {
            assert_eq!(ev.message(), "Created file 'answer.txt'");
        },
        other => panic!("expected an emitted event, got {:?}", other),
    }
}

#[test]
fn change_messages() {
    assert_eq!(change_message(ChangeKind::Created, "a.txt"), "Created file 'a.txt'");
    assert_eq!(change_message(ChangeKind::Modified, "a.txt"), "Modified file 'a.txt'");
    assert_eq!(change_message(ChangeKind::Deleted, "a.txt"), "Deleted file 'a.txt'");
}

#[test]
fn command_event_message_is_the_line() {
    let ev = ClassifiedEvent::Command(String::from("ls -la"));
    assert_eq!(ev.message(), "ls -la");
}
