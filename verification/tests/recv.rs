use halfcopy::events::UiEvent;
use halfcopy::path::Picked;
use halfcopy::recv::{
    recv_inner, recv_start, total_size, RecvAction, RecvError, RecvEvent, RecvState, RecvStep,
    SharedFile, LIST_LIMIT,
};
use std::path::PathBuf;

fn file(name: &str, hash: u8) -> SharedFile {
    SharedFile { name: name.to_string(), hash: [hash; 32] }
}

fn failure(step: &RecvStep) -> String {
    match &step.action {
        RecvAction::Fail(e) => e.describe(),
        _ => panic!(),
    }
}

fn free() -> RecvEvent {
    RecvEvent::Checked { exists: false }
}

/// A receiver that waits for the user to pick a folder.
fn picking(files: Vec<SharedFile>) -> RecvState {
    let (state, _) = recv_start(&[0; 32]);
    let step = recv_inner(state, RecvEvent::Local { complete: true, bytes: 0 });
    assert!(step.tell.is_empty());
    assert!(matches!(step.action, RecvAction::LoadCollection));
    let step = recv_inner(step.state, RecvEvent::Collection(files));
    assert!(matches!(step.action, RecvAction::PickFolder));
    step.state
}

#[test]
fn the_folder_for_the_data_is_named_by_the_hash() {
    let mut hash = [0u8; 32];
    hash[0] = 0xab;
    hash[31] = 0x01;
    let (_, dir) = recv_start(&hash);
    let expected = format!(".halfcopy-recv-ab{}01", "00".repeat(30));
    assert_eq!(dir, expected);
    let lower = dir.to_lowercase();
    assert_eq!(dir, lower);
}

#[test]
fn sizes_are_added_up() {
    assert_eq!(total_size(&[]), Some(0));
    assert_eq!(total_size(&[1, 2, 39]), Some(42));
    assert_eq!(total_size(&[u64::MAX]), Some(u64::MAX));
    assert_eq!(total_size(&[u64::MAX, 0, 1]), None);
    assert_eq!(LIST_LIMIT, 1024 * 1024 * 32);
}

#[test]
fn missing_data_is_fetched() {
    let (state, _) = recv_start(&[0; 32]);
    let step = recv_inner(state, RecvEvent::Local { complete: false, bytes: 10 });
    assert_eq!(step.tell, vec![UiEvent::Connect]);
    assert!(matches!(step.action, RecvAction::AskSizes));
    let step = recv_inner(step.state, RecvEvent::Sizes(vec![50, 50]));
    assert_eq!(step.tell, vec![UiEvent::TotalSize(100), UiEvent::CurrentSize(10)]);
    assert!(matches!(step.action, RecvAction::Fetch));
    let step = recv_inner(step.state, RecvEvent::Progress(5));
    assert_eq!(step.tell, vec![UiEvent::CurrentSize(15)]);
    assert!(matches!(step.action, RecvAction::AwaitMore));
    let step = recv_inner(step.state, RecvEvent::Progress(90));
    assert_eq!(step.tell, vec![UiEvent::CurrentSize(100)]);
    let step = recv_inner(step.state, RecvEvent::Fetched);
    assert!(step.tell.is_empty());
    assert!(matches!(step.action, RecvAction::LoadCollection));
}

#[test]
fn an_error_while_fetching_stops() {
    let state = RecvState::Downloading { position: 0 };
    let step = recv_inner(state, RecvEvent::Failed("broken pipe".to_string()));
    assert_eq!(failure(&step), "broken pipe");
    assert!(matches!(step.state, RecvState::Ended));
}

#[test]
fn complete_data_is_not_fetched_again() {
    let (state, _) = recv_start(&[0; 32]);
    let step = recv_inner(state, RecvEvent::Local { complete: true, bytes: 100 });
    assert!(step.tell.is_empty());
    assert!(matches!(step.action, RecvAction::LoadCollection));
}

#[test]
fn every_file_is_saved_in_order() {
    let root = PathBuf::from("root");
    let state = picking(vec![file("d/a", 1), file("d/b", 2)]);
    let step = recv_inner(state, RecvEvent::Folder(Picked::Path(root.clone())));
    assert_eq!(step.tell, vec![UiEvent::ExportTotal(2), UiEvent::ExportCurrent(0)]);
    match &step.action {
        RecvAction::CheckTarget(target) => assert_eq!(*target, root.join("d").join("a")),
        _ => panic!(),
    }
    let step = recv_inner(step.state, free());
    assert!(step.tell.is_empty());
    match &step.action {
        RecvAction::Export { hash, target } => {
            assert_eq!(*hash, [1; 32]);
            assert_eq!(*target, root.join("d").join("a"));
        }
        _ => panic!(),
    }
    let step = recv_inner(step.state, RecvEvent::Exported);
    assert_eq!(step.tell, vec![UiEvent::ExportCurrent(1)]);
    match &step.action {
        RecvAction::CheckTarget(target) => assert_eq!(*target, root.join("d").join("b")),
        _ => panic!(),
    }
    let step = recv_inner(step.state, free());
    match &step.action {
        RecvAction::Export { hash, target } => {
            assert_eq!(*hash, [2; 32]);
            assert_eq!(*target, root.join("d").join("b"));
        }
        _ => panic!(),
    }
    let step = recv_inner(step.state, RecvEvent::Exported);
    assert!(step.tell.is_empty());
    assert!(matches!(step.action, RecvAction::RemoveDir));
    let step = recv_inner(step.state, RecvEvent::Removed);
    assert!(matches!(step.action, RecvAction::Done));
    assert!(matches!(step.state, RecvState::Ended));
}

#[test]
fn an_empty_share_saves_nothing() {
    let state = picking(vec![]);
    let step = recv_inner(state, RecvEvent::Folder(Picked::Path(PathBuf::from("root"))));
    assert_eq!(step.tell, vec![UiEvent::ExportTotal(0)]);
    assert!(matches!(step.action, RecvAction::RemoveDir));
}

#[test]
fn nothing_is_saved_over_what_is_there() {
    let state = picking(vec![file("a", 1)]);
    let step = recv_inner(state, RecvEvent::Folder(Picked::Path(PathBuf::from("root"))));
    let step = recv_inner(step.state, RecvEvent::Checked { exists: true });
    let target = PathBuf::from("root").join("a");
    assert_eq!(failure(&step), format!("target {} already exists", target.display()));
    assert!(matches!(step.state, RecvState::Ended));
}

#[test]
fn a_cancelled_save_stops() {
    let state = picking(vec![file("a", 1)]);
    let step = recv_inner(state, RecvEvent::Folder(Picked::Cancelled));
    assert_eq!(failure(&step), "Save cancelled!");
    let state = picking(vec![file("a", 1)]);
    let step = recv_inner(state, RecvEvent::Folder(Picked::Unusable("no path".to_string())));
    assert_eq!(failure(&step), "no path");
}

#[test]
fn a_receiver_refuses_events_out_of_order() {
    let (state, _) = recv_start(&[0; 32]);
    let step = recv_inner(state, RecvEvent::Exported);
    assert_eq!(failure(&step), "Unexpected event");
    let step = recv_inner(step.state, RecvEvent::Local { complete: true, bytes: 0 });
    assert!(matches!(step.action, RecvAction::Fail(RecvError::OutOfOrder)));
    assert!(step.tell.is_empty());
}
