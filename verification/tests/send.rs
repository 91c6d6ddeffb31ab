use halfcopy::events::UiEvent;
use halfcopy::path::{get_export_path, PathPart, Place};
use halfcopy::send::{
    send_dir_name, send_inner, send_start, send_step, Arrival, Entry, ImportItem, SendAction,
    SendError, SendEvent, SendState, SendStep, SourceFile, SHUTDOWN_SECONDS,
};
use halfcopy::sorting::{sort_by_name, ImportedFile};
use std::path::{Path, PathBuf};

fn found(names: &[&str]) -> Vec<Entry> {
    names.iter().map(|name| Entry { path: PathBuf::from(name), is_file: true }).collect()
}

fn resolved(picked: &str) -> SendEvent {
    SendEvent::Resolved { picked: PathBuf::from(picked), current: PathBuf::from("/tmp") }
}

fn importing(step: &SendStep) -> PathBuf {
    match &step.action {
        SendAction::Import(path) => path.clone(),
        _ => panic!(),
    }
}

fn failure(step: &SendStep) -> String {
    match &step.action {
        SendAction::Fail(e) => e.describe(),
        _ => panic!(),
    }
}

fn item(item: ImportItem) -> SendEvent {
    SendEvent::Item(item)
}

/// A sender whose store was opened, with what was picked.
fn opening(picked: &str, is_file: bool) -> SendStep {
    let step = send_start();
    let step = send_inner(step.state, SendEvent::DirChecked { exists: false });
    assert!(matches!(step.action, SendAction::Resolve));
    let step = send_inner(step.state, resolved(picked));
    assert!(matches!(step.action, SendAction::OpenStore));
    send_inner(step.state, SendEvent::Opened { is_file })
}

/// A sender that reads the files of the folder `/p/d`.
fn walking(files: &[&str]) -> SendStep {
    let step = opening("/p/d", false);
    assert!(matches!(step.action, SendAction::Walk));
    send_inner(step.state, SendEvent::Walked(found(files)))
}

fn listed(step: &SendStep) -> Vec<(String, u8)> {
    match &step.action {
        SendAction::StoreCollection(files) => {
            files.iter().map(|file| (file.name.clone(), file.hash[0])).collect()
        }
        _ => panic!(),
    }
}

fn dir(step: &SendStep) -> String {
    match &step.action {
        SendAction::CheckDir(dir) => dir.clone(),
        _ => panic!(),
    }
}

#[test]
fn the_folder_for_the_data_is_named_by_its_suffix() {
    let mut suffix = [0u8; 16];
    suffix[0] = 0x1f;
    suffix[15] = 0xe0;
    let expected = format!(".halfcopy-send-1f{}e0", "00".repeat(14));
    assert_eq!(send_dir_name(&suffix), expected);
}

#[test]
fn the_folder_for_the_data_has_a_random_name() {
    let one = dir(&send_start());
    let two = dir(&send_start());
    assert_ne!(one, two);
    assert_eq!(one.len(), ".halfcopy-send-".len() + 32);
    assert!(one.starts_with(".halfcopy-send-"));
}

#[test]
fn another_name_is_picked_while_the_folder_is_there() {
    let first = send_start();
    let name = dir(&first);
    let step = send_inner(first.state, SendEvent::DirChecked { exists: true });
    assert_ne!(dir(&step), name);
    let step = send_step(step.state, SendEvent::DirChecked { exists: true }, [0xff; 16]);
    assert_eq!(dir(&step), format!(".halfcopy-send-{}", "ff".repeat(16)));
    let step = send_inner(step.state, SendEvent::DirChecked { exists: false });
    assert!(matches!(step.action, SendAction::Resolve));
}

#[test]
fn the_current_folder_is_not_shared() {
    for same in ["/tmp", "/tmp/", "//tmp/."] {
        let step = send_inner(SendState::AwaitSource, resolved(same));
        assert_eq!(failure(&step), "can not share from the current directory");
    }
    let step = send_inner(SendState::AwaitSource, resolved("/tmp/x"));
    assert!(matches!(step.action, SendAction::OpenStore));
}

#[test]
fn the_root_is_not_shared() {
    let step = opening("/", false);
    assert_eq!(failure(&step), "Shared path has no parent! Are you trying to share root?");
}

#[test]
fn a_single_file_is_read_without_a_count() {
    let step = opening("/p/a.txt", true);
    assert!(step.tell.is_empty());
    assert_eq!(importing(&step), Path::new("/p/a.txt"));
    let step = send_inner(step.state, item(ImportItem::Size(12)));
    assert!(matches!(step.action, SendAction::AwaitItem));
    assert!(matches!(step.state, SendState::Importing { size: 12, .. }));
    let step = send_inner(step.state, item(ImportItem::Other));
    assert!(matches!(step.action, SendAction::AwaitItem));
    assert!(matches!(step.state, SendState::Importing { size: 12, .. }));
    let step = send_inner(step.state, item(ImportItem::Done([4; 32])));
    assert!(step.tell.is_empty());
    assert_eq!(listed(&step), vec![("a.txt".to_string(), 4)]);
}

#[test]
fn the_files_of_a_folder_are_listed_by_name() {
    let step = walking(&["/p/d/b", "/p/d/a", "/p/d/A/z"]);
    assert_eq!(step.tell, vec![UiEvent::ImportStart(3), UiEvent::ImportProgress(0)]);
    assert_eq!(importing(&step), Path::new("/p/d/b"));
    let step = send_inner(step.state, item(ImportItem::Done([1; 32])));
    assert_eq!(step.tell, vec![UiEvent::ImportProgress(1)]);
    assert_eq!(importing(&step), Path::new("/p/d/a"));
    let step = send_inner(step.state, item(ImportItem::Done([2; 32])));
    assert_eq!(step.tell, vec![UiEvent::ImportProgress(2)]);
    let step = send_inner(step.state, item(ImportItem::Done([3; 32])));
    assert!(step.tell.is_empty());
    assert_eq!(
        listed(&step),
        vec![("d/A/z".to_string(), 3), ("d/a".to_string(), 2), ("d/b".to_string(), 1)]
    );
}

#[test]
fn only_files_are_shared() {
    let step = opening("/p/d", false);
    let mut entries = found(&["/p/d/a", "/p/d/sub", "/p/d/sub/b"]);
    entries[1].is_file = false;
    let step = send_inner(step.state, SendEvent::Walked(entries));
    assert_eq!(step.tell, vec![UiEvent::ImportStart(2), UiEvent::ImportProgress(0)]);
    let step = send_inner(step.state, item(ImportItem::Done([1; 32])));
    assert_eq!(importing(&step), Path::new("/p/d/sub/b"));
    let step = send_inner(step.state, item(ImportItem::Done([2; 32])));
    assert_eq!(listed(&step), vec![("d/a".to_string(), 1), ("d/sub/b".to_string(), 2)]);
}

#[test]
fn an_empty_folder_has_an_empty_list() {
    let step = walking(&[]);
    assert_eq!(step.tell, vec![UiEvent::ImportStart(0)]);
    assert!(listed(&step).is_empty());
}

#[test]
fn a_path_that_is_not_text_stops() {
    let bad = SourceFile {
        path: PathBuf::from("/p/d/?"),
        place: Place::Below {
            parts: vec![PathPart::Normal(Err(vec![0xff]))],
            shown: "d/?".to_string(),
        },
    };
    let good = SourceFile {
        path: PathBuf::from("/p/a"),
        place: Place::Below {
            parts: vec![PathPart::Normal(Ok("a".to_string()))],
            shown: "a".to_string(),
        },
    };
    let state = SendState::Importing {
        picked: PathBuf::from("/p/d"),
        files: vec![good, bad],
        folder: true,
        at: 0,
        name: "a".to_string(),
        size: 0,
        done: vec![],
    };
    let step = send_inner(state, item(ImportItem::Done([1; 32])));
    assert_eq!(step.tell, vec![UiEvent::ImportProgress(1)]);
    assert_eq!(failure(&step), "Path d/? is invalid for sharing!");
    assert!(matches!(step.state, SendState::Ended));
}

#[test]
fn a_file_outside_the_folder_stops() {
    let step = walking(&["/elsewhere/a"]);
    assert_eq!(step.tell, vec![UiEvent::ImportStart(1), UiEvent::ImportProgress(0)]);
    assert!(matches!(step.action, SendAction::Fail(SendError::Stopped(_))));
}

#[test]
fn shared_files_are_saved_with_the_paths_that_they_had() {
    let files = ["/p/d/x/b", "/p/d/a"];
    let mut step = walking(&files);
    for i in 0..files.len() {
        step = send_inner(step.state, item(ImportItem::Done([i as u8; 32])));
    }
    let mut saved: Vec<(PathBuf, u8)> = listed(&step)
        .into_iter()
        .map(|(name, hash)| (get_export_path(Path::new("/r"), &name).unwrap(), hash))
        .collect();
    saved.sort();
    assert_eq!(saved, vec![(PathBuf::from("/r/d/a"), 1), (PathBuf::from("/r/d/x/b"), 0)]);
}

#[test]
fn a_file_that_cannot_be_read_stops() {
    let step = walking(&["/p/d/a"]);
    let step = send_inner(step.state, item(ImportItem::Error("denied".to_string())));
    assert_eq!(failure(&step), "error importing d/a: denied");
}

#[test]
fn a_file_without_an_end_stops() {
    let step = walking(&["/p/d/a"]);
    let step = send_inner(step.state, item(ImportItem::End));
    assert_eq!(failure(&step), "import stream ended without a tag");
}

#[test]
fn only_the_redeemer_is_served() {
    let step = send_inner(SendState::AwaitStored, SendEvent::Stored);
    assert_eq!(step.tell, vec![UiEvent::CouponStart]);
    assert!(matches!(step.action, SendAction::ProvideCoupon));
    let step = send_inner(step.state, SendEvent::Coupon("17-a-b-c".to_string()));
    assert_eq!(step.tell, vec![UiEvent::CouponAvailable("17-a-b-c".to_string())]);
    assert!(matches!(step.action, SendAction::AwaitRedeemed));
    let step = send_inner(step.state, SendEvent::Redeemed([9; 32]));
    assert_eq!(step.tell, vec![UiEvent::ConnectionWait]);
    assert!(matches!(step.action, SendAction::Accept));
    let step = send_inner(step.state, SendEvent::Arrived(Arrival::Failed));
    assert!(step.tell.is_empty());
    assert!(matches!(step.action, SendAction::Accept));
    let mut other = [9; 32];
    other[31] = 8;
    let step = send_inner(step.state, SendEvent::Arrived(Arrival::Node(other)));
    assert!(step.tell.is_empty());
    assert!(matches!(step.action, SendAction::Accept));
    let step = send_inner(step.state, SendEvent::Arrived(Arrival::Node([9; 32])));
    assert_eq!(step.tell, vec![UiEvent::ConnectionGot]);
    assert!(matches!(step.action, SendAction::Serve));
    let step = send_inner(step.state, SendEvent::Served);
    assert_eq!(step.tell, vec![UiEvent::Teardown]);
    assert!(matches!(step.action, SendAction::ShutDown));
    let step = send_inner(step.state, SendEvent::ShutDown);
    assert!(matches!(step.action, SendAction::RemoveDir));
    let step = send_inner(step.state, SendEvent::Removed);
    assert!(matches!(step.action, SendAction::Done));
    assert_eq!(SHUTDOWN_SECONDS, 5);
}

#[test]
fn the_share_is_taken_down_when_no_peer_can_come() {
    let state = SendState::AwaitPeer { remote: [1; 32] };
    let step = send_inner(state, SendEvent::Arrived(Arrival::Closed));
    assert_eq!(step.tell, vec![UiEvent::Teardown]);
    assert!(matches!(step.action, SendAction::ShutDown));
}

#[test]
fn a_sender_refuses_events_out_of_order() {
    let step = send_inner(SendState::AwaitCoupon, SendEvent::Served);
    assert_eq!(failure(&step), "Unexpected event");
    let step = send_inner(step.state, SendEvent::Stored);
    assert!(matches!(step.action, SendAction::Fail(SendError::OutOfOrder)));
    let step = send_inner(SendState::AwaitStored, SendEvent::Failed("disk full".to_string()));
    assert_eq!(failure(&step), "disk full");
}

#[test]
fn sorting_is_by_name_and_stable() {
    let file = |name: &str, n: u64| ImportedFile {
        name: name.to_string(),
        hash: [n as u8; 32],
        size: n,
    };
    let sorted = sort_by_name(vec![
        file("b", 0),
        file("a", 1),
        file("b", 2),
        file("", 3),
        file("a", 4),
        file("ab", 5),
        file("\u{e9}", 6),
    ]);
    let order: Vec<(String, u64)> = sorted.iter().map(|f| (f.name.clone(), f.size)).collect();
    let expected = [("", 3), ("a", 1), ("a", 4), ("ab", 5), ("b", 0), ("b", 2), ("\u{e9}", 6)];
    let expected: Vec<(String, u64)> =
        expected.iter().map(|(name, n)| (name.to_string(), *n)).collect();
    assert_eq!(order, expected);
    assert!(sorted.iter().all(|f| f.hash == [f.size as u8; 32]));
}

#[test]
fn sorting_agrees_with_std() {
    let mut names: Vec<String> = Vec::new();
    let mut seed: u32 = 1;
    for _ in 0..300 {
        seed = seed.wrapping_mul(1664525).wrapping_add(1013904223);
        names.push(format!("d/{}", seed >> 20));
    }
    let files = names
        .iter()
        .enumerate()
        .map(|(i, name)| ImportedFile { name: name.clone(), hash: [0; 32], size: i as u64 })
        .collect();
    let ours: Vec<(String, u64)> =
        sort_by_name(files).into_iter().map(|f| (f.name, f.size)).collect();
    let mut expected: Vec<(String, u64)> =
        names.iter().enumerate().map(|(i, name)| (name.clone(), i as u64)).collect();
    expected.sort_by(|a, b| a.0.cmp(&b.0));
    assert_eq!(ours, expected);
}
