use halfcopy::path::{
    get_export_path, picked_path, share_name, source_below, validate_path_component, PathPart,
    Picked, Place,
};
use std::path::{Component, Path, PathBuf};

fn normal(names: &[&str]) -> Vec<PathPart> {
    names.iter().map(|name| PathPart::Normal(Ok(name.to_string()))).collect()
}

#[test]
fn components_without_a_separator_are_accepted() {
    assert!(validate_path_component("file.txt").is_ok());
    assert!(validate_path_component("").is_ok());
    assert!(validate_path_component("..").is_ok());
    assert!(validate_path_component("\u{1f980}").is_ok());
}

#[test]
fn components_with_a_separator_are_refused() {
    for bad in ["/", "a/b", "/a", "a/"] {
        let e = validate_path_component(bad).unwrap_err();
        assert_eq!(
            e.describe(),
            "path components must not contain the only correct path separator, /"
        );
    }
}

#[test]
fn files_are_saved_below_the_root() {
    let root = Path::new("some").join("folder");
    assert_eq!(
        get_export_path(&root, "photos/2024/a.jpg").unwrap(),
        root.join("photos").join("2024").join("a.jpg")
    );
    assert_eq!(get_export_path(&root, "a.jpg").unwrap(), root.join("a.jpg"));
    assert_eq!(get_export_path(&root, "").unwrap(), root);
}

#[test]
fn plain_names_become_the_last_components() {
    let root = PathBuf::from("root");
    let path = get_export_path(&root, "x/y z/\u{e9}").unwrap();
    let parts: Vec<Component> = path.components().collect();
    assert_eq!(parts.len(), 4);
    assert_eq!(parts[0], Component::Normal("root".as_ref()));
    assert_eq!(parts[3], Component::Normal("\u{e9}".as_ref()));
}

fn below(picked: &str, file: &str) -> (String, String) {
    match source_below(Path::new(picked), Path::new(file)) {
        Some(Place::Below { parts, shown }) => (share_name(&parts).unwrap(), shown),
        _ => panic!(),
    }
}

#[test]
fn a_path_is_shared_under_its_names() {
    assert_eq!(share_name(&normal(&["photos", "a.jpg"])).unwrap(), "photos/a.jpg");
    assert_eq!(share_name(&normal(&["a.jpg"])).unwrap(), "a.jpg");
    assert_eq!(share_name(&[]).unwrap(), "");
    let mut parts = normal(&["a", "b"]);
    parts.insert(1, PathPart::Other(Ok("..".to_string())));
    assert_eq!(share_name(&parts).unwrap(), "a/b");
}

#[test]
fn a_path_that_is_not_text_is_not_shared() {
    let mut parts = normal(&["a"]);
    parts.push(PathPart::Normal(Err(vec![0xff])));
    assert!(share_name(&parts).is_none());
    let mut parts = normal(&["a"]);
    parts.insert(0, PathPart::Other(Err(vec![0xff])));
    assert!(share_name(&parts).is_none());
}

#[test]
fn files_are_shared_below_the_folder_that_the_picked_one_is_in() {
    let (name, shown) = below("/home/me/photos", "/home/me/photos/2024/a.jpg");
    assert_eq!(name, "photos/2024/a.jpg");
    assert_eq!(Path::new(&shown), Path::new("photos/2024/a.jpg"));
    assert_eq!(below("/home/me/a.jpg", "/home/me/a.jpg").0, "a.jpg");
    assert_eq!(below("/photos", "/photos/a.jpg").0, "photos/a.jpg");
    assert_eq!(below("photos", "photos/a.jpg").0, "photos/a.jpg");
    assert_eq!(below("/p//q/.", "/p/q/x").0, "q/x");
}

#[test]
fn components_have_their_texts() {
    match source_below(Path::new("/p/d"), Path::new("/p/d/../c:x")) {
        Some(Place::Below { parts, .. }) => {
            assert!(matches!(&parts[0], PathPart::Normal(Ok(name)) if name == "d"));
            assert!(matches!(&parts[1], PathPart::Other(Ok(name)) if name == ".."));
            assert!(matches!(&parts[2], PathPart::Normal(Ok(name)) if name == "c:x"));
            assert_eq!(parts.len(), 3);
        }
        _ => panic!(),
    }
}

#[test]
fn the_root_is_in_no_folder() {
    assert!(source_below(Path::new("/"), Path::new("/a")).is_none());
    assert!(source_below(Path::new(""), Path::new("a")).is_none());
}

#[test]
fn a_file_elsewhere_is_not_below() {
    for (picked, file) in [("/home/me/photos", "/home/you/a.jpg"), ("/a/b/c", "/a")] {
        match source_below(Path::new(picked), Path::new(file)) {
            Some(Place::NotBelow(why)) => assert!(!why.is_empty()),
            _ => panic!(),
        }
    }
}

#[test]
fn a_name_that_begins_with_a_separator_stays_below_the_root() {
    let root = Path::new("/r");
    assert_eq!(get_export_path(root, "/etc/passwd").unwrap(), Path::new("/r/etc/passwd"));
    assert_eq!(get_export_path(root, "//a").unwrap(), Path::new("/r/a"));
}

#[test]
fn empty_pieces_add_nothing() {
    let root = Path::new("/r");
    let path = get_export_path(root, "a//b").unwrap();
    assert_eq!(path.as_os_str(), "/r/a/b");
    assert_eq!(get_export_path(root, "a/b/").unwrap(), Path::new("/r/a/b"));
    assert_eq!(get_export_path(root, "./a/./b").unwrap(), Path::new("/r/a/b"));
    assert_eq!(get_export_path(root, "").unwrap(), root);
}

#[test]
fn parent_components_are_kept() {
    let path = get_export_path(Path::new("/r"), "../x").unwrap();
    assert_eq!(path.as_os_str(), "/r/../x");
    let parts: Vec<Component> = path.components().collect();
    assert_eq!(parts.len(), 4);
    assert_eq!(parts[2], Component::ParentDir);
    assert!(path.starts_with("/r"));
}

#[test]
fn every_name_has_its_place_below_a_folder_that_begins_with_a_slash() {
    for name in ["a\\b", "c:d", "\\", "a/C:/b", "..", "x/../y", ".../z"] {
        let root = Path::new("/r/s");
        let path = get_export_path(root, name).unwrap();
        assert!(path.starts_with(root), "{name}");
        assert_eq!(path, root.join(name), "{name}");
    }
}

#[test]
fn a_compound_name_is_its_tail_below_its_head() {
    let root = Path::new("/r");
    for (a, b) in [("a", "b/c"), ("a/", "b"), ("..", "x"), ("", "x"), ("a//b", "./c")] {
        let head = get_export_path(root, a).unwrap();
        let whole = get_export_path(root, &format!("{a}/{b}")).unwrap();
        assert_eq!(get_export_path(&head, b).unwrap(), whole);
    }
}

#[test]
fn a_file_is_saved_under_the_names_it_was_shared_from() {
    let name = share_name(&normal(&["photos", "2024", "a.jpg"])).unwrap();
    let saved = get_export_path(Path::new("root"), &name).unwrap();
    assert_eq!(saved, Path::new("root").join("photos").join("2024").join("a.jpg"));
}

#[test]
fn paths_with_different_names_are_shared_under_different_names() {
    assert_ne!(share_name(&normal(&["a", "b"])), share_name(&normal(&["ab"])));
    assert_ne!(share_name(&normal(&["a", "b"])), share_name(&normal(&["a", "c"])));
}

#[test]
fn what_the_user_picked_is_taken() {
    assert_eq!(picked_path(Picked::Path(7u8), "Send cancelled!"), Ok(7));
    let none: Picked<u8> = Picked::Cancelled;
    assert_eq!(picked_path(none, "Send cancelled!"), Err("Send cancelled!".to_string()));
    let lost: Picked<u8> = Picked::Lost("channel closed".to_string());
    assert_eq!(picked_path(lost, "Send cancelled!"), Err("channel closed".to_string()));
    let unusable: Picked<u8> = Picked::Unusable("not a path".to_string());
    assert_eq!(picked_path(unusable, "Send cancelled!"), Err("not a path".to_string()));
}
