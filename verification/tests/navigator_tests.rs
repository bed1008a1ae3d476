use imagequick::listing::{Entry, EntryKind};
use imagequick::navigator::{Action, Files};

fn file(path: &str) -> Entry {
    Entry::new(path.to_string(), EntryKind::File)
}

fn dir(path: &str) -> Entry {
    Entry::new(path.to_string(), EntryKind::Directory)
}

fn names(files: &Files) -> Vec<String> {
    files.listing().iter().map(|e| e.display_name.clone()).collect()
}

fn loaded(root: &str, children: Vec<Entry>) -> Files {
    let mut files = Files::new(root.to_string());
    files.finish_reload(Ok(children));
    files
}

fn read_path(action: Action) -> String {
    match action {
        Action::ReadDirectory(path) => path,
        other => panic!("expected a read, got {other:?}"),
    }
}

#[test]
fn new_state_is_at_the_root_with_nothing_read() {
    let files = Files::new("/Volumes/SD".to_string());
    assert_eq!(files.current(), "/Volumes/SD");
    assert_eq!(files.depth(), 1);
    assert!(files.listing().is_empty());
    assert_eq!(files.err(), &None);
}

#[test]
fn reload_asks_for_the_current_directory() {
    let files = Files::new("/Volumes/SD".to_string());
    assert_eq!(read_path(files.reload_path_list()), "/Volumes/SD");
}

#[test]
fn entering_a_directory_shows_its_children_by_name() {
    let mut files = loaded("/v", vec![file("/v/z.txt"), dir("/v/DCIM"), file("/v/a.txt")]);
    assert_eq!(names(&files), vec!["DCIM", "a.txt", "z.txt"]);
    let action = files.enter_item(0);
    assert_eq!(read_path(action), "/v/DCIM");
    assert_eq!(files.current(), "/v/DCIM");
    files.finish_reload(Ok(vec![file("/v/DCIM/c.jpg"), file("/v/DCIM/a.jpg"), file("/v/DCIM/b.jpg")]));
    assert_eq!(files.current(), "/v/DCIM");
    assert_eq!(files.depth(), 2);
    assert_eq!(names(&files), vec!["a.jpg", "b.jpg", "c.jpg"]);
    assert_eq!(files.err(), &None);
}

#[test]
fn entering_an_image_opens_the_viewer_and_changes_nothing() {
    let mut files = loaded("/v", vec![file("/v/a.JPG"), file("/v/b.png"), file("/v/c.jpeg")]);
    for index in 0..3 {
        let path = files.listing()[index].absolute_path.clone();
        match files.enter_item(index) {
            Action::OpenViewer(opened) => assert_eq!(opened, path),
            other => panic!("expected the viewer, got {other:?}"),
        }
        assert_eq!(files.depth(), 1);
        assert_eq!(files.current(), "/v");
        assert_eq!(names(&files), vec!["a.JPG", "b.png", "c.jpeg"]);
    }
}

#[test]
fn entering_any_other_file_does_nothing() {
    let mut files = loaded("/v", vec![file("/v/notes.txt")]);
    assert!(matches!(files.enter_item(0), Action::Idle));
    assert_eq!(files.depth(), 1);
    assert_eq!(names(&files), vec!["notes.txt"]);
}

#[test]
fn entering_past_the_listing_does_nothing() {
    let mut files = loaded("/v", vec![dir("/v/DCIM")]);
    assert!(matches!(files.enter_item(1), Action::Idle));
    assert!(matches!(files.enter_item(usize::MAX), Action::Idle));
    assert_eq!(files.depth(), 1);
}

#[test]
fn go_up_at_the_root_changes_nothing() {
    let mut files = loaded("/v", vec![dir("/v/DCIM"), file("/v/a.txt")]);
    files.finish_reload(Err("gone".to_string()));
    let error = files.err().clone();
    for _ in 0..3 {
        assert!(matches!(files.go_up(), Action::Idle));
        assert_eq!(files.current(), "/v");
        assert_eq!(files.depth(), 1);
        assert_eq!(names(&files), vec!["DCIM", "a.txt"]);
        assert_eq!(files.err(), &error);
    }
}

#[test]
fn go_up_returns_to_the_parent() {
    let mut files = loaded("/v", vec![dir("/v/DCIM")]);
    files.enter_item(0);
    files.finish_reload(Ok(vec![file("/v/DCIM/a.jpg")]));
    let action = files.go_up();
    assert_eq!(read_path(action), "/v");
    assert_eq!(files.current(), "/v");
    assert_eq!(files.depth(), 1);
}

#[test]
fn failed_read_falls_back_one_level_and_keeps_the_listing() {
    let mut files = loaded("/v", vec![dir("/v/DCIM"), file("/v/a.txt")]);
    files.enter_item(0);
    files.finish_reload(Err("PermissionDenied".to_string()));
    assert_eq!(files.current(), "/v");
    assert_eq!(files.depth(), 1);
    assert_eq!(names(&files), vec!["DCIM", "a.txt"]);
    assert_eq!(files.err(), &Some("An error occured: PermissionDenied".to_string()));
}

#[test]
fn failed_read_of_the_root_stays_at_the_root() {
    let mut files = Files::new("/v".to_string());
    files.finish_reload(Err("NotFound".to_string()));
    assert_eq!(files.current(), "/v");
    assert_eq!(files.depth(), 1);
    assert_eq!(files.err(), &Some("An error occured: NotFound".to_string()));
}

#[test]
fn successful_read_clears_the_error() {
    let mut files = Files::new("/v".to_string());
    files.finish_reload(Err("NotFound".to_string()));
    files.finish_reload(Ok(vec![file("/v/a.txt")]));
    assert_eq!(files.err(), &None);
    assert_eq!(names(&files), vec!["a.txt"]);
}

#[test]
fn clear_err_drops_only_the_error() {
    let mut files = loaded("/v", vec![dir("/v/DCIM")]);
    files.enter_item(0);
    files.finish_reload(Err("x".to_string()));
    files.clear_err();
    assert_eq!(files.err(), &None);
    assert_eq!(files.current(), "/v");
    assert_eq!(names(&files), vec!["DCIM"]);
}

#[test]
fn four_jpgs_in_any_case_make_an_image_directory() {
    let files = loaded("/v", vec![file("/v/a.jpg"), file("/v/b.JPG"), file("/v/c.jpg"), file("/v/d.jpg")]);
    assert!(files.cur_dir_is_image_dir());
}

#[test]
fn three_jpgs_do_not_make_an_image_directory() {
    let files = loaded("/v", vec![file("/v/a.jpg"), file("/v/b.jpg"), file("/v/c.jpg")]);
    assert!(!files.cur_dir_is_image_dir());
}

#[test]
fn formats_are_counted_apart() {
    let mixed = loaded(
        "/v",
        vec![file("/v/a.jpg"), file("/v/b.jpg"), file("/v/c.jpg"), file("/v/d.png"), file("/v/e.png"), file("/v/f.png")],
    );
    assert!(!mixed.cur_dir_is_image_dir());
    let pngs = loaded("/v", vec![file("/v/a.png"), file("/v/b.PNG"), file("/v/c.png"), file("/v/d.png")]);
    assert!(pngs.cur_dir_is_image_dir());
    let jpegs = loaded("/v", vec![file("/v/a.jpeg"), file("/v/b.jpg"), file("/v/c.JPEG"), file("/v/d.jpg")]);
    assert!(jpegs.cur_dir_is_image_dir());
}

#[test]
fn empty_directory_is_no_image_directory() {
    assert!(!Files::new("/v".to_string()).cur_dir_is_image_dir());
}
