use semantic_gallery::discovery::{
    collect_image_files, collect_images_from_dir, should_descend, FsEntry, PathSnapshot,
};
use semantic_gallery::errors::ErrorKind;
use semantic_gallery::media::content_type_for;
use semantic_gallery::pathname::is_image_file;

fn entry(path: &str, depth: usize, is_file: bool) -> FsEntry {
    FsEntry { path: path.to_string(), depth, is_file }
}

#[test]
fn extension_allow_list_accepts_all_seven() {
    for p in [
        "a.jpg", "a.jpeg", "a.png", "a.gif", "a.webp", "a.tiff", "a.bmp",
    ] {
        assert!(is_image_file(p), "{p} should be accepted");
    }
}

#[test]
fn extension_allow_list_is_case_insensitive() {
    assert!(is_image_file("photo.JPG"));
    assert!(is_image_file("photo.Jpeg"));
    assert!(is_image_file("dir.v2/photo.PNG"));
}

#[test]
fn extension_allow_list_rejects_others() {
    assert!(!is_image_file("notes.txt"));
    assert!(!is_image_file("archive.tar.gz"));
    assert!(!is_image_file("noextension"));
    assert!(!is_image_file(".jpg"));
    assert!(!is_image_file("dir.jpg/readme"));
    assert!(!is_image_file("trailingdot."));
}

#[test]
fn content_type_follows_extension() {
    assert_eq!(content_type_for("x.jpg"), "image/jpeg");
    assert_eq!(content_type_for("x.JPEG"), "image/jpeg");
    assert_eq!(content_type_for("x.png"), "image/png");
    assert_eq!(content_type_for("x.gif"), "image/gif");
    assert_eq!(content_type_for("x.webp"), "image/webp");
    assert_eq!(content_type_for("x.tiff"), "image/tiff");
    assert_eq!(content_type_for("x.bmp"), "image/bmp");
    assert_eq!(content_type_for("x.bin"), "application/octet-stream");
    assert_eq!(content_type_for("noext"), "application/octet-stream");
}

#[test]
fn depth_bound_excludes_deeper_files() {
    // A tree of depth 3; max_depth 1 with recursion keeps depths 0 and 1.
    let entries = vec![
        entry("root/a.jpg", 0, true),
        entry("root/sub", 0, false),
        entry("root/sub/b.png", 1, true),
        entry("root/sub/deeper", 1, false),
        entry("root/sub/deeper/c.gif", 2, true),
        entry("root/sub/deeper/more/d.bmp", 3, true),
    ];
    let files = collect_images_from_dir(&entries, true, 1);
    assert_eq!(files, vec!["root/a.jpg".to_string(), "root/sub/b.png".to_string()]);
}

#[test]
fn non_recursive_keeps_only_root_listing() {
    let entries = vec![
        entry("root/a.jpg", 0, true),
        entry("root/sub/b.png", 1, true),
        entry("root/sub/deeper/c.gif", 2, true),
    ];
    // max_depth is irrelevant without recursion.
    let files = collect_images_from_dir(&entries, false, 5);
    assert_eq!(files, vec!["root/a.jpg".to_string()]);
}

#[test]
fn directories_and_non_images_are_never_selected() {
    let entries = vec![
        entry("root/sub", 0, false),
        entry("root/readme.md", 0, true),
        entry("root/b.webp", 0, true),
    ];
    let files = collect_images_from_dir(&entries, true, 5);
    assert_eq!(files, vec!["root/b.webp".to_string()]);
}

#[test]
fn single_file_root_is_its_own_candidate() {
    let files = collect_image_files("pic.jpeg", &PathSnapshot::File, false, 5).unwrap();
    assert_eq!(files, vec!["pic.jpeg".to_string()]);
    let none = collect_image_files("notes.txt", &PathSnapshot::File, false, 5).unwrap();
    assert!(none.is_empty());
}

#[test]
fn missing_root_is_rejected_before_any_work() {
    let r = collect_image_files("/no/such/path", &PathSnapshot::Missing, true, 5);
    assert_eq!(r.unwrap_err().kind(), ErrorKind::Validation);
}

#[test]
fn directory_root_uses_the_walked_listing() {
    let entries = vec![entry("d/a.png", 0, true), entry("d/b.txt", 0, true)];
    let files = collect_image_files("d", &PathSnapshot::Dir(entries), true, 5).unwrap();
    assert_eq!(files, vec!["d/a.png".to_string()]);
}

#[test]
fn walker_descends_only_when_recursive_and_within_bound() {
    assert!(should_descend(true, 1, 5));
    assert!(should_descend(true, 5, 5));
    assert!(!should_descend(true, 6, 5));
    assert!(!should_descend(false, 1, 5));
}
