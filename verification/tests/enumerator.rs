use image_index::ext::has_image_ext;
use image_index::index::filter_images;
use image_index::index::get_images;
use image_index::index::items_outcome;
use image_index::index::WalkEntry;
use image_index::index::WalkItem;
use image_index::paths::base_name;
use image_index::paths::join_path;

fn entry(path: &str, is_file: bool) -> WalkEntry {
    WalkEntry { path: path.to_string(), is_file }
}

#[test]
fn extension_matching_is_case_insensitive() {
    assert!(has_image_ext("photo.jpg"));
    assert!(has_image_ext("photo.JPG"));
    assert!(has_image_ext("photo.JpEg"));
    assert!(has_image_ext("photo.png"));
    assert!(has_image_ext("photo.PNG"));
    assert!(has_image_ext(".jpg"));
}

#[test]
fn extension_matching_rejects_non_images() {
    assert!(!has_image_ext("notes.txt"));
    assert!(!has_image_ext("photojpg"));
    assert!(!has_image_ext("photo.jpg.bak"));
    assert!(!has_image_ext("photo.jp"));
    assert!(!has_image_ext("png"));
    assert!(!has_image_ext(""));
}

#[test]
fn base_name_takes_the_part_after_the_last_separator() {
    assert_eq!(base_name("/a/b/c.png"), "c.png");
    assert_eq!(base_name("c.png"), "c.png");
    assert_eq!(base_name("a\\b\\c.jpg"), "c.jpg");
    assert_eq!(base_name("/a/b/"), "");
    assert_eq!(base_name(""), "");
}

#[test]
fn join_path_inserts_one_separator() {
    assert_eq!(join_path("/data", "images"), "/data/images");
    assert_eq!(join_path("/data/", "images"), "/data/images");
    assert_eq!(join_path("", "images"), "images");
}

#[test]
fn filter_keeps_exactly_the_image_files_in_order() {
    let entries = vec![
        entry("/root", false),
        entry("/root/a.jpg", true),
        entry("/root/b.txt", true),
        entry("/root/sub", false),
        entry("/root/sub/c.PNG", true),
        entry("/root/sub/d.jpeg", true),
        entry("/root/archive.tar", true),
    ];
    let images = filter_images(&entries);
    let got: Vec<(String, String)> =
        images.iter().map(|f| (f.path.clone(), f.name.clone())).collect();
    assert_eq!(
        got,
        vec![
            ("/root/a.jpg".to_string(), "a.jpg".to_string()),
            ("/root/sub/c.PNG".to_string(), "c.PNG".to_string()),
            ("/root/sub/d.jpeg".to_string(), "d.jpeg".to_string()),
        ]
    );
}

#[test]
fn filter_never_lists_a_directory_even_with_an_image_name() {
    let entries = vec![entry("/root/looks-like.jpg", false), entry("/root/real.jpg", true)];
    let images = filter_images(&entries);
    assert_eq!(images.len(), 1);
    assert_eq!(images[0].path, "/root/real.jpg");
}

#[test]
fn filter_of_no_entries_is_empty() {
    let images = filter_images(&Vec::new());
    assert!(images.is_empty());
}

#[test]
fn a_root_fault_fails_the_enumeration_with_its_message() {
    let items = vec![WalkItem::Fault { message: "root gone".to_string(), depth: 0 }];
    assert_eq!(items_outcome(&items).unwrap_err(), "root gone");
}

#[test]
fn the_first_root_fault_message_wins() {
    let items = vec![
        WalkItem::Entry(entry("/r/a.jpg", true)),
        WalkItem::Fault { message: "first".to_string(), depth: 0 },
        WalkItem::Fault { message: "second".to_string(), depth: 0 },
    ];
    assert_eq!(items_outcome(&items).unwrap_err(), "first");
}

#[test]
fn faults_below_the_root_are_skipped_not_fatal() {
    let items = vec![
        WalkItem::Entry(entry("/r", false)),
        WalkItem::Entry(entry("/r/a.jpg", true)),
        WalkItem::Fault { message: "permission denied".to_string(), depth: 2 },
        WalkItem::Entry(entry("/r/b.png", true)),
        WalkItem::Entry(entry("/r/c.txt", true)),
    ];
    let files = items_outcome(&items).unwrap();
    let got: Vec<String> = files.iter().map(|f| f.path.clone()).collect();
    assert_eq!(got, vec!["/r/a.jpg".to_string(), "/r/b.png".to_string()]);
}

#[test]
fn no_items_yield_an_empty_listing() {
    let files = items_outcome(&Vec::new()).unwrap();
    assert!(files.is_empty());
}

#[test]
fn empty_directory_lists_no_images_and_is_not_an_error() {
    let dir = tempfile::tempdir().unwrap();
    let images = get_images(dir.path().to_str().unwrap()).unwrap();
    assert!(images.is_empty());
}

#[test]
fn nonexistent_root_is_an_error_not_an_empty_listing() {
    let r = get_images("/this/path/does/not/exist/anywhere");
    assert!(r.is_err());
}

#[test]
fn listing_finds_images_in_the_tree_and_skips_the_rest() {
    let dir = tempfile::tempdir().unwrap();
    let jpg = tempfile::Builder::new()
        .prefix("one")
        .suffix(".jpg")
        .tempfile_in(dir.path())
        .unwrap();
    let png = tempfile::Builder::new()
        .prefix("two")
        .suffix(".PNG")
        .tempfile_in(dir.path())
        .unwrap();
    let txt = tempfile::Builder::new()
        .prefix("three")
        .suffix(".txt")
        .tempfile_in(dir.path())
        .unwrap();
    let sub = tempfile::Builder::new().prefix("sub").tempdir_in(dir.path()).unwrap();
    let jpeg = tempfile::Builder::new()
        .prefix("four")
        .suffix(".jpeg")
        .tempfile_in(sub.path())
        .unwrap();

    let images = get_images(dir.path().to_str().unwrap()).unwrap();
    let mut got: Vec<String> = images.iter().map(|f| f.path.clone()).collect();
    got.sort();
    let mut expect: Vec<String> = vec![
        jpg.path().to_string_lossy().to_string(),
        png.path().to_string_lossy().to_string(),
        jpeg.path().to_string_lossy().to_string(),
    ];
    expect.sort();
    assert_eq!(got, expect);
    assert!(!got.contains(&txt.path().to_string_lossy().to_string()));
    for f in images.iter() {
        let tail = f.path.rsplit('/').next().unwrap();
        assert_eq!(f.name, tail);
        assert!(f.path.starts_with(dir.path().to_str().unwrap()));
    }
}
