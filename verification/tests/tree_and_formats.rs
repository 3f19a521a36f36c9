use kaleidoscope::directory_tree::{DirectoryTree, Node};
use kaleidoscope::format::{AnyFormat, Audio, Format, Heif, Raw, Standard, Thumbnailable, Video};
use kaleidoscope::format_type::{thumbnailabele_rc, thumbnailable_check, FormatType};
use kaleidoscope::media_operations::plan_update;

#[test]
fn directory_tree_counts_items_along_paths() {
    let mut tree = DirectoryTree::new();
    tree.add_path("photos/2020/a.jpg");
    tree.add_path("/photos/2020/b.jpg");
    tree.add_path("photos//2021/c.jpg");
    tree.add_path("photos/2020/a.jpg");
    let root = tree.root();
    assert_eq!(root.name, ".");
    assert_eq!(root.children.len(), 1);
    let photos = &root.children[0];
    assert_eq!(photos.name, "photos");
    assert_eq!(photos.items, 0);
    assert_eq!(photos.children.len(), 2);
    assert_eq!(photos.children[0].name, "2020");
    assert_eq!(photos.children[0].children.len(), 2);
    assert_eq!(photos.children[0].children[0].name, "a.jpg");
    assert_eq!(photos.children[0].children[0].items, 2);
    assert_eq!(photos.children[0].children[1].items, 1);
    assert_eq!(photos.children[1].name, "2021");
    assert_eq!(photos.children[1].children[0].items, 1);
}

#[test]
fn directory_tree_counts_an_empty_path_at_the_root() {
    let mut tree = DirectoryTree::new();
    tree.add_path("");
    tree.add_path("///");
    assert_eq!(tree.root().items, 2);
    assert!(tree.root().children.is_empty());
}

#[test]
fn directory_tree_draws_one_line_per_directory() {
    let mut tree = DirectoryTree::new();
    tree.add_path("a/x");
    tree.add_path("a/y");
    tree.add_path("b");
    let expected = "└─ . (0 items)\n   ├─ a (0 items)\n   │  ├─ x (1 items)\n   │  └─ y (1 items)\n   └─ b (1 items)\n";
    assert_eq!(tree.to_text(), expected);
}

#[test]
fn nodes_are_built_and_printed() {
    let mut n = Node::new("top".to_string());
    n.add_child(Node::new("child".to_string()));
    n.items = 12;
    let mut out = String::new();
    n.pretty_print(&mut out, "> ", false);
    assert_eq!(out, "> ├─ top (12 items)\n> │  └─ child (0 items)\n");
    let d = Node::default();
    assert_eq!(d.name, "");
    assert_eq!(DirectoryTree::default().root().name, "");
}

#[test]
fn formats_are_chosen_by_lowercase_extension() {
    let jpg = AnyFormat::try_new("/media/IMG_1.JPG".to_string()).unwrap();
    assert_eq!(jpg.format_type(), FormatType::Standard);
    assert_eq!(jpg.path(), "/media/IMG_1.JPG");
    assert!(jpg.is_photo());
    assert!(jpg.thumbnailable());
    assert_eq!(jpg.metadata_version(), 1);
    assert_eq!(jpg.thumbnail_version(), 0);

    let heic = AnyFormat::new("x.heic".to_string()).unwrap();
    assert_eq!(heic.format_type(), FormatType::Heif);

    let mov = AnyFormat::try_new("clips/holiday.MoV".to_string()).unwrap();
    assert_eq!(mov.format_type(), FormatType::Video);
    assert!(!mov.is_photo());
    assert_eq!(mov.metadata_version(), 2);
    assert_eq!(mov.thumbnail_version(), 1);

    let raf = AnyFormat::try_new("DSCF0001.RAF".to_string()).unwrap();
    assert_eq!(raf.format_type(), FormatType::Raw);
    assert_eq!(raf.metadata_version(), 0);

    assert!(AnyFormat::try_new("notes.txt".to_string()).is_none());
    assert!(AnyFormat::try_new("jpg".to_string()).is_none());
    assert!(AnyFormat::try_new(".png".to_string()).is_none());
    assert!(AnyFormat::try_new("dir.jpg/file".to_string()).is_none());
}

#[test]
fn format_constants() {
    assert_eq!(Standard::extensions(), vec!["jpeg", "jpg", "png"]);
    assert_eq!(Heif::extensions(), vec!["heif", "heic"]);
    assert_eq!(Video::extensions(), vec!["mp4", "mov"]);
    assert_eq!(Raw::extensions(), vec!["raf"]);
    assert!(Standard::is_supported("a.PNG"));
    assert!(!Standard::is_supported("a.gif"));
    assert_eq!(Heif::thumbnail_version(), 0);
    assert!(Audio::is_supported("song.Mp3"));
    assert!(!Audio::is_supported("song.mp4"));
    assert_eq!(Audio::metadata_version(), 1);
}

#[test]
fn thumbnailable_formats_all_have_readers() {
    assert_eq!(FormatType::all(), vec![FormatType::Standard, FormatType::Heif, FormatType::Video, FormatType::Raw]);
    assert_eq!(FormatType::thumbnailable(), FormatType::all());
    assert!(thumbnailable_check());
    assert!(thumbnailabele_rc(&[FormatType::Video, FormatType::Raw]));
    assert!(!thumbnailabele_rc(&[FormatType::Video, FormatType::Unknown]));
    assert!(thumbnailabele_rc(&[]));
}

#[test]
fn update_plans_follow_versions_and_format_changes() {
    let mov = AnyFormat::try_new("a.mov".to_string()).unwrap();
    let p = plan_update(FormatType::Video, 2, &mov);
    assert!(!p.format_change && !p.refresh_metadata);
    let p = plan_update(FormatType::Video, 1, &mov);
    assert!(!p.format_change && p.refresh_metadata);
    assert_eq!(p.metadata_version, 2);
    let p = plan_update(FormatType::Standard, 5, &mov);
    assert!(p.format_change && p.refresh_metadata);
    assert_eq!(p.format, FormatType::Video);
}

fn total(n: &Node) -> u64 {
    n.items as u64 + n.children.iter().map(total).sum::<u64>()
}

#[test]
fn each_added_path_adds_one_item_and_no_duplicate_directory() {
    let mut tree = DirectoryTree::new();
    let paths = ["a/b/c", "a/b/c", "a/x", "/a//b/", "z", ""];
    for (k, p) in paths.iter().enumerate() {
        tree.add_path(p);
        assert_eq!(total(tree.root()), k as u64 + 1);
    }
    let a = &tree.root().children[0];
    assert_eq!(a.children.iter().filter(|c| c.name == "b").count(), 1);
    assert_eq!(a.children[0].items, 1);
}

#[test]
fn directory_tree_keeps_other_counts_and_order() {
    let mut tree = DirectoryTree::new();
    let paths = ["b/x", "a/y", "b/z", "a/y", "c", "b/x"];
    for (k, p) in paths.iter().enumerate() {
        let before: Vec<String> = tree.root().children.iter().map(|c| c.name.clone()).collect();
        tree.add_path(p);
        let after = tree.root();
        assert_eq!(total(after) as usize, k + 1);
        assert!(after.children.len() >= before.len());
        for (old, new) in before.iter().zip(after.children.iter()) {
            assert_eq!(old, &new.name);
        }
    }
    let root = tree.root();
    let names: Vec<&str> = root.children.iter().map(|c| c.name.as_str()).collect();
    assert_eq!(names, vec!["b", "a", "c"]);
    assert_eq!(root.children[0].children[0].items, 2);
    assert_eq!(root.children[0].children[1].items, 1);
    assert_eq!(root.children[1].children[0].items, 2);
    assert_eq!(root.children[2].items, 1);
}

#[test]
fn paths_without_an_extension_have_no_format() {
    assert!(AnyFormat::try_new("photos/README".to_string()).is_none());
    assert!(AnyFormat::try_new("photos/.hidden".to_string()).is_none());
    assert!(!Standard::is_supported("noext"));
}
