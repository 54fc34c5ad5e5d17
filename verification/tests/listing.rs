use linescan::filesystem::{get_directory_content, ChildEntry};
use linescan::model::{FsItemInfo, FsItemType, NotBelowBase, PathFacts};

const FILE: PathFacts = PathFacts { exists: true, is_dir: false, is_file: true };
const DIR: PathFacts = PathFacts { exists: true, is_dir: true, is_file: false };
const OTHER: PathFacts = PathFacts { exists: true, is_dir: false, is_file: false };
const GONE: PathFacts = PathFacts { exists: false, is_dir: false, is_file: false };

fn child(path: &str, facts: PathFacts) -> ChildEntry {
    ChildEntry { path: path.to_string(), facts }
}

fn shown(items: &Vec<FsItemInfo>) -> Vec<(&str, FsItemType)> {
    items.iter().map(|i| (i.name.as_str(), i.item_type)).collect()
}

#[test]
fn kind_of_an_entry() {
    assert_eq!(FsItemType::of(DIR), FsItemType::Dir);
    assert_eq!(FsItemType::of(FILE), FsItemType::File);
    assert_eq!(FsItemType::of(OTHER), FsItemType::Unknown);
    assert_eq!(FsItemType::of(GONE), FsItemType::Missing);
}

#[test]
fn kind_goes_by_existence_first_then_directory() {
    let nothing_but_flags = PathFacts { exists: false, is_dir: true, is_file: true };
    assert_eq!(FsItemType::of(nothing_but_flags), FsItemType::Missing);
    let both = PathFacts { exists: true, is_dir: true, is_file: true };
    assert_eq!(FsItemType::of(both), FsItemType::Dir);
}

#[test]
fn entry_is_named_below_its_base() {
    let item = FsItemInfo::create_from_base("/home/user/notes.txt", "/home/user", FILE).unwrap();
    assert_eq!(item.name, "notes.txt");
    assert_eq!(item.item_type, FsItemType::File);
    let item = FsItemInfo::create_from_base("/home/user/a/b", "/home", DIR).unwrap();
    assert_eq!(item.name, "user/a/b");
    assert_eq!(item.item_type, FsItemType::Dir);
}

#[test]
fn entry_outside_its_base_fails() {
    assert_eq!(
        FsItemInfo::create_from_base("/var/log", "/home", DIR).err(),
        Some(NotBelowBase)
    );
    assert!(FsItemInfo::create_from_base("/homework", "/home", DIR).is_err());
}

#[test]
fn entry_from_its_parts() {
    let item = FsItemInfo::from_stripped(Some("x".to_string()), GONE).unwrap();
    assert_eq!((item.name.as_str(), item.item_type), ("x", FsItemType::Missing));
    assert!(FsItemInfo::from_stripped(None, FILE).is_err());
}

#[test]
fn parent_entry_is_two_dots() {
    let parent = FsItemInfo::parent_dir();
    assert_eq!(parent.name, "..");
    assert_eq!(parent.item_type, FsItemType::Dir);
}

#[test]
fn listing_with_files() {
    let entries = vec![
        child("/home/user/docs", DIR),
        child("/home/user/a.txt", FILE),
        child("/home/user/socket", OTHER),
        child("/home/user/dangling", GONE),
    ];
    let contents = get_directory_content("/home/user", &entries, true);
    assert_eq!(
        shown(&contents),
        vec![
            ("..", FsItemType::Dir),
            ("docs", FsItemType::Dir),
            ("a.txt", FsItemType::File),
            ("socket", FsItemType::Unknown),
            ("dangling", FsItemType::Missing),
        ]
    );
}

#[test]
fn listing_without_files_keeps_directories_only() {
    let entries = vec![
        child("/home/user/docs", DIR),
        child("/home/user/a.txt", FILE),
        child("/home/user/more", DIR),
        child("/home/user/dangling", GONE),
    ];
    let contents = get_directory_content("/home/user", &entries, false);
    assert_eq!(
        shown(&contents),
        vec![("..", FsItemType::Dir), ("docs", FsItemType::Dir), ("more", FsItemType::Dir)]
    );
}

#[test]
fn root_has_no_parent_entry() {
    let entries = vec![child("/etc", DIR), child("/vmlinuz", FILE)];
    let contents = get_directory_content("/", &entries, true);
    assert_eq!(shown(&contents), vec![("etc", FsItemType::Dir), ("vmlinuz", FsItemType::File)]);
}

#[test]
fn child_outside_the_directory_is_left_out() {
    let entries = vec![child("/elsewhere/x", FILE), child("/home/y", FILE)];
    let contents = get_directory_content("/home", &entries, true);
    assert_eq!(shown(&contents), vec![("..", FsItemType::Dir), ("y", FsItemType::File)]);
}

#[test]
fn empty_directory_lists_its_parent_only() {
    let contents = get_directory_content("/home/user", &Vec::new(), true);
    assert_eq!(shown(&contents), vec![("..", FsItemType::Dir)]);
}
