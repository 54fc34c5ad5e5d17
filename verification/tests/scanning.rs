use linescan::filedata::{
    file_lines_from, get_file_lines, scan_and_summarize, DirWalker, ScanCollector,
    CHANNEL_CAPACITY,
};
use linescan::linecount::count_lines;
use linescan::model::{FileLineSummary, FileLines, PathFacts};
use linescan::pathmatcher::ScanMatcher;

const FILE: PathFacts = PathFacts { exists: true, is_dir: false, is_file: true };
const DIR: PathFacts = PathFacts { exists: true, is_dir: true, is_file: false };
const OTHER: PathFacts = PathFacts { exists: true, is_dir: false, is_file: false };
const GONE: PathFacts = PathFacts { exists: false, is_dir: false, is_file: false };

#[test]
fn channel_holds_fifty_paths() {
    assert_eq!(CHANNEL_CAPACITY, 50);
}

#[test]
fn counted_file_is_recorded_below_the_root() {
    let record = get_file_lines("/root", "/root/sub/a.txt".to_string(), Some(3));
    assert_eq!(record.file, "sub/a.txt");
    assert_eq!(record.lines, 3);
}

#[test]
fn unopened_file_is_recorded_with_no_lines() {
    let record = get_file_lines("/root", "/root/locked.txt".to_string(), None);
    assert_eq!(record.file, "locked.txt");
    assert_eq!(record.lines, 0);
}

#[test]
fn file_outside_the_root_keeps_its_whole_path() {
    let record = get_file_lines("/root", "/elsewhere/a.txt".to_string(), Some(2));
    assert_eq!(record.file, "/elsewhere/a.txt");
    assert_eq!(record.lines, 2);
    let record = get_file_lines("/root", "/rootless/a.txt".to_string(), Some(2));
    assert_eq!(record.file, "/rootless/a.txt");
}

#[test]
fn record_from_its_parts() {
    let record = file_lines_from(Some("a.txt".to_string()), "/root/a.txt".to_string(), Some(4));
    assert_eq!((record.file.as_str(), record.lines), ("a.txt", 4));
    let record = file_lines_from(None, "/root/a.txt".to_string(), Some(4));
    assert_eq!((record.file.as_str(), record.lines), ("/root/a.txt", 4));
    let record = file_lines_from(Some("a.txt".to_string()), "/root/a.txt".to_string(), None);
    assert_eq!((record.file.as_str(), record.lines), ("a.txt", 0));
    let record = file_lines_from(None, "/root/a.txt".to_string(), None);
    assert_eq!((record.file.as_str(), record.lines), ("/root/a.txt", 0));
}

#[test]
fn collector_drops_the_units_that_broke_off() {
    let mut collector = ScanCollector::new();
    collector.record(Some(FileLines { file: "a".to_string(), lines: 1 }));
    collector.record(None);
    collector.record(Some(FileLines { file: "b".to_string(), lines: 0 }));
    collector.record(None);
    let gathered = collector.finish();
    assert_eq!(gathered.len(), 2);
    assert_eq!((gathered[0].file.as_str(), gathered[0].lines), ("a", 1));
    assert_eq!((gathered[1].file.as_str(), gathered[1].lines), ("b", 0));
}

#[test]
fn collector_without_outcomes_is_empty() {
    assert!(ScanCollector::new().finish().is_empty());
}

#[test]
fn walk_begins_with_the_root_and_ends() {
    let mut walker = DirWalker::new("/root".to_string(), ScanMatcher::for_extension(None));
    assert_eq!(walker.next_dir(), Some("/root".to_string()));
    assert_eq!(walker.next_dir(), None);
    assert_eq!(walker.next_dir(), None);
}

#[test]
fn walk_lists_directories_in_the_order_found() {
    let mut walker = DirWalker::new("/r".to_string(), ScanMatcher::for_extension(None));
    assert_eq!(walker.next_dir(), Some("/r".to_string()));
    assert_eq!(walker.visit("/r/x".to_string(), "/r/x", DIR), None);
    assert_eq!(walker.visit("/r/y".to_string(), "/r/y", DIR), None);
    assert_eq!(walker.next_dir(), Some("/r/x".to_string()));
    assert_eq!(walker.visit("/r/x/deep".to_string(), "/r/x/deep", DIR), None);
    assert_eq!(walker.next_dir(), Some("/r/y".to_string()));
    assert_eq!(walker.next_dir(), Some("/r/x/deep".to_string()));
    assert_eq!(walker.next_dir(), None);
}

#[test]
fn walk_hands_back_the_files_that_match() {
    let mut walker =
        DirWalker::new("/r".to_string(), ScanMatcher::for_extension(Some("txt".to_string())));
    assert_eq!(walker.next_dir(), Some("/r".to_string()));
    assert_eq!(walker.visit("/r/a.txt".to_string(), "/r/a.txt", FILE), Some("/r/a.txt".to_string()));
    assert_eq!(walker.visit("/r/c.log".to_string(), "/r/c.log", FILE), None);
    assert_eq!(walker.visit("/r/pipe.txt".to_string(), "/r/pipe.txt", OTHER), None);
    assert_eq!(walker.visit("/r/gone.txt".to_string(), "/r/gone.txt", GONE), None);
    assert_eq!(walker.visit("/r/dir.txt".to_string(), "/r/dir.txt", DIR), None);
    assert_eq!(walker.next_dir(), Some("/r/dir.txt".to_string()));
    assert_eq!(walker.next_dir(), None);
}

#[test]
fn entry_seen_as_file_is_never_walked_into() {
    let both = PathFacts { exists: true, is_dir: true, is_file: true };
    let mut walker = DirWalker::new("/r".to_string(), ScanMatcher::for_extension(None));
    assert_eq!(walker.next_dir(), Some("/r".to_string()));
    assert_eq!(walker.visit("/r/odd".to_string(), "/r/odd", both), Some("/r/odd".to_string()));
    assert_eq!(walker.next_dir(), None);
}

fn scan_in_memory(
    root: &str,
    ext: Option<&str>,
    dirs: &[(&str, Vec<(&str, PathFacts)>)],
    contents: &[(&str, Option<&[u8]>)],
) -> (Vec<FileLines>, FileLineSummary) {
    let matcher = ScanMatcher::for_extension(ext.map(|e| e.to_string()));
    let mut walker = DirWalker::new(root.to_string(), matcher);
    let mut found = Vec::new();
    while let Some(dir) = walker.next_dir() {
        if let Some((_, entries)) = dirs.iter().find(|(name, _)| *name == dir) {
            for (path, facts) in entries {
                if let Some(file) = walker.visit(path.to_string(), path, *facts) {
                    found.push(file);
                }
            }
        }
    }
    let mut collector = ScanCollector::new();
    for path in found {
        let content = contents.iter().find(|(name, _)| *name == path).and_then(|(_, c)| *c);
        let counted = content.map(count_lines);
        collector.record(Some(get_file_lines(root, path, counted)));
    }
    scan_and_summarize(collector.finish())
}

fn tree() -> Vec<(&'static str, Vec<(&'static str, PathFacts)>)> {
    vec![
        ("/root", vec![("/root/a.txt", FILE), ("/root/b.txt", FILE), ("/root/sub", DIR)]),
        ("/root/sub", vec![("/root/sub/c.log", FILE)]),
    ]
}

fn files() -> Vec<(&'static str, Option<&'static [u8]>)> {
    vec![
        ("/root/a.txt", Some(b"1\n2\n3\n".as_slice())),
        ("/root/b.txt", Some(b"1\n".as_slice())),
        ("/root/sub/c.log", Some(b"1\n2\n3\n4\n5\n".as_slice())),
    ]
}

#[test]
fn scan_filtered_on_txt() {
    let (list, summary) = scan_in_memory("/root", Some("txt"), &tree(), &files());
    let pairs: Vec<(&str, usize)> = list.iter().map(|f| (f.file.as_str(), f.lines)).collect();
    assert_eq!(pairs, vec![("b.txt", 1), ("a.txt", 3)]);
    assert_eq!(summary, FileLineSummary { files: 2, sum: 4, max: 3, min: 1, median: 3 });
    assert_eq!(summary.sum as f64 / summary.files as f64, 2.0);
}

#[test]
fn scan_without_filter_finds_every_file() {
    let (list, summary) = scan_in_memory("/root", None, &tree(), &files());
    let pairs: Vec<(&str, usize)> = list.iter().map(|f| (f.file.as_str(), f.lines)).collect();
    assert_eq!(pairs, vec![("b.txt", 1), ("a.txt", 3), ("sub/c.log", 5)]);
    assert_eq!(summary, FileLineSummary { files: 3, sum: 9, max: 5, min: 1, median: 3 });
}

#[test]
fn scan_of_an_unreadable_root_is_empty() {
    let (list, summary) = scan_in_memory("/missing", None, &tree(), &files());
    assert!(list.is_empty());
    assert_eq!(summary, FileLineSummary { files: 0, sum: 0, max: 0, min: 0, median: 0 });
}

#[test]
fn scan_of_an_empty_directory_is_empty() {
    let (list, summary) = scan_in_memory("/empty", None, &[("/empty", vec![])], &[]);
    assert!(list.is_empty());
    assert_eq!(summary.files, 0);
}

#[test]
fn unopened_file_stays_in_the_scan() {
    let contents: Vec<(&str, Option<&[u8]>)> = vec![
        ("/root/a.txt", None),
        ("/root/b.txt", Some(b"1\n".as_slice())),
        ("/root/sub/c.log", Some(b"1\n2\n".as_slice())),
    ];
    let (list, summary) = scan_in_memory("/root", None, &tree(), &contents);
    let pairs: Vec<(&str, usize)> = list.iter().map(|f| (f.file.as_str(), f.lines)).collect();
    assert_eq!(pairs, vec![("a.txt", 0), ("b.txt", 1), ("sub/c.log", 2)]);
    assert_eq!(summary, FileLineSummary { files: 3, sum: 3, max: 2, min: 0, median: 1 });
}
