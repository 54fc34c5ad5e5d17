use linescan::filedata::{checked_total, scan_and_summarize};
use linescan::model::{FileLineSummary, FileLines};
use linescan::sorting::sort_by_lines;

fn entry(file: &str, lines: usize) -> FileLines {
    FileLines { file: file.to_string(), lines }
}

fn pairs(files: &Vec<FileLines>) -> Vec<(String, usize)> {
    files.iter().map(|f| (f.file.clone(), f.lines)).collect()
}

#[test]
fn summary_of_nothing_is_all_zero() {
    let summary = FileLineSummary::get_summary(&Vec::new());
    assert_eq!(summary, FileLineSummary { files: 0, sum: 0, max: 0, min: 0, median: 0 });
}

#[test]
fn summary_of_one_file() {
    let summary = FileLineSummary::get_summary(&vec![entry("only", 7)]);
    assert_eq!(summary, FileLineSummary { files: 1, sum: 7, max: 7, min: 7, median: 7 });
}

#[test]
fn median_of_an_even_count_is_the_upper_middle() {
    let files = vec![entry("a", 1), entry("b", 2), entry("c", 10), entry("d", 20)];
    let summary = FileLineSummary::get_summary(&files);
    assert_eq!(summary, FileLineSummary { files: 4, sum: 33, max: 20, min: 1, median: 10 });
}

#[test]
fn median_of_an_odd_count_is_the_middle() {
    let files = vec![entry("a", 1), entry("b", 2), entry("c", 10)];
    let summary = FileLineSummary::get_summary(&files);
    assert_eq!(summary, FileLineSummary { files: 3, sum: 13, max: 10, min: 1, median: 2 });
}

#[test]
fn summary_reads_first_last_and_middle_as_they_stand() {
    let files = vec![entry("a", 9), entry("b", 2), entry("c", 5)];
    let summary = FileLineSummary::get_summary(&files);
    assert_eq!(summary, FileLineSummary { files: 3, sum: 16, max: 5, min: 9, median: 2 });
}

#[test]
fn mean_is_sum_over_files() {
    let (_, summary) = scan_and_summarize(vec![entry("a.txt", 3), entry("b.txt", 1)]);
    let mean = summary.sum as f64 / summary.files as f64;
    assert_eq!(mean, 2.0);
}

#[test]
fn two_text_files_sorted_and_summarised() {
    let (files, summary) = scan_and_summarize(vec![entry("a.txt", 3), entry("b.txt", 1)]);
    assert_eq!(pairs(&files), vec![("b.txt".to_string(), 1), ("a.txt".to_string(), 3)]);
    assert_eq!(summary, FileLineSummary { files: 2, sum: 4, max: 3, min: 1, median: 3 });
}

#[test]
fn scan_of_nothing_is_empty_with_zero_summary() {
    let (files, summary) = scan_and_summarize(Vec::new());
    assert!(files.is_empty());
    assert_eq!(summary, FileLineSummary { files: 0, sum: 0, max: 0, min: 0, median: 0 });
}

#[test]
fn sort_is_ascending() {
    let sorted = sort_by_lines(vec![
        entry("e", 5),
        entry("c", 3),
        entry("z", 0),
        entry("d", 4),
        entry("a", 1),
        entry("b", 2),
        entry("f", 6),
    ]);
    let lines: Vec<usize> = sorted.iter().map(|f| f.lines).collect();
    assert_eq!(lines, vec![0, 1, 2, 3, 4, 5, 6]);
    for i in 0..sorted.len() - 1 {
        assert!(sorted[i].lines <= sorted[i + 1].lines);
    }
}

#[test]
fn sort_keeps_the_order_of_equal_counts() {
    let sorted = sort_by_lines(vec![
        entry("first", 2),
        entry("x", 9),
        entry("second", 2),
        entry("y", 0),
        entry("third", 2),
        entry("w", 9),
    ]);
    assert_eq!(
        pairs(&sorted),
        vec![
            ("y".to_string(), 0),
            ("first".to_string(), 2),
            ("second".to_string(), 2),
            ("third".to_string(), 2),
            ("x".to_string(), 9),
            ("w".to_string(), 9),
        ]
    );
}

#[test]
fn sort_of_many_keeps_every_entry() {
    let mut files = Vec::new();
    for i in 0..1000usize {
        files.push(entry(&format!("f{}", i), (i * 7919) % 101));
    }
    let sorted = sort_by_lines(files);
    assert_eq!(sorted.len(), 1000);
    let mut seen = vec![false; 1000];
    for i in 0..sorted.len() {
        if i > 0 {
            assert!(sorted[i - 1].lines <= sorted[i].lines);
            if sorted[i - 1].lines == sorted[i].lines {
                let before: usize = sorted[i - 1].file[1..].parse().unwrap();
                let after: usize = sorted[i].file[1..].parse().unwrap();
                assert!(before < after);
            }
        }
        let index: usize = sorted[i].file[1..].parse().unwrap();
        assert_eq!(sorted[i].lines, (index * 7919) % 101);
        assert!(!seen[index]);
        seen[index] = true;
    }
}

#[test]
fn sort_of_one_and_none() {
    assert!(sort_by_lines(Vec::new()).is_empty());
    assert_eq!(pairs(&sort_by_lines(vec![entry("a", 4)])), vec![("a".to_string(), 4)]);
}

#[test]
fn total_that_fits() {
    assert_eq!(checked_total(&vec![entry("a", 3), entry("b", 1), entry("c", 5)]), Some(9));
    assert_eq!(checked_total(&Vec::new()), Some(0));
}

#[test]
fn total_that_does_not_fit() {
    assert_eq!(checked_total(&vec![entry("a", usize::MAX), entry("b", 1)]), None);
    assert_eq!(checked_total(&vec![entry("a", usize::MAX), entry("b", 0)]), Some(usize::MAX));
}
