use linescan::filedata::get_file_lines;
use linescan::linecount::{count_lines, LineCounter};

#[test]
fn empty_file_has_no_lines() {
    assert_eq!(count_lines(b""), 0);
}

#[test]
fn each_line_feed_ends_a_line() {
    assert_eq!(count_lines(b"a\n"), 1);
    assert_eq!(count_lines(b"a\nb\nc\n"), 3);
    assert_eq!(count_lines(b"\n\n\n"), 3);
}

#[test]
fn what_follows_the_last_line_feed_is_not_counted() {
    assert_eq!(count_lines(b"a"), 0);
    assert_eq!(count_lines(b"a\nb"), 1);
    assert_eq!(count_lines(b"a\n\nb"), 2);
}

#[test]
fn record_of_a_file_without_final_line_feed() {
    let record = get_file_lines("/root", "/root/ab.txt".to_string(), Some(count_lines(b"a\nb")));
    assert_eq!(record.file, "ab.txt");
    assert_eq!(record.lines, 1);
}

#[test]
fn carriage_return_alone_ends_no_line() {
    assert_eq!(count_lines(b"a\rb"), 0);
    assert_eq!(count_lines(b"a\rb\n"), 1);
    assert_eq!(count_lines(b"a\r\nb\r\n"), 2);
}

#[test]
fn bytes_that_are_no_text_are_counted_too() {
    assert_eq!(count_lines(&[0xff, 0xfe, 10, 0x80, 10, 0xc3]), 2);
    assert_eq!(count_lines(&[0xff, 0xfe, 10, 0x80, 10, 0xc3, 10]), 3);
}

#[test]
fn counter_starts_at_nothing() {
    let counter = LineCounter::new();
    assert_eq!(counter.finish(), 0);
}

#[test]
fn pieces_count_as_the_whole() {
    let whole: &[u8] = b"one\ntwo\r\nthree\n\nfive";
    for cut in 0..=whole.len() {
        let mut counter = LineCounter::new();
        counter.feed(&whole[..cut]);
        counter.feed(&whole[cut..]);
        assert_eq!(counter.finish(), count_lines(whole));
        assert_eq!(counter.finish(), 4);
    }
}

#[test]
fn empty_piece_changes_nothing() {
    let mut counter = LineCounter::new();
    counter.feed(b"a\nb");
    counter.feed(b"");
    assert_eq!(counter.finish(), 1);
}

#[test]
fn count_grows_with_each_line_feed_read() {
    let mut counter = LineCounter::new();
    counter.feed(b"a\nb\nc");
    assert_eq!(counter.finish(), 2);
    counter.feed(b"\n");
    assert_eq!(counter.finish(), 3);
    counter.feed(b"d");
    assert_eq!(counter.finish(), 3);
}
