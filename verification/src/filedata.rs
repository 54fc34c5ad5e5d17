use vstd::prelude::*;
use std::collections::VecDeque;
use crate::model::{FileLineSummary, FileLines, PathFacts, summary_of, total_lines, lemma_total_lines_prefix};
use crate::pathmatcher::{PathMatcher, ScanMatcher, eligible};
use crate::paths::{path_strip_prefix, relative_to};
use crate::sorting::{is_stable_sort_of, sort_by_lines};

verus! {

/// How many found paths may wait to be counted before the walk has to pause.
pub const CHANNEL_CAPACITY: usize = 50;

/// The sum of the line counts of `file_lines`, where it fits a `usize`.
pub fn checked_total(file_lines: &Vec<FileLines>) -> (total: Option<usize>)
    ensures
        match total {
            Some(sum) => sum == total_lines(file_lines@),
            None => total_lines(file_lines@) > usize::MAX,
        },
{
    let mut sum: usize = 0;
    let mut i: usize = 0;
    while i < file_lines.len()
        invariant
            i <= file_lines@.len(),
            sum == total_lines(file_lines@.take(i as int)),
        decreases file_lines@.len() - i,
    {
        proof {
            lemma_total_lines_prefix(file_lines@, i + 1);
            assert(file_lines@.take(i + 1).drop_last() =~= file_lines@.take(i as int));
        }
        match sum.checked_add(file_lines[i].lines) {
            Some(next) => {
                sum = next;
            },
            None => {
                return None;
            },
        }
        i = i + 1;
    }
    proof {
        assert(file_lines@.take(i as int) =~= file_lines@);
    }
    Some(sum)
}

/// Puts the line counts of a scan in ascending order of lines, files with
/// equal counts in the order in which they were handed in, and summarises
/// them.
pub fn scan_and_summarize(file_lines: Vec<FileLines>) -> (result: (Vec<FileLines>, FileLineSummary))
    requires
        total_lines(file_lines@) <= usize::MAX,
    ensures
        is_stable_sort_of(result.0@, file_lines@),
        result.1 == summary_of(result.0@),
        result.1.files == file_lines@.len(),
        result.1.sum == total_lines(file_lines@),
{
    let sorted = sort_by_lines(file_lines);
    let summary = FileLineSummary::get_summary(&sorted);
    (sorted, summary)
}

/// A scan that found no file has an empty list and an all-zero summary.
pub proof fn lemma_empty_scan(sorted: Seq<FileLines>, files: Seq<FileLines>)
    requires
        files.len() == 0,
        is_stable_sort_of(sorted, files),
    ensures
        sorted.len() == 0,
        summary_of(sorted) == (FileLineSummary { files: 0, sum: 0, max: 0, min: 0, median: 0 }),
{
}

/// The path under which a file is recorded: what is left of it below the
/// scanned root, or the whole path where it does not lie below the root.
pub open spec fn recorded_path(file_path: Seq<char>, base_dir: Seq<char>) -> Seq<char> {
    match relative_to(file_path, base_dir) {
        Some(rest) => rest,
        None => file_path,
    }
}

/// The record of one file. `stripped` is the file's path below the scanned
/// root, or `None` where it does not lie below it; `counted` is the file's
/// line count, or `None` where the file could not be opened.
pub fn file_lines_from(stripped: Option<String>, file_path: String, counted: Option<usize>) -> (record: FileLines)
    ensures
        record.file == match stripped {
            Some(rest) => rest,
            None => file_path,
        },
        record.lines == match counted {
            Some(lines) => lines,
            None => 0,
        },
{
    let file = match stripped {
        Some(rest) => rest,
        None => file_path,
    };
    let lines = match counted {
        Some(lines) => lines,
        None => 0,
    };
    FileLines { file, lines }
}

/// The record of the file at `file_path`, found in a scan of `base_dir`.
/// `counted` is its line count, or `None` where it could not be opened: it is
/// then recorded with no lines.
pub fn get_file_lines(base_dir: &str, file_path: String, counted: Option<usize>) -> (record: FileLines)
    ensures
        record.file@ == recorded_path(file_path@, base_dir@),
        record.lines == match counted {
            Some(lines) => lines,
            None => 0,
        },
{
    let stripped = path_strip_prefix(file_path.as_str(), base_dir);
    file_lines_from(stripped, file_path, counted)
}

/// Gathers the records of a scan as its counting units end. Its view is the
/// records gathered so far, in the order in which they came.
pub struct ScanCollector {
    file_lines: Vec<FileLines>,
}

impl View for ScanCollector {
    type V = Seq<FileLines>;

    closed spec fn view(&self) -> Seq<FileLines> {
        self.file_lines@
    }
}

impl ScanCollector {
    /// A collector before the first unit has ended.
    pub fn new() -> (collector: Self)
        ensures
            collector@ == Seq::<FileLines>::empty(),
    {
        ScanCollector { file_lines: Vec::new() }
    }

    /// Takes the outcome of one counting unit: its record, or `None` where
    /// the unit broke off. Such a file is left out of the result.
    pub fn record(&mut self, outcome: Option<FileLines>)
        ensures
            final(self)@ == match outcome {
                Some(record) => old(self)@.push(record),
                None => old(self)@,
            },
    {
        match outcome {
            Some(record) => {
                self.file_lines.push(record);
            },
            None => {},
        }
    }

    /// The records gathered, in the order in which the units ended.
    pub fn finish(self) -> (file_lines: Vec<FileLines>)
        ensures
            file_lines@ == self@,
    {
        self.file_lines
    }
}

/// What a walk hands back for an entry that it was shown as `entry`, with
/// the path `path`: the entry itself where it is a regular file whose path
/// `matcher` takes, else nothing.
pub open spec fn found_by<M: PathMatcher, P>(
    matcher: M,
    entry: P,
    path: Seq<char>,
    facts: PathFacts,
) -> Option<P> {
    if facts.is_file && matcher.matches_spec(path) {
        Some(entry)
    } else {
        None
    }
}

/// The directories still to list once a walk that had `pending` to list has
/// been shown `entry`: a directory is put last, anything else changes nothing.
pub open spec fn pending_with<P>(pending: Seq<P>, entry: P, facts: PathFacts) -> Seq<P> {
    if !facts.is_file && facts.is_dir {
        pending.push(entry)
    } else {
        pending
    }
}

/// A scan with an optional extension filter hands back an entry if and only
/// if it is a regular file and, where there is a filter, its extension is
/// exactly the filter.
pub proof fn lemma_found_iff_eligible<P>(
    matcher: ScanMatcher,
    entry: P,
    path: Seq<char>,
    facts: PathFacts,
)
    ensures
        found_by(matcher, entry, path, facts).is_some() <==> facts.is_file && eligible(
            matcher.filter(),
            path,
        ),
        matcher.filter().is_none() ==> (found_by(matcher, entry, path, facts).is_some()
            <==> facts.is_file),
        found_by(matcher, entry, path, facts) matches Some(found) ==> found == entry,
{
}

/// The walk over a directory tree, one step at a time: the directories still
/// to be listed, first found first, and the matcher that picks the files.
/// `P` is what the caller reaches an entry by; the walk hands it on untouched.
pub struct DirWalker<M, P> where M: PathMatcher {
    pending: VecDeque<P>,
    matcher: M,
}

impl<M, P> DirWalker<M, P> where M: PathMatcher {
    /// The directories found and not yet listed, in the order in which they
    /// will be listed.
    pub closed spec fn pending(&self) -> Seq<P> {
        self.pending@
    }

    /// The matcher that picks the files.
    pub closed spec fn matcher(&self) -> M {
        self.matcher
    }

    /// A walk that has the root still to list.
    pub fn new(root_dir: P, matcher: M) -> (walker: Self)
        ensures
            walker.pending() == seq![root_dir],
            walker.matcher() == matcher,
    {
        let mut pending: VecDeque<P> = VecDeque::new();
        pending.push_back(root_dir);
        DirWalker { pending, matcher }
    }

    /// The next directory to list; `None` once the walk is over.
    pub fn next_dir(&mut self) -> (dir: Option<P>)
        ensures
            final(self).matcher() == old(self).matcher(),
            old(self).pending().len() == 0 ==> dir.is_none()
                && final(self).pending() == old(self).pending(),
            old(self).pending().len() > 0 ==> dir == Some(old(self).pending()[0])
                && final(self).pending() == old(self).pending().drop_first(),
    {
        self.pending.pop_front()
    }

    /// Decides on one entry of the directory being listed, whose path is
    /// `path`. A regular file that the matcher takes is handed back to be
    /// counted; a directory is put last among those still to list; anything
    /// else is passed over.
    pub fn visit(&mut self, entry: P, path: &str, facts: PathFacts) -> (found: Option<P>)
        ensures
            final(self).matcher() == old(self).matcher(),
            found == found_by(old(self).matcher(), entry, path@, facts),
            final(self).pending() == pending_with(old(self).pending(), entry, facts),
    {
        if facts.is_file {
            if self.matcher.matches(path) {
                Some(entry)
            } else {
                None
            }
        } else {
            if facts.is_dir {
                self.pending.push_back(entry);
            }
            None
        }
    }
}

} // verus!
