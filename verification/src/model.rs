use vstd::prelude::*;
use crate::paths::{path_strip_prefix, relative_to};

verus! {

/// The line count of one file. `file` is relative to the scanned root wherever
/// the path could be made relative.
#[derive(Debug)]
pub struct FileLines {
    pub file: String,
    pub lines: usize,
}

/// The sum of the line counts of a list of files.
pub open spec fn total_lines(files: Seq<FileLines>) -> int
    decreases files.len(),
{
    if files.len() == 0 {
        0
    } else {
        total_lines(files.drop_last()) + files.last().lines
    }
}

/// Every entry has at most as many lines as each entry after it.
pub open spec fn sorted_by_lines(files: Seq<FileLines>) -> bool {
    forall|i: int, j: int| 0 <= i <= j < files.len() ==> files[i].lines <= files[j].lines
}

/// Aggregate statistics over the line counts of one scan. The mean is not
/// stored: it is the quotient of `sum` by `files`, which the caller forms in
/// the number type it presents.
#[derive(Debug, Clone, Copy, PartialEq, Eq, Structural)]
pub struct FileLineSummary {
    pub files: usize,
    pub sum: usize,
    pub max: usize,
    pub min: usize,
    pub median: usize,
}

/// The summary of a list of files: all zero for the empty list; otherwise the
/// count, the total, the last and the first entry's lines, and the lines of
/// the entry at index `len / 2`.
pub open spec fn summary_of(files: Seq<FileLines>) -> FileLineSummary {
    if files.len() == 0 {
        FileLineSummary { files: 0, sum: 0, max: 0, min: 0, median: 0 }
    } else {
        FileLineSummary {
            files: files.len() as usize,
            sum: total_lines(files) as usize,
            max: files.last().lines,
            min: files.first().lines,
            median: files[files.len() as int / 2].lines,
        }
    }
}

/// The total of a prefix never exceeds the total of the whole list.
pub proof fn lemma_total_lines_prefix(files: Seq<FileLines>, n: int)
    requires
        0 <= n <= files.len(),
    ensures
        0 <= total_lines(files.take(n)) <= total_lines(files),
    decreases files.len() - n,
{
    if n == files.len() {
        assert(files.take(n) =~= files);
        lemma_total_lines_nonnegative(files);
    } else {
        lemma_total_lines_prefix(files, n + 1);
        assert(files.take(n + 1).drop_last() =~= files.take(n));
        lemma_total_lines_nonnegative(files.take(n));
    }
}

/// A total of line counts is never negative.
pub proof fn lemma_total_lines_nonnegative(files: Seq<FileLines>)
    ensures
        0 <= total_lines(files),
    decreases files.len(),
{
    if files.len() > 0 {
        lemma_total_lines_nonnegative(files.drop_last());
    }
}

/// The summary of no files is all zero.
pub proof fn lemma_summary_of_nothing(files: Seq<FileLines>)
    requires
        files.len() == 0,
    ensures
        summary_of(files) == (FileLineSummary { files: 0, sum: 0, max: 0, min: 0, median: 0 }),
{
}

/// In the summary of an ascending list no file has fewer lines than `min`
/// or more than `max`, and `median` lies between the two.
pub proof fn lemma_summary_bounds(files: Seq<FileLines>)
    requires
        files.len() > 0,
        sorted_by_lines(files),
    ensures
        forall|i: int|
            0 <= i < files.len() ==> summary_of(files).min <= (#[trigger] files[i]).lines
                <= summary_of(files).max,
        summary_of(files).min <= summary_of(files).median <= summary_of(files).max,
{
    let middle = files.len() as int / 2;
    assert(files.first().lines <= files[middle].lines);
    assert(files[middle].lines <= files.last().lines);
}

impl FileLineSummary {
    /// Summarises a list of line counts that is already in ascending order.
    pub fn get_summary(sorted_file_lines: &Vec<FileLines>) -> (summary: FileLineSummary)
        requires
            total_lines(sorted_file_lines@) <= usize::MAX,
        ensures
            summary == summary_of(sorted_file_lines@),
            summary.files == sorted_file_lines@.len(),
            summary.sum == total_lines(sorted_file_lines@),
    {
        let files: usize = sorted_file_lines.len();
        if files == 0 {
            return FileLineSummary { files: 0, sum: 0, max: 0, min: 0, median: 0 };
        }
        let mut sum: usize = 0;
        let mut i: usize = 0;
        while i < files
            invariant
                i <= files,
                files == sorted_file_lines@.len(),
                sum == total_lines(sorted_file_lines@.take(i as int)),
                total_lines(sorted_file_lines@) <= usize::MAX,
            decreases files - i,
        {
            proof {
                lemma_total_lines_prefix(sorted_file_lines@, i + 1);
                assert(sorted_file_lines@.take(i + 1).drop_last() =~= sorted_file_lines@.take(
                    i as int,
                ));
            }
            sum = sum + sorted_file_lines[i].lines;
            i = i + 1;
        }
        proof {
            assert(sorted_file_lines@.take(files as int) =~= sorted_file_lines@);
        }
        FileLineSummary {
            files,
            sum,
            max: sorted_file_lines[files - 1].lines,
            min: sorted_file_lines[0].lines,
            median: sorted_file_lines[files / 2].lines,
        }
    }
}

/// What was observed of a path on disk.
#[derive(Debug, Clone, Copy, PartialEq, Eq, Structural)]
pub struct PathFacts {
    /// Something exists at the path.
    pub exists: bool,
    /// The path leads to a directory.
    pub is_dir: bool,
    /// The path leads to a regular file.
    pub is_file: bool,
}

/// The kind of a file-system entry.
#[derive(Debug, Clone, Copy, PartialEq, Eq, Structural)]
pub enum FsItemType {
    Dir,
    File,
    Missing,
    Unknown,
}

/// The kind of an entry of which `facts` were observed: missing where nothing
/// exists; else a directory, else a regular file, else unknown.
pub open spec fn item_type_of(facts: PathFacts) -> FsItemType {
    if !facts.exists {
        FsItemType::Missing
    } else if facts.is_dir {
        FsItemType::Dir
    } else if facts.is_file {
        FsItemType::File
    } else {
        FsItemType::Unknown
    }
}

impl FsItemType {
    /// The kind of an entry of which `facts` were observed.
    pub fn of(facts: PathFacts) -> (item_type: Self)
        ensures
            item_type == item_type_of(facts),
    {
        if facts.exists {
            if facts.is_dir {
                FsItemType::Dir
            } else if facts.is_file {
                FsItemType::File
            } else {
                FsItemType::Unknown
            }
        } else {
            FsItemType::Missing
        }
    }
}

/// A path was asked to be named below a directory that it does not lie in.
#[derive(Debug, Clone, Copy, PartialEq, Eq, Structural)]
pub struct NotBelowBase;

/// One entry of a directory listing: its name below the listed directory and
/// its kind.
#[derive(Debug)]
pub struct FsItemInfo {
    pub name: String,
    pub item_type: FsItemType,
}

impl View for FsItemInfo {
    type V = (Seq<char>, FsItemType);

    open spec fn view(&self) -> (Seq<char>, FsItemType) {
        (self.name@, self.item_type)
    }
}

/// The name of the entry that leads to the parent directory.
pub open spec fn parent_name() -> Seq<char> {
    seq!['.', '.']
}

impl FsItemInfo {
    /// The entry for a path of which `facts` were observed. `stripped` is the
    /// path below the listed directory, or `None` where it does not lie in it.
    pub fn from_stripped(stripped: Option<String>, facts: PathFacts) -> (made: Result<
        FsItemInfo,
        NotBelowBase,
    >)
        ensures
            match stripped {
                Some(name) => made == Ok::<FsItemInfo, NotBelowBase>(
                    FsItemInfo { name, item_type: item_type_of(facts) },
                ),
                None => made.is_err(),
            },
    {
        match stripped {
            Some(name) => Ok(FsItemInfo { name, item_type: FsItemType::of(facts) }),
            None => Err(NotBelowBase),
        }
    }

    /// The entry for `full_path`, named by what is left of it below
    /// `base_path`. Fails where `full_path` does not lie below `base_path`.
    pub fn create_from_base(full_path: &str, base_path: &str, facts: PathFacts) -> (made: Result<
        FsItemInfo,
        NotBelowBase,
    >)
        ensures
            match relative_to(full_path@, base_path@) {
                Some(name) => made.is_ok() && made.unwrap()@ == (name, item_type_of(facts)),
                None => made.is_err(),
            },
    {
        FsItemInfo::from_stripped(path_strip_prefix(full_path, base_path), facts)
    }

    /// The entry that leads to the parent directory.
    pub fn parent_dir() -> (entry: Self)
        ensures
            entry@ == (parent_name(), FsItemType::Dir),
    {
        proof {
            reveal_strlit("..");
            assert("..".view() =~= parent_name());
        }
        FsItemInfo { name: "..".to_owned(), item_type: FsItemType::Dir }
    }
}

} // verus!
