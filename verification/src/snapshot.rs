use vstd::prelude::*;
use vstd::multiset::Multiset;
use crate::filedata::{
    DirWalker, ScanCollector, checked_total, get_file_lines, recorded_path, scan_and_summarize,
};
use crate::linecount::{count_lines, newline_count};
use crate::model::{FileLineSummary, FileLines, PathFacts, summary_of, total_lines};
use crate::pathmatcher::PathMatcher;
use crate::sorting::{is_stable_sort_of, lemma_stable_sort_same_entries};

verus! {

/// One entry of a directory tree as it was read at one moment: its path,
/// what was observed of it, the content of a file that could be opened, and
/// what its listing gave. An entry that is no directory, or a directory that
/// could not be read, has no children.
pub struct TreeEntry {
    pub path: String,
    pub facts: PathFacts,
    pub content: Option<Vec<u8>>,
    pub children: Vec<TreeEntry>,
}

/// Whether a scan takes the entry itself: it is a regular file whose path the
/// matcher takes.
pub open spec fn is_eligible<M: PathMatcher>(entry: TreeEntry, matcher: M) -> bool {
    entry.facts.is_file && matcher.matches_spec(entry.path@)
}

/// Whether a walk lists the entry: it is a directory and no regular file.
pub open spec fn is_walked(entry: TreeEntry) -> bool {
    !entry.facts.is_file && entry.facts.is_dir
}

/// The number of regular files at or below `entry` that the matcher takes
/// and that a walk reaches.
pub open spec fn eligible_below<M: PathMatcher>(entry: TreeEntry, matcher: M) -> nat
    decreases entry, 0nat,
{
    if is_eligible(entry, matcher) {
        1
    } else if is_walked(entry) {
        eligible_among(entry.children@, matcher)
    } else {
        0
    }
}

/// The number of regular files at or below the entries of one listing that
/// the matcher takes and that a walk reaches.
pub open spec fn eligible_among<M: PathMatcher>(entries: Seq<TreeEntry>, matcher: M) -> nat
    decreases entries, 1nat,
{
    if entries.len() == 0 {
        0
    } else {
        eligible_among(entries.drop_last(), matcher) + eligible_below(entries.last(), matcher)
    }
}

/// The regular files at or below `entry` that the matcher takes and that a
/// walk reaches, each as often as it stands in the tree.
pub open spec fn eligible_files_below<M: PathMatcher>(entry: TreeEntry, matcher: M) -> Multiset<
    TreeEntry,
>
    decreases entry, 0nat,
{
    if is_eligible(entry, matcher) {
        Multiset::singleton(entry)
    } else if is_walked(entry) {
        eligible_files_among(entry.children@, matcher)
    } else {
        Multiset::empty()
    }
}

/// The regular files at or below the entries of one listing that the matcher
/// takes and that a walk reaches, each as often as it stands in the tree.
pub open spec fn eligible_files_among<M: PathMatcher>(
    entries: Seq<TreeEntry>,
    matcher: M,
) -> Multiset<TreeEntry>
    decreases entries, 1nat,
{
    if entries.len() == 0 {
        Multiset::empty()
    } else {
        eligible_files_among(entries.drop_last(), matcher).add(
            eligible_files_below(entries.last(), matcher),
        )
    }
}

/// The entries that `found` refers to, each as often as it is referred to.
pub open spec fn entries_of(found: Seq<&TreeEntry>) -> Multiset<TreeEntry>
    decreases found.len(),
{
    if found.len() == 0 {
        Multiset::empty()
    } else {
        entries_of(found.drop_last()).insert(*found.last())
    }
}

/// The number of directories at or below `entry` that a walk lists.
pub open spec fn walked_below(entry: TreeEntry) -> nat
    decreases entry, 0nat,
{
    if is_walked(entry) {
        1 + walked_among(entry.children@)
    } else {
        0
    }
}

/// The number of directories at or below the entries of one listing that a
/// walk lists.
pub open spec fn walked_among(entries: Seq<TreeEntry>) -> nat
    decreases entries, 1nat,
{
    if entries.len() == 0 {
        0
    } else {
        walked_among(entries.drop_last()) + walked_below(entries.last())
    }
}

/// The sum of `weight` over the directories that a walk has still to list.
pub open spec fn sum_over(pending: Seq<&TreeEntry>, weight: spec_fn(TreeEntry) -> nat) -> nat
    decreases pending.len(),
{
    if pending.len() == 0 {
        0
    } else {
        sum_over(pending.drop_last(), weight) + weight(*pending.last())
    }
}

/// The union of `files` over the directories that a walk has still to list.
pub open spec fn union_over(
    pending: Seq<&TreeEntry>,
    files: spec_fn(TreeEntry) -> Multiset<TreeEntry>,
) -> Multiset<TreeEntry>
    decreases pending.len(),
{
    if pending.len() == 0 {
        Multiset::empty()
    } else {
        union_over(pending.drop_last(), files).add(files(*pending.last()))
    }
}

/// The files that listing a directory will still hand back.
pub open spec fn files_of<M: PathMatcher>(matcher: M) -> spec_fn(TreeEntry) -> Multiset<
    TreeEntry,
> {
    |dir: TreeEntry| eligible_files_among(dir.children@, matcher)
}

/// Putting a directory last adds its files.
pub proof fn lemma_union_over_push(
    pending: Seq<&TreeEntry>,
    dir: &TreeEntry,
    files: spec_fn(TreeEntry) -> Multiset<TreeEntry>,
)
    ensures
        union_over(pending.push(dir), files) == union_over(pending, files).add(files(*dir)),
{
    assert(pending.push(dir).drop_last() =~= pending);
}

/// Taking the first directory takes its files.
pub proof fn lemma_union_over_drop_first(
    pending: Seq<&TreeEntry>,
    files: spec_fn(TreeEntry) -> Multiset<TreeEntry>,
)
    requires
        pending.len() > 0,
    ensures
        union_over(pending, files) == files(*pending.first()).add(
            union_over(pending.drop_first(), files),
        ),
    decreases pending.len(),
{
    if pending.len() == 1 {
        assert(pending.drop_last() =~= pending.drop_first());
        assert(union_over(pending, files) =~= files(*pending.first()).add(
            union_over(pending.drop_first(), files),
        ));
    } else {
        lemma_union_over_drop_first(pending.drop_last(), files);
        assert(pending.drop_last().drop_first() =~= pending.drop_first().drop_last());
        assert(union_over(pending, files) =~= files(*pending.first()).add(
            union_over(pending.drop_first(), files),
        ));
    }
}

/// The files that listing a directory will still yield.
pub open spec fn yield_of<M: PathMatcher>(matcher: M) -> spec_fn(TreeEntry) -> nat {
    |dir: TreeEntry| eligible_among(dir.children@, matcher)
}

/// The listings that a directory still stands for: its own and those below.
pub open spec fn listings_of() -> spec_fn(TreeEntry) -> nat {
    |dir: TreeEntry| 1 + walked_among(dir.children@)
}

/// Putting a directory last adds its weight.
pub proof fn lemma_sum_over_push(
    pending: Seq<&TreeEntry>,
    dir: &TreeEntry,
    weight: spec_fn(TreeEntry) -> nat,
)
    ensures
        sum_over(pending.push(dir), weight) == sum_over(pending, weight) + weight(*dir),
{
    assert(pending.push(dir).drop_last() =~= pending);
}

/// Taking the first directory takes its weight.
pub proof fn lemma_sum_over_drop_first(pending: Seq<&TreeEntry>, weight: spec_fn(TreeEntry) -> nat)
    requires
        pending.len() > 0,
    ensures
        sum_over(pending, weight) == weight(*pending.first()) + sum_over(
            pending.drop_first(),
            weight,
        ),
    decreases pending.len(),
{
    if pending.len() == 1 {
        assert(pending.drop_last() =~= pending.drop_first());
    } else {
        lemma_sum_over_drop_first(pending.drop_last(), weight);
        assert(pending.drop_last().drop_first() =~= pending.drop_first().drop_last());
    }
}

/// Walks the tree below `root` as it was read, and hands back the files
/// that a scan with `matcher` counts: as many as there are regular files
/// below the root that the matcher takes, each of them such a file.
pub fn files_found<'a, M: PathMatcher>(root: &'a TreeEntry, matcher: M) -> (found: Vec<
    &'a TreeEntry,
>)
    ensures
        found@.len() == eligible_among(root.children@, matcher),
        entries_of(found@) == eligible_files_among(root.children@, matcher),
        forall|i: int| 0 <= i < found@.len() ==> is_eligible(*#[trigger] found@[i], matcher),
{
    let mut walker: DirWalker<M, &'a TreeEntry> = DirWalker::new(root, matcher);
    let mut found: Vec<&'a TreeEntry> = Vec::new();
    proof {
        assert(walker.pending() =~= Seq::<&TreeEntry>::empty().push(root));
        lemma_sum_over_push(Seq::<&TreeEntry>::empty(), root, yield_of(matcher));
        lemma_union_over_push(Seq::<&TreeEntry>::empty(), root, files_of(matcher));
        assert(entries_of(found@).add(union_over(walker.pending(), files_of(matcher)))
            =~= eligible_files_among(root.children@, matcher));
        assert(sum_over(walker.pending(), yield_of(matcher)) == eligible_among(
            root.children@,
            matcher,
        ));
    }
    loop
        invariant
            walker.matcher() == matcher,
            found@.len() + sum_over(walker.pending(), yield_of(matcher)) == eligible_among(
                root.children@,
                matcher,
            ),
            entries_of(found@).add(union_over(walker.pending(), files_of(matcher)))
                == eligible_files_among(root.children@, matcher),
            forall|i: int| 0 <= i < found@.len() ==> is_eligible(*#[trigger] found@[i], matcher),
        ensures
            walker.pending().len() == 0,
        decreases sum_over(walker.pending(), listings_of()),
    {
        let ghost before = walker.pending();
        let next = walker.next_dir();
        if next.is_none() {
            break ;
        }
        let dir: &'a TreeEntry = next.unwrap();
        let ghost rest = walker.pending();
        let ghost had = found@.len();
        let ghost held = entries_of(found@);
        proof {
            lemma_union_over_drop_first(before, files_of(matcher));
            lemma_sum_over_drop_first(before, yield_of(matcher));
            lemma_sum_over_drop_first(before, listings_of());
            assert(dir.children@.take(0) =~= Seq::<TreeEntry>::empty());
        }
        let mut c: usize = 0;
        while c < dir.children.len()
            invariant
                c <= dir.children@.len(),
                walker.matcher() == matcher,
                found@.len() + sum_over(walker.pending(), yield_of(matcher)) == had + sum_over(
                    rest,
                    yield_of(matcher),
                ) + eligible_among(dir.children@.take(c as int), matcher),
                sum_over(walker.pending(), listings_of()) == sum_over(rest, listings_of())
                    + walked_among(dir.children@.take(c as int)),
                entries_of(found@).add(union_over(walker.pending(), files_of(matcher)))
                    == held.add(union_over(rest, files_of(matcher))).add(
                    eligible_files_among(dir.children@.take(c as int), matcher),
                ),
                forall|i: int|
                    0 <= i < found@.len() ==> is_eligible(*#[trigger] found@[i], matcher),
            decreases dir.children@.len() - c,
        {
            let child: &'a TreeEntry = &dir.children[c];
            let ghost queued = walker.pending();
            let ghost gathered = found@;
            proof {
                lemma_union_over_push(queued, child, files_of(matcher));
                assert(dir.children@.take(c + 1).drop_last() =~= dir.children@.take(c as int));
                assert(dir.children@.take(c + 1).last() == *child);
                lemma_sum_over_push(queued, child, yield_of(matcher));
                lemma_sum_over_push(queued, child, listings_of());
            }
            match walker.visit(child, child.path.as_str(), child.facts) {
                Some(file) => {
                    found.push(file);
                },
                None => {},
            }
            proof {
                let upto = dir.children@.take(c + 1);
                assert(eligible_among(upto, matcher) == eligible_among(upto.drop_last(), matcher)
                    + eligible_below(upto.last(), matcher));
                assert(walked_among(upto) == walked_among(upto.drop_last()) + walked_below(
                    upto.last(),
                ));
                assert(yield_of(matcher)(*child) == eligible_among(child.children@, matcher));
                assert(listings_of()(*child) == 1 + walked_among(child.children@));
                assert(files_of(matcher)(*child) == eligible_files_among(
                    child.children@,
                    matcher,
                ));
                assert(eligible_files_among(upto, matcher) == eligible_files_among(
                    upto.drop_last(),
                    matcher,
                ).add(eligible_files_below(upto.last(), matcher)));
                let so_far = entries_of(gathered).add(union_over(queued, files_of(matcher)));
                let due = held.add(union_over(rest, files_of(matcher))).add(
                    eligible_files_among(upto.drop_last(), matcher),
                );
                assert(so_far == due);
                let now = entries_of(found@).add(union_over(walker.pending(), files_of(matcher)));
                let owed = held.add(union_over(rest, files_of(matcher))).add(
                    eligible_files_among(upto, matcher),
                );
                if is_eligible(*child, matcher) {
                    assert(found@.drop_last() =~= gathered);
                    assert(entries_of(found@) == entries_of(gathered).insert(*child));
                    assert(now =~= so_far.insert(*child));
                    assert(owed =~= due.insert(*child));
                } else if is_walked(*child) {
                    assert(now =~= so_far.add(eligible_files_among(child.children@, matcher)));
                    assert(owed =~= due.add(eligible_files_among(child.children@, matcher)));
                } else {
                    assert(now =~= so_far);
                    assert(owed =~= due);
                }
                assert(now == owed);
            }
            c = c + 1;
        }
        proof {
            assert(dir.children@.take(c as int) =~= dir.children@);
            assert(entries_of(found@).add(union_over(walker.pending(), files_of(matcher)))
                =~= eligible_files_among(root.children@, matcher));
        }
    }
    proof {
        assert(entries_of(found@).add(union_over(walker.pending(), files_of(matcher)))
            =~= entries_of(found@));
    }
    found
}

/// Whether `record` is what a scan below the root `root` records of the file
/// `entry`: its path below the root, or its whole path where it does not lie
/// below it, and the lines of its content, or none where it could not be
/// opened.
pub open spec fn is_record_of(record: FileLines, entry: TreeEntry, root: Seq<char>) -> bool {
    &&& record.file@ == recorded_path(entry.path@, root)
    &&& record.lines == match entry.content {
        Some(bytes) => newline_count(bytes@),
        None => 0,
    }
}

/// Whether `records` are the records of the files `found`, one each, in
/// their order.
pub open spec fn are_records_of(
    records: Seq<FileLines>,
    found: Seq<&TreeEntry>,
    root: Seq<char>,
) -> bool {
    &&& records.len() == found.len()
    &&& forall|i: int|
        0 <= i < records.len() ==> is_record_of(#[trigger] records[i], *found[i], root)
}

/// Whether `records` are what a scan of the tree `root` with `matcher`
/// gathers: one record for each regular file below the root that the matcher
/// takes, and no other.
pub open spec fn is_gathering_of<M: PathMatcher>(
    records: Seq<FileLines>,
    root: TreeEntry,
    matcher: M,
) -> bool {
    exists|found: Seq<&TreeEntry>| #[trigger]
        are_records_of(records, found, root.path@) && entries_of(found)
            == eligible_files_among(root.children@, matcher)
}

/// Every file among those of a listing is a regular file that the matcher
/// takes.
pub proof fn lemma_files_among_are_eligible<M: PathMatcher>(
    entries: Seq<TreeEntry>,
    matcher: M,
    file: TreeEntry,
)
    requires
        eligible_files_among(entries, matcher).count(file) > 0,
    ensures
        is_eligible(file, matcher),
    decreases entries, 1nat,
{
    if entries.len() > 0 {
        if eligible_files_among(entries.drop_last(), matcher).count(file) > 0 {
            lemma_files_among_are_eligible(entries.drop_last(), matcher, file);
        } else {
            lemma_files_below_are_eligible(entries.last(), matcher, file);
        }
    }
}

/// Every file among those at or below an entry is a regular file that the
/// matcher takes.
pub proof fn lemma_files_below_are_eligible<M: PathMatcher>(
    entry: TreeEntry,
    matcher: M,
    file: TreeEntry,
)
    requires
        eligible_files_below(entry, matcher).count(file) > 0,
    ensures
        is_eligible(file, matcher),
    decreases entry, 0nat,
{
    if is_eligible(entry, matcher) {
        assert(file == entry);
    } else if is_walked(entry) {
        lemma_files_among_are_eligible(entry.children@, matcher, file);
    }
}

/// What is referred to is among the entries referred to.
pub proof fn lemma_found_is_counted(found: Seq<&TreeEntry>, j: int)
    requires
        0 <= j < found.len(),
    ensures
        entries_of(found).count(*found[j]) > 0,
    decreases found.len(),
{
    if j < found.len() - 1 {
        lemma_found_is_counted(found.drop_last(), j);
    }
}

/// An entry among those referred to is referred to somewhere.
pub proof fn lemma_counted_is_found(found: Seq<&TreeEntry>, entry: TreeEntry) -> (j: int)
    requires
        entries_of(found).count(entry) > 0,
    ensures
        0 <= j < found.len(),
        *found[j] == entry,
    decreases found.len(),
{
    if *found.last() == entry {
        found.len() - 1
    } else {
        lemma_counted_is_found(found.drop_last(), entry)
    }
}

/// In the outcome of a scan every entry is the record of a regular file of
/// the tree that the matcher takes: with no lines where the file could not
/// be opened, else with the lines of its content.
pub proof fn lemma_scan_holds_only_eligible_files<M: PathMatcher>(
    files: Seq<FileLines>,
    records: Seq<FileLines>,
    root: TreeEntry,
    matcher: M,
    i: int,
) -> (entry: TreeEntry)
    requires
        is_gathering_of(records, root, matcher),
        is_stable_sort_of(files, records),
        0 <= i < files.len(),
    ensures
        eligible_files_among(root.children@, matcher).count(entry) > 0,
        is_eligible(entry, matcher),
        is_record_of(files[i], entry, root.path@),
{
    let found = choose|found: Seq<&TreeEntry>| #[trigger]
        are_records_of(records, found, root.path@) && entries_of(found)
            == eligible_files_among(root.children@, matcher);
    assert(files.contains(files[i]));
    lemma_stable_sort_same_entries(files, records, files[i]);
    let j = choose|j: int| 0 <= j < records.len() && records[j] == files[i];
    lemma_found_is_counted(found, j);
    lemma_files_among_are_eligible(root.children@, matcher, *found[j]);
    assert(is_record_of(records[j], *found[j], root.path@));
    *found[j]
}

/// In the outcome of a scan every regular file of the tree that the matcher
/// takes has its record, whether or not it could be opened.
pub proof fn lemma_scan_holds_every_eligible_file<M: PathMatcher>(
    files: Seq<FileLines>,
    records: Seq<FileLines>,
    root: TreeEntry,
    matcher: M,
    entry: TreeEntry,
) -> (i: int)
    requires
        is_gathering_of(records, root, matcher),
        is_stable_sort_of(files, records),
        eligible_files_among(root.children@, matcher).count(entry) > 0,
    ensures
        0 <= i < files.len(),
        is_record_of(files[i], entry, root.path@),
{
    let found = choose|found: Seq<&TreeEntry>| #[trigger]
        are_records_of(records, found, root.path@) && entries_of(found)
            == eligible_files_among(root.children@, matcher);
    let j = lemma_counted_is_found(found, entry);
    assert(is_record_of(records[j], *found[j], root.path@));
    assert(records.contains(records[j]));
    lemma_stable_sort_same_entries(files, records, records[j]);
    choose|i: int| 0 <= i < files.len() && files[i] == records[j]
}

/// Counts the lines of every file that a scan of the tree `root` with
/// `matcher` takes, a file that could not be opened with no lines.
pub fn gather_tree<M: PathMatcher>(root: &TreeEntry, matcher: M) -> (records: Vec<FileLines>)
    ensures
        records@.len() == eligible_among(root.children@, matcher),
        is_gathering_of(records@, *root, matcher),
{
    let found = files_found(root, matcher);
    let mut collector = ScanCollector::new();
    let mut i: usize = 0;
    while i < found.len()
        invariant
            i <= found@.len(),
            collector@.len() == i,
            forall|j: int|
                0 <= j < i ==> is_record_of(#[trigger] collector@[j], *found@[j], root.path@),
        decreases found@.len() - i,
    {
        let file: &TreeEntry = found[i];
        let counted = match &file.content {
            Some(bytes) => Some(count_lines(bytes.as_slice())),
            None => None,
        };
        let record = get_file_lines(root.path.as_str(), file.path.clone(), counted);
        collector.record(Some(record));
        i = i + 1;
    }
    let records = collector.finish();
    proof {
        assert(are_records_of(records@, found@, root.path@));
    }
    records
}

/// Scans the tree `root` as it was read: the records of the files that
/// `matcher` takes, in ascending order of their lines, and their summary.
/// `None` where the lines of the files do not add up within a `usize`.
pub fn scan_tree<M: PathMatcher>(root: &TreeEntry, matcher: M) -> (result: Option<
    (Vec<FileLines>, FileLineSummary),
>)
    ensures
        match result {
            Some((files, summary)) => {
                &&& files@.len() == eligible_among(root.children@, matcher)
                &&& summary == summary_of(files@)
                &&& exists|records: Seq<FileLines>| #[trigger]
                    is_gathering_of(records, *root, matcher) && is_stable_sort_of(
                        files@,
                        records,
                    )
            },
            None => exists|records: Seq<FileLines>| #[trigger]
                is_gathering_of(records, *root, matcher) && total_lines(records) > usize::MAX,
        },
{
    let records = gather_tree(root, matcher);
    if checked_total(&records).is_none() {
        return None;
    }
    let ghost gathered = records@;
    let (files, summary) = scan_and_summarize(records);
    proof {
        assert(is_gathering_of(gathered, *root, matcher) && is_stable_sort_of(files@, gathered));
    }
    Some((files, summary))
}

} // verus!
