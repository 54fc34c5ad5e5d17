use vstd::prelude::*;
use crate::model::{FileLines, sorted_by_lines, total_lines};

verus! {

/// The entries of `files` that have exactly `k` lines, in the order in which
/// they stand in `files`.
pub open spec fn with_lines(files: Seq<FileLines>, k: int) -> Seq<FileLines>
    decreases files.len(),
{
    if files.len() == 0 {
        Seq::empty()
    } else if files.last().lines == k {
        with_lines(files.drop_last(), k).push(files.last())
    } else {
        with_lines(files.drop_last(), k)
    }
}

/// `sorted` holds the entries of `files` in ascending order of their lines,
/// and entries with equal lines stand in the order they had in `files`.
pub open spec fn is_stable_sort_of(sorted: Seq<FileLines>, files: Seq<FileLines>) -> bool {
    &&& sorted.len() == files.len()
    &&& sorted_by_lines(sorted)
    &&& forall|k: int| #[trigger] with_lines(sorted, k) == with_lines(files, k)
}

/// Where no entry has `k` lines, none is selected.
pub proof fn lemma_with_lines_none(files: Seq<FileLines>, k: int)
    requires
        forall|i: int| 0 <= i < files.len() ==> files[i].lines != k,
    ensures
        with_lines(files, k) == Seq::<FileLines>::empty(),
    decreases files.len(),
{
    if files.len() > 0 {
        lemma_with_lines_none(files.drop_last(), k);
    }
}

/// Selecting from a list with one more entry at its end.
pub proof fn lemma_with_lines_push(files: Seq<FileLines>, entry: FileLines, k: int)
    ensures
        with_lines(files.push(entry), k) == if entry.lines == k {
            with_lines(files, k).push(entry)
        } else {
            with_lines(files, k)
        },
{
    assert(files.push(entry).drop_last() =~= files);
}

/// Selecting by lines goes through concatenation.
pub proof fn lemma_with_lines_concat(a: Seq<FileLines>, b: Seq<FileLines>, k: int)
    ensures
        with_lines(a + b, k) == with_lines(a, k) + with_lines(b, k),
    decreases b.len(),
{
    if b.len() == 0 {
        assert(a + b =~= a);
        assert(with_lines(a, k) + with_lines(b, k) =~= with_lines(a, k));
    } else {
        assert((a + b).drop_last() =~= a + b.drop_last());
        lemma_with_lines_concat(a, b.drop_last(), k);
        if b.last().lines == k {
            assert(with_lines(a + b, k) =~= with_lines(a, k) + with_lines(b, k));
        }
    }
}

/// The total of a concatenation is the sum of the totals.
pub proof fn lemma_total_lines_concat(a: Seq<FileLines>, b: Seq<FileLines>)
    ensures
        total_lines(a + b) == total_lines(a) + total_lines(b),
    decreases b.len(),
{
    if b.len() == 0 {
        assert(a + b =~= a);
    } else {
        assert((a + b).drop_last() =~= a + b.drop_last());
        lemma_total_lines_concat(a, b.drop_last());
    }
}

/// Where an entry has `k` lines, the selection by `k` is not empty.
pub proof fn lemma_with_lines_some(files: Seq<FileLines>, k: int, i: int)
    requires
        0 <= i < files.len(),
        files[i].lines == k,
    ensures
        with_lines(files, k).len() > 0,
    decreases files.len(),
{
    if i < files.len() - 1 {
        lemma_with_lines_some(files.drop_last(), k, i);
    }
}

/// An entry selected by its lines stands in the list, and has those lines.
pub proof fn lemma_selected_is_member(files: Seq<FileLines>, k: int, entry: FileLines)
    requires
        with_lines(files, k).contains(entry),
    ensures
        files.contains(entry),
        entry.lines == k,
    decreases files.len(),
{
    if files.len() > 0 {
        let t = choose|t: int| 0 <= t < with_lines(files, k).len() && with_lines(files, k)[t] == entry;
        let rest = with_lines(files.drop_last(), k);
        if files.last().lines == k && t == rest.len() {
            assert(files[files.len() - 1] == entry);
        } else {
            assert(rest[t] == entry);
            lemma_selected_is_member(files.drop_last(), k, entry);
            let j = choose|j: int| 0 <= j < files.drop_last().len() && files.drop_last()[j] == entry;
            assert(files[j] == entry);
        }
    }
}

/// An entry of the list is selected by its lines.
pub proof fn lemma_member_is_selected(files: Seq<FileLines>, entry: FileLines)
    requires
        files.contains(entry),
    ensures
        with_lines(files, entry.lines as int).contains(entry),
    decreases files.len(),
{
    let k = entry.lines as int;
    let j = choose|j: int| 0 <= j < files.len() && files[j] == entry;
    if j == files.len() - 1 {
        let selected = with_lines(files, k);
        assert(selected[selected.len() - 1] == entry);
    } else {
        assert(files.drop_last()[j] == entry);
        lemma_member_is_selected(files.drop_last(), entry);
        let rest = with_lines(files.drop_last(), k);
        let t = choose|t: int| 0 <= t < rest.len() && rest[t] == entry;
        assert(with_lines(files, k)[t] == entry);
    }
}

/// A stable sort holds the entries of the list it sorts and no other.
pub proof fn lemma_stable_sort_same_entries(
    sorted: Seq<FileLines>,
    files: Seq<FileLines>,
    entry: FileLines,
)
    requires
        is_stable_sort_of(sorted, files),
    ensures
        sorted.contains(entry) <==> files.contains(entry),
{
    let k = entry.lines as int;
    assert(with_lines(sorted, k) == with_lines(files, k));
    if sorted.contains(entry) {
        lemma_member_is_selected(sorted, entry);
        lemma_selected_is_member(files, k, entry);
    }
    if files.contains(entry) {
        lemma_member_is_selected(files, entry);
        lemma_selected_is_member(sorted, k, entry);
    }
}

/// In an ascending list each entry has at most the lines of the next one.
pub proof fn lemma_sorted_adjacent(files: Seq<FileLines>)
    requires
        sorted_by_lines(files),
    ensures
        forall|i: int| 0 <= i < files.len() - 1 ==> (#[trigger] files[i]).lines <= files[i + 1].lines,
{
}

/// Two ascending lists that agree, for every line count, on the entries with
/// that count and on their order are the same list.
pub proof fn lemma_ascending_lists_agree(a: Seq<FileLines>, b: Seq<FileLines>)
    requires
        sorted_by_lines(a),
        sorted_by_lines(b),
        forall|k: int| #[trigger] with_lines(a, k) == with_lines(b, k),
    ensures
        a == b,
    decreases a.len() + b.len(),
{
    if a.len() == 0 && b.len() == 0 {
        assert(a =~= b);
    } else if a.len() == 0 {
        lemma_with_lines_some(b, b.last().lines as int, b.len() - 1);
        assert(with_lines(a, b.last().lines as int) == with_lines(b, b.last().lines as int));
    } else if b.len() == 0 {
        lemma_with_lines_some(a, a.last().lines as int, a.len() - 1);
        assert(with_lines(a, a.last().lines as int) == with_lines(b, a.last().lines as int));
    } else {
        let ka = a.last().lines as int;
        let kb = b.last().lines as int;
        // each list holds an entry with the other's greatest count
        assert(with_lines(a, ka) == with_lines(b, ka));
        assert(with_lines(a, kb) == with_lines(b, kb));
        if ka < kb {
            assert forall|i: int| 0 <= i < a.len() implies a[i].lines != kb by {}
            lemma_with_lines_none(a, kb);
            lemma_with_lines_some(b, kb, b.len() - 1);
        }
        if kb < ka {
            assert forall|i: int| 0 <= i < b.len() implies b[i].lines != ka by {}
            lemma_with_lines_none(b, ka);
            lemma_with_lines_some(a, ka, a.len() - 1);
        }
        assert(ka == kb);
        assert(with_lines(a, ka).last() == a.last());
        assert(with_lines(b, ka).last() == b.last());
        assert(a.last() == b.last());
        assert(sorted_by_lines(a.drop_last()));
        assert(sorted_by_lines(b.drop_last()));
        assert forall|k: int| #[trigger]
            with_lines(a.drop_last(), k) == with_lines(b.drop_last(), k) by {
            assert(with_lines(a, k) == with_lines(b, k));
            if k == ka {
                assert(with_lines(a.drop_last(), k) =~= with_lines(a, k).drop_last());
                assert(with_lines(b.drop_last(), k) =~= with_lines(b, k).drop_last());
            }
        }
        lemma_ascending_lists_agree(a.drop_last(), b.drop_last());
        assert(a =~= a.drop_last().push(a.last()));
        assert(b =~= b.drop_last().push(b.last()));
    }
}

/// A list has one stable sort only.
pub proof fn lemma_stable_sort_unique(
    first: Seq<FileLines>,
    second: Seq<FileLines>,
    files: Seq<FileLines>,
)
    requires
        is_stable_sort_of(first, files),
        is_stable_sort_of(second, files),
    ensures
        first == second,
{
    assert forall|k: int| #[trigger] with_lines(first, k) == with_lines(second, k) by {
        assert(with_lines(first, k) == with_lines(files, k));
        assert(with_lines(second, k) == with_lines(files, k));
    }
    lemma_ascending_lists_agree(first, second);
}

/// The same entries, last first.
fn reversed(files: Vec<FileLines>) -> (out: Vec<FileLines>)
    ensures
        out@.len() == files@.len(),
        forall|t: int| 0 <= t < out@.len() ==> out@[t] == files@[files@.len() - 1 - t],
{
    let mut rest = files;
    let mut out: Vec<FileLines> = Vec::new();
    while rest.len() > 0
        invariant
            rest@.len() + out@.len() == files@.len(),
            rest@ == files@.take(rest@.len() as int),
            forall|t: int| 0 <= t < out@.len() ==> out@[t] == files@[files@.len() - 1 - t],
        decreases rest@.len(),
    {
        let last = rest.pop().unwrap();
        out.push(last);
    }
    out
}

/// Merges two ascending lists into one; among entries with equal lines those
/// of `left` come first.
fn merge(left: Vec<FileLines>, right: Vec<FileLines>) -> (out: Vec<FileLines>)
    requires
        sorted_by_lines(left@),
        sorted_by_lines(right@),
    ensures
        out@.len() == left@.len() + right@.len(),
        sorted_by_lines(out@),
        total_lines(out@) == total_lines(left@) + total_lines(right@),
        forall|k: int| #[trigger]
            with_lines(out@, k) == with_lines(left@, k) + with_lines(right@, k),
{
    let ghost a = left@;
    let ghost b = right@;
    let mut ra = reversed(left);
    let mut rb = reversed(right);
    let mut out: Vec<FileLines> = Vec::new();
    let ghost mut i: int = 0;
    let ghost mut j: int = 0;
    while ra.len() > 0 || rb.len() > 0
        invariant
            0 <= i <= a.len(),
            0 <= j <= b.len(),
            ra@.len() == a.len() - i,
            rb@.len() == b.len() - j,
            forall|t: int| 0 <= t < ra@.len() ==> ra@[t] == a[a.len() - 1 - t],
            forall|t: int| 0 <= t < rb@.len() ==> rb@[t] == b[b.len() - 1 - t],
            sorted_by_lines(a),
            sorted_by_lines(b),
            out@.len() == i + j,
            sorted_by_lines(out@),
            forall|t: int, u: int|
                0 <= t < out@.len() && i <= u < a.len() ==> out@[t].lines <= a[u].lines,
            forall|t: int, u: int|
                0 <= t < out@.len() && j <= u < b.len() ==> out@[t].lines <= b[u].lines,
            forall|t: int, u: int| 0 <= t < j && i <= u < a.len() ==> b[t].lines < a[u].lines,
            total_lines(out@) == total_lines(a.take(i)) + total_lines(b.take(j)),
            forall|k: int| #[trigger]
                with_lines(out@, k) == with_lines(a.take(i), k) + with_lines(b.take(j), k),
        decreases ra@.len() + rb@.len(),
    {
        let from_left = if rb.len() == 0 {
            true
        } else if ra.len() == 0 {
            false
        } else {
            ra[ra.len() - 1].lines <= rb[rb.len() - 1].lines
        };
        let ghost before = out@;
        if from_left {
            let next = ra.pop().unwrap();
            out.push(next);
            proof {
                assert(out@.drop_last() =~= before);
                assert(a.take(i + 1) =~= a.take(i).push(next));
                assert(a.take(i + 1).drop_last() =~= a.take(i));
                assert forall|k: int| #[trigger]
                    with_lines(out@, k) == with_lines(a.take(i + 1), k) + with_lines(
                        b.take(j),
                        k,
                    ) by {
                    lemma_with_lines_push(before, next, k);
                    lemma_with_lines_push(a.take(i), next, k);
                    if next.lines == k {
                        lemma_with_lines_none(b.take(j), k);
                        assert(with_lines(out@, k) =~= with_lines(a.take(i + 1), k)
                            + with_lines(b.take(j), k));
                    }
                }
                i = i + 1;
            }
        } else {
            let next = rb.pop().unwrap();
            out.push(next);
            proof {
                assert(out@.drop_last() =~= before);
                assert(b.take(j + 1) =~= b.take(j).push(next));
                assert(b.take(j + 1).drop_last() =~= b.take(j));
                assert forall|k: int| #[trigger]
                    with_lines(out@, k) == with_lines(a.take(i), k) + with_lines(
                        b.take(j + 1),
                        k,
                    ) by {
                    lemma_with_lines_push(before, next, k);
                    lemma_with_lines_push(b.take(j), next, k);
                    if next.lines == k {
                        assert(with_lines(out@, k) =~= with_lines(a.take(i), k) + with_lines(
                            b.take(j + 1),
                            k,
                        ));
                    }
                }
                j = j + 1;
            }
        }
    }
    proof {
        assert(a.take(i) =~= a);
        assert(b.take(j) =~= b);
    }
    out
}

/// Sorts by line count, ascending; entries with equal counts keep their order.
pub fn sort_by_lines(files: Vec<FileLines>) -> (sorted: Vec<FileLines>)
    ensures
        is_stable_sort_of(sorted@, files@),
        total_lines(sorted@) == total_lines(files@),
    decreases files@.len(),
{
    let mut left = files;
    let n: usize = left.len();
    if n <= 1 {
        return left;
    }
    let right = left.split_off(n / 2);
    proof {
        assert(files@ =~= left@ + right@);
        lemma_total_lines_concat(left@, right@);
        assert forall|k: int| #[trigger]
            with_lines(files@, k) == with_lines(left@, k) + with_lines(right@, k) by {
            lemma_with_lines_concat(left@, right@, k);
        }
    }
    let left = sort_by_lines(left);
    let right = sort_by_lines(right);
    merge(left, right)
}

} // verus!
