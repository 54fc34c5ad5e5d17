use vstd::prelude::*;
use crate::model::{FsItemInfo, FsItemType, PathFacts, item_type_of, parent_name};
use crate::paths::{has_parent, path_has_parent, relative_to};

verus! {

/// One child of a directory as it was read: its full path and what was
/// observed of it.
#[derive(Debug)]
pub struct ChildEntry {
    pub path: String,
    pub facts: PathFacts,
}

/// The entries that the children `entries` of `dir` give in a listing, in
/// their order: directories always, other children where `include_files` is
/// set; a child whose path does not lie below `dir` gives none.
pub open spec fn listed(entries: Seq<ChildEntry>, dir: Seq<char>, include_files: bool) -> Seq<
    (Seq<char>, FsItemType),
>
    decreases entries.len(),
{
    if entries.len() == 0 {
        Seq::empty()
    } else {
        let child = entries.last();
        let before = listed(entries.drop_last(), dir, include_files);
        match relative_to(child.path@, dir) {
            Some(name) if child.facts.is_dir || include_files => before.push(
                (name, item_type_of(child.facts)),
            ),
            _ => before,
        }
    }
}

/// The listing of `dir`: the entry for its parent where it has one, then the
/// entries of its children.
pub open spec fn directory_content(
    dir: Seq<char>,
    entries: Seq<ChildEntry>,
    include_files: bool,
) -> Seq<(Seq<char>, FsItemType)> {
    if has_parent(dir) {
        seq![(parent_name(), FsItemType::Dir)] + listed(entries, dir, include_files)
    } else {
        listed(entries, dir, include_files)
    }
}

/// What a list of entries stands for.
pub open spec fn item_views(items: Seq<FsItemInfo>) -> Seq<(Seq<char>, FsItemType)> {
    items.map_values(|item: FsItemInfo| item@)
}

/// Lists one level of the directory `dir`, whose children were read as
/// `entries`.
pub fn get_directory_content(dir: &str, entries: &Vec<ChildEntry>, include_files: bool) -> (contents:
    Vec<FsItemInfo>)
    ensures
        item_views(contents@) == directory_content(dir@, entries@, include_files),
{
    let mut contents: Vec<FsItemInfo> = Vec::new();
    if path_has_parent(dir) {
        contents.push(FsItemInfo::parent_dir());
    }
    let ghost head = item_views(contents@);
    proof {
        assert(head =~= if has_parent(dir@) {
            seq![(parent_name(), FsItemType::Dir)]
        } else {
            Seq::empty()
        });
        assert(entries@.take(0) =~= Seq::<ChildEntry>::empty());
        assert(head + listed(entries@.take(0), dir@, include_files) =~= head);
    }
    let mut i: usize = 0;
    while i < entries.len()
        invariant
            i <= entries@.len(),
            item_views(contents@) == head + listed(entries@.take(i as int), dir@, include_files),
        decreases entries@.len() - i,
    {
        let child = &entries[i];
        let ghost before = contents@;
        proof {
            assert(entries@.take(i + 1).drop_last() =~= entries@.take(i as int));
            assert(entries@.take(i + 1).last() == entries@[i as int]);
        }
        if child.facts.is_dir || include_files {
            match FsItemInfo::create_from_base(child.path.as_str(), dir, child.facts) {
                Ok(item) => {
                    contents.push(item);
                    proof {
                        assert(item_views(contents@) =~= item_views(before).push(item@));
                        assert(item_views(contents@) =~= head + listed(
                            entries@.take(i + 1),
                            dir@,
                            include_files,
                        ));
                    }
                },
                Err(_) => {},
            }
        }
        i = i + 1;
    }
    proof {
        assert(entries@.take(i as int) =~= entries@);
        assert(head + listed(entries@, dir@, include_files) =~= directory_content(
            dir@,
            entries@,
            include_files,
        ));
    }
    contents
}

} // verus!
