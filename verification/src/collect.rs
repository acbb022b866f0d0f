//! Which directories of a tree are scanned: the root and its immediate
//! subdirectories, never anything deeper.

use vstd::prelude::*;
use vstd::string::*;
use crate::model::{Entry, EntryKind, EntryModel, Failure, FailureKind, FailureModel, Listing, entry_views, path_views};
use crate::path::{join, joined};
use crate::plan::{listing_failure, name_failure};

verus! {

/// A directory whose name is text.
pub open spec fn is_named_directory(e: EntryModel) -> bool {
    e.kind == EntryKind::Directory && e.name is Some
}

/// A directory whose name is no text: its path cannot be written down.
pub open spec fn is_unnamed_directory(e: EntryModel) -> bool {
    e.kind == EntryKind::Directory && e.name is None
}

/// Some directory among `entries` has a name that is no text.
pub open spec fn has_unnamed_directory(entries: Seq<EntryModel>) -> bool {
    exists|i: int| 0 <= i < entries.len() && is_unnamed_directory(#[trigger] entries[i])
}

/// The paths of the directories among the entries of `root`, in listing order.
pub open spec fn child_directories(root: Seq<char>, entries: Seq<EntryModel>) -> Seq<Seq<char>>
    decreases entries.len(),
{
    if entries.len() == 0 {
        Seq::empty()
    } else {
        let before = child_directories(root, entries.drop_last());
        if is_named_directory(entries.last()) {
            before.push(joined(root, entries.last().name.unwrap()))
        } else {
            before
        }
    }
}

/// The directories to scan below `root`, from what reading `root` gave: the
/// root itself, then its immediate subdirectories in listing order.
pub open spec fn collected(root: Seq<char>, listing: Option<Seq<EntryModel>>) -> Result<
    Seq<Seq<char>>,
    FailureModel,
> {
    match listing {
        None => Err(listing_failure(root)),
        Some(entries) => if has_unnamed_directory(entries) {
            Err(name_failure(root))
        } else {
            Ok(seq![root] + child_directories(root, entries))
        },
    }
}

/// The outcome of a collection, with its texts as sequences of characters.
pub open spec fn collection_view(r: Result<Vec<String>, Failure>) -> Result<
    Seq<Seq<char>>,
    FailureModel,
> {
    match r {
        Ok(paths) => Ok(path_views(paths@)),
        Err(f) => Err(f@),
    }
}

/// Collects the directories to scan: `root`, then each immediate subdirectory
/// of `root` in the order of the listing. Subdirectories are not entered.
///
/// Fails where `root` could not be listed, and where a subdirectory's name is
/// no text.
pub fn collect_directories(root: &str, listing: &Listing) -> (r: Result<Vec<String>, Failure>)
    ensures
        collection_view(r) == collected(root@, listing@),
        r is Ok ==> r.unwrap()@.len() >= 1 && r.unwrap()@[0]@ == root@,
{
    match listing {
        Listing::Unreadable => Err(
            Failure { kind: FailureKind::DirectoryUnreadable, path: String::from_str(root) },
        ),
        Listing::Entries(entries) => {
            let ghost es = entry_views(entries@);
            let mut paths: Vec<String> = Vec::new();
            paths.push(String::from_str(root));
            assert(path_views(paths@) =~= seq![root@] + Seq::<Seq<char>>::empty());
            let mut i: usize = 0;
            while i < entries.len()
                invariant
                    i <= entries.len(),
                    es == entry_views(entries@),
                    listing@ == Some(es),
                    paths@.len() >= 1,
                    paths@[0]@ == root@,
                    forall|k: int| 0 <= k < i ==> !is_unnamed_directory(#[trigger] es[k]),
                    path_views(paths@) == seq![root@] + child_directories(root@, es.take(i as int)),
                decreases entries.len() - i,
            {
                let entry: &Entry = &entries[i];
                proof {
                    assert(es.take(i + 1).drop_last() =~= es.take(i as int));
                    assert(es.take(i + 1).last() == entry@);
                    assert(es[i as int] == entry@);
                }
                match entry.kind {
                    EntryKind::Directory => match &entry.name {
                        None => {
                            return Err(
                                Failure {
                                    kind: FailureKind::FileNameInvalid,
                                    path: String::from_str(root),
                                },
                            );
                        },
                        Some(name) => {
                            let ghost before = paths@;
                            paths.push(join(root, name.as_str()));
                            assert(path_views(paths@) =~= path_views(before).push(
                                joined(root@, name@),
                            ));
                            assert(path_views(paths@) =~= seq![root@] + child_directories(
                                root@,
                                es.take(i + 1),
                            ));
                        },
                    },
                    _ => {},
                }
                i += 1;
            }
            assert(es.take(i as int) =~= es);
            Ok(paths)
        },
    }
}

/// Every collected directory is the root or lies directly in it: the first
/// is the root, and each other is the path of a directory entry of the root.
pub proof fn lemma_collected_within_one_level(root: Seq<char>, entries: Seq<EntryModel>, k: int)
    requires
        0 <= k < child_directories(root, entries).len(),
    ensures
        exists|i: int|
            0 <= i < entries.len() && is_named_directory(#[trigger] entries[i])
                && child_directories(root, entries)[k] == joined(root, entries[i].name.unwrap()),
    decreases entries.len(),
{
    if entries.len() > 0 {
        let before = child_directories(root, entries.drop_last());
        if k < before.len() {
            lemma_collected_within_one_level(root, entries.drop_last(), k);
            let i = choose|i: int|
                0 <= i < entries.drop_last().len() && is_named_directory(
                    #[trigger] entries.drop_last()[i],
                ) && before[k] == joined(root, entries.drop_last()[i].name.unwrap());
            assert(entries[i] == entries.drop_last()[i]);
        } else {
            let i = entries.len() - 1;
            assert(is_named_directory(entries[i]));
        }
    }
}

} // verus!
