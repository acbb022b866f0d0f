//! Which files of one directory are moved, and where to.

use vstd::prelude::*;
use vstd::string::*;
use crate::model::{Entry, EntryKind, EntryModel, Failure, FailureKind, FailureModel, Listing, Move, MoveModel, entry_views, move_views, path_views};
use crate::path::{join, joined};
use crate::text::{contains, is_substring};

verus! {

/// A regular file whose name is no text: it can be neither tested nor moved.
pub open spec fn is_unnamed_file(e: EntryModel) -> bool {
    e.kind == EntryKind::File && e.name is None
}

/// A regular file whose name is text: it is looked at.
pub open spec fn is_named_file(e: EntryModel) -> bool {
    e.kind == EntryKind::File && e.name is Some
}

/// A regular file whose base name contains `pattern`.
pub open spec fn is_selected(e: EntryModel, pattern: Seq<char>) -> bool {
    e.kind == EntryKind::File && e.name is Some && is_substring(e.name.unwrap(), pattern)
}

/// The move of the file `name` of `dir` into `target`: it keeps its base name
/// and lands directly in `target`, whatever directory it came from.
pub open spec fn move_of(dir: Seq<char>, name: Seq<char>, target: Seq<char>) -> MoveModel {
    MoveModel { source: joined(dir, name), destination: joined(target, name), into: target }
}

/// The failure that an unreadable name in `dir` gives.
pub open spec fn name_failure(dir: Seq<char>) -> FailureModel {
    FailureModel { kind: FailureKind::FileNameInvalid, path: dir }
}

/// The failure that an unreadable directory gives.
pub open spec fn listing_failure(dir: Seq<char>) -> FailureModel {
    FailureModel { kind: FailureKind::DirectoryUnreadable, path: dir }
}

/// What is done about one entry of `dir`: a failure, a move, or nothing.
pub open spec fn decided(
    dir: Seq<char>,
    e: EntryModel,
    pattern: Seq<char>,
    target: Seq<char>,
) -> Result<Option<MoveModel>, FailureModel> {
    if is_unnamed_file(e) {
        Err(name_failure(dir))
    } else if is_selected(e, pattern) {
        Ok(Some(move_of(dir, e.name.unwrap(), target)))
    } else {
        Ok(None)
    }
}

/// A decision, with its texts as sequences of characters.
pub open spec fn decision_view(r: Result<Option<Move>, Failure>) -> Result<
    Option<MoveModel>,
    FailureModel,
> {
    match r {
        Err(f) => Err(f@),
        Ok(Some(m)) => Ok(Some(m@)),
        Ok(None) => Ok(None),
    }
}

/// Decides what is done about one entry of the directory `dir`.
///
/// Only a regular file is looked at. One whose name is no text ends the run;
/// one whose base name contains `pattern` is moved into `target` under that
/// name; any other stays.
pub fn decide_entry(dir: &str, entry: &Entry, pattern: &str, target: &str) -> (r: Result<
    Option<Move>,
    Failure,
>)
    ensures
        decision_view(r) == decided(dir@, entry@, pattern@, target@),
{
    match entry.kind {
        EntryKind::File => match &entry.name {
            None => Err(Failure { kind: FailureKind::FileNameInvalid, path: String::from_str(dir) }),
            Some(name) => {
                if contains(name.as_str(), pattern) {
                    Ok(
                        Some(
                            Move {
                                source: join(dir, name.as_str()),
                                destination: join(target, name.as_str()),
                                into: String::from_str(target),
                            },
                        ),
                    )
                } else {
                    Ok(None)
                }
            },
        },
        _ => Ok(None),
    }
}

/// The path of a file that is looked at: that of a regular file whose name is text.
pub open spec fn checked_of(dir: Seq<char>, e: EntryModel) -> Option<Seq<char>> {
    if is_named_file(e) {
        Some(joined(dir, e.name.unwrap()))
    } else {
        None
    }
}

/// The path at which an entry of `dir` is looked at, if it is looked at.
pub fn checked_path(dir: &str, entry: &Entry) -> (path: Option<String>)
    ensures
        match path {
            Some(p) => Some(p@),
            None => None,
        } == checked_of(dir@, entry@),
{
    match entry.kind {
        EntryKind::File => match &entry.name {
            Some(name) => Some(join(dir, name.as_str())),
            None => None,
        },
        _ => None,
    }
}

/// The outcome of scanning one directory.
#[derive(Clone, Debug, PartialEq, Eq)]
pub struct Plan {
    /// The paths of the files that were looked at, in listing order.
    pub checked: Vec<String>,
    /// The files to move, in the order in which they were listed.
    pub moves: Vec<Move>,
    /// The failure that ended the scan, if one did.
    pub failure: Option<Failure>,
}

/// A plan, with its texts as sequences of characters.
pub struct PlanModel {
    pub checked: Seq<Seq<char>>,
    pub moves: Seq<MoveModel>,
    pub failure: Option<FailureModel>,
}

impl View for Plan {
    type V = PlanModel;

    open spec fn view(&self) -> PlanModel {
        PlanModel {
            checked: path_views(self.checked@),
            moves: move_views(self.moves@),
            failure: match self.failure {
                Some(f) => Some(f@),
                None => None,
            },
        }
    }
}

/// The plan without a file in it.
pub open spec fn empty_plan() -> PlanModel {
    PlanModel { checked: Seq::empty(), moves: Seq::empty(), failure: None }
}

/// The plan for the entries of `dir`, taken in order: each regular file
/// with a readable name is looked at, each entry adds what is decided about
/// it, and nothing is looked at after a failure.
pub open spec fn planned(
    dir: Seq<char>,
    entries: Seq<EntryModel>,
    pattern: Seq<char>,
    target: Seq<char>,
) -> PlanModel
    decreases entries.len(),
{
    if entries.len() == 0 {
        empty_plan()
    } else {
        let before = planned(dir, entries.drop_last(), pattern, target);
        if before.failure is Some {
            before
        } else {
            let checked = match checked_of(dir, entries.last()) {
                Some(path) => before.checked.push(path),
                None => before.checked,
            };
            match decided(dir, entries.last(), pattern, target) {
                Err(f) => PlanModel { checked, moves: before.moves, failure: Some(f) },
                Ok(Some(m)) => PlanModel { checked, moves: before.moves.push(m), failure: None },
                Ok(None) => PlanModel { checked, moves: before.moves, failure: None },
            }
        }
    }
}

/// The plan for a directory from what reading it gave: nothing is moved out
/// of a directory that cannot be listed.
pub open spec fn directory_plan(
    dir: Seq<char>,
    listing: Option<Seq<EntryModel>>,
    pattern: Seq<char>,
    target: Seq<char>,
) -> PlanModel {
    match listing {
        None => PlanModel {
            checked: Seq::empty(),
            moves: Seq::empty(),
            failure: Some(listing_failure(dir)),
        },
        Some(entries) => planned(dir, entries, pattern, target),
    }
}

/// A scan that has failed after `k` entries is not changed by the entries that follow.
pub proof fn lemma_failure_ends_scan(
    dir: Seq<char>,
    entries: Seq<EntryModel>,
    k: int,
    pattern: Seq<char>,
    target: Seq<char>,
)
    requires
        0 <= k <= entries.len(),
        planned(dir, entries.take(k), pattern, target).failure is Some,
    ensures
        planned(dir, entries, pattern, target) == planned(dir, entries.take(k), pattern, target),
    decreases entries.len(),
{
    if k == entries.len() {
        assert(entries.take(k) =~= entries);
    } else {
        assert(entries.drop_last().take(k) =~= entries.take(k));
        lemma_failure_ends_scan(dir, entries.drop_last(), k, pattern, target);
    }
}

/// Plans the moves out of one directory.
///
/// Where the directory could not be listed, the plan holds that failure and no
/// move. Else the entries are taken in order, as `decide_entry` decides, up to
/// the first failure.
pub fn plan_directory(dir: &str, listing: &Listing, pattern: &str, target: &str) -> (plan: Plan)
    ensures
        plan@ == directory_plan(dir@, listing@, pattern@, target@),
{
    match listing {
        Listing::Unreadable => {
            let moves: Vec<Move> = Vec::new();
            let checked: Vec<String> = Vec::new();
            assert(move_views(moves@) =~= Seq::<MoveModel>::empty());
            assert(path_views(checked@) =~= Seq::<Seq<char>>::empty());
            Plan {
                checked,
                moves,
                failure: Some(
                    Failure { kind: FailureKind::DirectoryUnreadable, path: String::from_str(dir) },
                ),
            }
        },
        Listing::Entries(entries) => {
            let ghost es = entry_views(entries@);
            let mut moves: Vec<Move> = Vec::new();
            let mut checked: Vec<String> = Vec::new();
            let mut i: usize = 0;
            assert(move_views(moves@) =~= Seq::<MoveModel>::empty());
            assert(path_views(checked@) =~= Seq::<Seq<char>>::empty());
            while i < entries.len()
                invariant
                    i <= entries.len(),
                    es == entry_views(entries@),
                    listing@ == Some(es),
                    planned(dir@, es.take(i as int), pattern@, target@) == (PlanModel {
                        checked: path_views(checked@),
                        moves: move_views(moves@),
                        failure: None,
                    }),
                decreases entries.len() - i,
            {
                let decision = decide_entry(dir, &entries[i], pattern, target);
                proof {
                    assert(es.take(i + 1).drop_last() =~= es.take(i as int));
                    assert(es.take(i + 1).last() == entries@[i as int]@);
                }
                match checked_path(dir, &entries[i]) {
                    Some(path) => {
                        let ghost seen = checked@;
                        checked.push(path);
                        assert(path_views(checked@) =~= path_views(seen).push(path@));
                    },
                    None => {},
                }
                match decision {
                    Err(f) => {
                        proof {
                            assert(planned(dir@, es.take(i + 1), pattern@, target@) == (PlanModel {
                                checked: path_views(checked@),
                                moves: move_views(moves@),
                                failure: Some(f@),
                            }));
                            lemma_failure_ends_scan(dir@, es, i + 1, pattern@, target@);
                        }
                        return Plan { checked, moves, failure: Some(f) };
                    },
                    Ok(Some(m)) => {
                        let ghost before = moves@;
                        moves.push(m);
                        assert(move_views(moves@) =~= move_views(before).push(m@));
                    },
                    Ok(None) => {},
                }
                i += 1;
            }
            assert(es.take(i as int) =~= es);
            Plan { checked, moves, failure: None }
        },
    }
}

} // verus!
