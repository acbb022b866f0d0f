//! A whole run: the directories in the order in which they were collected,
//! and the steps that carry out one move.

use vstd::prelude::*;
use vstd::string::*;
use crate::model::{EntryModel, Failure, FailureKind, FailureModel, Listing, Move, MoveModel, move_views, path_views};
use crate::plan::{Plan, PlanModel, directory_plan, empty_plan, plan_directory};

verus! {

/// A directory to scan, with what reading it gave.
#[derive(Clone, Debug, PartialEq, Eq)]
pub struct Scan {
    pub directory: String,
    pub listing: Listing,
}

/// A scan, with its texts as sequences of characters.
pub struct ScanModel {
    pub directory: Seq<char>,
    pub listing: Option<Seq<EntryModel>>,
}

impl View for Scan {
    type V = ScanModel;

    open spec fn view(&self) -> ScanModel {
        ScanModel { directory: self.directory@, listing: self.listing@ }
    }
}

/// A list of scans, each by its view.
pub open spec fn scan_views(scans: Seq<Scan>) -> Seq<ScanModel> {
    scans.map_values(|s: Scan| s@)
}

/// The plan for a run over `scans`: the directories are taken one after the
/// other, in order; the moves of each follow those of the one before; the
/// first failure ends the run, and no directory after it adds anything.
pub open spec fn run_plan(scans: Seq<ScanModel>, pattern: Seq<char>, target: Seq<char>) -> PlanModel
    decreases scans.len(),
{
    if scans.len() == 0 {
        empty_plan()
    } else {
        let before = run_plan(scans.drop_last(), pattern, target);
        if before.failure is Some {
            before
        } else {
            let here = directory_plan(
                scans.last().directory,
                scans.last().listing,
                pattern,
                target,
            );
            PlanModel {
                checked: before.checked + here.checked,
                moves: before.moves + here.moves,
                failure: here.failure,
            }
        }
    }
}

/// A run that has failed after `k` directories is not changed by those that follow.
pub proof fn lemma_failure_ends_run(
    scans: Seq<ScanModel>,
    k: int,
    pattern: Seq<char>,
    target: Seq<char>,
)
    requires
        0 <= k <= scans.len(),
        run_plan(scans.take(k), pattern, target).failure is Some,
    ensures
        run_plan(scans, pattern, target) == run_plan(scans.take(k), pattern, target),
    decreases scans.len(),
{
    if k == scans.len() {
        assert(scans.take(k) =~= scans);
    } else {
        assert(scans.drop_last().take(k) =~= scans.take(k));
        lemma_failure_ends_run(scans.drop_last(), k, pattern, target);
    }
}

/// Plans a whole run from the scans of its directories.
///
/// Every unit of work stands in one order, that of `scans`: where two files
/// of one name are moved, the one moved later is the one from the later
/// directory. A failure is never dropped: the plan ends with the first one,
/// after the moves that precede it.
pub fn plan_run(scans: &Vec<Scan>, pattern: &str, target: &str) -> (plan: Plan)
    ensures
        plan@ == run_plan(scan_views(scans@), pattern@, target@),
{
    let ghost ss = scan_views(scans@);
    let mut moves: Vec<Move> = Vec::new();
    let mut checked: Vec<String> = Vec::new();
    let mut i: usize = 0;
    assert(move_views(moves@) =~= Seq::<MoveModel>::empty());
    assert(path_views(checked@) =~= Seq::<Seq<char>>::empty());
    while i < scans.len()
        invariant
            i <= scans.len(),
            ss == scan_views(scans@),
            run_plan(ss.take(i as int), pattern@, target@) == (PlanModel {
                checked: path_views(checked@),
                moves: move_views(moves@),
                failure: None,
            }),
        decreases scans.len() - i,
    {
        let scan: &Scan = &scans[i];
        let here = plan_directory(scan.directory.as_str(), &scan.listing, pattern, target);
        let Plan { checked: mut seen, moves: mut found, failure } = here;
        let ghost before = moves@;
        let ghost added = found@;
        let ghost seen_before = checked@;
        let ghost seen_here = seen@;
        moves.append(&mut found);
        checked.append(&mut seen);
        proof {
            assert(ss.take(i + 1).drop_last() =~= ss.take(i as int));
            assert(ss.take(i + 1).last() == scan@);
            assert(move_views(moves@) =~= move_views(before) + move_views(added));
            assert(path_views(checked@) =~= path_views(seen_before) + path_views(seen_here));
        }
        match failure {
            Some(f) => {
                proof {
                    assert(run_plan(ss.take(i + 1), pattern@, target@) == (PlanModel {
                        checked: path_views(checked@),
                        moves: move_views(moves@),
                        failure: Some(f@),
                    }));
                    lemma_failure_ends_run(ss, i + 1, pattern@, target@);
                }
                return Plan { checked, moves, failure: Some(f) };
            },
            None => {},
        }
        i += 1;
    }
    assert(ss.take(i as int) =~= ss);
    Plan { checked, moves, failure: None }
}

/// One operation on the file system.
#[derive(Clone, Debug, PartialEq, Eq)]
pub enum Step {
    /// Make the directory at this path, with every ancestor that is missing.
    CreateDirectories(String),
    /// Rename the file at the first path to the second.
    Rename(String, String),
}

/// A step, with its paths as sequences of characters.
pub enum StepModel {
    CreateDirectories(Seq<char>),
    Rename(Seq<char>, Seq<char>),
}

impl View for Step {
    type V = StepModel;

    open spec fn view(&self) -> StepModel {
        match self {
            Step::CreateDirectories(p) => StepModel::CreateDirectories(p@),
            Step::Rename(from, to) => StepModel::Rename(from@, to@),
        }
    }
}

/// A list of steps, each by its view.
pub open spec fn step_views(steps: Seq<Step>) -> Seq<StepModel> {
    steps.map_values(|s: Step| s@)
}

/// The steps of a move: the rename, and before it the making of the
/// directory that receives the file where that directory is missing.
pub open spec fn steps_of(m: MoveModel, into_exists: bool) -> Seq<StepModel> {
    if into_exists {
        seq![StepModel::Rename(m.source, m.destination)]
    } else {
        seq![StepModel::CreateDirectories(m.into), StepModel::Rename(m.source, m.destination)]
    }
}

/// What it means that a step could not be done.
pub open spec fn step_failure(s: StepModel) -> FailureModel {
    match s {
        StepModel::CreateDirectories(p) => FailureModel {
            kind: FailureKind::DirectoryCreateFailed,
            path: p,
        },
        StepModel::Rename(from, to) => FailureModel { kind: FailureKind::MoveFailed, path: from },
    }
}

impl Move {
    /// The steps that carry out this move, in order, given whether the
    /// directory that receives the file exists. A missing directory is no
    /// failure: it is made first.
    pub fn steps(&self, into_exists: bool) -> (steps: Vec<Step>)
        ensures
            step_views(steps@) == steps_of(self@, into_exists),
    {
        let mut steps: Vec<Step> = Vec::new();
        if !into_exists {
            steps.push(Step::CreateDirectories(self.into.clone()));
        }
        steps.push(Step::Rename(self.source.clone(), self.destination.clone()));
        assert(step_views(steps@) =~= steps_of(self@, into_exists));
        steps
    }
}

impl Step {
    /// The failure to report where this step could not be done.
    pub fn failure(&self) -> (f: Failure)
        ensures
            f@ == step_failure(self@),
    {
        match self {
            Step::CreateDirectories(p) => Failure {
                kind: FailureKind::DirectoryCreateFailed,
                path: p.clone(),
            },
            Step::Rename(from, _) => Failure { kind: FailureKind::MoveFailed, path: from.clone() },
        }
    }
}

} // verus!
