//! What holds of every plan: which files are moved, from where and where to,
//! and what a second run finds.

use vstd::prelude::*;
use crate::collect::{child_directories, is_named_directory, lemma_collected_within_one_level};
use crate::model::{EntryKind, EntryModel, MoveModel};
use crate::path::{dir_prefix, joined, lemma_joined_names_differ};
use crate::plan::{directory_plan, is_named_file, is_selected, is_unnamed_file, move_of, name_failure, planned};
use crate::run::{ScanModel, StepModel, run_plan, steps_of};
use crate::text::{is_substring, lemma_empty_pattern_is_everywhere};

verus! {

/// Every planned move takes a selected file of the directory's own listing,
/// from its path in that directory to its base name directly in the target.
pub proof fn lemma_moves_are_selected_entries(
    dir: Seq<char>,
    entries: Seq<EntryModel>,
    pattern: Seq<char>,
    target: Seq<char>,
    j: int,
)
    requires
        0 <= j < planned(dir, entries, pattern, target).moves.len(),
    ensures
        exists|i: int|
            0 <= i < entries.len() && is_selected(#[trigger] entries[i], pattern) && planned(
                dir,
                entries,
                pattern,
                target,
            ).moves[j] == move_of(dir, entries[i].name.unwrap(), target),
    decreases entries.len(),
{
    if entries.len() > 0 {
        let head = entries.drop_last();
        let before = planned(dir, head, pattern, target);
        if j < before.moves.len() {
            lemma_moves_are_selected_entries(dir, head, pattern, target, j);
            let i = choose|i: int|
                0 <= i < head.len() && is_selected(#[trigger] head[i], pattern) && before.moves[j]
                    == move_of(dir, head[i].name.unwrap(), target);
            assert(entries[i] == head[i]);
        } else {
            assert(is_selected(entries[entries.len() - 1], pattern));
        }
    }
}

/// In a scan that did not fail, every file has a name that is text, and
/// every selected file is moved.
pub proof fn lemma_selected_entries_are_moved(
    dir: Seq<char>,
    entries: Seq<EntryModel>,
    pattern: Seq<char>,
    target: Seq<char>,
    i: int,
)
    requires
        planned(dir, entries, pattern, target).failure is None,
        0 <= i < entries.len(),
    ensures
        !is_unnamed_file(entries[i]),
        is_selected(entries[i], pattern) ==> planned(dir, entries, pattern, target).moves.contains(
            move_of(dir, entries[i].name.unwrap(), target),
        ),
    decreases entries.len(),
{
    let head = entries.drop_last();
    let before = planned(dir, head, pattern, target);
    let all = planned(dir, entries, pattern, target);
    if i < entries.len() - 1 {
        lemma_selected_entries_are_moved(dir, head, pattern, target, i);
        assert(entries[i] == head[i]);
        if is_selected(entries[i], pattern) {
            let m = move_of(dir, entries[i].name.unwrap(), target);
            let j = choose|j: int| 0 <= j < before.moves.len() && before.moves[j] == m;
            assert(all.moves[j] == m);
        }
    } else {
        if is_selected(entries[i], pattern) {
            assert(all.moves[before.moves.len() as int] == move_of(
                dir,
                entries[i].name.unwrap(),
                target,
            ));
        }
    }
}

/// In a scan that did not fail, a file is moved if and only if its base name
/// contains the pattern.
pub proof fn lemma_moved_iff_name_contains_pattern(
    dir: Seq<char>,
    entries: Seq<EntryModel>,
    pattern: Seq<char>,
    target: Seq<char>,
    i: int,
)
    requires
        planned(dir, entries, pattern, target).failure is None,
        0 <= i < entries.len(),
        entries[i].kind == EntryKind::File,
    ensures
        entries[i].name is Some,
        is_substring(entries[i].name.unwrap(), pattern) <==> exists|j: int|
            0 <= j < planned(dir, entries, pattern, target).moves.len() && (#[trigger] planned(
                dir,
                entries,
                pattern,
                target,
            ).moves[j]).source == joined(dir, entries[i].name.unwrap()),
{
    let all = planned(dir, entries, pattern, target);
    lemma_selected_entries_are_moved(dir, entries, pattern, target, i);
    let name = entries[i].name.unwrap();
    if is_substring(name, pattern) {
        let m = move_of(dir, name, target);
        let j = choose|j: int| 0 <= j < all.moves.len() && all.moves[j] == m;
        assert(all.moves[j].source == joined(dir, name));
    }
    if exists|j: int| 0 <= j < all.moves.len() && (#[trigger] all.moves[j]).source == joined(dir, name) {
        let j = choose|j: int|
            0 <= j < all.moves.len() && (#[trigger] all.moves[j]).source == joined(dir, name);
        lemma_moves_are_selected_entries(dir, entries, pattern, target, j);
        let k = choose|k: int|
            0 <= k < entries.len() && is_selected(#[trigger] entries[k], pattern) && all.moves[j]
                == move_of(dir, entries[k].name.unwrap(), target);
        lemma_joined_names_differ(dir, entries[k].name.unwrap(), name);
    }
}

/// With the empty pattern, a scan that did not fail moves every file.
pub proof fn lemma_empty_pattern_moves_every_file(
    dir: Seq<char>,
    entries: Seq<EntryModel>,
    target: Seq<char>,
    i: int,
)
    requires
        planned(dir, entries, Seq::empty(), target).failure is None,
        0 <= i < entries.len(),
        entries[i].kind == EntryKind::File,
    ensures
        entries[i].name is Some,
        planned(dir, entries, Seq::empty(), target).moves.contains(
            move_of(dir, entries[i].name.unwrap(), target),
        ),
{
    lemma_selected_entries_are_moved(dir, entries, Seq::empty(), target, i);
    lemma_empty_pattern_is_everywhere(entries[i].name.unwrap());
}

/// Where no entry is selected, nothing is moved.
pub proof fn lemma_nothing_selected_nothing_moved(
    dir: Seq<char>,
    entries: Seq<EntryModel>,
    pattern: Seq<char>,
    target: Seq<char>,
)
    requires
        forall|i: int| 0 <= i < entries.len() ==> !is_selected(#[trigger] entries[i], pattern),
    ensures
        planned(dir, entries, pattern, target).moves.len() == 0,
    decreases entries.len(),
{
    if entries.len() > 0 {
        let head = entries.drop_last();
        assert forall|i: int| 0 <= i < head.len() implies !is_selected(
            #[trigger] head[i],
            pattern,
        ) by {
            assert(head[i] == entries[i]);
        }
        lemma_nothing_selected_nothing_moved(dir, head, pattern, target);
        assert(!is_selected(entries[entries.len() - 1], pattern));
    }
}

/// What a directory still lists once its selected files have been moved
/// elsewhere: the entries that were not selected, in their order.
pub open spec fn left_behind(entries: Seq<EntryModel>, pattern: Seq<char>) -> Seq<EntryModel> {
    entries.filter(stays(pattern))
}

/// The test for an entry that a scan with `pattern` leaves where it is.
pub open spec fn stays(pattern: Seq<char>) -> spec_fn(EntryModel) -> bool {
    |e: EntryModel| !is_selected(e, pattern)
}

/// A second scan of a directory, after a first one whose moves were all
/// carried out into another directory, moves nothing.
pub proof fn lemma_second_scan_moves_nothing(
    dir: Seq<char>,
    entries: Seq<EntryModel>,
    pattern: Seq<char>,
    target: Seq<char>,
)
    requires
        planned(dir, entries, pattern, target).failure is None,
        dir_prefix(dir) != dir_prefix(target),
    ensures
        planned(dir, left_behind(entries, pattern), pattern, target).moves.len() == 0,
        planned(dir, left_behind(entries, pattern), pattern, target).failure is None,
{
    let rest = left_behind(entries, pattern);
    assert forall|i: int| 0 <= i < rest.len() implies !is_selected(#[trigger] rest[i], pattern)
        && !is_unnamed_file(rest[i]) by {
        entries.lemma_filter_pred(stays(pattern), i);
        assert(rest.contains(rest[i]));
        entries.lemma_filter_contains_rev(stays(pattern), rest[i]);
        let k = choose|k: int| 0 <= k < entries.len() && entries[k] == rest[i];
        lemma_selected_entries_are_moved(dir, entries, pattern, target, k);
    }
    lemma_nothing_selected_nothing_moved(dir, rest, pattern, target);
    lemma_no_unnamed_file_no_failure(dir, rest, pattern, target);
}

/// A scan fails only on a file whose name is no text.
pub proof fn lemma_no_unnamed_file_no_failure(
    dir: Seq<char>,
    entries: Seq<EntryModel>,
    pattern: Seq<char>,
    target: Seq<char>,
)
    requires
        forall|i: int| 0 <= i < entries.len() ==> !is_unnamed_file(#[trigger] entries[i]),
    ensures
        planned(dir, entries, pattern, target).failure is None,
    decreases entries.len(),
{
    if entries.len() > 0 {
        let head = entries.drop_last();
        assert forall|i: int| 0 <= i < head.len() implies !is_unnamed_file(#[trigger] head[i]) by {
            assert(head[i] == entries[i]);
        }
        lemma_no_unnamed_file_no_failure(dir, head, pattern, target);
        assert(!is_unnamed_file(entries[entries.len() - 1]));
    }
}

/// `m` moves a selected file that the scan at position `s` lists, out of that
/// scan's directory.
pub open spec fn is_move_from_scan(
    scans: Seq<ScanModel>,
    s: int,
    i: int,
    pattern: Seq<char>,
    target: Seq<char>,
    m: MoveModel,
) -> bool {
    &&& 0 <= s < scans.len()
    &&& scans[s].listing is Some
    &&& 0 <= i < scans[s].listing.unwrap().len()
    &&& is_selected(scans[s].listing.unwrap()[i], pattern)
    &&& m == move_of(scans[s].directory, scans[s].listing.unwrap()[i].name.unwrap(), target)
}

/// Every move of a run takes a selected file that one of the scanned
/// directories lists itself, to its base name directly in the target.
pub proof fn lemma_run_moves_come_from_scans(
    scans: Seq<ScanModel>,
    pattern: Seq<char>,
    target: Seq<char>,
    j: int,
)
    requires
        0 <= j < run_plan(scans, pattern, target).moves.len(),
    ensures
        exists|s: int, i: int| #[trigger]
            is_move_from_scan(
                scans,
                s,
                i,
                pattern,
                target,
                run_plan(scans, pattern, target).moves[j],
            ),
    decreases scans.len(),
{
    if scans.len() > 0 {
        let head = scans.drop_last();
        let before = run_plan(head, pattern, target);
        let m = run_plan(scans, pattern, target).moves[j];
        if j < before.moves.len() {
            lemma_run_moves_come_from_scans(head, pattern, target, j);
            let (s, i) = choose|s: int, i: int| #[trigger]
                is_move_from_scan(head, s, i, pattern, target, before.moves[j]);
            assert(head[s] == scans[s]);
            assert(is_move_from_scan(scans, s, i, pattern, target, m));
        } else {
            let s = scans.len() - 1;
            let last = scans.last();
            let entries = last.listing.unwrap();
            let k = j - before.moves.len();
            lemma_moves_are_selected_entries(last.directory, entries, pattern, target, k);
            let i = choose|i: int|
                0 <= i < entries.len() && is_selected(#[trigger] entries[i], pattern) && planned(
                    last.directory,
                    entries,
                    pattern,
                    target,
                ).moves[k] == move_of(last.directory, entries[i].name.unwrap(), target);
            assert(is_move_from_scan(scans, s, i, pattern, target, m));
        }
    }
}

/// `dir` is `root` or the path of a directory that `root` lists itself.
pub open spec fn is_within_one_level(
    root: Seq<char>,
    root_entries: Seq<EntryModel>,
    dir: Seq<char>,
) -> bool {
    dir == root || exists|c: int|
        0 <= c < root_entries.len() && is_named_directory(#[trigger] root_entries[c]) && dir
            == joined(root, root_entries[c].name.unwrap())
}

/// The directories of `scans`, in order.
pub open spec fn scanned_directories(scans: Seq<ScanModel>) -> Seq<Seq<char>> {
    scans.map_values(|s: ScanModel| s.directory)
}

/// The scans are those of the directories collected below `root`, in order.
pub open spec fn scans_cover(
    root: Seq<char>,
    root_entries: Seq<EntryModel>,
    scans: Seq<ScanModel>,
) -> bool {
    scanned_directories(scans) == seq![root] + child_directories(root, root_entries)
}

/// The scan goes two levels deep and no further: in a run over the
/// directories collected below `root`, every file that is moved is listed
/// by `root` itself or by a directory that `root` lists. A file that lies
/// deeper is never moved.
pub proof fn lemma_moves_stay_within_two_levels(
    root: Seq<char>,
    root_entries: Seq<EntryModel>,
    scans: Seq<ScanModel>,
    pattern: Seq<char>,
    target: Seq<char>,
    j: int,
)
    requires
        scans_cover(root, root_entries, scans),
        0 <= j < run_plan(scans, pattern, target).moves.len(),
    ensures
        exists|s: int, i: int|
            #![trigger is_move_from_scan(scans, s, i, pattern, target, run_plan(scans, pattern, target).moves[j])]
            is_move_from_scan(
                scans,
                s,
                i,
                pattern,
                target,
                run_plan(scans, pattern, target).moves[j],
            ) && is_within_one_level(root, root_entries, scans[s].directory),
{
    let m = run_plan(scans, pattern, target).moves[j];
    lemma_run_moves_come_from_scans(scans, pattern, target, j);
    let (s, i) = choose|s: int, i: int| #[trigger]
        is_move_from_scan(scans, s, i, pattern, target, m);
    let dirs = seq![root] + child_directories(root, root_entries);
    assert(scanned_directories(scans).len() == scans.len());
    assert(dirs.len() == 1 + child_directories(root, root_entries).len());
    assert(scanned_directories(scans)[s] == scans[s].directory);
    assert(dirs[s] == scans[s].directory);
    if s > 0 {
        assert(dirs[s] == child_directories(root, root_entries)[s - 1]);
        lemma_collected_within_one_level(root, root_entries, s - 1);
    }
    assert(is_within_one_level(root, root_entries, scans[s].directory));
}

/// In a run that did not fail, no directory's scan failed.
pub proof fn lemma_run_without_failure(
    scans: Seq<ScanModel>,
    pattern: Seq<char>,
    target: Seq<char>,
    s: int,
)
    requires
        run_plan(scans, pattern, target).failure is None,
        0 <= s < scans.len(),
    ensures
        directory_plan(scans[s].directory, scans[s].listing, pattern, target).failure is None,
    decreases scans.len(),
{
    if s < scans.len() - 1 {
        assert(scans.drop_last()[s] == scans[s]);
        lemma_run_without_failure(scans.drop_last(), pattern, target, s);
    }
}

/// The scan of one directory moves nothing and does not fail.
pub open spec fn is_idle(scan: ScanModel, pattern: Seq<char>, target: Seq<char>) -> bool {
    let plan = directory_plan(scan.directory, scan.listing, pattern, target);
    plan.moves.len() == 0 && plan.failure is None
}

/// A run over directories of which none moves anything or fails moves
/// nothing and does not fail.
pub proof fn lemma_run_of_idle_scans(scans: Seq<ScanModel>, pattern: Seq<char>, target: Seq<char>)
    requires
        forall|s: int| 0 <= s < scans.len() ==> is_idle(#[trigger] scans[s], pattern, target),
    ensures
        run_plan(scans, pattern, target).moves.len() == 0,
        run_plan(scans, pattern, target).failure is None,
    decreases scans.len(),
{
    if scans.len() > 0 {
        let head = scans.drop_last();
        assert forall|s: int| 0 <= s < head.len() implies is_idle(
            #[trigger] head[s],
            pattern,
            target,
        ) by {
            assert(head[s] == scans[s]);
        }
        lemma_run_of_idle_scans(head, pattern, target);
        assert(is_idle(scans[scans.len() - 1], pattern, target));
    }
}

/// What a scan of the same directory finds once its selected files have
/// been moved elsewhere.
pub open spec fn scan_after(scan: ScanModel, pattern: Seq<char>) -> ScanModel {
    ScanModel {
        directory: scan.directory,
        listing: match scan.listing {
            Some(entries) => Some(left_behind(entries, pattern)),
            None => None,
        },
    }
}

/// What the scans of the same directories find once every selected file
/// has been moved elsewhere.
pub open spec fn scans_after(scans: Seq<ScanModel>, pattern: Seq<char>) -> Seq<ScanModel> {
    scans.map_values(|s: ScanModel| scan_after(s, pattern))
}

/// Running twice changes nothing more: after a run that did not fail and
/// whose target is none of the scanned directories, a second run over the
/// same directories with the same pattern and target moves no file.
///
/// The target is told apart from the scanned directories by the text of
/// its path. Where it is one of them, the files that arrived in it are
/// selected again and renamed onto themselves.
pub proof fn lemma_second_run_moves_nothing(
    scans: Seq<ScanModel>,
    pattern: Seq<char>,
    target: Seq<char>,
)
    requires
        run_plan(scans, pattern, target).failure is None,
        forall|s: int|
            0 <= s < scans.len() ==> dir_prefix((#[trigger] scans[s]).directory) != dir_prefix(
                target,
            ),
    ensures
        run_plan(scans_after(scans, pattern), pattern, target).moves.len() == 0,
        run_plan(scans_after(scans, pattern), pattern, target).failure is None,
{
    let after = scans_after(scans, pattern);
    assert forall|s: int| 0 <= s < after.len() implies is_idle(
        #[trigger] after[s],
        pattern,
        target,
    ) by {
        lemma_run_without_failure(scans, pattern, target, s);
        assert(after[s] == scan_after(scans[s], pattern));
        lemma_second_scan_moves_nothing(
            scans[s].directory,
            scans[s].listing.unwrap(),
            pattern,
            target,
        );
    }
    lemma_run_of_idle_scans(after, pattern, target);
}

/// A target that does not exist is no failure: it is made, with its
/// missing ancestors, before the file is renamed into it. The rename is the
/// last step of every move, and where the target exists it is the only one.
pub proof fn lemma_target_is_made_before_the_rename(m: MoveModel, into_exists: bool)
    ensures
        steps_of(m, into_exists).last() == StepModel::Rename(m.source, m.destination),
        into_exists ==> steps_of(m, into_exists).len() == 1,
        !into_exists ==> steps_of(m, into_exists).len() == 2 && steps_of(m, into_exists)[0]
            == StepModel::CreateDirectories(m.into),
{
}

/// Every planned move is into the target of the scan, whatever the
/// directory that was scanned.
pub proof fn lemma_moves_land_in_target(
    dir: Seq<char>,
    entries: Seq<EntryModel>,
    pattern: Seq<char>,
    target: Seq<char>,
    j: int,
)
    requires
        0 <= j < planned(dir, entries, pattern, target).moves.len(),
    ensures
        planned(dir, entries, pattern, target).moves[j].into == target,
{
    lemma_moves_are_selected_entries(dir, entries, pattern, target, j);
}

/// Only regular files of the directory's own listing are looked at: every
/// path that a scan has looked at is that of a regular file among the entries.
pub proof fn lemma_checked_are_listed_files(
    dir: Seq<char>,
    entries: Seq<EntryModel>,
    pattern: Seq<char>,
    target: Seq<char>,
    k: int,
)
    requires
        0 <= k < planned(dir, entries, pattern, target).checked.len(),
    ensures
        exists|i: int|
            0 <= i < entries.len() && is_named_file(#[trigger] entries[i]) && planned(
                dir,
                entries,
                pattern,
                target,
            ).checked[k] == joined(dir, entries[i].name.unwrap()),
    decreases entries.len(),
{
    if entries.len() > 0 {
        let head = entries.drop_last();
        let before = planned(dir, head, pattern, target);
        if k < before.checked.len() {
            lemma_checked_are_listed_files(dir, head, pattern, target, k);
            let i = choose|i: int|
                0 <= i < head.len() && is_named_file(#[trigger] head[i]) && before.checked[k]
                    == joined(dir, head[i].name.unwrap());
            assert(entries[i] == head[i]);
        } else {
            assert(is_named_file(entries[entries.len() - 1]));
        }
    }
}

/// No file is moved that was not looked at.
pub proof fn lemma_moved_files_were_checked(
    dir: Seq<char>,
    entries: Seq<EntryModel>,
    pattern: Seq<char>,
    target: Seq<char>,
    j: int,
)
    requires
        0 <= j < planned(dir, entries, pattern, target).moves.len(),
    ensures
        planned(dir, entries, pattern, target).checked.contains(
            planned(dir, entries, pattern, target).moves[j].source,
        ),
    decreases entries.len(),
{
    if entries.len() > 0 {
        let head = entries.drop_last();
        let before = planned(dir, head, pattern, target);
        let all = planned(dir, entries, pattern, target);
        if j < before.moves.len() {
            lemma_moved_files_were_checked(dir, head, pattern, target, j);
            let k = choose|k: int|
                0 <= k < before.checked.len() && before.checked[k] == before.moves[j].source;
            assert(all.checked[k] == all.moves[j].source);
        } else {
            assert(all.checked[before.checked.len() as int] == all.moves[j].source);
        }
    }
}

/// The only failure of a scan is that of a name: it names the directory.
pub proof fn lemma_scan_failure_names_directory(
    dir: Seq<char>,
    entries: Seq<EntryModel>,
    pattern: Seq<char>,
    target: Seq<char>,
)
    requires
        planned(dir, entries, pattern, target).failure is Some,
    ensures
        planned(dir, entries, pattern, target).failure == Some(name_failure(dir)),
    decreases entries.len(),
{
    if entries.len() > 0 {
        let head = entries.drop_last();
        if planned(dir, head, pattern, target).failure is Some {
            lemma_scan_failure_names_directory(dir, head, pattern, target);
        }
    }
}

/// The scan of a listed directory fails if and only if one of its regular
/// files has a name that is no text.
pub proof fn lemma_scan_fails_iff_a_name_is_no_text(
    dir: Seq<char>,
    entries: Seq<EntryModel>,
    pattern: Seq<char>,
    target: Seq<char>,
)
    ensures
        planned(dir, entries, pattern, target).failure is Some <==> exists|i: int|
            0 <= i < entries.len() && is_unnamed_file(#[trigger] entries[i]),
{
    if planned(dir, entries, pattern, target).failure is None {
        assert forall|i: int| 0 <= i < entries.len() implies !is_unnamed_file(
            #[trigger] entries[i],
        ) by {
            lemma_selected_entries_are_moved(dir, entries, pattern, target, i);
        }
    } else {
        if forall|i: int| 0 <= i < entries.len() ==> !is_unnamed_file(#[trigger] entries[i]) {
            lemma_no_unnamed_file_no_failure(dir, entries, pattern, target);
        }
    }
}

} // verus!
