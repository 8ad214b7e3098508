//! A model of the directory tree, what a scan comes to on it, and the
//! guarantees of the cleanup that follow.
//!
//! [`settle`] states the result of a cleanup directly, root by root.
//! [`run`] drives the state machine of [`crate::scan`] against the model,
//! and [`lemma_scan_settles`] shows that both agree, so that whatever holds
//! of [`settle`] holds of every driver that answers the machine truthfully.

use vstd::prelude::*;
use crate::entry::{candidates, holds_executable, EntryView};
use crate::scan::{halted, start, EventView, Notice, ScanView, Stage, Work};

verus! {

/// A directory tree: the directories that exist, each with its listing, and
/// those among them that cannot be read. Removal is taken to succeed.
pub struct Disk {
    pub dirs: Map<Seq<char>, Seq<EntryView>>,
    pub unreadable: Set<Seq<char>>,
}

impl Disk {
    /// `path` is a directory that exists and cannot be read.
    pub open spec fn refuses(self, path: Seq<char>) -> bool {
        self.dirs.contains_key(path) && self.unreadable.contains(path)
    }

    /// `path` is a directory that exists and can be read.
    pub open spec fn lists(self, path: Seq<char>) -> bool {
        self.dirs.contains_key(path) && !self.unreadable.contains(path)
    }
}

/// What the pending work of `scan` comes to on `disk`: a root that does
/// not exist is missing; a directory that cannot be read, or a candidate
/// that has vanished, fails the listing.
pub open spec fn respond(scan: ScanView, disk: Disk) -> EventView {
    match scan.pending() {
        Work::ListRoot => if disk.lists(scan.subject()) {
            EventView::Listed(disk.dirs[scan.subject()])
        } else if disk.refuses(scan.subject()) {
            EventView::Failed
        } else {
            EventView::Missing
        },
        Work::ListTarget => if disk.lists(scan.subject()) {
            EventView::Listed(disk.dirs[scan.subject()])
        } else {
            EventView::Failed
        },
        Work::RemoveTarget => EventView::Removed,
        Work::Halt => EventView::Missing,
    }
}

/// The scan after at most `fuel` steps on `disk`.
pub open spec fn run(scan: ScanView, disk: Disk, fuel: nat) -> ScanView
    decreases fuel,
{
    if fuel == 0 || halted(scan.stage) {
        scan
    } else {
        run(scan.step(respond(scan, disk)), disk, (fuel - 1) as nat)
    }
}

/// The paths that the scan asks to have removed during at most `fuel` steps
/// on `disk`, in order.
pub open spec fn removals(scan: ScanView, disk: Disk, fuel: nat) -> Seq<Seq<char>>
    decreases fuel,
{
    if fuel == 0 || halted(scan.stage) {
        Seq::empty()
    } else {
        let asked = if scan.pending() == Work::RemoveTarget {
            seq![scan.subject()]
        } else {
            Seq::empty()
        };
        asked + removals(scan.step(respond(scan, disk)), disk, (fuel - 1) as nat)
    }
}

/// The root at index `at` can be read on `disk` and has exactly one
/// candidate.
pub open spec fn decides(roots: Seq<Seq<char>>, fragment: Seq<char>, disk: Disk, at: nat) -> bool {
    &&& at < roots.len()
    &&& disk.lists(roots[at as int])
    &&& candidates(disk.dirs[roots[at as int]], fragment).len() == 1
}

/// The root at index `at` exists on `disk` and cannot be read.
pub open spec fn blocks(roots: Seq<Seq<char>>, disk: Disk, at: nat) -> bool {
    at < roots.len() && disk.refuses(roots[at as int])
}

/// The scan goes past the root at index `at`: the root is missing, or it
/// was read and has no candidate or more than one.
pub open spec fn passes(roots: Seq<Seq<char>>, fragment: Seq<char>, disk: Disk, at: nat) -> bool {
    !blocks(roots, disk, at) && !decides(roots, fragment, disk, at)
}

/// The single candidate under the root at index `at`, where it decides.
pub open spec fn candidate_of(
    roots: Seq<Seq<char>>,
    fragment: Seq<char>,
    disk: Disk,
    at: nat,
) -> Seq<char> {
    candidates(disk.dirs[roots[at as int]], fragment)[0].path
}

/// The final state of a cleanup that starts at the root at index `from`:
/// the first root that cannot be read ends it in failure, and the first
/// root that decides settles it, by the state of its candidate, whichever
/// comes first.
pub open spec fn settle(roots: Seq<Seq<char>>, fragment: Seq<char>, disk: Disk, from: nat) -> ScanView
    decreases roots.len() - from,
{
    if from >= roots.len() {
        ScanView { roots, fragment, stage: Stage::NoMatch, root: roots.len(), target: Seq::empty() }
    } else if blocks(roots, disk, from) {
        ScanView {
            roots,
            fragment,
            stage: Stage::RootUnreadable,
            root: from,
            target: Seq::empty(),
        }
    } else if !decides(roots, fragment, disk, from) {
        settle(roots, fragment, disk, from + 1)
    } else {
        let target = candidate_of(roots, fragment, disk, from);
        let stage = if !disk.lists(target) {
            Stage::TargetUnreadable
        } else if holds_executable(disk.dirs[target]) {
            Stage::Unsafe
        } else {
            Stage::Removed
        };
        ScanView { roots, fragment, stage, root: from, target }
    }
}

/// What a cleanup that ended in `last` has removed.
pub open spec fn removed_by(last: ScanView) -> Seq<Seq<char>> {
    if last.stage == Stage::Removed {
        seq![last.target]
    } else {
        Seq::empty()
    }
}

/// A scan that probes a root with no candidate selected, given enough
/// steps, ends as [`settle`] says, and asks for no removal but the one that
/// [`settle`] names.
pub proof fn lemma_run_settles(scan: ScanView, disk: Disk, fuel: nat)
    requires
        scan.valid(),
        scan.stage == Stage::Probing,
        scan.target == Seq::<char>::empty(),
        fuel >= scan.roots.len() - scan.root + 2,
    ensures
        run(scan, disk, fuel) == settle(scan.roots, scan.fragment, disk, scan.root),
        removals(scan, disk, fuel) == removed_by(
            settle(scan.roots, scan.fragment, disk, scan.root),
        ),
    decreases scan.roots.len() - scan.root,
{
    let next = scan.step(respond(scan, disk));
    let rest = (fuel - 1) as nat;
    let goal = settle(scan.roots, scan.fragment, disk, scan.root);
    assert(run(scan, disk, fuel) == run(next, disk, rest));
    assert(removals(scan, disk, fuel) =~= removals(next, disk, rest));
    if blocks(scan.roots, disk, scan.root) {
        assert(next == scan.at(Stage::RootUnreadable));
        assert(run(next, disk, rest) == next);
        assert(removals(next, disk, rest) =~= Seq::<Seq<char>>::empty());
        assert(next == goal);
    } else if decides(scan.roots, scan.fragment, disk, scan.root) {
        let after = next.step(respond(next, disk));
        let left = (rest - 1) as nat;
        assert(next.stage == Stage::Inspecting);
        assert(run(next, disk, rest) == run(after, disk, left));
        assert(removals(next, disk, rest) =~= removals(after, disk, left));
        if after.stage == Stage::Removing {
            let last = after.step(respond(after, disk));
            assert(last.stage == Stage::Removed);
            assert(run(after, disk, left) == run(last, disk, (left - 1) as nat));
            assert(run(last, disk, (left - 1) as nat) == last);
            assert(removals(last, disk, (left - 1) as nat) =~= Seq::<Seq<char>>::empty());
            assert(removals(after, disk, left) =~= seq![after.target]);
            assert(last == goal);
        } else {
            assert(halted(after.stage));
            assert(run(after, disk, left) == after);
            assert(removals(after, disk, left) =~= Seq::<Seq<char>>::empty());
            assert(after == goal);
        }
    } else {
        assert(next == scan.probe_from(scan.root + 1));
        assert(goal == settle(scan.roots, scan.fragment, disk, scan.root + 1));
        if next.stage == Stage::Probing {
            lemma_run_settles(next, disk, rest);
        } else {
            assert(run(next, disk, rest) == next);
            assert(removals(next, disk, rest) =~= Seq::<Seq<char>>::empty());
            assert(next == settle(scan.roots, scan.fragment, disk, scan.root + 1));
        }
    }
}

/// Driven truthfully for long enough, a fresh scan ends as [`settle`] says
/// from the first root on, and asks for no removal but the one that
/// [`settle`] names.
pub proof fn lemma_scan_settles(roots: Seq<Seq<char>>, fragment: Seq<char>, disk: Disk, fuel: nat)
    requires
        fuel >= roots.len() + 2,
    ensures
        run(start(roots, fragment), disk, fuel) == settle(roots, fragment, disk, 0),
        removals(start(roots, fragment), disk, fuel) == removed_by(
            settle(roots, fragment, disk, 0),
        ),
{
    if roots.len() > 0 {
        lemma_run_settles(start(roots, fragment), disk, fuel);
    }
}

/// A cleanup that starts at `from` ends as the one that starts at `to`, if
/// the scan goes past every root in between.
pub proof fn lemma_settle_skips(
    roots: Seq<Seq<char>>,
    fragment: Seq<char>,
    disk: Disk,
    from: nat,
    to: nat,
)
    requires
        from <= to <= roots.len(),
        forall|j: nat| from <= j < to ==> passes(roots, fragment, disk, j),
    ensures
        settle(roots, fragment, disk, from) == settle(roots, fragment, disk, to),
    decreases to - from,
{
    if from < to {
        assert(passes(roots, fragment, disk, from));
        lemma_settle_skips(roots, fragment, disk, from + 1, to);
    }
}

/// If the scan goes past every root before the one at index `at`, that root
/// has exactly one candidate, and the candidate can be read and holds no
/// executable file, then the
/// cleanup ends with that candidate removed, and asks for the removal of
/// nothing else: every other root, and every other directory, is left as it
/// was.
pub proof fn lemma_safe_candidate_is_removed(
    roots: Seq<Seq<char>>,
    fragment: Seq<char>,
    disk: Disk,
    at: nat,
    fuel: nat,
)
    requires
        decides(roots, fragment, disk, at),
        forall|j: nat| j < at ==> passes(roots, fragment, disk, j),
        disk.lists(candidate_of(roots, fragment, disk, at)),
        !holds_executable(disk.dirs[candidate_of(roots, fragment, disk, at)]),
        fuel >= roots.len() + 2,
    ensures
        run(start(roots, fragment), disk, fuel) == (ScanView {
            roots,
            fragment,
            stage: Stage::Removed,
            root: at,
            target: candidate_of(roots, fragment, disk, at),
        }),
        removals(start(roots, fragment), disk, fuel) == seq![
            candidate_of(roots, fragment, disk, at),
        ],
{
    lemma_settle_skips(roots, fragment, disk, 0, at);
    lemma_scan_settles(roots, fragment, disk, fuel);
}

/// If the scan goes past every root before the one at index `at`, that root
/// has exactly one candidate, and the candidate holds an executable file,
/// then the cleanup halts at
/// that root with the candidate marked unsafe, and asks for no removal at
/// all.
pub proof fn lemma_unsafe_candidate_stays(
    roots: Seq<Seq<char>>,
    fragment: Seq<char>,
    disk: Disk,
    at: nat,
    fuel: nat,
)
    requires
        decides(roots, fragment, disk, at),
        forall|j: nat| j < at ==> passes(roots, fragment, disk, j),
        disk.lists(candidate_of(roots, fragment, disk, at)),
        holds_executable(disk.dirs[candidate_of(roots, fragment, disk, at)]),
        fuel >= roots.len() + 2,
    ensures
        run(start(roots, fragment), disk, fuel) == (ScanView {
            roots,
            fragment,
            stage: Stage::Unsafe,
            root: at,
            target: candidate_of(roots, fragment, disk, at),
        }),
        run(start(roots, fragment), disk, fuel).pending() == Work::Halt,
        removals(start(roots, fragment), disk, fuel) == Seq::<Seq<char>>::empty(),
{
    lemma_settle_skips(roots, fragment, disk, 0, at);
    lemma_scan_settles(roots, fragment, disk, fuel);
}

/// Of two roots that each have exactly one candidate, only the earlier one
/// is acted upon: if the scan goes past every root before `first`, the
/// cleanup halts at
/// `first`, with its candidate as the target, and whatever it asks to have
/// removed is that candidate.
pub proof fn lemma_first_root_wins(
    roots: Seq<Seq<char>>,
    fragment: Seq<char>,
    disk: Disk,
    first: nat,
    second: nat,
    fuel: nat,
)
    requires
        first < second,
        decides(roots, fragment, disk, first),
        decides(roots, fragment, disk, second),
        forall|j: nat| j < first ==> passes(roots, fragment, disk, j),
        fuel >= roots.len() + 2,
    ensures
        halted(run(start(roots, fragment), disk, fuel).stage),
        run(start(roots, fragment), disk, fuel).root == first,
        run(start(roots, fragment), disk, fuel).target == candidate_of(
            roots,
            fragment,
            disk,
            first,
        ),
        forall|k: int|
            0 <= k < removals(start(roots, fragment), disk, fuel).len() ==> removals(
                start(roots, fragment),
                disk,
                fuel,
            )[k] == candidate_of(roots, fragment, disk, first),
{
    lemma_settle_skips(roots, fragment, disk, 0, first);
    lemma_scan_settles(roots, fragment, disk, fuel);
}

/// A root with more than one candidate is reported and passed: the scan
/// turns to the next root with no target selected, and the cleanup ends as
/// if it had started there.
pub proof fn lemma_ambiguous_root_is_passed(
    scan: ScanView,
    entries: Seq<EntryView>,
    disk: Disk,
)
    requires
        scan.valid(),
        scan.stage == Stage::Probing,
        candidates(entries, scan.fragment).len() > 1,
        disk.lists(scan.roots[scan.root as int]),
        disk.dirs[scan.roots[scan.root as int]] == entries,
    ensures
        scan.step(EventView::Listed(entries)) == scan.probe_from(scan.root + 1),
        scan.notice(EventView::Listed(entries)) == Notice::Ambiguous,
        scan.step(EventView::Listed(entries)).pending() != Work::RemoveTarget,
        settle(scan.roots, scan.fragment, disk, scan.root) == settle(
            scan.roots,
            scan.fragment,
            disk,
            scan.root + 1,
        ),
{
}

/// A root that does not exist is skipped without a failure: the scan turns
/// to the next root, or halts without a match after the last one, and the
/// cleanup ends as if it had started at the next root.
pub proof fn lemma_missing_root_is_skipped(scan: ScanView, disk: Disk)
    requires
        scan.valid(),
        scan.stage == Stage::Probing,
        !disk.dirs.contains_key(scan.roots[scan.root as int]),
    ensures
        respond(scan, disk) == EventView::Missing,
        scan.step(EventView::Missing) == scan.probe_from(scan.root + 1),
        scan.notice(EventView::Missing) == Notice::Silent,
        scan.step(EventView::Missing).stage == Stage::Probing || scan.step(
            EventView::Missing,
        ).stage == Stage::NoMatch,
        settle(scan.roots, scan.fragment, disk, scan.root) == settle(
            scan.roots,
            scan.fragment,
            disk,
            scan.root + 1,
        ),
{
}

/// A root that exists and cannot be read is fatal: if the scan goes past
/// every root before the one at index `at`, the cleanup halts at that root
/// with the root marked unreadable, probes no later root and asks for no
/// removal.
pub proof fn lemma_unreadable_root_is_fatal(
    roots: Seq<Seq<char>>,
    fragment: Seq<char>,
    disk: Disk,
    at: nat,
    fuel: nat,
)
    requires
        blocks(roots, disk, at),
        forall|j: nat| j < at ==> passes(roots, fragment, disk, j),
        fuel >= roots.len() + 2,
    ensures
        run(start(roots, fragment), disk, fuel) == (ScanView {
            roots,
            fragment,
            stage: Stage::RootUnreadable,
            root: at,
            target: Seq::empty(),
        }),
        run(start(roots, fragment), disk, fuel).pending() == Work::Halt,
        run(start(roots, fragment), disk, fuel).subject() == roots[at as int],
        removals(start(roots, fragment), disk, fuel) == Seq::<Seq<char>>::empty(),
{
    lemma_settle_skips(roots, fragment, disk, 0, at);
    lemma_scan_settles(roots, fragment, disk, fuel);
}

/// A candidate that cannot be read is fatal: if the scan goes past every
/// root before the one at index `at`, and that root has exactly one
/// candidate, which cannot be read, the cleanup halts there with the
/// candidate marked unreadable, and asks for no removal.
pub proof fn lemma_unreadable_target_is_fatal(
    roots: Seq<Seq<char>>,
    fragment: Seq<char>,
    disk: Disk,
    at: nat,
    fuel: nat,
)
    requires
        decides(roots, fragment, disk, at),
        forall|j: nat| j < at ==> passes(roots, fragment, disk, j),
        !disk.lists(candidate_of(roots, fragment, disk, at)),
        fuel >= roots.len() + 2,
    ensures
        run(start(roots, fragment), disk, fuel) == (ScanView {
            roots,
            fragment,
            stage: Stage::TargetUnreadable,
            root: at,
            target: candidate_of(roots, fragment, disk, at),
        }),
        run(start(roots, fragment), disk, fuel).pending() == Work::Halt,
        removals(start(roots, fragment), disk, fuel) == Seq::<Seq<char>>::empty(),
{
    lemma_settle_skips(roots, fragment, disk, 0, at);
    lemma_scan_settles(roots, fragment, disk, fuel);
}

/// A candidate is selected only where a root was listed with exactly one
/// candidate, and it is that candidate.
pub proof fn lemma_selection_needs_single_match(scan: ScanView, event: EventView)
    requires
        scan.stage != Stage::Inspecting,
        scan.step(event).stage == Stage::Inspecting,
    ensures
        scan.stage == Stage::Probing,
        event matches EventView::Listed(entries) && candidates(entries, scan.fragment).len() == 1
            && scan.step(event).target == candidates(entries, scan.fragment)[0].path,
        scan.step(event).root == scan.root,
{
}

/// A removal is asked for only after the selected candidate was listed and
/// held no executable file, and it is the removal of that candidate.
pub proof fn lemma_removal_needs_safe_target(scan: ScanView, event: EventView)
    requires
        scan.stage != Stage::Removing,
        scan.step(event).pending() == Work::RemoveTarget,
    ensures
        scan.stage == Stage::Inspecting,
        event matches EventView::Listed(children) && !holds_executable(children),
        scan.step(event).subject() == scan.target,
{
}

} // verus!
