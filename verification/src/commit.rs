//! The last steps of a save-as, as a machine that the caller drives.
//!
//! The prepared bytes go to the temporary file; what reads back from it must
//! unlock and pass the write's checks; only then does the temporary file
//! replace the output (an existing output is removed first where the write
//! is forced). Every failure removes the temporary file.
use vstd::prelude::*;
use crate::edit::{UnlockKey, key_bytes};
use crate::error::{AnahtarError, IoFailure};
use crate::kdbx::unlocks;
use crate::write::{PendingWrite, WriteReport, finish_save_as, reports, reads_back_counts, reads_back_passing};

verus! {

/// Where a save-as stands.
#[derive(Clone, Copy, PartialEq, Eq, Structural, Debug)]
pub enum CommitPhase {
    /// Waiting for the bytes to be written to the temporary file.
    WritingTemp,
    /// Waiting for the bytes of the temporary file.
    ReadingTemp,
    /// Waiting for an existing output to be removed.
    ClearingOutput,
    /// Waiting for the rename of the temporary file over the output.
    Renaming,
    /// Done, one way or the other.
    Finished,
}

/// What the caller does next.
#[derive(Debug)]
pub enum CommitAction {
    /// Write the pending bytes to the temporary file and sync it.
    WriteTemp { temp: String },
    /// Read the temporary file.
    ReadTemp { temp: String },
    /// Remove the output, where it exists.
    ClearOutput { output: String },
    /// Rename the temporary file over the output.
    Rename { temp: String, output: String },
    /// Remove the temporary file; the save-as fails with `error`.
    Discard { temp: String, error: AnahtarError },
    /// The save-as is done.
    Finish { report: WriteReport },
}

/// What the caller reports back.
#[derive(Debug)]
pub enum CommitEvent {
    Wrote(Result<(), IoFailure>),
    Read(Result<Vec<u8>, IoFailure>),
    Cleared(Result<(), IoFailure>),
    Renamed(Result<(), IoFailure>),
}

/// A save-as under way: its phase, and the report once the read-back passed.
#[derive(Debug)]
pub struct SaveAsCommit {
    pub phase: CommitPhase,
    pub report: Option<WriteReport>,
}

/// The event that a phase waits for.
pub open spec fn commit_expects(phase: CommitPhase, ev: CommitEvent) -> bool {
    match phase {
        CommitPhase::WritingTemp => ev is Wrote,
        CommitPhase::ReadingTemp => ev is Read,
        CommitPhase::ClearingOutput => ev is Cleared,
        CommitPhase::Renaming => ev is Renamed,
        CommitPhase::Finished => false,
    }
}

/// From the moment the read-back passed, the save-as holds its report.
pub open spec fn commit_wf(c: SaveAsCommit, p: PendingWrite) -> bool {
    (c.phase is ClearingOutput || c.phase is Renaming) ==> (c.report matches Some(r) && reports(p, r))
}

/// The temporary file gives way to the output: removing the output first
/// where the write is forced, renaming over it otherwise.
pub open spec fn makes_way(p: PendingWrite, n: SaveAsCommit, a: CommitAction) -> bool {
    if p.force {
        n.phase is ClearingOutput && (a matches CommitAction::ClearOutput { output } && output@ == p.output_path@)
    } else {
        n.phase is Renaming && (a matches CommitAction::Rename { temp, output } && temp@ == p.temp_path@ && output@ == p.output_path@)
    }
}

/// The save-as ends by removing the temporary file and failing with `e`.
pub open spec fn discards(p: PendingWrite, n: SaveAsCommit, a: CommitAction, e: AnahtarError) -> bool {
    n.phase is Finished && (a matches CommitAction::Discard { temp, error } && temp@ == p.temp_path@ && error == e)
}

/// One step of a save-as.
///
/// After the bytes are written, the temporary file is read back; it must
/// unlock with the key and pass the write's checks (its counts, and the
/// entry it changed) before the output is touched. The report that
/// finishes the save-as is the one of that read-back.
pub open spec fn commit_next(c: SaveAsCommit, p: PendingWrite, key: UnlockKey, ev: CommitEvent, n: SaveAsCommit, a: CommitAction) -> bool {
    &&& commit_wf(n, p)
    &&& match ev {
        CommitEvent::Wrote(res) => match res {
            Err(f) => discards(p, n, a, AnahtarError::Io(f)),
            Ok(()) => n.phase is ReadingTemp && (a matches CommitAction::ReadTemp { temp } && temp@ == p.temp_path@),
        },
        CommitEvent::Read(res) => match res {
            Err(f) => discards(p, n, a, AnahtarError::Io(f)),
            Ok(data) => {
                &&& !unlocks(data@, key.password@, key_bytes(key)) ==> discards(p, n, a, AnahtarError::OpenDatabase)
                &&& reads_back_passing(p, data@, key.password@, key_bytes(key)) ==> makes_way(p, n, a)
                &&& makes_way(p, n, a) || (n.phase is Finished && a is Discard)
                &&& makes_way(p, n, a) ==> reads_back_counts(p, data@, key.password@, key_bytes(key))
                &&& a matches CommitAction::Discard { temp, error } ==> temp@ == p.temp_path@
            },
        },
        CommitEvent::Cleared(res) => match res {
            Err(f) => discards(p, n, a, AnahtarError::Io(f)),
            Ok(()) => n.phase is Renaming && n.report == c.report
                && (a matches CommitAction::Rename { temp, output } && temp@ == p.temp_path@ && output@ == p.output_path@),
        },
        CommitEvent::Renamed(res) => match res {
            Err(f) => discards(p, n, a, AnahtarError::Io(f)),
            Ok(()) => n.phase is Finished && (a matches CommitAction::Finish { report } && Some(report) == c.report),
        },
    }
}

/// Starts the save-as of a pending write: its bytes go to the temporary file.
pub fn start_commit(p: &PendingWrite) -> (r: (SaveAsCommit, CommitAction))
    ensures
        r.0.phase is WritingTemp && r.0.report is None,
        r.1 matches CommitAction::WriteTemp { temp } && temp@ == p.temp_path@,
{
    (SaveAsCommit { phase: CommitPhase::WritingTemp, report: None }, CommitAction::WriteTemp { temp: p.temp_path.clone() })
}

/// Takes the next step of a save-as (see [`commit_next`]).
pub fn commit_step(c: SaveAsCommit, p: &PendingWrite, key: &UnlockKey, ev: CommitEvent) -> (r: (SaveAsCommit, CommitAction))
    requires
        commit_wf(c, *p),
        commit_expects(c.phase, ev),
    ensures
        commit_next(c, *p, *key, ev, r.0, r.1),
{
    let done = SaveAsCommit { phase: CommitPhase::Finished, report: None };
    match ev {
        CommitEvent::Wrote(res) => match res {
            Err(f) => (done, CommitAction::Discard { temp: p.temp_path.clone(), error: AnahtarError::Io(f) }),
            Ok(()) => (
                SaveAsCommit { phase: CommitPhase::ReadingTemp, report: None },
                CommitAction::ReadTemp { temp: p.temp_path.clone() },
            ),
        },
        CommitEvent::Read(res) => match res {
            Err(f) => (done, CommitAction::Discard { temp: p.temp_path.clone(), error: AnahtarError::Io(f) }),
            Ok(data) => match finish_save_as(p, key, data.as_slice()) {
                Err(e) => (done, CommitAction::Discard { temp: p.temp_path.clone(), error: e }),
                Ok(report) => if p.force {
                    (
                        SaveAsCommit { phase: CommitPhase::ClearingOutput, report: Some(report) },
                        CommitAction::ClearOutput { output: p.output_path.clone() },
                    )
                } else {
                    (
                        SaveAsCommit { phase: CommitPhase::Renaming, report: Some(report) },
                        CommitAction::Rename { temp: p.temp_path.clone(), output: p.output_path.clone() },
                    )
                },
            },
        },
        CommitEvent::Cleared(res) => match res {
            Err(f) => (done, CommitAction::Discard { temp: p.temp_path.clone(), error: AnahtarError::Io(f) }),
            Ok(()) => (
                SaveAsCommit { phase: CommitPhase::Renaming, report: c.report },
                CommitAction::Rename { temp: p.temp_path.clone(), output: p.output_path.clone() },
            ),
        },
        CommitEvent::Renamed(res) => match res {
            Err(f) => (done, CommitAction::Discard { temp: p.temp_path.clone(), error: AnahtarError::Io(f) }),
            Ok(()) => match c.report {
                Some(report) => (done, CommitAction::Finish { report }),
                None => {
                    proof { assert(false); }
                    (done, CommitAction::Discard { temp: p.temp_path.clone(), error: AnahtarError::SaveDatabase })
                },
            },
        },
    }
}

/// A run of a save-as: `cs[0]` is a fresh start, and from each `cs[i]` the
/// event `evs[i]` that it waits for leads to `cs[i + 1]` with the action
/// `acts[i]`, as [`commit_step`] takes the step.
pub open spec fn commit_run(p: PendingWrite, key: UnlockKey, cs: Seq<SaveAsCommit>, evs: Seq<CommitEvent>, acts: Seq<CommitAction>) -> bool {
    &&& cs.len() == evs.len() + 1
    &&& acts.len() == evs.len()
    &&& cs[0].phase is WritingTemp
    &&& cs[0].report is None
    &&& forall|i: int| 0 <= i < evs.len() ==> commit_expects(cs[i].phase, #[trigger] evs[i]) && commit_next(cs[i], p, key, evs[i], cs[i + 1], acts[i])
}

/// The temporary file read back as `evs[j]`, unlocking with the key, with
/// the counts that the write expects.
pub open spec fn checked_at(p: PendingWrite, key: UnlockKey, evs: Seq<CommitEvent>, j: int) -> bool {
    evs[j] matches CommitEvent::Read(res) && (res matches Ok(data) && reads_back_counts(p, data@, key.password@, key_bytes(key)))
}

/// A run that waits to clear or replace the output has checked the read-back.
proof fn lemma_checked_before(p: PendingWrite, key: UnlockKey, cs: Seq<SaveAsCommit>, evs: Seq<CommitEvent>, acts: Seq<CommitAction>, i: int)
    requires
        commit_run(p, key, cs, evs, acts),
        0 <= i < cs.len(),
        cs[i].phase is ClearingOutput || cs[i].phase is Renaming,
    ensures
        exists|j: int| 0 <= j < i && checked_at(p, key, evs, j),
    decreases i,
{
    assert(commit_expects(cs[i - 1].phase, evs[i - 1]) && commit_next(cs[i - 1], p, key, evs[i - 1], cs[i], acts[i - 1]));
    if evs[i - 1] is Cleared {
        lemma_checked_before(p, key, cs, evs, acts, i - 1);
        let j = choose|j: int| 0 <= j < i - 1 && checked_at(p, key, evs, j);
        assert(checked_at(p, key, evs, j));
    } else {
        assert(checked_at(p, key, evs, i - 1));
    }
}

/// A save-as removes or replaces the output only after the temporary file
/// read back, unlocking with the key, with the counts that the write expects.
pub proof fn output_touched_only_after_check(p: PendingWrite, key: UnlockKey, cs: Seq<SaveAsCommit>, evs: Seq<CommitEvent>, acts: Seq<CommitAction>, k: int)
    requires
        commit_run(p, key, cs, evs, acts),
        0 <= k < acts.len(),
        acts[k] is ClearOutput || acts[k] is Rename,
    ensures
        exists|j: int| 0 <= j <= k && checked_at(p, key, evs, j),
{
    assert(commit_expects(cs[k].phase, evs[k]) && commit_next(cs[k], p, key, evs[k], cs[k + 1], acts[k]));
    lemma_checked_before(p, key, cs, evs, acts, k + 1);
}

} // verus!
