//! The order of an in-place write, as a machine that the caller drives.
//!
//! An in-place write never touches the vault before a complete, verified
//! copy of the new vault sits in a temporary file beside it, and, where it
//! keeps a backup, before the backup of the vault exists. The caller performs each action on the file system and hands
//! back what happened; [`in_place_step`] decides what comes next.
use vstd::prelude::*;
use crate::edit::{UnlockKey, key_bytes};
use crate::error::{AnahtarError, IoFailure};
use crate::kdbx::unlocks;
use crate::vault::opt_view;
use crate::write::{
    WriteReport, InPlaceStage, check_in_place_copy, in_place_report, in_place_mismatch, copy_counts,
};

verus! {

/// Where an in-place write stands.
#[derive(Clone, Copy, PartialEq, Eq, Structural, Debug)]
pub enum InPlacePhase {
    /// Waiting to learn whether the temporary file exists.
    ProbingTemp,
    /// Waiting for the backup copy of the vault.
    CopyingBackup,
    /// Waiting for the save-as into the temporary file.
    SavingAs,
    /// Waiting for the bytes of the temporary file.
    ReadingTemp,
    /// Waiting for the rename of the temporary file over the vault.
    Replacing,
    /// Waiting for the bytes of the replaced vault.
    ReadingTarget,
    /// Done, one way or the other.
    Finished,
}

/// What the caller does next.
#[derive(Debug)]
pub enum InPlaceAction {
    /// Find out whether the temporary file exists.
    ProbeTemp { temp: String },
    /// Create the backup's directory and copy the vault to the backup path.
    CopyBackup { target: String, backup: String },
    /// Run the save-as of the change into the temporary file.
    SaveAs { output: String },
    /// Read the temporary file.
    ReadTemp { temp: String },
    /// Rename the temporary file over the vault.
    Replace { temp: String, target: String },
    /// Read the replaced vault.
    ReadTarget { target: String },
    /// Copy the backup back over the vault and remove the temporary file;
    /// the write fails with `error`.
    Restore { backup: String, target: String, temp: String, error: AnahtarError },
    /// Remove the temporary file; the write fails with `error`.
    Abandon { temp: String, error: AnahtarError },
    /// The write fails with `error`; nothing was written.
    Fail { error: AnahtarError },
    /// The write is done.
    Finish { report: WriteReport },
}

/// What the caller reports back.
#[derive(Debug)]
pub enum InPlaceEvent {
    TempProbed { exists: bool },
    BackupCopied(Result<(), IoFailure>),
    SavedAs(Result<WriteReport, AnahtarError>),
    Read(Result<Vec<u8>, IoFailure>),
    Replaced(Result<(), IoFailure>),
}

/// An in-place write under way: the vault, its temporary file, its backup
/// (where it keeps one), the phase, and the report of the save-as once
/// there is one.
#[derive(Debug)]
pub struct InPlaceWrite {
    pub target: String,
    pub temp: String,
    pub backup: Option<String>,
    pub phase: InPlacePhase,
    pub report: Option<WriteReport>,
}

/// The event that a phase waits for.
pub open spec fn expects(phase: InPlacePhase, ev: InPlaceEvent) -> bool {
    match phase {
        InPlacePhase::ProbingTemp => ev is TempProbed,
        InPlacePhase::CopyingBackup => ev is BackupCopied,
        InPlacePhase::SavingAs => ev is SavedAs,
        InPlacePhase::ReadingTemp => ev is Read,
        InPlacePhase::Replacing => ev is Replaced,
        InPlacePhase::ReadingTarget => ev is Read,
        InPlacePhase::Finished => false,
    }
}

/// The write holds the save-as report from the moment the save-as is done.
pub open spec fn in_place_wf(w: InPlaceWrite) -> bool {
    (w.phase is ReadingTemp || w.phase is Replacing || w.phase is ReadingTarget) ==> w.report is Some
}

/// The next write keeps the paths.
pub open spec fn same_paths(w: InPlaceWrite, n: InPlaceWrite) -> bool {
    n.target@ == w.target@ && n.temp@ == w.temp@ && n.backup == w.backup
}

/// The report of a finished in-place write: the save-as report with the
/// vault as output and final path, and the backup, if any.
pub open spec fn finished_report(prev: WriteReport, r: WriteReport, target: Seq<char>, backup: Option<String>) -> bool {
    &&& r.output_path@ == target
    &&& r.final_target_path matches Some(t) && t@ == target
    &&& opt_view(r.backup_path) == opt_view(backup)
    &&& r.operation == prev.operation
    &&& r.input_path == prev.input_path
    &&& r.input_version == prev.input_version
    &&& r.output_version == prev.output_version
    &&& r.input_group_count == prev.input_group_count
    &&& r.input_entry_count == prev.input_entry_count
    &&& r.output_group_count == prev.output_group_count
    &&& r.output_entry_count == prev.output_entry_count
    &&& r.changed_entry_id == prev.changed_entry_id
}

/// The bytes read back open to the counts that the report promises.
pub open spec fn counts_match(data: Seq<u8>, key: UnlockKey, rep: WriteReport) -> bool {
    copy_counts(data, key.password@, key_bytes(key), |g: usize, e: usize| g == rep.output_group_count && e == rep.output_entry_count)
}

/// The bytes read back open to other counts than the report promises.
pub open spec fn counts_differ(data: Seq<u8>, key: UnlockKey, rep: WriteReport) -> bool {
    copy_counts(data, key.password@, key_bytes(key), |g: usize, e: usize| g != rep.output_group_count || e != rep.output_entry_count)
}

/// One step of an in-place write.
///
/// The temporary file must not exist; then the backup is made (where the
/// write keeps one), the save-as writes the temporary file, and its
/// read-back must unlock and hold the counts of the save-as report; only
/// then does it replace the vault. The replaced vault must read back the
/// same way, or the backup is copied back over it (a write without a backup
/// fails with the final stage's message). Every failure after the start
/// removes the temporary file.
pub open spec fn in_place_next(w: InPlaceWrite, key: UnlockKey, ev: InPlaceEvent, n: InPlaceWrite, a: InPlaceAction) -> bool {
    &&& same_paths(w, n)
    &&& in_place_wf(n)
    &&& match ev {
        InPlaceEvent::TempProbed { exists } => if exists {
            n.phase is Finished && (a matches InPlaceAction::Fail { error: AnahtarError::TempOutputExists(t) } && t@ == w.temp@)
        } else {
            match w.backup {
                Some(b) => n.phase is CopyingBackup && (a matches InPlaceAction::CopyBackup { target, backup }
                    && target@ == w.target@ && backup@ == b@),
                None => n.phase is SavingAs && (a matches InPlaceAction::SaveAs { output } && output@ == w.temp@),
            }
        },
        InPlaceEvent::BackupCopied(res) => match res {
            Err(f) => n.phase is Finished && (a matches InPlaceAction::Fail { error: AnahtarError::Io(g) } && g == f),
            Ok(()) => n.phase is SavingAs && (a matches InPlaceAction::SaveAs { output } && output@ == w.temp@),
        },
        InPlaceEvent::SavedAs(res) => match res {
            Err(e) => n.phase is Finished && (a matches InPlaceAction::Abandon { temp, error } && temp@ == w.temp@ && error == e),
            Ok(rep) => n.phase is ReadingTemp && n.report == Some(rep) && (a matches InPlaceAction::ReadTemp { temp } && temp@ == w.temp@),
        },
        InPlaceEvent::Replaced(res) => match res {
            Err(f) => n.phase is Finished && (a matches InPlaceAction::Abandon { temp, error: AnahtarError::Io(g) } && temp@ == w.temp@ && g == f),
            Ok(()) => n.phase is ReadingTarget && n.report == w.report && (a matches InPlaceAction::ReadTarget { target } && target@ == w.target@),
        },
        InPlaceEvent::Read(res) => if w.phase is ReadingTemp {
            match res {
                Err(f) => n.phase is Finished && (a matches InPlaceAction::Abandon { temp, error: AnahtarError::Io(g) } && temp@ == w.temp@ && g == f),
                Ok(data) => if !unlocks(data@, key.password@, key_bytes(key)) {
                    n.phase is Finished && (a matches InPlaceAction::Abandon { temp, error: AnahtarError::OpenDatabase } && temp@ == w.temp@)
                } else {
                    ||| (n.phase is Replacing && n.report == w.report && (a matches InPlaceAction::Replace { temp, target }
                            && temp@ == w.temp@ && target@ == w.target@ && counts_match(data@, key, w.report->0)))
                    ||| (n.phase is Finished && (a matches InPlaceAction::Abandon { temp, error: AnahtarError::VerificationFailed(m) }
                            && temp@ == w.temp@ && m@ == in_place_mismatch(InPlaceStage::Temporary) && counts_differ(data@, key, w.report->0)))
                },
            }
        } else {
            match w.backup {
                Some(bk) => match res {
                    Err(f) => n.phase is Finished && (a matches InPlaceAction::Restore { backup, target, temp, error: AnahtarError::Io(g) }
                        && backup@ == bk@ && target@ == w.target@ && temp@ == w.temp@ && g == f),
                    Ok(data) => if !unlocks(data@, key.password@, key_bytes(key)) {
                        n.phase is Finished && (a matches InPlaceAction::Restore { backup, target, temp, error: AnahtarError::OpenDatabase }
                            && backup@ == bk@ && target@ == w.target@ && temp@ == w.temp@)
                    } else {
                        ||| (n.phase is Finished && (a matches InPlaceAction::Finish { report }
                                && finished_report(w.report->0, report, w.target@, w.backup) && counts_match(data@, key, w.report->0)))
                        ||| (n.phase is Finished && (a matches InPlaceAction::Restore { backup, target, temp, error: AnahtarError::VerificationFailed(m) }
                                && backup@ == bk@ && target@ == w.target@ && temp@ == w.temp@
                                && m@ == in_place_mismatch(InPlaceStage::FinalWithBackup) && counts_differ(data@, key, w.report->0)))
                    },
                },
                None => match res {
                    Err(f) => n.phase is Finished && (a matches InPlaceAction::Abandon { temp, error: AnahtarError::Io(g) } && temp@ == w.temp@ && g == f),
                    Ok(data) => if !unlocks(data@, key.password@, key_bytes(key)) {
                        n.phase is Finished && (a matches InPlaceAction::Abandon { temp, error: AnahtarError::OpenDatabase } && temp@ == w.temp@)
                    } else {
                        ||| (n.phase is Finished && (a matches InPlaceAction::Finish { report }
                                && finished_report(w.report->0, report, w.target@, w.backup) && counts_match(data@, key, w.report->0)))
                        ||| (n.phase is Finished && (a matches InPlaceAction::Abandon { temp, error: AnahtarError::VerificationFailed(m) }
                                && temp@ == w.temp@ && m@ == in_place_mismatch(InPlaceStage::FinalWithoutBackup) && counts_differ(data@, key, w.report->0)))
                    },
                },
            }
        },
    }
}

/// Starts an in-place write of `target` through `temp`, backed up to
/// `backup` where one is given: the first action finds out whether the
/// temporary file exists.
pub fn start_in_place(target: &str, temp: &str, backup: Option<String>) -> (r: (InPlaceWrite, InPlaceAction))
    ensures
        r.0.target@ == target@ && r.0.temp@ == temp@ && r.0.backup == backup,
        r.0.phase is ProbingTemp && r.0.report is None,
        r.1 matches InPlaceAction::ProbeTemp { temp: t } && t@ == temp@,
{
    (
        InPlaceWrite {
            target: target.to_owned(),
            temp: temp.to_owned(),
            backup,
            phase: InPlacePhase::ProbingTemp,
            report: None,
        },
        InPlaceAction::ProbeTemp { temp: temp.to_owned() },
    )
}

fn copy_text(s: &String) -> (r: String)
    ensures
        r@ == s@,
{
    s.clone()
}

/// Takes the next step of an in-place write (see [`in_place_next`]).
pub fn in_place_step(w: InPlaceWrite, key: &UnlockKey, ev: InPlaceEvent) -> (r: (InPlaceWrite, InPlaceAction))
    requires
        in_place_wf(w),
        expects(w.phase, ev),
    ensures
        in_place_next(w, *key, ev, r.0, r.1),
{
    let target = copy_text(&w.target);
    let temp = copy_text(&w.temp);
    let backup = copy_backup(&w.backup);
    let phase = w.phase;
    let rest = InPlaceWrite { target: w.target, temp: w.temp, backup: w.backup, phase: InPlacePhase::Finished, report: None };
    match ev {
        InPlaceEvent::TempProbed { exists } => {
            if exists {
                (rest, InPlaceAction::Fail { error: AnahtarError::TempOutputExists(temp) })
            } else {
                match backup {
                    Some(b) => (InPlaceWrite { phase: InPlacePhase::CopyingBackup, ..rest }, InPlaceAction::CopyBackup { target, backup: b }),
                    None => (InPlaceWrite { phase: InPlacePhase::SavingAs, ..rest }, InPlaceAction::SaveAs { output: temp }),
                }
            }
        },
        InPlaceEvent::BackupCopied(res) => match res {
            Err(f) => (rest, InPlaceAction::Fail { error: AnahtarError::Io(f) }),
            Ok(()) => (InPlaceWrite { phase: InPlacePhase::SavingAs, ..rest }, InPlaceAction::SaveAs { output: temp }),
        },
        InPlaceEvent::SavedAs(res) => match res {
            Err(e) => (rest, InPlaceAction::Abandon { temp, error: e }),
            Ok(rep) => (InPlaceWrite { phase: InPlacePhase::ReadingTemp, report: Some(rep), ..rest }, InPlaceAction::ReadTemp { temp }),
        },
        InPlaceEvent::Replaced(res) => match res {
            Err(f) => (rest, InPlaceAction::Abandon { temp, error: AnahtarError::Io(f) }),
            Ok(()) => (InPlaceWrite { phase: InPlacePhase::ReadingTarget, report: w.report, ..rest }, InPlaceAction::ReadTarget { target }),
        },
        InPlaceEvent::Read(res) => {
            let rep = match w.report {
                Some(rep) => rep,
                None => {
                    proof { assert(false); }
                    return (rest, InPlaceAction::Abandon { temp, error: AnahtarError::SaveDatabase });
                },
            };
            if phase == InPlacePhase::ReadingTemp {
                match res {
                    Err(f) => (rest, InPlaceAction::Abandon { temp, error: AnahtarError::Io(f) }),
                    Ok(data) => match check_in_place_copy(&rep, key, data.as_slice(), InPlaceStage::Temporary) {
                        Err(e) => (rest, InPlaceAction::Abandon { temp, error: e }),
                        Ok(()) => (
                            InPlaceWrite { phase: InPlacePhase::Replacing, report: Some(rep), ..rest },
                            InPlaceAction::Replace { temp, target },
                        ),
                    },
                }
            } else {
                match backup {
                    Some(b) => match res {
                        Err(f) => (rest, InPlaceAction::Restore { backup: b, target, temp, error: AnahtarError::Io(f) }),
                        Ok(data) => match check_in_place_copy(&rep, key, data.as_slice(), InPlaceStage::FinalWithBackup) {
                            Err(e) => (rest, InPlaceAction::Restore { backup: b, target, temp, error: e }),
                            Ok(()) => {
                                let done = in_place_report(rep, target.as_str(), Some(b));
                                (rest, InPlaceAction::Finish { report: done })
                            },
                        },
                    },
                    None => match res {
                        Err(f) => (rest, InPlaceAction::Abandon { temp, error: AnahtarError::Io(f) }),
                        Ok(data) => match check_in_place_copy(&rep, key, data.as_slice(), InPlaceStage::FinalWithoutBackup) {
                            Err(e) => (rest, InPlaceAction::Abandon { temp, error: e }),
                            Ok(()) => {
                                let done = in_place_report(rep, target.as_str(), None);
                                (rest, InPlaceAction::Finish { report: done })
                            },
                        },
                    },
                }
            }
        },
    }
}

fn copy_backup(b: &Option<String>) -> (r: Option<String>)
    ensures
        opt_view(r) == opt_view(*b),
        r is Some <==> b is Some,
{
    match b {
        Some(s) => Some(copy_text(s)),
        None => None,
    }
}

/// The phase that a run of an in-place write is in after `i` steps, while
/// it has not finished, where it keeps a backup (`kept`) or not.
pub open spec fn phase_after(i: int, kept: bool) -> InPlacePhase {
    let j = if kept { i } else if i == 0 { 0 } else { i + 1 };
    if j == 0 {
        InPlacePhase::ProbingTemp
    } else if j == 1 {
        InPlacePhase::CopyingBackup
    } else if j == 2 {
        InPlacePhase::SavingAs
    } else if j == 3 {
        InPlacePhase::ReadingTemp
    } else if j == 4 {
        InPlacePhase::Replacing
    } else if j == 5 {
        InPlacePhase::ReadingTarget
    } else {
        InPlacePhase::Finished
    }
}

/// A run of an in-place write: `ws[0]` is a fresh start, and from each
/// `ws[i]` the event `evs[i]` that it waits for leads to `ws[i + 1]` with
/// the action `acts[i]`, as [`in_place_step`] takes the step.
pub open spec fn in_place_run(key: UnlockKey, ws: Seq<InPlaceWrite>, evs: Seq<InPlaceEvent>, acts: Seq<InPlaceAction>) -> bool {
    &&& ws.len() == evs.len() + 1
    &&& acts.len() == evs.len()
    &&& ws[0].phase is ProbingTemp
    &&& ws[0].report is None
    &&& forall|i: int| 0 <= i < evs.len() ==> expects(ws[i].phase, #[trigger] evs[i]) && in_place_next(ws[i], key, evs[i], ws[i + 1], acts[i])
}

/// A run goes through the phases in order, or has finished.
proof fn lemma_run_phases(key: UnlockKey, ws: Seq<InPlaceWrite>, evs: Seq<InPlaceEvent>, acts: Seq<InPlaceAction>, i: int)
    requires
        in_place_run(key, ws, evs, acts),
        0 <= i < ws.len(),
    ensures
        ws[i].backup == ws[0].backup,
        ws[i].phase == phase_after(i, ws[0].backup is Some) || ws[i].phase is Finished,
        ws[i].phase is Finished ==> i == ws.len() - 1,
    decreases i,
{
    if i > 0 {
        lemma_run_phases(key, ws, evs, acts, i - 1);
        assert(expects(ws[i - 1].phase, evs[i - 1]));
    }
    if ws[i].phase is Finished && i < ws.len() - 1 {
        assert(expects(ws[i].phase, evs[i]));
    }
}

/// An in-place write replaces the vault only as its fourth step: after the
/// backup copy succeeded, the save-as into the temporary file succeeded, and
/// the temporary file read back, unlocking with the key, with the counts
/// that the save-as reported.
pub proof fn replaces_only_after_backup_and_check(key: UnlockKey, ws: Seq<InPlaceWrite>, evs: Seq<InPlaceEvent>, acts: Seq<InPlaceAction>, k: int)
    requires
        in_place_run(key, ws, evs, acts),
        ws[0].backup is Some,
        0 <= k < acts.len(),
        acts[k] is Replace,
    ensures
        k == 3,
        evs[1] matches InPlaceEvent::BackupCopied(res) && res is Ok,
        evs[2] matches InPlaceEvent::SavedAs(res) && res is Ok && ws[3].report == Some(res->Ok_0),
        evs[3] matches InPlaceEvent::Read(res) && (res matches Ok(data) && unlocks(data@, key.password@, key_bytes(key))
            && counts_match(data@, key, ws[3].report->0)),
{
    assert(expects(ws[k].phase, evs[k]) && in_place_next(ws[k], key, evs[k], ws[k + 1], acts[k]));
    lemma_run_phases(key, ws, evs, acts, k);
    assert(ws[k].phase is ReadingTemp);
    assert(k == 3);
    lemma_run_phases(key, ws, evs, acts, 1);
    lemma_run_phases(key, ws, evs, acts, 2);
    lemma_run_phases(key, ws, evs, acts, 3);
    assert(expects(ws[1].phase, evs[1]) && in_place_next(ws[1], key, evs[1], ws[2], acts[1]));
    assert(expects(ws[2].phase, evs[2]) && in_place_next(ws[2], key, evs[2], ws[3], acts[2]));
}

/// An in-place write without a backup replaces the vault only as its third
/// step: after the save-as into the temporary file succeeded and the
/// temporary file read back, unlocking with the key, with the counts that
/// the save-as reported.
pub proof fn replaces_only_after_check(key: UnlockKey, ws: Seq<InPlaceWrite>, evs: Seq<InPlaceEvent>, acts: Seq<InPlaceAction>, k: int)
    requires
        in_place_run(key, ws, evs, acts),
        ws[0].backup is None,
        0 <= k < acts.len(),
        acts[k] is Replace,
    ensures
        k == 2,
        evs[1] matches InPlaceEvent::SavedAs(res) && res is Ok && ws[2].report == Some(res->Ok_0),
        evs[2] matches InPlaceEvent::Read(res) && (res matches Ok(data) && unlocks(data@, key.password@, key_bytes(key))
            && counts_match(data@, key, ws[2].report->0)),
{
    assert(expects(ws[k].phase, evs[k]) && in_place_next(ws[k], key, evs[k], ws[k + 1], acts[k]));
    lemma_run_phases(key, ws, evs, acts, k);
    assert(ws[k].phase is ReadingTemp);
    assert(k == 2);
    lemma_run_phases(key, ws, evs, acts, 1);
    lemma_run_phases(key, ws, evs, acts, 2);
    assert(expects(ws[1].phase, evs[1]) && in_place_next(ws[1], key, evs[1], ws[2], acts[1]));
}

} // verus!
