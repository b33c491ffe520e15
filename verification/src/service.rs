//! The application facade that the command line and graphical front ends
//! share. It holds no state: every call gets the vault's bytes and the key.
use vstd::prelude::*;
use crate::audit::{AuditReport, audit_database, finding_views, audit_findings};
use crate::detail::{EntryDetail, TotpCode, show_entry_by_selector, search_entries, totp_code_checked, shows, hits, reached_entry, otp_usable, totp_answer};
use crate::edit::{UnlockKey, AddEntryRequest, EditEntryRequest, key_bytes, open_vault, opens_to};
use crate::vault::Vault;
use crate::error::AnahtarError;
use crate::header::{VaultInfo, inspect_header, header_reads};
use crate::kdbx::unlocks;
use crate::listing::{EntrySummary, GroupSummary, list_entries, list_groups, summary_views, group_views, listed_entries, listed_groups};
use crate::paths::{temp_path, in_place_temp, file_name_of};
use crate::query::{EntrySelector, SelectorView, selector_label, label_of};
use crate::write::{
    VaultFile, OutputTarget, SaveAsOptions, PendingWrite, add_entry_save_as_with_credentials,
    edit_entry_save_as_with_credentials, delete_entry_save_as_with_credentials,
    add_group_save_as_with_credentials, rename_group_save_as_with_credentials,
    delete_group_save_as_with_credentials, move_entry_save_as_with_credentials,
    write_gate, write_outcome, lookup_applies, group_add_applies, delete_applies, selection_applies, lookup_refusals, group_add_refusals, selection_refusals, delete_refusals, move_refusals, add_written, edit_written, delete_written, group_add_written, group_rename_written,
    group_delete_written, move_written,
};
use crate::ids::parsed_uuid;

verus! {

/// How a write is carried out.
#[derive(Debug)]
pub enum WriteMode {
    /// A new file at `output_path`, replacing an existing one only if `force`.
    SaveAs { output_path: String, force: bool },
    /// Over the vault itself, through a temporary file and after a backup.
    InPlace { backup_dir: Option<String> },
    /// Nothing is written.
    DryRun,
}

/// The facade.
#[derive(Clone, Copy, Debug)]
pub struct AnahtarService;

/// Where a write mode writes for a vault at `path`: the save-as output, or
/// the hidden temporary file beside the vault for an in-place write.
pub open spec fn write_output(mode: WriteMode, path: Seq<char>) -> Option<(Seq<char>, bool)> {
    match mode {
        WriteMode::SaveAs { output_path, force } => Some((output_path@, force)),
        WriteMode::InPlace { .. } => match file_name_of(path) {
            Some(name) => Some((in_place_temp(path, name), false)),
            None => None,
        },
        WriteMode::DryRun => None,
    }
}

/// The pending write of a write mode that writes, as a plain result.
pub open spec fn pending_result(r: Result<Option<PendingWrite>, AnahtarError>) -> Result<PendingWrite, AnahtarError> {
    match r {
        Ok(Some(p)) => Ok(p),
        Ok(None) => Err(AnahtarError::SaveDatabase),
        Err(e) => Err(e),
    }
}

/// What every change through the facade promises of its mode: a dry run
/// does nothing; in place, a path without a file name is refused; otherwise
/// the result is a pending write to the mode's output, or an error.
pub open spec fn mode_gate(input: VaultFile, key: UnlockKey, mode: WriteMode, target: OutputTarget, r: Result<Option<PendingWrite>, AnahtarError>) -> bool {
    &&& (mode is DryRun ==> r matches Ok(None))
    &&& (mode is InPlace && file_name_of(input.path@) is None
            ==> (r matches Err(AnahtarError::InvalidGroupPath(m)) && m@ == "vault path has no file name"@))
    &&& (write_output(mode, input.path@) is Some ==> !(r matches Ok(None)))
    &&& (r matches Ok(Some(p)) ==> write_output(mode, input.path@) == Some((p.output_path@, p.force)))
}

/// The save-as options a write mode stands for.
fn mode_options(path: &String, mode: &WriteMode) -> (r: Result<Option<SaveAsOptions>, AnahtarError>)
    ensures
        mode is DryRun ==> r matches Ok(None),
        r matches Ok(Some(o)) ==> write_output(*mode, path@) == Some((o.output_path@, o.force)),
        write_output(*mode, path@) is Some ==> r matches Ok(Some(_)),
        r is Err ==> mode is InPlace && file_name_of(path@) is None,
        mode is InPlace && file_name_of(path@) is None
            ==> (r matches Err(AnahtarError::InvalidGroupPath(m)) && m@ == "vault path has no file name"@),
{
    match mode {
        WriteMode::DryRun => Ok(None),
        WriteMode::SaveAs { output_path, force } => Ok(Some(SaveAsOptions { output_path: output_path.clone(), force: *force })),
        WriteMode::InPlace { .. } => match crate::paths::temp_in_place_path_for(path.as_str()) {
            Ok(tmp) => Ok(Some(SaveAsOptions { output_path: tmp, force: false })),
            Err(e) => Err(e),
        },
    }
}

impl AnahtarService {
    /// The header facts of a vault file, without unlocking it.
    pub fn inspect(path: &str, leading_bytes: &[u8], file_size_bytes: u64) -> (r: Result<VaultInfo, AnahtarError>)
        ensures
            header_reads(leading_bytes@, match r { Ok(info) => Ok(info.version), Err(e) => Err(e) }),
            r matches Ok(info) ==> info.path@ == path@ && info.file_size_bytes == file_size_bytes,
    {
        inspect_header(path, leading_bytes, file_size_bytes)
    }

    /// Every entry, without secrets, in listing order.
    pub fn list(data: &[u8], key: &UnlockKey) -> (r: Result<Vec<EntrySummary>, AnahtarError>)
        ensures
            r is Ok <==> unlocks(data@, key.password@, key_bytes(*key)),
            r matches Err(e) ==> e is OpenDatabase,
            r matches Ok(l) ==> exists|v: Vault| #[trigger] opens_to(data@, key.password@, key_bytes(*key), v)
                && summary_views(l@) == listed_entries(v),
    {
        match open_vault(data, key) {
            Ok(v) => Ok(list_entries(&v)),
            Err(e) => Err(e),
        }
    }

    /// The entries whose title, user name, URL or notes contain the query.
    pub fn search(data: &[u8], key: &UnlockKey, query: &str) -> (r: Result<Vec<EntrySummary>, AnahtarError>)
        ensures
            r is Ok <==> unlocks(data@, key.password@, key_bytes(*key)),
            r matches Err(e) ==> e is OpenDatabase,
            r matches Ok(l) ==> exists|v: Vault| #[trigger] opens_to(data@, key.password@, key_bytes(*key), v)
                && summary_views(l@) == hits(v, listed_entries(v), query@),
    {
        match open_vault(data, key) {
            Ok(v) => Ok(search_entries(&v, query)),
            Err(e) => Err(e),
        }
    }

    /// The entry a selector names, its password only if `reveal_password`.
    pub fn show(data: &[u8], key: &UnlockKey, selector: &EntrySelector, reveal_password: bool) -> (r: Result<EntryDetail, AnahtarError>)
        ensures
            !unlocks(data@, key.password@, key_bytes(*key)) ==> (r matches Err(e) && e is OpenDatabase),
            unlocks(data@, key.password@, key_bytes(*key)) ==> exists|v: Vault|
                #[trigger] opens_to(data@, key.password@, key_bytes(*key), v) && shows(v, selector@, reveal_password, r),
    {
        match open_vault(data, key) {
            Ok(v) => show_entry_by_selector(&v, selector, reveal_password),
            Err(e) => Err(e),
        }
    }

    /// Every group with its path and counts, in path order.
    pub fn groups(data: &[u8], key: &UnlockKey) -> (r: Result<Vec<GroupSummary>, AnahtarError>)
        ensures
            r is Ok <==> unlocks(data@, key.password@, key_bytes(*key)),
            r matches Err(e) ==> e is OpenDatabase,
            r matches Ok(l) ==> exists|v: Vault| #[trigger] opens_to(data@, key.password@, key_bytes(*key), v)
                && group_views(l@) == listed_groups(v),
    {
        match open_vault(data, key) {
            Ok(v) => Ok(list_groups(&v)),
            Err(e) => Err(e),
        }
    }

    /// The audit of the vault.
    pub fn audit(data: &[u8], key: &UnlockKey) -> (r: Result<AuditReport, AnahtarError>)
        ensures
            r is Ok <==> unlocks(data@, key.password@, key_bytes(*key)),
            r matches Err(e) ==> e is OpenDatabase,
            r matches Ok(a) ==> exists|v: Vault| #[trigger] opens_to(data@, key.password@, key_bytes(*key), v)
                && finding_views(a.findings@) == audit_findings(v),
    {
        match open_vault(data, key) {
            Ok(v) => Ok(audit_database(&v)),
            Err(e) => Err(e),
        }
    }

    /// The current TOTP code of the entry a selector names. A setting the
    /// code generator cannot run (a zero period, more than 19 digits) is
    /// reported as `TotpUnavailable` with the selector's label.
    pub fn totp(data: &[u8], key: &UnlockKey, selector: &EntrySelector) -> (r: Result<TotpCode, AnahtarError>)
        ensures
            !unlocks(data@, key.password@, key_bytes(*key)) ==> (r matches Err(e) && e is OpenDatabase),
            unlocks(data@, key.password@, key_bytes(*key)) ==> exists|v: Vault|
                #[trigger] opens_to(data@, key.password@, key_bytes(*key), v) && if (reached_entry(v, selector@) matches Some(e) ==> otp_usable(e)) {
                    totp_answer(v, selector@, r)
                } else {
                    r matches Err(AnahtarError::TotpUnavailable(t)) && t@ == label_of(selector@)
                },
    {
        match open_vault(data, key) {
            Ok(v) => match totp_code_checked(&v, selector) {
                Some(res) => res,
                None => Err(AnahtarError::TotpUnavailable(selector_label(selector))),
            },
            Err(e) => Err(e),
        }
    }

    /// Adds an entry as the write mode says: nothing for a dry run, else the
    /// bytes to write to the mode's output (see [`write_output`]).
    pub fn add_entry(input: &VaultFile, key: &UnlockKey, request: &AddEntryRequest, mode: &WriteMode, target: &OutputTarget) -> (r: Result<Option<PendingWrite>, AnahtarError>)
        ensures
            write_output(*mode, input.path@) matches Some(o)
                ==> write_outcome(*input, key.password@, key_bytes(*key), o.0, o.1, *target, lookup_applies(*input, key.password@, key_bytes(*key), request.group_path@), pending_result(r)),
            mode_gate(*input, *key, *mode, *target, r),
            write_output(*mode, input.path@) matches Some(o)
                ==> write_gate(*input, key.password@, key_bytes(*key), o.0, o.1, *target, pending_result(r)),
            write_output(*mode, input.path@) is Some ==> lookup_refusals(*input, key.password@, key_bytes(*key), *target, request.group_path@, pending_result(r)),
            r matches Ok(Some(p)) ==> add_written(*input, key.password@, key_bytes(*key), p, *request),
    {
        match mode_options(&input.path, mode) {
            Err(e) => Err(e),
            Ok(None) => Ok(None),
            Ok(Some(options)) => match add_entry_save_as_with_credentials(input, key, &options, target, request) {
                Ok(p) => Ok(Some(p)),
                Err(e) => Err(e),
            },
        }
    }

    /// Edits the entry named by UUID or title, as the write mode says.
    pub fn edit_entry(input: &VaultFile, key: &UnlockKey, selector_id: &str, request: &EditEntryRequest, mode: &WriteMode, target: &OutputTarget) -> (r: Result<Option<PendingWrite>, AnahtarError>)
        ensures
            write_output(*mode, input.path@) matches Some(o)
                ==> write_outcome(*input, key.password@, key_bytes(*key), o.0, o.1, *target, selection_applies(*input, key.password@, key_bytes(*key), SelectorView::Auto(selector_id@)), pending_result(r)),
            mode_gate(*input, *key, *mode, *target, r),
            write_output(*mode, input.path@) matches Some(o)
                ==> write_gate(*input, key.password@, key_bytes(*key), o.0, o.1, *target, pending_result(r)),
            write_output(*mode, input.path@) is Some ==> selection_refusals(*input, key.password@, key_bytes(*key), *target, SelectorView::Auto(selector_id@), pending_result(r)),
            r matches Ok(Some(p)) ==> edit_written(*input, key.password@, key_bytes(*key), p, selector_id@, *request),
    {
        match mode_options(&input.path, mode) {
            Err(e) => Err(e),
            Ok(None) => Ok(None),
            Ok(Some(options)) => match edit_entry_save_as_with_credentials(input, selector_id, key, &options, target, request) {
                Ok(p) => Ok(Some(p)),
                Err(e) => Err(e),
            },
        }
    }

    /// Deletes the entry with a UUID, as the write mode says.
    pub fn delete_entry(input: &VaultFile, key: &UnlockKey, entry_id: &str, mode: &WriteMode, target: &OutputTarget) -> (r: Result<Option<PendingWrite>, AnahtarError>)
        ensures
            write_output(*mode, input.path@) matches Some(o)
                ==> write_outcome(*input, key.password@, key_bytes(*key), o.0, o.1, *target, delete_applies(*input, key.password@, key_bytes(*key), entry_id@), pending_result(r)),
            mode_gate(*input, *key, *mode, *target, r),
            parsed_uuid(entry_id@) is Some ==> match write_output(*mode, input.path@) {
                Some(o) => write_gate(*input, key.password@, key_bytes(*key), o.0, o.1, *target, pending_result(r)),
                None => true,
            },
            write_output(*mode, input.path@) is Some ==> delete_refusals(*input, key.password@, key_bytes(*key), *target, entry_id@, pending_result(r)),
            r matches Ok(Some(p)) ==> delete_written(*input, key.password@, key_bytes(*key), p, parsed_uuid(entry_id@)->0),
    {
        match mode_options(&input.path, mode) {
            Err(e) => Err(e),
            Ok(None) => Ok(None),
            Ok(Some(options)) => match delete_entry_save_as_with_credentials(input, entry_id, key, &options, target) {
                Ok(p) => Ok(Some(p)),
                Err(e) => Err(e),
            },
        }
    }

    /// Adds a group, as the write mode says.
    pub fn add_group(input: &VaultFile, key: &UnlockKey, group_path: &str, mode: &WriteMode, target: &OutputTarget) -> (r: Result<Option<PendingWrite>, AnahtarError>)
        ensures
            write_output(*mode, input.path@) matches Some(o)
                ==> write_outcome(*input, key.password@, key_bytes(*key), o.0, o.1, *target, group_add_applies(*input, key.password@, key_bytes(*key), group_path@), pending_result(r)),
            mode_gate(*input, *key, *mode, *target, r),
            write_output(*mode, input.path@) matches Some(o)
                ==> write_gate(*input, key.password@, key_bytes(*key), o.0, o.1, *target, pending_result(r)),
            r matches Ok(Some(p)) ==> group_add_written(*input, key.password@, key_bytes(*key), p, group_path@),
            write_output(*mode, input.path@) is Some ==> group_add_refusals(*input, key.password@, key_bytes(*key), *target, group_path@, pending_result(r)),
    {
        match mode_options(&input.path, mode) {
            Err(e) => Err(e),
            Ok(None) => Ok(None),
            Ok(Some(options)) => match add_group_save_as_with_credentials(input, key, &options, target, group_path) {
                Ok(p) => Ok(Some(p)),
                Err(e) => Err(e),
            },
        }
    }

    /// Renames a group, as the write mode says.
    pub fn rename_group(input: &VaultFile, key: &UnlockKey, group_path: &str, new_name: &str, mode: &WriteMode, target: &OutputTarget) -> (r: Result<Option<PendingWrite>, AnahtarError>)
        ensures
            write_output(*mode, input.path@) matches Some(o)
                ==> write_outcome(*input, key.password@, key_bytes(*key), o.0, o.1, *target, lookup_applies(*input, key.password@, key_bytes(*key), group_path@), pending_result(r)),
            mode_gate(*input, *key, *mode, *target, r),
            write_output(*mode, input.path@) matches Some(o)
                ==> write_gate(*input, key.password@, key_bytes(*key), o.0, o.1, *target, pending_result(r)),
            write_output(*mode, input.path@) is Some ==> lookup_refusals(*input, key.password@, key_bytes(*key), *target, group_path@, pending_result(r)),
            r matches Ok(Some(p)) ==> group_rename_written(*input, key.password@, key_bytes(*key), p, group_path@, new_name@),
    {
        match mode_options(&input.path, mode) {
            Err(e) => Err(e),
            Ok(None) => Ok(None),
            Ok(Some(options)) => match rename_group_save_as_with_credentials(input, key, &options, target, group_path, new_name) {
                Ok(p) => Ok(Some(p)),
                Err(e) => Err(e),
            },
        }
    }

    /// Deletes a group with everything below it, as the write mode says.
    pub fn delete_group(input: &VaultFile, key: &UnlockKey, group_path: &str, mode: &WriteMode, target: &OutputTarget) -> (r: Result<Option<PendingWrite>, AnahtarError>)
        ensures
            write_output(*mode, input.path@) matches Some(o)
                ==> write_outcome(*input, key.password@, key_bytes(*key), o.0, o.1, *target, lookup_applies(*input, key.password@, key_bytes(*key), group_path@), pending_result(r)),
            mode_gate(*input, *key, *mode, *target, r),
            write_output(*mode, input.path@) matches Some(o)
                ==> write_gate(*input, key.password@, key_bytes(*key), o.0, o.1, *target, pending_result(r)),
            write_output(*mode, input.path@) is Some ==> lookup_refusals(*input, key.password@, key_bytes(*key), *target, group_path@, pending_result(r)),
            r matches Ok(Some(p)) ==> group_delete_written(*input, key.password@, key_bytes(*key), p, group_path@),
    {
        match mode_options(&input.path, mode) {
            Err(e) => Err(e),
            Ok(None) => Ok(None),
            Ok(Some(options)) => match delete_group_save_as_with_credentials(input, key, &options, target, group_path) {
                Ok(p) => Ok(Some(p)),
                Err(e) => Err(e),
            },
        }
    }

    /// Moves the entry a selector names to another group, as the write mode says.
    pub fn move_entry(input: &VaultFile, key: &UnlockKey, selector: &EntrySelector, group_path: &str, mode: &WriteMode, target: &OutputTarget) -> (r: Result<Option<PendingWrite>, AnahtarError>)
        ensures
            write_output(*mode, input.path@) matches Some(o)
                ==> write_outcome(*input, key.password@, key_bytes(*key), o.0, o.1, *target, selection_applies(*input, key.password@, key_bytes(*key), selector@) && lookup_applies(*input, key.password@, key_bytes(*key), group_path@), pending_result(r)),
            mode_gate(*input, *key, *mode, *target, r),
            write_output(*mode, input.path@) matches Some(o)
                ==> write_gate(*input, key.password@, key_bytes(*key), o.0, o.1, *target, pending_result(r)),
            write_output(*mode, input.path@) is Some ==> move_refusals(*input, key.password@, key_bytes(*key), *target, selector@, group_path@, pending_result(r)),
            r matches Ok(Some(p)) ==> move_written(*input, key.password@, key_bytes(*key), p, selector@, group_path@),
    {
        match mode_options(&input.path, mode) {
            Err(e) => Err(e),
            Ok(None) => Ok(None),
            Ok(Some(options)) => match move_entry_save_as_with_credentials(input, key, &options, target, selector, group_path) {
                Ok(p) => Ok(Some(p)),
                Err(e) => Err(e),
            },
        }
    }
}

} // verus!
