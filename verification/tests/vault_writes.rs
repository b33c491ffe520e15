use anahtar::detail::show_entry;
use anahtar::edit::{open_vault, AddEntryRequest, EditEntryRequest, UnlockKey, VaultCredentials};
use anahtar::commit::{commit_step, start_commit, CommitAction, CommitEvent, CommitPhase};
use anahtar::error::{AnahtarError, IoFailure};
use anahtar::cli::add_entry_in_place;
use anahtar::header::{inspect_header, KdbxVersion};
use anahtar::inplace::{in_place_step, start_in_place, InPlaceAction, InPlaceEvent};
use anahtar::paths::{backup_path_for, temp_in_place_path_for};
use anahtar::listing::{count_groups, list_groups};
use anahtar::query::EntrySelector;
use anahtar::service::{AnahtarService, WriteMode};
use anahtar::write::{
    add_entry_save_as, add_group_save_as_with_credentials, delete_entry_save_as,
    delete_group_save_as_with_credentials, edit_entry_save_as, finish_save_as, finish_upgrade,
    move_entry_save_as_with_credentials, rename_group_save_as_with_credentials, upgrade_to_kdbx41,
    OutputTarget, PendingWrite, SaveAsOptions, UpgradePlan, VaultFile, WriteOperation, WriteReport,
};
use keepass::db::{fields, Database};
use keepass::DatabaseKey;

const PASSWORD: &str = "testpass";

fn phase3_database() -> Database {
    let mut db = Database::new();
    db.root_mut().edit(|root| root.name = "Root".to_string());
    let general_id = db
        .root_mut()
        .add_group()
        .edit(|g| g.name = "General".to_string())
        .id();
    let web_id = db
        .group_mut(general_id)
        .expect("General group exists")
        .add_group()
        .edit(|g| g.name = "Web".to_string())
        .id();
    let email_id = db
        .group_mut(general_id)
        .expect("General group exists")
        .add_group()
        .edit(|g| g.name = "Email".to_string())
        .id();
    db.group_mut(web_id).expect("Web group exists").add_entry().edit(|e| {
        e.set_unprotected(fields::TITLE, "Github Test");
        e.set_unprotected(fields::USERNAME, "github-user");
        e.set_protected(fields::PASSWORD, "github-pass");
        e.set_unprotected(fields::URL, "https://github.com");
        e.set_unprotected(fields::NOTES, "Synthetic web entry for Anahtar Phase 3 tests");
    });
    db.group_mut(email_id).expect("Email group exists").add_entry().edit(|e| {
        e.set_unprotected(fields::TITLE, "Email Test");
        e.set_unprotected(fields::USERNAME, "email-user");
        e.set_protected(fields::PASSWORD, "email-pass");
        e.set_unprotected(fields::URL, "https://mail.example.com");
        e.set_unprotected(fields::NOTES, "Synthetic email entry for Anahtar Phase 3 tests");
    });
    db.group_mut(web_id).expect("Web group exists").add_entry().edit(|e| {
        e.set_unprotected(fields::TITLE, "Duplicate Title");
        e.set_unprotected(fields::USERNAME, "duplicate-web-user");
        e.set_protected(fields::PASSWORD, "duplicate-web-pass");
        e.set_unprotected(fields::URL, "https://web.example.com/duplicate");
    });
    db.group_mut(email_id).expect("Email group exists").add_entry().edit(|e| {
        e.set_unprotected(fields::TITLE, "Duplicate Title");
        e.set_unprotected(fields::USERNAME, "duplicate-email-user");
        e.set_protected(fields::PASSWORD, "duplicate-email-pass");
        e.set_unprotected(fields::URL, "https://mail.example.com/duplicate");
    });
    db
}

fn phase3_vault_bytes() -> Vec<u8> {
    let db = phase3_database();
    let mut out: Vec<u8> = Vec::new();
    db.save(&mut out, DatabaseKey::new().with_password(PASSWORD)).unwrap();
    out
}


const BASE: &str = "../../test-vaults/generated/phase3-base.kdbx";

fn base_file() -> VaultFile {
    VaultFile {
        path: BASE.to_string(),
        canonical: "/vaults/phase3-base.kdbx".to_string(),
        data: phase3_vault_bytes(),
    }
}

fn file_from(path: &str, data: Vec<u8>) -> VaultFile {
    VaultFile { path: path.to_string(), canonical: format!("/out/{}", path), data }
}

fn fresh(output: &str) -> OutputTarget {
    OutputTarget { canonical: format!("/out/{}", output), exists: false, temp_exists: false }
}

fn options(output: &str) -> SaveAsOptions {
    SaveAsOptions { output_path: output.to_string(), force: false }
}

fn finish(pending: &PendingWrite, password: &str) -> WriteReport {
    finish_save_as(pending, &UnlockKey::password_only(password), &pending.bytes).unwrap()
}

fn same_file(path: &str) -> (VaultFile, OutputTarget) {
    let input = VaultFile {
        path: path.to_string(),
        canonical: format!("/abs/{}", path),
        data: b"not read before the paths are compared".to_vec(),
    };
    let target = OutputTarget { canonical: format!("/abs/{}", path), exists: true, temp_exists: false };
    (input, target)
}

fn rejects_same_input_and_output_for_writes() {
    let (input, target) = same_file(BASE);
    let same = SaveAsOptions { output_path: BASE.to_string(), force: false };
    let add_err = add_entry_save_as(
        &input,
        "wrong-password-should-not-be-used",
        &same,
        &target,
        &AddEntryRequest {
            group_path: "General/Web".to_string(),
            title: "Should Not Add".to_string(),
            username: None,
            password: None,
            url: None,
            notes: None,
        },
    )
    .expect_err("add should reject same input/output before opening DB");
    assert!(matches!(add_err, AnahtarError::InputOutputSame(_)));

    let mut edit = EditEntryRequest::empty();
    edit.username = Some("nope".to_string());
    let edit_err = edit_entry_save_as(
        &input,
        "Github Test",
        "wrong-password-should-not-be-used",
        &same,
        &target,
        &edit,
    )
    .expect_err("edit should reject same input/output before opening DB");
    assert!(matches!(edit_err, AnahtarError::InputOutputSame(_)));

    let delete_err = delete_entry_save_as(
        &input,
        "not-a-uuid",
        "wrong-password-should-not-be-used",
        &same,
        &target,
    )
    .expect_err("delete should reject same input/output before opening DB");
    assert!(matches!(delete_err, AnahtarError::InputOutputSame(_)));
}

fn rejects_same_input_and_output_for_upgrade(path: &str) {
    let (input, target) = same_file(path);
    let err = upgrade_to_kdbx41(&input, path, &target, "not-the-real-password", false, false)
        .expect_err("same input/output must be rejected before opening DB");
    assert!(matches!(err, AnahtarError::InputOutputSame(_)));
}

#[test]
fn internal_upgrade_rejects_same_input_and_output_before_unlock() {
    rejects_same_input_and_output_for_upgrade("../../assets/masked-local-vault.backup.kdbx");
}

#[test]
fn lib_upgrade_rejects_same_input_and_output_before_unlock() {
    rejects_same_input_and_output_for_upgrade("../../assets/private-vault.backup.kdbx");
}

#[test]
fn internal_write_commands_reject_same_input_and_output_before_unlock() {
    rejects_same_input_and_output_for_writes();
}

#[test]
fn lib_write_commands_reject_same_input_and_output_before_unlock() {
    rejects_same_input_and_output_for_writes();
}

fn deletes_entry_and_verifies_reopen() {
    let key = UnlockKey::password_only("testpass");
    let input = base_file();
    let before = open_vault(&input.data, &key).unwrap();
    let target = show_entry(&before, "Github Test", false).unwrap().id;
    let pending = delete_entry_save_as(&input, &target, "testpass", &options("delete.kdbx"), &fresh("delete.kdbx")).unwrap();
    let report = finish(&pending, "testpass");
    assert_eq!(report.operation, WriteOperation::Delete);
    assert_eq!(report.input_entry_count, 4);
    assert_eq!(report.output_entry_count, 3);
    assert_eq!(report.input_group_count, report.output_group_count);

    let reopened = open_vault(&pending.bytes, &key).unwrap();
    let err = show_entry(&reopened, &target, false).expect_err("deleted entry should be absent");
    assert!(matches!(err, AnahtarError::EntryNotFound(_)));
}

#[test]
fn internal_delete_entry_save_as_removes_entry_and_verifies_reopen() {
    deletes_entry_and_verifies_reopen();
}

#[test]
fn lib_delete_entry_save_as_removes_entry_and_verifies_reopen() {
    deletes_entry_and_verifies_reopen();
}

fn delete_requires_uuid() {
    let err = delete_entry_save_as(&base_file(), "Github Test", "testpass", &options("delete.kdbx"), &fresh("delete.kdbx"))
        .expect_err("delete should require UUID selector");
    assert!(matches!(err, AnahtarError::EntryNotFound(_)));
}

#[test]
fn internal_delete_entry_save_as_rejects_non_uuid_selector() {
    delete_requires_uuid();
}

#[test]
fn lib_delete_entry_save_as_rejects_non_uuid_selector() {
    delete_requires_uuid();
}

fn edit_updates_only_given_fields() {
    let key = UnlockKey::password_only("testpass");
    let input = base_file();
    let before = open_vault(&input.data, &key).unwrap();
    let original = show_entry(&before, "Github Test", true).unwrap();
    let mut request = EditEntryRequest::empty();
    request.username = Some("updated-user".to_string());
    request.notes = Some("updated notes".to_string());
    let pending = edit_entry_save_as(&input, "Github Test", "testpass", &options("edit.kdbx"), &fresh("edit.kdbx"), &request).unwrap();
    let report = finish(&pending, "testpass");
    assert_eq!(report.operation, WriteOperation::Edit);
    assert_eq!(report.input_entry_count, 4);
    assert_eq!(report.output_entry_count, 4);

    let reopened = open_vault(&pending.bytes, &key).unwrap();
    let detail = show_entry(&reopened, report.changed_entry_id.as_deref().unwrap(), true).unwrap();
    assert_eq!(detail.title, original.title);
    assert_eq!(detail.url, original.url);
    assert_eq!(detail.password, original.password);
    assert_eq!(detail.username.as_deref(), Some("updated-user"));
    assert_eq!(detail.notes.as_deref(), Some("updated notes"));
}

#[test]
fn internal_edit_entry_save_as_updates_only_provided_fields() {
    edit_updates_only_given_fields();
}

#[test]
fn lib_edit_entry_save_as_updates_only_provided_fields() {
    edit_updates_only_given_fields();
}

fn edit_refuses_duplicate_title() {
    let mut request = EditEntryRequest::empty();
    request.username = Some("updated-user".to_string());
    let err = edit_entry_save_as(&base_file(), "Duplicate Title", "testpass", &options("edit.kdbx"), &fresh("edit.kdbx"), &request)
        .expect_err("duplicate title selector should fail");
    assert!(matches!(err, AnahtarError::DuplicateEntrySelector(_)));
}

#[test]
fn internal_edit_entry_save_as_rejects_duplicate_title_selector() {
    edit_refuses_duplicate_title();
}

#[test]
fn lib_edit_entry_save_as_rejects_duplicate_title_selector() {
    edit_refuses_duplicate_title();
}

fn add_request(group_path: &str) -> AddEntryRequest {
    AddEntryRequest {
        group_path: group_path.to_string(),
        title: "Added By Test".to_string(),
        username: Some("added-user".to_string()),
        password: Some("added-pass".to_string()),
        url: Some("https://example.com/added".to_string()),
        notes: Some("added notes".to_string()),
    }
}

fn add_adds_one_entry() {
    let key = UnlockKey::password_only("testpass");
    let pending = add_entry_save_as(&base_file(), "testpass", &options("add.kdbx"), &fresh("add.kdbx"), &add_request("General/Web")).unwrap();
    let report = finish(&pending, "testpass");
    assert_eq!(report.operation, WriteOperation::Add);
    assert_eq!(report.input_entry_count, 4);
    assert_eq!(report.output_entry_count, 5);
    assert_eq!(report.input_group_count, report.output_group_count);

    let reopened = open_vault(&pending.bytes, &key).unwrap();
    let detail = show_entry(&reopened, report.changed_entry_id.as_deref().unwrap(), true).unwrap();
    assert_eq!(detail.title.as_deref(), Some("Added By Test"));
    assert_eq!(detail.username.as_deref(), Some("added-user"));
    assert_eq!(detail.password.as_deref(), Some("added-pass"));
    assert_eq!(detail.group_path, "Root/General/Web");
}

#[test]
fn internal_add_entry_save_as_adds_one_entry_and_verifies_reopen() {
    add_adds_one_entry();
}

#[test]
fn lib_add_entry_save_as_adds_one_entry_and_verifies_reopen() {
    add_adds_one_entry();
}

fn add_refuses_missing_group() {
    let mut request = add_request("General/Missing");
    request.username = None;
    request.password = None;
    request.url = None;
    request.notes = None;
    let err = add_entry_save_as(&base_file(), "testpass", &options("add.kdbx"), &fresh("add.kdbx"), &request)
        .expect_err("missing group should fail");
    assert!(matches!(err, AnahtarError::GroupNotFound(_)));
}

#[test]
fn internal_add_entry_save_as_rejects_missing_group() {
    add_refuses_missing_group();
}

#[test]
fn lib_add_entry_save_as_rejects_missing_group() {
    add_refuses_missing_group();
}

fn upgrade_writes_kdbx41() {
    let key = UnlockKey::password_only("testpass");
    let plan = upgrade_to_kdbx41(&base_file(), "upgraded.kdbx", &fresh("upgraded.kdbx"), "testpass", false, false).unwrap();
    let (report, pending) = match plan {
        UpgradePlan::Write(report, pending) => (report, pending),
        UpgradePlan::Done(_) => panic!("an upgrade that is not a dry run writes"),
    };
    let report = finish_upgrade(report, &pending, &key, &pending.bytes).unwrap();
    assert_eq!(report.input_entry_count, 4);
    assert_eq!(report.output_entry_count, Some(4));
    let size = pending.bytes.len() as u64;
    assert_eq!(
        inspect_header("upgraded.kdbx", &pending.bytes[..12], size).unwrap().version,
        KdbxVersion::Kdbx { major: 4, minor: 1 }
    );
    let reopened = open_vault(&pending.bytes, &key).unwrap();
    assert_eq!(count_groups(&reopened), 4);
    assert_eq!(anahtar::listing::count_entries(&reopened), 4);
}

#[test]
fn internal_upgrade_still_works_after_save_helper_refactor() {
    upgrade_writes_kdbx41();
}

#[test]
fn lib_upgrade_still_works_after_save_helper_refactor() {
    upgrade_writes_kdbx41();
}

#[test]
fn upgrade_dry_run_writes_nothing() {
    let plan = upgrade_to_kdbx41(&base_file(), "upgraded.kdbx", &fresh("upgraded.kdbx"), "testpass", false, true).unwrap();
    match plan {
        UpgradePlan::Done(report) => {
            assert!(report.dry_run);
            assert_eq!(report.input_entry_count, 4);
            assert_eq!(report.output_entry_count, None);
            assert_eq!(report.warning, None);
        }
        UpgradePlan::Write(..) => panic!("a dry run writes nothing"),
    }
}

#[test]
fn group_operations_save_as_work_on_synthetic_vault() {
    let credentials = VaultCredentials::password_only("testpass");
    let key = UnlockKey::password_only(&credentials.password);

    let pending = add_group_save_as_with_credentials(&base_file(), &key, &options("group-added.kdbx"), &fresh("group-added.kdbx"), "General/API").unwrap();
    finish(&pending, "testpass");
    let vault = open_vault(&pending.bytes, &key).unwrap();
    assert!(list_groups(&vault).iter().any(|g| g.path == "Root/General/API"));

    let group_added = file_from("group-added.kdbx", pending.bytes);
    let pending = rename_group_save_as_with_credentials(&group_added, &key, &options("group-renamed.kdbx"), &fresh("group-renamed.kdbx"), "General/API", "Services").unwrap();
    finish(&pending, "testpass");
    let vault = open_vault(&pending.bytes, &key).unwrap();
    assert!(list_groups(&vault).iter().any(|g| g.path == "Root/General/Services"));

    let renamed = file_from("group-renamed.kdbx", pending.bytes);
    let pending = move_entry_save_as_with_credentials(
        &renamed,
        &key,
        &options("moved.kdbx"),
        &fresh("moved.kdbx"),
        &EntrySelector::Title("Github Test".to_string()),
        "General/Services",
    )
    .unwrap();
    finish(&pending, "testpass");
    let vault = open_vault(&pending.bytes, &key).unwrap();
    assert_eq!(show_entry(&vault, "Github Test", false).unwrap().group_path, "Root/General/Services");

    let moved = file_from("moved.kdbx", pending.bytes);
    let pending = delete_group_save_as_with_credentials(&moved, &key, &options("deleted-group.kdbx"), &fresh("deleted-group.kdbx"), "General/Services").unwrap();
    finish(&pending, "testpass");
    let vault = open_vault(&pending.bytes, &key).unwrap();
    assert!(!list_groups(&vault).iter().any(|g| g.path == "Root/General/Services"));
}

#[test]
fn service_save_as_add_entry_flow() {
    let credentials = VaultCredentials::password_only("testpass");
    let key = UnlockKey::password_only(&credentials.password);
    let output = "app-add.kdbx".to_string();
    let pending = AnahtarService::add_entry(
        &base_file(),
        &key,
        &AddEntryRequest {
            group_path: "General/Web".to_string(),
            title: "App Service Example".to_string(),
            username: Some("app@example.com".to_string()),
            password: Some("app-service-password".to_string()),
            url: Some("https://example.com".to_string()),
            notes: None,
        },
        &WriteMode::SaveAs { output_path: output.clone(), force: false },
        &fresh("app-add.kdbx"),
    )
    .unwrap()
    .unwrap();
    let report = finish(&pending, "testpass");
    assert_eq!(report.output_path, output);
    assert!(report.changed_entry_id.is_some());
}

#[test]
fn existing_output_and_temp_file_are_refused() {
    let mut target = fresh("out.kdbx");
    target.exists = true;
    let err = add_entry_save_as(&base_file(), "testpass", &options("out.kdbx"), &target, &add_request("General/Web")).unwrap_err();
    assert!(matches!(err, AnahtarError::OutputExists(ref p) if p == "out.kdbx"));

    let forced = SaveAsOptions { output_path: "out.kdbx".to_string(), force: true };
    assert!(add_entry_save_as(&base_file(), "testpass", &forced, &target, &add_request("General/Web")).is_ok());

    let mut target = fresh("out.kdbx");
    target.temp_exists = true;
    let err = add_entry_save_as(&base_file(), "testpass", &options("out.kdbx"), &target, &add_request("General/Web")).unwrap_err();
    assert!(matches!(err, AnahtarError::TempOutputExists(ref p) if p == "out.kdbx.tmp"));
}

#[test]
fn read_back_with_other_counts_is_a_count_mismatch() {
    let pending = add_entry_save_as(&base_file(), "testpass", &options("add.kdbx"), &fresh("add.kdbx"), &add_request("General/Web")).unwrap();
    let unchanged = phase3_vault_bytes();
    let err = finish_save_as(&pending, &UnlockKey::password_only("testpass"), &unchanged).unwrap_err();
    match err {
        AnahtarError::CountMismatch { input_groups, output_groups, input_entries, output_entries } => {
            assert_eq!((input_groups, output_groups), (4, 4));
            assert_eq!((input_entries, output_entries), (5, 4));
        }
        other => panic!("unexpected error: {:?}", other),
    }
    let wrong = finish_save_as(&pending, &UnlockKey::password_only("other"), &pending.bytes).unwrap_err();
    assert!(matches!(wrong, AnahtarError::OpenDatabase));
}

#[test]
fn wrong_password_on_a_distinct_output_fails_to_open() {
    let err = add_entry_save_as(&base_file(), "wrong", &options("add.kdbx"), &fresh("add.kdbx"), &add_request("General/Web")).unwrap_err();
    assert!(matches!(err, AnahtarError::OpenDatabase));
}

fn in_place_request() -> AddEntryRequest {
    AddEntryRequest {
        group_path: "General/Web".to_string(),
        title: "In-place Test".to_string(),
        username: None,
        password: None,
        url: None,
        notes: None,
    }
}

#[test]
fn safe_in_place_write_creates_backup_and_updates_target() {
    let key = UnlockKey::password_only("testpass");
    let vault = VaultFile {
        path: "/d/target.kdbx".to_string(),
        canonical: "/d/target.kdbx".to_string(),
        data: phase3_vault_bytes(),
    };
    let temp = temp_in_place_path_for(&vault.path).unwrap();
    assert_eq!(temp, "/d/.target.kdbx.anahtar.tmp");
    let backup = backup_path_for(&vault.path, Some("/d/backups"), 1700000000, &vec![false]).unwrap();
    let (w, action) = start_in_place(&vault.path, &temp, Some(backup.clone()));
    assert!(matches!(action, InPlaceAction::ProbeTemp { ref temp } if temp == "/d/.target.kdbx.anahtar.tmp"));
    let (w, action) = in_place_step(w, &key, InPlaceEvent::TempProbed { exists: false });
    assert!(matches!(action, InPlaceAction::CopyBackup { ref backup, .. } if backup == "/d/backups/target.1700000000.kdbx"));
    let backup_bytes = vault.data.clone();
    let (w, action) = in_place_step(w, &key, InPlaceEvent::BackupCopied(Ok(())));
    assert!(matches!(action, InPlaceAction::SaveAs { ref output } if output == "/d/.target.kdbx.anahtar.tmp"));
    let target = OutputTarget { canonical: "/d/.target.kdbx.anahtar.tmp".to_string(), exists: false, temp_exists: false };
    let pending = add_entry_in_place(&vault, &key, &target, &in_place_request()).unwrap();
    let saved = finish_save_as(&pending, &key, &pending.bytes).unwrap();
    let (w, action) = in_place_step(w, &key, InPlaceEvent::SavedAs(Ok(saved)));
    assert!(matches!(action, InPlaceAction::ReadTemp { .. }));
    let (w, action) = in_place_step(w, &key, InPlaceEvent::Read(Ok(pending.bytes.clone())));
    assert!(matches!(action, InPlaceAction::Replace { .. }));
    let (w, action) = in_place_step(w, &key, InPlaceEvent::Replaced(Ok(())));
    assert!(matches!(action, InPlaceAction::ReadTarget { .. }));
    let (_, action) = in_place_step(w, &key, InPlaceEvent::Read(Ok(pending.bytes.clone())));
    let report = match action {
        InPlaceAction::Finish { report } => report,
        other => panic!("unexpected action: {:?}", other),
    };
    assert_eq!(report.final_target_path.as_deref(), Some("/d/target.kdbx"));
    assert_eq!(report.backup_path.as_deref(), Some("/d/backups/target.1700000000.kdbx"));
    let updated = open_vault(&pending.bytes, &key).unwrap();
    assert_eq!(anahtar::listing::count_entries(&updated), 5);
    let kept = open_vault(&backup_bytes, &key).unwrap();
    assert_eq!(anahtar::listing::count_entries(&kept), 4);
}

#[test]
fn safe_in_place_write_preserves_original_on_preflight_failure() {
    let key = UnlockKey::password_only("testpass");
    let (w, _) = start_in_place("/d/target.kdbx", "/d/.target.kdbx.anahtar.tmp", Some("/d/backups/target.1.kdbx".to_string()));
    let (_, action) = in_place_step(w, &key, InPlaceEvent::TempProbed { exists: true });
    assert!(matches!(action, InPlaceAction::Fail { error: AnahtarError::TempOutputExists(ref t) } if t == "/d/.target.kdbx.anahtar.tmp"));
}

#[test]
fn in_place_final_mismatch_restores_the_backup() {
    let key = UnlockKey::password_only("testpass");
    let vault = VaultFile {
        path: "/d/target.kdbx".to_string(),
        canonical: "/d/target.kdbx".to_string(),
        data: phase3_vault_bytes(),
    };
    let target = OutputTarget { canonical: "/d/.target.kdbx.anahtar.tmp".to_string(), exists: false, temp_exists: false };
    let pending = add_entry_in_place(&vault, &key, &target, &in_place_request()).unwrap();
    let saved = finish_save_as(&pending, &key, &pending.bytes).unwrap();
    let (w, _) = start_in_place("/d/target.kdbx", "/d/.target.kdbx.anahtar.tmp", Some("/d/backups/b.kdbx".to_string()));
    let (w, _) = in_place_step(w, &key, InPlaceEvent::TempProbed { exists: false });
    let (w, _) = in_place_step(w, &key, InPlaceEvent::BackupCopied(Ok(())));
    let (w, _) = in_place_step(w, &key, InPlaceEvent::SavedAs(Ok(saved)));
    let (w, _) = in_place_step(w, &key, InPlaceEvent::Read(Ok(pending.bytes.clone())));
    let (w, _) = in_place_step(w, &key, InPlaceEvent::Replaced(Ok(())));
    let (_, action) = in_place_step(w, &key, InPlaceEvent::Read(Ok(vault.data.clone())));
    match action {
        InPlaceAction::Restore { backup, error: AnahtarError::VerificationFailed(m), .. } => {
            assert_eq!(backup, "/d/backups/b.kdbx");
            assert_eq!(m, "final in-place verification count mismatch; restored target from backup");
        }
        other => panic!("unexpected action: {:?}", other),
    }
}

#[test]
fn in_place_temp_that_does_not_unlock_is_abandoned() {
    let key = UnlockKey::password_only("testpass");
    let vault = VaultFile { path: "/d/t.kdbx".to_string(), canonical: "/d/t.kdbx".to_string(), data: phase3_vault_bytes() };
    let target = OutputTarget { canonical: "/d/.t.kdbx.anahtar.tmp".to_string(), exists: false, temp_exists: false };
    let pending = add_entry_in_place(&vault, &key, &target, &in_place_request()).unwrap();
    let saved = finish_save_as(&pending, &key, &pending.bytes).unwrap();
    let (w, _) = start_in_place("/d/t.kdbx", "/d/.t.kdbx.anahtar.tmp", Some("/d/b.kdbx".to_string()));
    let (w, _) = in_place_step(w, &key, InPlaceEvent::TempProbed { exists: false });
    let (w, _) = in_place_step(w, &key, InPlaceEvent::BackupCopied(Ok(())));
    let (w, _) = in_place_step(w, &key, InPlaceEvent::SavedAs(Ok(saved)));
    let (_, action) = in_place_step(w, &key, InPlaceEvent::Read(Ok(b"collision".to_vec())));
    assert!(matches!(action, InPlaceAction::Abandon { error: AnahtarError::OpenDatabase, .. }));
}

fn listing_of(bytes: &[u8]) -> Vec<(String, String, Option<String>)> {
    let vault = open_vault(bytes, &UnlockKey::password_only("testpass")).unwrap();
    anahtar::listing::list_entries(&vault)
        .into_iter()
        .map(|e| (e.id, e.group_path, e.title))
        .collect()
}

fn group_paths_of(bytes: &[u8]) -> Vec<String> {
    let vault = open_vault(bytes, &UnlockKey::password_only("testpass")).unwrap();
    list_groups(&vault).into_iter().map(|g| g.path).collect()
}

#[test]
fn deleting_an_added_entry_gives_back_the_vault() {
    let base = base_file();
    let added = add_entry_save_as(&base, "testpass", &options("a.kdbx"), &fresh("a.kdbx"), &add_request("General/Web")).unwrap();
    let id = added.changed_entry_id.clone().unwrap();
    let added_file = file_from("a.kdbx", added.bytes);
    let deleted = delete_entry_save_as(&added_file, &id, "testpass", &options("d.kdbx"), &fresh("d.kdbx")).unwrap();
    finish(&deleted, "testpass");
    assert_eq!(listing_of(&deleted.bytes), listing_of(&base.data));
    assert_eq!(group_paths_of(&deleted.bytes), group_paths_of(&base.data));
}

#[test]
fn renaming_back_gives_back_the_groups() {
    let key = UnlockKey::password_only("testpass");
    let base = base_file();
    let renamed = rename_group_save_as_with_credentials(&base, &key, &options("r.kdbx"), &fresh("r.kdbx"), "General/Web", "Sites").unwrap();
    let renamed_file = file_from("r.kdbx", renamed.bytes);
    let back = rename_group_save_as_with_credentials(&renamed_file, &key, &options("b.kdbx"), &fresh("b.kdbx"), "General/Sites", "Web").unwrap();
    assert_eq!(group_paths_of(&back.bytes), group_paths_of(&base.data));
    assert_eq!(listing_of(&back.bytes), listing_of(&base.data));
}

#[test]
fn deleting_an_added_group_gives_back_the_groups() {
    let key = UnlockKey::password_only("testpass");
    let base = base_file();
    let added = add_group_save_as_with_credentials(&base, &key, &options("g.kdbx"), &fresh("g.kdbx"), "General/Empty").unwrap();
    assert!(group_paths_of(&added.bytes).contains(&"Root/General/Empty".to_string()));
    let added_file = file_from("g.kdbx", added.bytes);
    let deleted = delete_group_save_as_with_credentials(&added_file, &key, &options("h.kdbx"), &fresh("h.kdbx"), "General/Empty").unwrap();
    finish(&deleted, "testpass");
    assert_eq!(group_paths_of(&deleted.bytes), group_paths_of(&base.data));
    assert_eq!(listing_of(&deleted.bytes), listing_of(&base.data));
}

#[test]
fn delete_check_fails_where_another_entry_is_titled_with_the_id() {
    let key = UnlockKey::password_only("testpass");
    let base = base_file();
    let before = open_vault(&base.data, &key).unwrap();
    let target = show_entry(&before, "Github Test", false).unwrap().id;
    let mut request = add_request("General/Email");
    request.title = target.to_uppercase();
    let added = add_entry_save_as(&base, "testpass", &options("t.kdbx"), &fresh("t.kdbx"), &request).unwrap();
    finish(&added, "testpass");
    let added_file = file_from("t.kdbx", added.bytes);
    let deleted = delete_entry_save_as(&added_file, &target, "testpass", &options("u.kdbx"), &fresh("u.kdbx")).unwrap();
    let err = finish_save_as(&deleted, &key, &deleted.bytes).expect_err("a title match is still found");
    match err {
        AnahtarError::VerificationFailed(msg) => assert_eq!(msg, format!("deleted entry still present: {}", target)),
        other => panic!("unexpected error: {:?}", other),
    }
}

#[test]
fn add_check_finds_the_new_entry_by_its_id() {
    let key = UnlockKey::password_only("testpass");
    let pending = add_entry_save_as(&base_file(), "testpass", &options("n.kdbx"), &fresh("n.kdbx"), &add_request("General/Web")).unwrap();
    let id = pending.changed_entry_id.clone().unwrap();
    let report = finish(&pending, "testpass");
    assert_eq!(report.changed_entry_id, Some(id.clone()));
    let reopened = open_vault(&pending.bytes, &key).unwrap();
    assert_eq!(show_entry(&reopened, &id, false).unwrap().title, Some("Added By Test".to_string()));
}

#[test]
fn group_add_reads_back_one_group_more() {
    let key = UnlockKey::password_only("testpass");
    let pending = add_group_save_as_with_credentials(&base_file(), &key, &options("ga.kdbx"), &fresh("ga.kdbx"), "General/Web/Deep").unwrap();
    let report = finish(&pending, "testpass");
    assert_eq!(report.input_group_count, 4);
    assert_eq!(report.output_group_count, 5);
    assert_eq!(report.output_entry_count, report.input_entry_count);
}

#[test]
fn group_add_refuses_existing_group_and_missing_parent() {
    let key = UnlockKey::password_only("testpass");
    let err = add_group_save_as_with_credentials(&base_file(), &key, &options("gb.kdbx"), &fresh("gb.kdbx"), "General/Web").unwrap_err();
    match err {
        AnahtarError::InvalidGroupPath(msg) => assert_eq!(msg, "group already exists: General/Web"),
        other => panic!("unexpected error: {:?}", other),
    }
    let err = add_group_save_as_with_credentials(&base_file(), &key, &options("gc.kdbx"), &fresh("gc.kdbx"), "Nowhere/New").unwrap_err();
    assert!(matches!(err, AnahtarError::GroupNotFound(_)));
}

#[test]
fn deleting_a_group_takes_its_subtree_along() {
    let key = UnlockKey::password_only("testpass");
    let pending = delete_group_save_as_with_credentials(&base_file(), &key, &options("gd.kdbx"), &fresh("gd.kdbx"), "General").unwrap();
    assert_eq!(pending.expected_group_count, 1);
    assert_eq!(pending.expected_entry_count, 0);
    let report = finish(&pending, "testpass");
    assert_eq!((report.input_group_count, report.output_group_count), (4, 1));
    assert_eq!((report.input_entry_count, report.output_entry_count), (4, 0));
    let vault = open_vault(&pending.bytes, &key).unwrap();
    assert_eq!(list_groups(&vault).len(), 1);
}

#[test]
fn deleting_a_leaf_group_reads_back_without_its_entries() {
    let key = UnlockKey::password_only("testpass");
    let pending = delete_group_save_as_with_credentials(&base_file(), &key, &options("ge.kdbx"), &fresh("ge.kdbx"), "General/Web").unwrap();
    let report = finish(&pending, "testpass");
    assert_eq!((report.input_group_count, report.output_group_count), (4, 3));
    assert_eq!((report.input_entry_count, report.output_entry_count), (4, 2));
}

#[test]
fn save_as_machine_replaces_the_output_only_after_the_read_back_passes() {
    let key = UnlockKey::password_only("testpass");
    let pending = add_entry_save_as(&base_file(), "testpass", &options("m.kdbx"), &fresh("m.kdbx"), &add_request("General/Web")).unwrap();
    let (c, a) = start_commit(&pending);
    assert!(matches!(&a, CommitAction::WriteTemp { temp } if *temp == pending.temp_path));
    let (c, a) = commit_step(c, &pending, &key, CommitEvent::Wrote(Ok(())));
    assert!(matches!(&a, CommitAction::ReadTemp { temp } if *temp == pending.temp_path));
    let (c, a) = commit_step(c, &pending, &key, CommitEvent::Read(Ok(pending.bytes.clone())));
    assert!(matches!(&a, CommitAction::Rename { temp, output } if *temp == pending.temp_path && *output == "m.kdbx"));
    assert_eq!(c.phase, CommitPhase::Renaming);
    let (c, a) = commit_step(c, &pending, &key, CommitEvent::Renamed(Ok(())));
    assert_eq!(c.phase, CommitPhase::Finished);
    match a {
        CommitAction::Finish { report } => assert_eq!((report.input_entry_count, report.output_entry_count), (4, 5)),
        other => panic!("unexpected action: {:?}", other),
    }
}

#[test]
fn save_as_machine_discards_a_read_back_that_does_not_unlock() {
    let key = UnlockKey::password_only("testpass");
    let pending = add_entry_save_as(&base_file(), "testpass", &options("n.kdbx"), &fresh("n.kdbx"), &add_request("General/Web")).unwrap();
    let (c, _) = start_commit(&pending);
    let (c, _) = commit_step(c, &pending, &key, CommitEvent::Wrote(Ok(())));
    let (c, a) = commit_step(c, &pending, &key, CommitEvent::Read(Ok(b"not a vault".to_vec())));
    assert_eq!(c.phase, CommitPhase::Finished);
    assert!(matches!(a, CommitAction::Discard { error: AnahtarError::OpenDatabase, .. }));
}

#[test]
fn forced_save_as_machine_clears_the_output_first() {
    let key = UnlockKey::password_only("testpass");
    let forced = SaveAsOptions { output_path: "f.kdbx".to_string(), force: true };
    let existing = OutputTarget { canonical: "/out/f.kdbx".to_string(), exists: true, temp_exists: false };
    let pending = add_entry_save_as(&base_file(), "testpass", &forced, &existing, &add_request("General/Web")).unwrap();
    let (c, _) = start_commit(&pending);
    let (c, _) = commit_step(c, &pending, &key, CommitEvent::Wrote(Ok(())));
    let (c, a) = commit_step(c, &pending, &key, CommitEvent::Read(Ok(pending.bytes.clone())));
    assert!(matches!(&a, CommitAction::ClearOutput { output } if output == "f.kdbx"));
    let (c, a) = commit_step(c, &pending, &key, CommitEvent::Cleared(Ok(())));
    assert!(matches!(&a, CommitAction::Rename { .. }));
    let (_, a) = commit_step(c, &pending, &key, CommitEvent::Renamed(Err(IoFailure { message: "denied".to_string() })));
    assert!(matches!(a, CommitAction::Discard { error: AnahtarError::Io(_), .. }));
}

#[test]
fn save_as_machine_discards_when_the_write_fails() {
    let key = UnlockKey::password_only("testpass");
    let pending = add_entry_save_as(&base_file(), "testpass", &options("w.kdbx"), &fresh("w.kdbx"), &add_request("General/Web")).unwrap();
    let (c, _) = start_commit(&pending);
    let (c, a) = commit_step(c, &pending, &key, CommitEvent::Wrote(Err(IoFailure { message: "disk full".to_string() })));
    assert_eq!(c.phase, CommitPhase::Finished);
    match a {
        CommitAction::Discard { temp, error: AnahtarError::Io(f) } => {
            assert_eq!(temp, pending.temp_path);
            assert_eq!(f.message, "disk full");
        }
        other => panic!("unexpected action: {:?}", other),
    }
}

#[test]
fn in_place_write_without_backup_skips_the_copy_and_reports_no_backup() {
    let key = UnlockKey::password_only("testpass");
    let vault = VaultFile { path: "/d/n.kdbx".to_string(), canonical: "/d/n.kdbx".to_string(), data: phase3_vault_bytes() };
    let target = OutputTarget { canonical: "/d/.n.kdbx.anahtar.tmp".to_string(), exists: false, temp_exists: false };
    let pending = add_entry_in_place(&vault, &key, &target, &in_place_request()).unwrap();
    let saved = finish_save_as(&pending, &key, &pending.bytes).unwrap();
    let (w, _) = start_in_place("/d/n.kdbx", "/d/.n.kdbx.anahtar.tmp", None);
    let (w, action) = in_place_step(w, &key, InPlaceEvent::TempProbed { exists: false });
    assert!(matches!(action, InPlaceAction::SaveAs { ref output } if output == "/d/.n.kdbx.anahtar.tmp"));
    let (w, _) = in_place_step(w, &key, InPlaceEvent::SavedAs(Ok(saved)));
    let (w, action) = in_place_step(w, &key, InPlaceEvent::Read(Ok(pending.bytes.clone())));
    assert!(matches!(action, InPlaceAction::Replace { .. }));
    let (w, _) = in_place_step(w, &key, InPlaceEvent::Replaced(Ok(())));
    let (_, action) = in_place_step(w, &key, InPlaceEvent::Read(Ok(pending.bytes.clone())));
    match action {
        InPlaceAction::Finish { report } => {
            assert_eq!(report.backup_path, None);
            assert_eq!(report.final_target_path.as_deref(), Some("/d/n.kdbx"));
        }
        other => panic!("unexpected action: {:?}", other),
    }
}

#[test]
fn in_place_write_without_backup_abandons_a_final_mismatch() {
    let key = UnlockKey::password_only("testpass");
    let vault = VaultFile { path: "/d/m.kdbx".to_string(), canonical: "/d/m.kdbx".to_string(), data: phase3_vault_bytes() };
    let target = OutputTarget { canonical: "/d/.m.kdbx.anahtar.tmp".to_string(), exists: false, temp_exists: false };
    let pending = add_entry_in_place(&vault, &key, &target, &in_place_request()).unwrap();
    let saved = finish_save_as(&pending, &key, &pending.bytes).unwrap();
    let (w, _) = start_in_place("/d/m.kdbx", "/d/.m.kdbx.anahtar.tmp", None);
    let (w, _) = in_place_step(w, &key, InPlaceEvent::TempProbed { exists: false });
    let (w, _) = in_place_step(w, &key, InPlaceEvent::SavedAs(Ok(saved)));
    let (w, _) = in_place_step(w, &key, InPlaceEvent::Read(Ok(pending.bytes.clone())));
    let (w, _) = in_place_step(w, &key, InPlaceEvent::Replaced(Ok(())));
    let (_, action) = in_place_step(w, &key, InPlaceEvent::Read(Ok(vault.data.clone())));
    match action {
        InPlaceAction::Abandon { error: AnahtarError::VerificationFailed(m), .. } => {
            assert_eq!(m, "final in-place verification count mismatch");
        }
        other => panic!("unexpected action: {:?}", other),
    }
}

#[test]
fn delete_takes_every_uuid_form_of_the_id() {
    let key = UnlockKey::password_only("testpass");
    let base = base_file();
    let before = open_vault(&base.data, &key).unwrap();
    let id = show_entry(&before, "Github Test", false).unwrap().id;
    let simple: String = id.chars().filter(|c| *c != '-').collect();
    for form in [id.to_uppercase(), format!("{{{}}}", id), format!("URN:uuid:{}", id), simple] {
        let pending = delete_entry_save_as(&base, &form, "testpass", &options("f.kdbx"), &fresh("f.kdbx")).unwrap();
        assert_eq!(pending.changed_entry_id.as_deref(), Some(id.as_str()));
        assert_eq!(finish(&pending, "testpass").output_entry_count, 3);
    }
    let err = delete_entry_save_as(&base, &format!("{}-", id), "testpass", &options("f.kdbx"), &fresh("f.kdbx")).unwrap_err();
    assert!(matches!(err, AnahtarError::EntryNotFound(_)));
}
