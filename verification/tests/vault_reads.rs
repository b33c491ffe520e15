use anahtar::audit::audit_database;
use anahtar::detail::{search_entries, show_entry, show_entry_by_selector, totp_code};
use anahtar::edit::{open_database, open_database_with_credentials, open_vault, UnlockKey, VaultCredentials};
use anahtar::error::AnahtarError;
use anahtar::gui::{credentials_from_gui, selector_from_gui};
use anahtar::header::KdbxVersion;
use anahtar::kdbx::{database_version, read_vault};
use anahtar::listing::{count_groups, list_entries, list_groups};
use anahtar::query::EntrySelector;
use anahtar::service::AnahtarService;
use anahtar::vault::Vault;
use keepass::db::{fields, Database, Value};
use keepass::DatabaseKey;

const PASSWORD: &str = "testpass";

fn phase3_database() -> Database {
    let mut db = Database::new();
    db.root_mut().edit(|root| root.name = "Root".to_string());
    let general_id = db
        .root_mut()
        .add_group()
        .edit(|g| g.name = "General".to_string())
        .id();
    let web_id = db
        .group_mut(general_id)
        .expect("General group exists")
        .add_group()
        .edit(|g| g.name = "Web".to_string())
        .id();
    let email_id = db
        .group_mut(general_id)
        .expect("General group exists")
        .add_group()
        .edit(|g| g.name = "Email".to_string())
        .id();
    db.group_mut(web_id).expect("Web group exists").add_entry().edit(|e| {
        e.set_unprotected(fields::TITLE, "Github Test");
        e.set_unprotected(fields::USERNAME, "github-user");
        e.set_protected(fields::PASSWORD, "github-pass");
        e.set_unprotected(fields::URL, "https://github.com");
        e.set_unprotected(fields::NOTES, "Synthetic web entry for Anahtar Phase 3 tests");
    });
    db.group_mut(email_id).expect("Email group exists").add_entry().edit(|e| {
        e.set_unprotected(fields::TITLE, "Email Test");
        e.set_unprotected(fields::USERNAME, "email-user");
        e.set_protected(fields::PASSWORD, "email-pass");
        e.set_unprotected(fields::URL, "https://mail.example.com");
        e.set_unprotected(fields::NOTES, "Synthetic email entry for Anahtar Phase 3 tests");
    });
    db.group_mut(web_id).expect("Web group exists").add_entry().edit(|e| {
        e.set_unprotected(fields::TITLE, "Duplicate Title");
        e.set_unprotected(fields::USERNAME, "duplicate-web-user");
        e.set_protected(fields::PASSWORD, "duplicate-web-pass");
        e.set_unprotected(fields::URL, "https://web.example.com/duplicate");
    });
    db.group_mut(email_id).expect("Email group exists").add_entry().edit(|e| {
        e.set_unprotected(fields::TITLE, "Duplicate Title");
        e.set_unprotected(fields::USERNAME, "duplicate-email-user");
        e.set_protected(fields::PASSWORD, "duplicate-email-pass");
        e.set_unprotected(fields::URL, "https://mail.example.com/duplicate");
    });
    db
}

fn phase3_vault_bytes() -> Vec<u8> {
    let db = phase3_database();
    let mut out: Vec<u8> = Vec::new();
    db.save(&mut out, DatabaseKey::new().with_password(PASSWORD)).unwrap();
    out
}

fn vault_of(db: &Database) -> Vault {
    read_vault(db).expect("a database keeps its root group")
}

#[test]
fn service_lists_generated_vault_entries() {
    let vault = phase3_vault_bytes();
    let credentials = VaultCredentials::password_only("testpass");
    let key = UnlockKey::password_only(&credentials.password);
    let entries = AnahtarService::list(&vault, &key).unwrap();
    assert!(!entries.is_empty());
}

fn totp_code_does_not_expose_uri() {
    let mut db = Database::new();
    db.root_mut().add_entry().edit(|e| {
        e.set_unprotected(fields::TITLE, "TOTP Example");
        e.set_protected(
            fields::OTP,
            "otpauth://totp/KeePassXC:none?secret=JBSWY3DPEHPK3PXP&period=30&digits=6&issuer=KeePassXC",
        );
    });
    let vault = vault_of(&db);
    let code = totp_code(&vault, "TOTP Example").unwrap();
    assert_eq!(code.code.len(), 6);
    assert!(code.code.chars().all(|c| c.is_ascii_digit()));
    assert_eq!(code.period_seconds, 30);
}

fn protected_fields_are_hidden_unless_revealed() {
    let mut db = Database::new();
    db.root_mut().add_entry().edit(|e| {
        e.set_unprotected(fields::TITLE, "Example");
        e.set_protected(fields::PASSWORD, "secret-password");
        e.set("otp", Value::protected("otpauth://totp/example?secret=SECRET"));
    });
    let vault = vault_of(&db);

    let hidden = show_entry(&vault, "Example", false).unwrap();
    assert_eq!(hidden.password, None);
    assert_eq!(hidden.custom_fields[0].key, "otp");
    assert_eq!(hidden.custom_fields[0].value, "<protected>");

    let revealed = show_entry(&vault, "Example", true).unwrap();
    assert_eq!(revealed.password.as_deref(), Some("secret-password"));
    assert_eq!(revealed.custom_fields[0].value, "otpauth://totp/example?secret=SECRET");
}

#[test]
fn duplicate_title_error_shows_safe_candidate_summaries() {
    let key = UnlockKey::password_only("testpass");
    let vault = open_vault(&phase3_vault_bytes(), &key).unwrap();
    let err = show_entry_by_selector(&vault, &EntrySelector::Title("Duplicate Title".to_string()), false)
        .unwrap_err()
        .message();
    assert!(err.contains("candidates:"));
    assert!(err.contains("duplicate-web-user"));
    assert!(!err.contains("duplicate-web-pass"));
}

#[test]
fn audit_database_never_reports_secret_values() {
    let mut db = Database::new();
    db.root_mut().add_entry().edit(|e| {
        e.set_unprotected(fields::TITLE, "Weak Missing");
        e.set_protected(fields::PASSWORD, "secret");
    });
    db.root_mut().add_entry().edit(|e| {
        e.set_unprotected(fields::TITLE, "Reuse 1");
        e.set_protected(fields::PASSWORD, "same-secret");
    });
    db.root_mut().add_entry().edit(|e| {
        e.set_unprotected(fields::TITLE, "Reuse 2");
        e.set_protected(fields::PASSWORD, "same-secret");
    });
    let report = audit_database(&vault_of(&db));
    let text = format!("{:?}", report);
    assert!(text.contains("weak_password"));
    assert!(text.contains("reused_password"));
    assert!(!text.contains("secret"));
    assert!(!text.contains("same-secret"));
}

fn generated_phase3_vault_opens() {
    let db = open_database(&phase3_vault_bytes(), "testpass").unwrap();
    assert_eq!(database_version(&db), KdbxVersion::Kdbx { major: 4, minor: 1 });
    let vault = vault_of(&db);
    assert_eq!(count_groups(&vault), 4);
    assert_eq!(db.iter_all_entries().count(), 4);
    assert_eq!(search_entries(&vault, "Github Test").len(), 1);
    assert_eq!(search_entries(&vault, "Duplicate Title").len(), 2);
}

#[test]
fn vault_credentials_password_only_opens_generated_vault() {
    let credentials = VaultCredentials::password_only("testpass");
    let key = UnlockKey::password_only(&credentials.password);
    let db = open_database_with_credentials(&phase3_vault_bytes(), &key).unwrap();
    assert_eq!(db.iter_all_entries().count(), 4);
}

#[test]
fn vault_credentials_password_plus_key_file_opens_synthetic_vault() {
    let key_file: &[u8] =
        b"<KeyFile><Key><Data>NXyYiJMHg3ls+eBmjbAjWec9lcOToJiofbhNiFMTJMw=</Data></Key></KeyFile>";
    let mut db = Database::new();
    db.root_mut().edit(|root| root.name = "Root".to_string());
    db.root_mut().add_entry().edit(|entry| {
        entry.set_unprotected(fields::TITLE, "Key File Test");
        entry.set_protected(fields::PASSWORD, "secret");
    });
    let mut reader = key_file;
    let key = DatabaseKey::new().with_password("testpass").with_keyfile(&mut reader).unwrap();
    let mut vault: Vec<u8> = Vec::new();
    db.save(&mut vault, key).unwrap();

    let credentials = VaultCredentials::with_key_file("testpass", "test.keyx");
    assert_eq!(credentials.key_file.as_deref(), Some("test.keyx"));
    let unlock = UnlockKey { password: credentials.password.clone(), key_file: Some(key_file.to_vec()) };
    let reopened = open_database_with_credentials(&vault, &unlock).unwrap();
    assert_eq!(reopened.iter_all_entries().count(), 1);
    let without_key_file = UnlockKey::password_only("testpass");
    assert!(matches!(
        open_database_with_credentials(&vault, &without_key_file),
        Err(AnahtarError::OpenDatabase)
    ));
}

#[test]
fn listing_is_sorted_by_group_path_then_title() {
    let vault = vault_of(&phase3_database());
    let rows: Vec<(String, Option<String>)> = list_entries(&vault)
        .into_iter()
        .map(|e| (e.group_path, e.title))
        .collect();
    assert_eq!(
        rows,
        vec![
            ("Root/General/Email".to_string(), Some("Duplicate Title".to_string())),
            ("Root/General/Email".to_string(), Some("Email Test".to_string())),
            ("Root/General/Web".to_string(), Some("Duplicate Title".to_string())),
            ("Root/General/Web".to_string(), Some("Github Test".to_string())),
        ]
    );
    let groups: Vec<(String, usize, usize)> = list_groups(&vault)
        .into_iter()
        .map(|g| (g.path, g.entry_count, g.child_group_count))
        .collect();
    assert_eq!(
        groups,
        vec![
            ("Root".to_string(), 0, 1),
            ("Root/General".to_string(), 0, 2),
            ("Root/General/Email".to_string(), 2, 0),
            ("Root/General/Web".to_string(), 2, 0),
        ]
    );
}

#[test]
fn wrong_password_is_refused_without_echoing_it() {
    let key = UnlockKey::password_only("wrong-password");
    let err = AnahtarService::list(&phase3_vault_bytes(), &key).unwrap_err();
    assert!(matches!(err, AnahtarError::OpenDatabase));
    let message = err.message();
    assert!(message.contains("failed to open database"));
    assert!(!message.contains("wrong-password"));
}

#[test]
fn internal_totp_code_does_not_expose_uri() {
    totp_code_does_not_expose_uri();
}

#[test]
fn lib_totp_code_does_not_expose_uri() {
    totp_code_does_not_expose_uri();
}

#[test]
fn internal_protected_fields_are_hidden_unless_revealed() {
    protected_fields_are_hidden_unless_revealed();
}

#[test]
fn lib_protected_fields_are_hidden_unless_revealed() {
    protected_fields_are_hidden_unless_revealed();
}

#[test]
fn internal_generated_phase3_vault_opens() {
    generated_phase3_vault_opens();
}

#[test]
fn lib_generated_phase3_vault_opens() {
    generated_phase3_vault_opens();
}

#[test]
fn backend_commands_read_generated_vault_without_revealing_password() {
    let bytes = phase3_vault_bytes();
    let path = "../../../test-vaults/generated/phase3-base.kdbx";

    let info = AnahtarService::inspect(path, &bytes[..12], bytes.len() as u64).unwrap();
    assert!(info.file_size_bytes > 0);

    let credentials = credentials_from_gui("testpass".to_string(), None);
    assert!(credentials.key_file.is_none());
    let key = UnlockKey::password_only(&credentials.password);
    let entries = AnahtarService::list(&bytes, &key).unwrap();
    assert!(!entries.is_empty());

    let search = AnahtarService::search(&bytes, &key, "Github").unwrap();
    assert_eq!(search.len(), 1);

    let selector = selector_from_gui("title", "Github Test".to_string()).unwrap();
    let detail = AnahtarService::show(&bytes, &key, &selector, false).unwrap();
    assert_eq!(detail.title.as_deref(), Some("Github Test"));
    assert!(detail.password.is_none());

    let groups = AnahtarService::groups(&bytes, &key).unwrap();
    assert!(groups.iter().any(|group| group.path == "Root/General/Web"));

    let audit = AnahtarService::audit(&bytes, &key).unwrap();
    assert!(!format!("{:?}", audit).contains("github-pass"));
}

