use anahtar::cli::{
    apply_config_set, check_existing_file, config_value, ensure_edit_has_change, entry_password_source,
    preflight_output, resolve_key_file, resolve_vault, secret_field, selector_from_args, validate_add_password_mode,
    validate_config, validate_generator_length, AnahtarConfig, ConfigSetCommand, EntrySelectorArgs,
    PasswordSource, SecretField,
};
use anahtar::cli::confirmation_matches;
use anahtar::clipboard::{clear_delay, should_clear};
use anahtar::detail::EntryDetail;
use anahtar::edit::UnlockKey;
use anahtar::error::{AnahtarError, IoFailure};
use anahtar::ffi::{credentials, entry_selector, in_place, internal_error_json, required_report};
use anahtar::generator::generate_password;
use anahtar::gui::{
    check_group_empty, credentials_from_gui, empty_secret_to_none, empty_to_none, entry_is_in_group,
    gui_error, normalize_group_path, remember_vault, selector_from_gui, GuiConfig, RecentVault,
};
use anahtar::header::{inspect_header, parse_header, KdbxVersion};
use anahtar::listing::EntrySummary;
use anahtar::paths::{
    backup_file_name, backup_location, backup_path_for, group_path_parts, split_group_parent,
    temp_in_place_path_for, temp_path_for,
};
use anahtar::query::EntrySelector;
use anahtar::service::{AnahtarService, WriteMode};
use keepass::db::Database;
use keepass::DatabaseKey;

const LOWER: &[u8] = b"abcdefghijklmnopqrstuvwxyz";
const UPPER: &[u8] = b"ABCDEFGHIJKLMNOPQRSTUVWXYZ";
const DIGITS: &[u8] = b"0123456789";
const SYMBOLS: &[u8] = b"!@#$%^&*()-_=+[]{};:,.?/";

fn header(sig2: u32, minor: u16, major: u16) -> Vec<u8> {
    let mut b = Vec::new();
    b.extend_from_slice(&0x9AA2_D903u32.to_le_bytes());
    b.extend_from_slice(&sig2.to_le_bytes());
    b.extend_from_slice(&minor.to_le_bytes());
    b.extend_from_slice(&major.to_le_bytes());
    b
}

#[test]
fn empty_secret_to_none_preserves_non_empty_secret_whitespace() {
    assert_eq!(empty_secret_to_none(Some("  spaced  ".to_string())).as_deref(), Some("  spaced  "));
    assert_eq!(empty_secret_to_none(Some(String::new())), None);
}

#[test]
fn invalid_selector_returns_validation_error() {
    let err = selector_from_gui("unknown", "value".to_string()).unwrap_err();
    assert_eq!(err.kind, "validation_failed");
    assert_eq!(err.message, "unknown entry selector kind");
}

#[test]
fn lib_wrong_password_returns_safe_error() {
    let mut out: Vec<u8> = Vec::new();
    Database::new().save(&mut out, DatabaseKey::new().with_password("testpass")).unwrap();
    let failure = AnahtarService::list(&out, &UnlockKey::password_only("wrong-password")).unwrap_err();
    let err = gui_error("unlock_failed", &failure.message());
    assert_eq!(err.kind, "unlock_failed");
    assert!(err.message.contains("failed to open database"));
    assert!(!err.message.contains("wrong-password"));
}

#[test]
fn gui_selectors_and_values_are_cleaned() {
    assert!(matches!(selector_from_gui("title", "Github Test".to_string()), Ok(EntrySelector::Title(ref t)) if t == "Github Test"));
    let err = selector_from_gui("title", "   ".to_string()).unwrap_err();
    assert_eq!(err.message, "entry selector value is required");
    assert_eq!(empty_to_none(Some("  x  ".to_string())).as_deref(), Some("x"));
    assert_eq!(empty_to_none(Some("   ".to_string())), None);
    let creds = credentials_from_gui("pw".to_string(), Some(String::new()));
    assert_eq!(creds.key_file, None);
    assert_eq!(normalize_group_path("/Root/General/Web/"), "General/Web");
    assert!(entry_is_in_group("Root/General/Web", "General"));
    assert!(!entry_is_in_group("Root/Generalist", "General"));
}

#[test]
fn group_with_entries_is_not_empty() {
    let entries = vec![
        EntrySummary { id: "a".into(), group_path: "Root/General/Web".into(), title: None, username: None, url: None },
        EntrySummary { id: "b".into(), group_path: "Root/Other".into(), title: None, username: None, url: None },
    ];
    let err = check_group_empty(&entries, "General").unwrap_err();
    assert_eq!(err.message, "group contains 1 entries");
    assert!(check_group_empty(&entries, "Empty").is_ok());
}

#[test]
fn remembered_vaults_put_the_latest_first_without_repeats() {
    let mut config = GuiConfig::empty();
    for i in 0..6 {
        config = remember_vault(config, format!("/v/{}.kdbx", i), None).unwrap();
    }
    config = remember_vault(config, " /v/3.kdbx ".to_string(), Some("key.keyx".to_string())).unwrap();
    let paths: Vec<&str> = config.recent_vaults.iter().map(|v| v.path.as_str()).collect();
    assert_eq!(paths, vec!["/v/3.kdbx", "/v/5.kdbx", "/v/4.kdbx", "/v/2.kdbx", "/v/1.kdbx"]);
    assert_eq!(config.last_vault_path.as_deref(), Some("/v/3.kdbx"));
    assert_eq!(config.recent_vaults[0].key_file.as_deref(), Some("key.keyx"));
    let err = remember_vault(GuiConfig { last_vault_path: None, recent_vaults: Vec::<RecentVault>::new() }, "  ".to_string(), None)
        .unwrap_err();
    assert_eq!(err.message, "vault path is required");
}

#[test]
fn ffi_requests_become_credentials_modes_and_selectors() {
    assert_eq!(credentials("pw", Some("  ")).key_file, None);
    assert_eq!(credentials("pw", Some("k.keyx")).key_file.as_deref(), Some("k.keyx"));
    assert!(matches!(in_place(Some(" ".to_string())), WriteMode::InPlace { backup_dir: None }));
    assert!(matches!(entry_selector("url", "x".to_string()), EntrySelector::Url(_)));
    assert!(matches!(entry_selector("other", "x".to_string()), EntrySelector::Auto(_)));
    assert_eq!(
        internal_error_json("bad \"value\""),
        "{\"ok\":false,\"data\":null,\"error\":{\"kind\":\"serialization_failed\",\"message\":\"bad \\\"value\\\"\"}}"
    );
    let err = required_report(None).unwrap_err();
    assert_eq!(err.message(), "save verification failed: write returned no report");
}

#[test]
fn generated_password_has_requested_length_and_all_character_classes() {
    let password = generate_password(32).unwrap();
    assert_eq!(password.len(), 32);
    assert!(password.bytes().any(|b| LOWER.contains(&b)));
    assert!(password.bytes().any(|b| UPPER.contains(&b)));
    assert!(password.bytes().any(|b| DIGITS.contains(&b)));
    assert!(password.bytes().any(|b| SYMBOLS.contains(&b)));
}

#[test]
fn generated_password_rejects_invalid_length() {
    assert!(generate_password(7).is_err());
    assert!(generate_password(257).is_err());
}

#[test]
fn generated_password_at_the_limits() {
    assert_eq!(generate_password(8).unwrap().len(), 8);
    assert_eq!(generate_password(256).unwrap().len(), 256);
    assert!(generate_password(8).unwrap().bytes().all(|b| LOWER.contains(&b) || UPPER.contains(&b) || DIGITS.contains(&b) || SYMBOLS.contains(&b)));
}

#[test]
fn canonicalize_vault_path_requires_existing_file() {
    let err = check_existing_file("vault", "/tmp/missing.kdbx", false, false).unwrap_err();
    assert!(err.contains("vault path does not exist"));
    let err = check_existing_file("vault", "/tmp", true, false).unwrap_err();
    assert!(err.contains("vault path is not a file"));
    assert!(check_existing_file("vault", "/tmp/vault.kdbx", true, true).is_ok());
}

#[test]
fn config_values_and_limits() {
    let config = AnahtarConfig::default_config();
    assert_eq!(config_value(&config, "generator-length").unwrap(), "32");
    assert_eq!(config_value(&config, "clipboard_clear_after_seconds").unwrap(), "30");
    assert_eq!(config_value(&config, "vault").unwrap(), "");
    assert_eq!(config_value(&config, "key_file").unwrap(), "");
    assert_eq!(config_value(&config, "colour").unwrap_err(), "unknown config key: colour");
    assert!(validate_config(&config).is_ok());
    assert!(validate_generator_length(7).is_err());
    let config = apply_config_set(config, ConfigSetCommand::GeneratorLength { n: 64 }).unwrap();
    assert_eq!(config.generator_length, 64);
    let err = apply_config_set(config, ConfigSetCommand::ClipboardClearAfter { seconds: 3601 }).unwrap_err();
    assert_eq!(err, "clipboard clear timeout must be <= 3600 seconds");
    let config = apply_config_set(AnahtarConfig::default_config(), ConfigSetCommand::Vault { path: "/v/a.kdbx".into() }).unwrap();
    assert_eq!(config.vault.as_deref(), Some("/v/a.kdbx"));
    let config = apply_config_set(config, ConfigSetCommand::KeyFile { path: "/v/k.keyx".into() }).unwrap();
    assert_eq!(config_value(&config, "key-file").unwrap(), "/v/k.keyx");
    assert_eq!(resolve_key_file(None, config.key_file.clone()).as_deref(), Some("/v/k.keyx"));
    assert_eq!(resolve_key_file(Some("/cli.keyx".into()), config.key_file).as_deref(), Some("/cli.keyx"));
}

#[test]
fn command_line_choices() {
    let none = EntrySelectorArgs { selector: None, id: None, title: None, url: None, username: None };
    assert!(selector_from_args(none).unwrap_err().starts_with("entry selector required"));
    let two = EntrySelectorArgs { selector: Some("a".into()), id: Some("b".into()), title: None, url: None, username: None };
    assert_eq!(selector_from_args(two).unwrap_err(), "provide exactly one entry selector");
    let one = EntrySelectorArgs { selector: None, id: None, title: None, url: Some("u".into()), username: None };
    assert!(matches!(selector_from_args(one), Ok(EntrySelector::Url(ref u)) if u == "u"));
    assert_eq!(resolve_vault(None, Some("/c.kdbx".into())).unwrap(), "/c.kdbx");
    assert_eq!(resolve_vault(Some("/a.kdbx".into()), Some("/c.kdbx".into())).unwrap(), "/a.kdbx");
    assert!(resolve_vault(None, None).unwrap_err().starts_with("No vault provided"));
    assert_eq!(preflight_output("o.kdbx", true, false).unwrap_err(), "output already exists: o.kdbx");
    assert!(preflight_output("o.kdbx", true, true).is_ok());
    assert!(ensure_edit_has_change(&None, &None, &None, &None, false).is_err());
    assert!(ensure_edit_has_change(&None, &None, &None, &None, true).is_ok());
    assert!(validate_add_password_mode(true, true, false).is_err());
    assert_eq!(entry_password_source(false, false, true).unwrap(), PasswordSource::Generate);
    assert_eq!(entry_password_source(false, true, false).unwrap(), PasswordSource::NoPassword);
}

#[test]
fn copied_field_must_be_present() {
    let detail = EntryDetail {
        id: "id".into(),
        group_path: "Root".into(),
        title: None,
        username: Some(String::new()),
        url: Some("https://x".into()),
        notes: None,
        has_totp: false,
        password: None,
        custom_fields: Vec::new(),
    };
    let d2 = EntryDetail {
        id: "id".into(),
        group_path: "Root".into(),
        title: None,
        username: Some(String::new()),
        url: None,
        notes: None,
        has_totp: false,
        password: None,
        custom_fields: Vec::new(),
    };
    assert_eq!(secret_field(detail, SecretField::Url).unwrap(), "https://x");
    assert_eq!(secret_field(d2, SecretField::Username).unwrap_err(), "requested field is empty or unavailable");
}

#[test]
fn header_versions_and_refusals() {
    assert_eq!(parse_header(&header(0xB54B_FB67, 1, 4)).unwrap(), KdbxVersion::Kdbx { major: 4, minor: 1 });
    assert_eq!(parse_header(&header(0xB54B_FB65, 0, 1)).unwrap(), KdbxVersion::Kdb1 { major: 1, minor: 0 });
    assert!(matches!(parse_header(&[0u8; 11]), Err(AnahtarError::HeaderTooShort)));
    let err = parse_header(&header(0x1234_5678, 0, 4)).unwrap_err();
    assert!(matches!(err, AnahtarError::UnknownSignature { signature1: 0x9AA2_D903, signature2: 0x1234_5678 }));
    assert_eq!(err.message(), "unsupported or unknown KeePass signature: 0x9aa2d903 0x12345678");
    assert_eq!(KdbxVersion::Kdbx { major: 4, minor: 0 }.display(), "KDBX 4.0");
}

fn inspects_known_versions() {
    let info = inspect_header("backup.kdbx", &header(0xB54B_FB67, 0, 4), 4096).unwrap();
    assert_eq!(info.version, KdbxVersion::Kdbx { major: 4, minor: 0 });
    assert_eq!(info.file_size_bytes, 4096);
    let info = inspect_header("kdbx41.test.kdbx", &header(0xB54B_FB67, 1, 4), 4096).unwrap();
    assert_eq!(info.version, KdbxVersion::Kdbx { major: 4, minor: 1 });
}

#[test]
fn internal_inspect_known_assets() {
    inspects_known_versions();
}

#[test]
fn lib_inspect_known_assets() {
    inspects_known_versions();
}

#[test]
fn write_paths() {
    assert_eq!(temp_path_for("out.kdbx"), "out.kdbx.tmp");
    assert_eq!(temp_path_for("out"), "out.kdbx.tmp");
    assert_eq!(temp_path_for("/d/out.x"), "/d/out.x.tmp");
    assert_eq!(temp_in_place_path_for("/d/target.kdbx").unwrap(), "/d/.target.kdbx.anahtar.tmp");
    assert_eq!(backup_location("/v/target.kdbx", None), ("/v/anahtar-backups".to_string(), "target".to_string()));
    assert_eq!(backup_file_name("target", 1700000000, 0), "target.1700000000.kdbx");
    assert_eq!(backup_file_name("target", 1700000000, 2), "target.1700000000.2.kdbx");
    assert_eq!(
        backup_path_for("/v/target.kdbx", Some("/b"), 1700000000, &vec![true, false]).unwrap(),
        "/b/target.1700000000.1.kdbx"
    );
    assert!(matches!(backup_path_for("/v/t.kdbx", None, 1, &vec![true; 1000]), Err(AnahtarError::TempOutputExists(_))));
}

#[test]
fn group_paths() {
    assert_eq!(group_path_parts("General/Web").unwrap(), vec!["General".to_string(), "Web".to_string()]);
    assert!(matches!(group_path_parts("General//Web"), Err(AnahtarError::InvalidGroupPath(_))));
    assert!(matches!(group_path_parts("/General/Web"), Err(AnahtarError::InvalidGroupPath(_))));
    assert_eq!(split_group_parent("General/API").unwrap(), ("General".to_string(), "API".to_string()));
    assert_eq!(split_group_parent("API").unwrap(), (String::new(), "API".to_string()));
}

#[test]
fn error_messages() {
    assert_eq!(AnahtarError::EntryNotFound("x".into()).message(), "entry not found: x");
    assert_eq!(AnahtarError::Io(IoFailure { message: "denied".into() }).message(), "I/O error: denied");
    assert_eq!(
        AnahtarError::CountMismatch { input_groups: 4, output_groups: 3, input_entries: 5, output_entries: 4 }.message(),
        "count mismatch after save: groups 4->3, entries 5->4"
    );
}

#[test]
fn clipboard_delay_prefers_the_asked_seconds_and_caps_at_an_hour() {
    assert_eq!(clear_delay(Some(5), 30), Ok(5));
    assert_eq!(clear_delay(None, 30), Ok(30));
    assert_eq!(clear_delay(Some(3600), 30), Ok(3600));
    assert_eq!(clear_delay(Some(3601), 30), Err("clipboard clear timeout must be <= 3600 seconds".to_string()));
    assert_eq!(clear_delay(None, 4000), Err("clipboard clear timeout must be <= 3600 seconds".to_string()));
}

#[test]
fn clipboard_is_cleared_only_while_it_holds_the_copied_value() {
    let copied = "s3cret".to_string();
    assert!(should_clear(&Some("s3cret".to_string()), &copied));
    assert!(!should_clear(&Some("s3cret ".to_string()), &copied));
    assert!(!should_clear(&Some("other".to_string()), &copied));
    assert!(!should_clear(&None, &copied));
}

#[test]
fn delete_confirmations_need_the_exact_phrase() {
    assert!(confirmation_matches("DELETE\n", "DELETE"));
    assert!(confirmation_matches("  DELETE GROUP  \n", "DELETE GROUP"));
    assert!(!confirmation_matches("delete\n", "DELETE"));
    assert!(!confirmation_matches("DELETE GROUP\n", "DELETE"));
    assert!(!confirmation_matches("\n", "DELETE"));
}
