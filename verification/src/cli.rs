//! What the command line decides: its settings and their limits, which
//! selector and which password source a command asks for, and the checks it
//! makes before touching a vault.
use vstd::prelude::*;
use crate::detail::{EntryDetail, show_entry_by_selector, shows, all_pairs};
use crate::edit::{UnlockKey, AddEntryRequest, EditEntryRequest};
use crate::error::AnahtarError;
use crate::query::{EntrySelector, SelectorView, matching, resolve_error, first_entry, label_of};
use crate::text::{join_text, push_str, usize_to_decimal, u64_to_decimal, decimal, trim, trimmed};
use crate::vault::{Vault, opt_view};
use crate::write::{
    VaultFile, OutputTarget, SaveAsOptions, PendingWrite, add_entry_save_as_with_credentials,
    edit_entry_save_as_with_credentials, delete_entry_save_as_with_credentials,
    add_group_save_as_with_credentials, rename_group_save_as_with_credentials,
    delete_group_save_as_with_credentials, move_entry_save_as_with_credentials,
    write_gate, write_outcome, lookup_applies, group_add_applies, delete_applies, selection_applies, lookup_refusals, group_add_refusals, selection_refusals, delete_refusals, move_refusals, add_written, edit_written, delete_written, group_add_written, group_rename_written,
    group_delete_written, move_written,
};
use crate::edit::key_bytes;
use crate::ids::parsed_uuid;

verus! {

/// The password length the generator uses unless configured otherwise.
pub const DEFAULT_GENERATOR_LENGTH: usize = 32;
/// The seconds after which a copied secret is cleared unless configured otherwise.
pub const DEFAULT_CLIPBOARD_CLEAR_SECONDS: u64 = 30;

/// The command line's settings.
#[derive(Debug)]
pub struct AnahtarConfig {
    pub vault: Option<String>,
    pub key_file: Option<String>,
    pub generator_length: usize,
    pub clipboard_clear_after_seconds: u64,
}

impl AnahtarConfig {
    /// The settings before anything is configured.
    pub fn default_config() -> (r: AnahtarConfig)
        ensures
            r.vault is None,
            r.key_file is None,
            r.generator_length == DEFAULT_GENERATOR_LENGTH,
            r.clipboard_clear_after_seconds == DEFAULT_CLIPBOARD_CLEAR_SECONDS,
    {
        AnahtarConfig {
            vault: None,
            key_file: None,
            generator_length: DEFAULT_GENERATOR_LENGTH,
            clipboard_clear_after_seconds: DEFAULT_CLIPBOARD_CLEAR_SECONDS,
        }
    }
}

/// Generated passwords are 8 to 256 characters long.
pub fn validate_generator_length(n: usize) -> (r: Result<(), String>)
    ensures
        r is Ok <==> 8 <= n <= 256,
        r matches Err(m) ==> m@ == "generator length must be between 8 and 256"@,
{
    if !(8 <= n && n <= 256) {
        return Err("generator length must be between 8 and 256".to_owned());
    }
    Ok(())
}

/// A typed confirmation line confirms when, without its surrounding
/// whitespace, it is exactly the expected phrase.
pub fn confirmation_matches(line: &str, expected: &str) -> (r: bool)
    ensures
        r == (trimmed(line@) == expected@),
{
    let t = trim(line);
    let e = expected.to_owned();
    t == e
}

/// A copied secret is cleared after at most an hour.
pub fn validate_clear_after(seconds: u64) -> (r: Result<(), String>)
    ensures
        r is Ok <==> seconds <= 3600,
        r matches Err(m) ==> m@ == "clipboard clear timeout must be <= 3600 seconds"@,
{
    if seconds > 3600 {
        return Err("clipboard clear timeout must be <= 3600 seconds".to_owned());
    }
    Ok(())
}

/// Settings are valid when the generator length and the clear timeout are.
pub fn validate_config(config: &AnahtarConfig) -> (r: Result<(), String>)
    ensures
        r is Ok <==> 8 <= config.generator_length <= 256 && config.clipboard_clear_after_seconds <= 3600,
        !(8 <= config.generator_length <= 256) ==> (r matches Err(m) && m@ == "generator length must be between 8 and 256"@),
        8 <= config.generator_length <= 256 && config.clipboard_clear_after_seconds > 3600
            ==> (r matches Err(m) && m@ == "clipboard clear timeout must be <= 3600 seconds"@),
{
    match validate_generator_length(config.generator_length) {
        Err(e) => return Err(e),
        Ok(()) => {},
    }
    validate_clear_after(config.clipboard_clear_after_seconds)
}

/// The value a `config get` shows for a key: the vault path or the key file
/// path (empty when none), the generator length, or the clear timeout, the
/// last three under two spellings each; `unknown config key: <key>` otherwise.
pub fn config_value(config: &AnahtarConfig, key: &str) -> (r: Result<String, String>)
    ensures
        key@ == "vault"@ ==> (r matches Ok(v) && v@ == match config.vault { Some(p) => p@, None => Seq::<char>::empty() }),
        (key@ == "key-file"@ || key@ == "key_file"@) ==> (r matches Ok(v) && v@ == match config.key_file { Some(p) => p@, None => Seq::<char>::empty() }),
        (key@ == "generator-length"@ || key@ == "generator_length"@) ==> (r matches Ok(v) && v@ == decimal(config.generator_length as nat)),
        (key@ == "clipboard-clear-after"@ || key@ == "clipboard_clear_after_seconds"@)
            ==> (r matches Ok(v) && v@ == decimal(config.clipboard_clear_after_seconds as nat)),
        !(key@ == "vault"@ || key@ == "key-file"@ || key@ == "key_file"@ || key@ == "generator-length"@ || key@ == "generator_length"@
            || key@ == "clipboard-clear-after"@ || key@ == "clipboard_clear_after_seconds"@)
            ==> (r matches Err(m) && m@ == "unknown config key: "@ + key@),
{
    let k = key.to_owned();
    proof {
        reveal_strlit("vault");
        reveal_strlit("key-file");
        reveal_strlit("key_file");
        reveal_strlit("generator-length");
        reveal_strlit("generator_length");
        reveal_strlit("clipboard-clear-after");
        reveal_strlit("clipboard_clear_after_seconds");
        assert("vault"@.len() == 5);
        assert("key-file"@.len() == 8);
        assert("key_file"@.len() == 8);
        assert("key-file"@ != "key_file"@) by {
            assert("key-file"@[3] != "key_file"@[3]);
        }
        assert("generator-length"@.len() == 16);
        assert("generator_length"@.len() == 16);
        assert("clipboard-clear-after"@.len() == 21);
        assert("clipboard_clear_after_seconds"@.len() == 29);
        assert("generator-length"@ != "generator_length"@) by {
            assert("generator-length"@[9] != "generator_length"@[9]);
        }
        assert("clipboard-clear-after"@ != "clipboard_clear_after_seconds"@);
    }
    if k == "vault".to_owned() {
        match &config.vault {
            Some(p) => Ok(p.clone()),
            None => Ok(String::new()),
        }
    } else if k == "key-file".to_owned() || k == "key_file".to_owned() {
        match &config.key_file {
            Some(p) => Ok(p.clone()),
            None => Ok(String::new()),
        }
    } else if k == "generator-length".to_owned() || k == "generator_length".to_owned() {
        Ok(usize_to_decimal(config.generator_length))
    } else if k == "clipboard-clear-after".to_owned() || k == "clipboard_clear_after_seconds".to_owned() {
        Ok(u64_to_decimal(config.clipboard_clear_after_seconds))
    } else {
        Err(join_text("unknown config key: ", key))
    }
}

/// A `config set` request.
#[derive(Debug)]
pub enum ConfigSetCommand {
    /// The default vault, as the file system resolves its path.
    Vault { path: String },
    /// The default key file, as the file system resolves its path.
    KeyFile { path: String },
    GeneratorLength { n: usize },
    ClipboardClearAfter { seconds: u64 },
}

/// A `config` request.
#[derive(Debug)]
pub enum ConfigCommand {
    Show,
    Get { key: String },
    SetValue { command: ConfigSetCommand },
}

/// Applies a `config set`: the new value where it is valid, the limit's
/// message where it is not. The settings must then still validate before
/// they are saved.
pub fn apply_config_set(config: AnahtarConfig, command: ConfigSetCommand) -> (r: Result<AnahtarConfig, String>)
    ensures
        match command {
            ConfigSetCommand::Vault { path } => r matches Ok(c) && opt_view(c.vault) == Some(path@)
                && c.key_file == config.key_file
                && c.generator_length == config.generator_length
                && c.clipboard_clear_after_seconds == config.clipboard_clear_after_seconds,
            ConfigSetCommand::KeyFile { path } => r matches Ok(c) && opt_view(c.key_file) == Some(path@)
                && c.vault == config.vault
                && c.generator_length == config.generator_length
                && c.clipboard_clear_after_seconds == config.clipboard_clear_after_seconds,
            ConfigSetCommand::GeneratorLength { n } => if 8 <= n <= 256 {
                r matches Ok(c) && c.generator_length == n && c.vault == config.vault && c.key_file == config.key_file
                    && c.clipboard_clear_after_seconds == config.clipboard_clear_after_seconds
            } else {
                r matches Err(m) && m@ == "generator length must be between 8 and 256"@
            },
            ConfigSetCommand::ClipboardClearAfter { seconds } => if seconds <= 3600 {
                r matches Ok(c) && c.clipboard_clear_after_seconds == seconds && c.vault == config.vault
                    && c.key_file == config.key_file && c.generator_length == config.generator_length
            } else {
                r matches Err(m) && m@ == "clipboard clear timeout must be <= 3600 seconds"@
            },
        },
{
    let mut config = config;
    match command {
        ConfigSetCommand::Vault { path } => {
            config.vault = Some(path);
        },
        ConfigSetCommand::KeyFile { path } => {
            config.key_file = Some(path);
        },
        ConfigSetCommand::GeneratorLength { n } => {
            match validate_generator_length(n) {
                Err(e) => return Err(e),
                Ok(()) => {},
            }
            config.generator_length = n;
        },
        ConfigSetCommand::ClipboardClearAfter { seconds } => {
            match validate_clear_after(seconds) {
                Err(e) => return Err(e),
                Ok(()) => {},
            }
            config.clipboard_clear_after_seconds = seconds;
        },
    }
    Ok(config)
}

/// The ways a command names an entry: a positional selector or one of the
/// `--id`, `--title`, `--url`, `--username` options.
#[derive(Debug)]
pub struct EntrySelectorArgs {
    pub selector: Option<String>,
    pub id: Option<String>,
    pub title: Option<String>,
    pub url: Option<String>,
    pub username: Option<String>,
}

/// The selectors the arguments give, in the order positional, id, title, URL, user name.
pub open spec fn given_selectors(a: EntrySelectorArgs) -> Seq<SelectorView> {
    let s0 = match a.selector { Some(v) => seq![SelectorView::Auto(v@)], None => Seq::empty() };
    let s1 = match a.id { Some(v) => seq![SelectorView::Id(v@)], None => Seq::empty() };
    let s2 = match a.title { Some(v) => seq![SelectorView::Title(v@)], None => Seq::empty() };
    let s3 = match a.url { Some(v) => seq![SelectorView::Url(v@)], None => Seq::empty() };
    let s4 = match a.username { Some(v) => seq![SelectorView::Username(v@)], None => Seq::empty() };
    s0 + s1 + s2 + s3 + s4
}

/// The one selector the arguments give; an error when they give none or several.
pub fn selector_from_args(args: EntrySelectorArgs) -> (r: Result<EntrySelector, String>)
    ensures
        given_selectors(args).len() == 1 ==> (r matches Ok(s) && s@ == given_selectors(args)[0]),
        given_selectors(args).len() == 0 ==> (r matches Err(m)
            && m@ == "entry selector required: provide a positional selector or one of --id/--title/--url/--username"@),
        given_selectors(args).len() > 1 ==> (r matches Err(m) && m@ == "provide exactly one entry selector"@),
{
    let ghost given = given_selectors(args);
    let mut found: Vec<EntrySelector> = Vec::new();
    match args.selector { Some(v) => found.push(EntrySelector::Auto(v)), None => {} }
    match args.id { Some(v) => found.push(EntrySelector::Id(v)), None => {} }
    match args.title { Some(v) => found.push(EntrySelector::Title(v)), None => {} }
    match args.url { Some(v) => found.push(EntrySelector::Url(v)), None => {} }
    match args.username { Some(v) => found.push(EntrySelector::Username(v)), None => {} }
    assert(found@.map_values(|s: EntrySelector| s@) =~= given);
    if found.len() == 1 {
        assert(found@.map_values(|s: EntrySelector| s@)[0] == found@[0]@);
        Ok(found[0].copy())
    } else if found.len() == 0 {
        Err("entry selector required: provide a positional selector or one of --id/--title/--url/--username".to_owned())
    } else {
        Err("provide exactly one entry selector".to_owned())
    }
}

/// The UUID text of the entry a selector names.
pub fn resolve_selector_id(vault: &Vault, selector: &EntrySelector) -> (r: Result<String, AnahtarError>)
    ensures
        ({
            let m = matching(*vault, selector@);
            if m.len() != 1 {
                r matches Err(e) && resolve_error(*vault, selector@, e)
            } else {
                match first_entry(all_pairs(*vault), m[0].id) {
                    Some(i) => r matches Ok(id) && id@ == all_pairs(*vault)[i].0.id@,
                    None => r matches Err(AnahtarError::EntryNotFound(t)) && t@ == label_of(selector@),
                }
            }
        }),
{
    match show_entry_by_selector(vault, selector, false) {
        Ok(d) => Ok(d.id),
        Err(e) => Err(e),
    }
}

/// The vault a command uses: the one given on the command line, else the
/// configured default; an error naming the way to configure one otherwise.
pub fn resolve_vault(cli_vault: Option<String>, configured: Option<String>) -> (r: Result<String, String>)
    ensures
        match (cli_vault, configured) {
            (Some(v), _) => r matches Ok(p) && p@ == v@,
            (None, Some(v)) => r matches Ok(p) && p@ == v@,
            (None, None) => r matches Err(m)
                && m@ == "No vault provided and no default vault configured. Run: anahtar config set vault /path/to/vault.kdbx"@,
        },
{
    match cli_vault {
        Some(v) => Ok(v),
        None => match configured {
            Some(v) => Ok(v),
            None => Err("No vault provided and no default vault configured. Run: anahtar config set vault /path/to/vault.kdbx".to_owned()),
        },
    }
}

/// The key file a command uses: the one given on the command line, else
/// the configured one, else none.
pub fn resolve_key_file(cli_key_file: Option<String>, configured: Option<String>) -> (r: Option<String>)
    ensures
        r == match cli_key_file { Some(k) => Some(k), None => configured },
{
    match cli_key_file {
        Some(k) => Some(k),
        None => configured,
    }
}

/// Refuses an output that exists unless `force`.
pub fn preflight_output(output: &str, output_exists: bool, force: bool) -> (r: Result<(), String>)
    ensures
        r is Ok <==> !output_exists || force,
        r matches Err(m) ==> m@ == "output already exists: "@ + output@,
{
    if output_exists && !force {
        return Err(join_text("output already exists: ", output));
    }
    Ok(())
}

/// An edit must change something: a field or the password.
pub fn ensure_edit_has_change(title: &Option<String>, username: &Option<String>, url: &Option<String>, notes: &Option<String>, password_prompt: bool) -> (r: Result<(), String>)
    ensures
        r is Ok <==> title is Some || username is Some || url is Some || notes is Some || password_prompt,
        r matches Err(m) ==> m@ == "edit requires at least one field option or --password-prompt"@,
{
    if title.is_none() && username.is_none() && url.is_none() && notes.is_none() && !password_prompt {
        return Err("edit requires at least one field option or --password-prompt".to_owned());
    }
    Ok(())
}

/// Exactly one password option is given.
pub open spec fn one_of(a: bool, b: bool, c: bool) -> bool {
    (a && !b && !c) || (!a && b && !c) || (!a && !b && c)
}

/// An added entry's password comes from exactly one source.
pub fn validate_add_password_mode(password_prompt: bool, no_password: bool, generate_password: bool) -> (r: Result<(), String>)
    ensures
        r is Ok <==> one_of(password_prompt, no_password, generate_password),
        r matches Err(m) ==> m@ == "use exactly one of --password-prompt, --no-password, or --generate-password"@,
{
    let count: u8 = (if password_prompt { 1u8 } else { 0u8 }) + (if no_password { 1u8 } else { 0u8 })
        + (if generate_password { 1u8 } else { 0u8 });
    if count != 1 {
        return Err("use exactly one of --password-prompt, --no-password, or --generate-password".to_owned());
    }
    Ok(())
}

/// Where an added entry's password comes from.
#[derive(Clone, Copy, PartialEq, Eq, Structural, Debug)]
pub enum PasswordSource {
    NoPassword,
    Generate,
    Prompt,
}

/// The password source the options ask for.
pub fn entry_password_source(password_prompt: bool, no_password: bool, generate_password: bool) -> (r: Result<PasswordSource, String>)
    ensures
        !one_of(password_prompt, no_password, generate_password) ==> (r matches Err(m)
            && m@ == "use exactly one of --password-prompt, --no-password, or --generate-password"@),
        one_of(password_prompt, no_password, generate_password) ==> r == Ok::<PasswordSource, String>(
            if no_password { PasswordSource::NoPassword } else if generate_password { PasswordSource::Generate } else { PasswordSource::Prompt }),
{
    match validate_add_password_mode(password_prompt, no_password, generate_password) {
        Err(e) => return Err(e),
        Ok(()) => {},
    }
    if no_password {
        Ok(PasswordSource::NoPassword)
    } else if generate_password {
        Ok(PasswordSource::Generate)
    } else {
        Ok(PasswordSource::Prompt)
    }
}

/// A path given for a file must name an existing regular file.
pub fn check_existing_file(label: &str, path: &str, path_exists: bool, is_file: bool) -> (r: Result<(), String>)
    ensures
        !path_exists ==> (r matches Err(m) && m@ == label@ + " path does not exist: "@ + path@),
        path_exists && !is_file ==> (r matches Err(m) && m@ == label@ + " path is not a file: "@ + path@),
        path_exists && is_file ==> r is Ok,
{
    if !path_exists {
        let mut m = label.to_owned();
        push_str(&mut m, " path does not exist: ");
        push_str(&mut m, path);
        return Err(m);
    }
    if !is_file {
        let mut m = label.to_owned();
        push_str(&mut m, " path is not a file: ");
        push_str(&mut m, path);
        return Err(m);
    }
    Ok(())
}

/// Which field a copy command copies.
#[derive(Clone, Copy, PartialEq, Eq, Structural, Debug)]
pub enum SecretField {
    Password,
    Username,
    Url,
}

/// The field to copy from a shown entry; an error when it is missing or empty.
pub fn secret_field(detail: EntryDetail, field: SecretField) -> (r: Result<String, String>)
    ensures
        ({
            let v = match field {
                SecretField::Password => opt_view(detail.password),
                SecretField::Username => opt_view(detail.username),
                SecretField::Url => opt_view(detail.url),
            };
            match v {
                Some(t) => if t.len() > 0 { r matches Ok(s) && s@ == t } else {
                    r matches Err(m) && m@ == "requested field is empty or unavailable"@
                },
                None => r matches Err(m) && m@ == "requested field is empty or unavailable"@,
            }
        }),
{
    let value = match field {
        SecretField::Password => detail.password,
        SecretField::Username => detail.username,
        SecretField::Url => detail.url,
    };
    match value {
        Some(v) => if v.as_str().is_empty() {
            Err("requested field is empty or unavailable".to_owned())
        } else {
            Ok(v)
        },
        None => Err("requested field is empty or unavailable".to_owned()),
    }
}

/// A pending in-place write goes to the vault's hidden temporary file,
/// never forced.
pub open spec fn in_place_pending(p: PendingWrite, path: Seq<char>) -> bool {
    &&& !p.force
    &&& crate::paths::file_name_of(path) is Some
    &&& p.output_path@ == crate::paths::in_place_temp(path, crate::paths::file_name_of(path)->0)
}

/// The save-as options of an in-place write of a vault: its hidden
/// temporary file, never forced.
fn in_place_options(vault: &VaultFile) -> (r: Result<SaveAsOptions, AnahtarError>)
    ensures
        match crate::paths::file_name_of(vault.path@) {
            Some(name) => r matches Ok(o) && o.output_path@ == crate::paths::in_place_temp(vault.path@, name) && !o.force,
            None => r matches Err(AnahtarError::InvalidGroupPath(m)) && m@ == "vault path has no file name"@,
        },
{
    match crate::paths::temp_in_place_path_for(vault.path.as_str()) {
        Ok(tmp) => Ok(SaveAsOptions { output_path: tmp, force: false }),
        Err(e) => Err(e),
    }
}

/// An in-place add: the save-as into the vault's hidden temporary file.
pub fn add_entry_in_place(vault: &VaultFile, key: &UnlockKey, target: &OutputTarget, request: &AddEntryRequest) -> (r: Result<PendingWrite, AnahtarError>)
    ensures
        crate::paths::file_name_of(vault.path@) matches Some(n)
            ==> write_outcome(*vault, key.password@, key_bytes(*key), crate::paths::in_place_temp(vault.path@, n), false, *target, lookup_applies(*vault, key.password@, key_bytes(*key), request.group_path@), r),
        crate::paths::file_name_of(vault.path@) is None ==> (r matches Err(AnahtarError::InvalidGroupPath(m)) && m@ == "vault path has no file name"@),
        crate::paths::file_name_of(vault.path@) matches Some(n)
            ==> write_gate(*vault, key.password@, key_bytes(*key), crate::paths::in_place_temp(vault.path@, n), false, *target, r),
        crate::paths::file_name_of(vault.path@) is Some ==> lookup_refusals(*vault, key.password@, key_bytes(*key), *target, request.group_path@, r),
        r matches Ok(p) ==> in_place_pending(p, vault.path@) && add_written(*vault, key.password@, key_bytes(*key), p, *request),
{
    match in_place_options(vault) {
        Err(e) => Err(e),
        Ok(o) => add_entry_save_as_with_credentials(vault, key, &o, target, request),
    }
}

/// An in-place edit of the entry named by UUID or title.
pub fn edit_entry_in_place(vault: &VaultFile, selector: &str, key: &UnlockKey, target: &OutputTarget, request: &EditEntryRequest) -> (r: Result<PendingWrite, AnahtarError>)
    ensures
        crate::paths::file_name_of(vault.path@) matches Some(n)
            ==> write_outcome(*vault, key.password@, key_bytes(*key), crate::paths::in_place_temp(vault.path@, n), false, *target, selection_applies(*vault, key.password@, key_bytes(*key), SelectorView::Auto(selector@)), r),
        crate::paths::file_name_of(vault.path@) is None ==> (r matches Err(AnahtarError::InvalidGroupPath(m)) && m@ == "vault path has no file name"@),
        crate::paths::file_name_of(vault.path@) matches Some(n)
            ==> write_gate(*vault, key.password@, key_bytes(*key), crate::paths::in_place_temp(vault.path@, n), false, *target, r),
        crate::paths::file_name_of(vault.path@) is Some ==> selection_refusals(*vault, key.password@, key_bytes(*key), *target, SelectorView::Auto(selector@), r),
        r matches Ok(p) ==> in_place_pending(p, vault.path@) && edit_written(*vault, key.password@, key_bytes(*key), p, selector@, *request),
{
    match in_place_options(vault) {
        Err(e) => Err(e),
        Ok(o) => edit_entry_save_as_with_credentials(vault, selector, key, &o, target, request),
    }
}

/// An in-place delete of the entry with a UUID.
pub fn delete_entry_in_place(vault: &VaultFile, entry_id: &str, key: &UnlockKey, target: &OutputTarget) -> (r: Result<PendingWrite, AnahtarError>)
    ensures
        crate::paths::file_name_of(vault.path@) matches Some(n)
            ==> write_outcome(*vault, key.password@, key_bytes(*key), crate::paths::in_place_temp(vault.path@, n), false, *target, delete_applies(*vault, key.password@, key_bytes(*key), entry_id@), r),
        crate::paths::file_name_of(vault.path@) is None ==> (r matches Err(AnahtarError::InvalidGroupPath(m)) && m@ == "vault path has no file name"@),
        parsed_uuid(entry_id@) is Some ==> match crate::paths::file_name_of(vault.path@) {
            Some(n) => write_gate(*vault, key.password@, key_bytes(*key), crate::paths::in_place_temp(vault.path@, n), false, *target, r),
            None => true,
        },
        crate::paths::file_name_of(vault.path@) is Some && vault.canonical@ != target.canonical@ && parsed_uuid(entry_id@) is None
            ==> (r matches Err(AnahtarError::EntryNotFound(t)) && t@ == entry_id@),
        crate::paths::file_name_of(vault.path@) is Some ==> delete_refusals(*vault, key.password@, key_bytes(*key), *target, entry_id@, r),
        r matches Ok(p) ==> in_place_pending(p, vault.path@) && delete_written(*vault, key.password@, key_bytes(*key), p, parsed_uuid(entry_id@)->0),
{
    match in_place_options(vault) {
        Err(e) => Err(e),
        Ok(o) => delete_entry_save_as_with_credentials(vault, entry_id, key, &o, target),
    }
}

/// An in-place group add.
pub fn add_group_in_place(vault: &VaultFile, key: &UnlockKey, target: &OutputTarget, path: &str) -> (r: Result<PendingWrite, AnahtarError>)
    ensures
        crate::paths::file_name_of(vault.path@) matches Some(n)
            ==> write_outcome(*vault, key.password@, key_bytes(*key), crate::paths::in_place_temp(vault.path@, n), false, *target, group_add_applies(*vault, key.password@, key_bytes(*key), path@), r),
        crate::paths::file_name_of(vault.path@) is None ==> (r matches Err(AnahtarError::InvalidGroupPath(m)) && m@ == "vault path has no file name"@),
        crate::paths::file_name_of(vault.path@) matches Some(n)
            ==> write_gate(*vault, key.password@, key_bytes(*key), crate::paths::in_place_temp(vault.path@, n), false, *target, r),
        r matches Ok(p) ==> in_place_pending(p, vault.path@) && group_add_written(*vault, key.password@, key_bytes(*key), p, path@),
        crate::paths::file_name_of(vault.path@) is Some ==> group_add_refusals(*vault, key.password@, key_bytes(*key), *target, path@, r),
{
    match in_place_options(vault) {
        Err(e) => Err(e),
        Ok(o) => add_group_save_as_with_credentials(vault, key, &o, target, path),
    }
}

/// An in-place group rename.
pub fn rename_group_in_place(vault: &VaultFile, key: &UnlockKey, target: &OutputTarget, path: &str, new_name: &str) -> (r: Result<PendingWrite, AnahtarError>)
    ensures
        crate::paths::file_name_of(vault.path@) matches Some(n)
            ==> write_outcome(*vault, key.password@, key_bytes(*key), crate::paths::in_place_temp(vault.path@, n), false, *target, lookup_applies(*vault, key.password@, key_bytes(*key), path@), r),
        crate::paths::file_name_of(vault.path@) is None ==> (r matches Err(AnahtarError::InvalidGroupPath(m)) && m@ == "vault path has no file name"@),
        crate::paths::file_name_of(vault.path@) matches Some(n)
            ==> write_gate(*vault, key.password@, key_bytes(*key), crate::paths::in_place_temp(vault.path@, n), false, *target, r),
        crate::paths::file_name_of(vault.path@) is Some ==> lookup_refusals(*vault, key.password@, key_bytes(*key), *target, path@, r),
        r matches Ok(p) ==> in_place_pending(p, vault.path@) && group_rename_written(*vault, key.password@, key_bytes(*key), p, path@, new_name@),
{
    match in_place_options(vault) {
        Err(e) => Err(e),
        Ok(o) => rename_group_save_as_with_credentials(vault, key, &o, target, path, new_name),
    }
}

/// An in-place group delete.
pub fn delete_group_in_place(vault: &VaultFile, key: &UnlockKey, target: &OutputTarget, path: &str) -> (r: Result<PendingWrite, AnahtarError>)
    ensures
        crate::paths::file_name_of(vault.path@) matches Some(n)
            ==> write_outcome(*vault, key.password@, key_bytes(*key), crate::paths::in_place_temp(vault.path@, n), false, *target, lookup_applies(*vault, key.password@, key_bytes(*key), path@), r),
        crate::paths::file_name_of(vault.path@) is None ==> (r matches Err(AnahtarError::InvalidGroupPath(m)) && m@ == "vault path has no file name"@),
        crate::paths::file_name_of(vault.path@) matches Some(n)
            ==> write_gate(*vault, key.password@, key_bytes(*key), crate::paths::in_place_temp(vault.path@, n), false, *target, r),
        crate::paths::file_name_of(vault.path@) is Some ==> lookup_refusals(*vault, key.password@, key_bytes(*key), *target, path@, r),
        r matches Ok(p) ==> in_place_pending(p, vault.path@) && group_delete_written(*vault, key.password@, key_bytes(*key), p, path@),
{
    match in_place_options(vault) {
        Err(e) => Err(e),
        Ok(o) => delete_group_save_as_with_credentials(vault, key, &o, target, path),
    }
}

/// An in-place move of the entry a selector names.
pub fn move_entry_in_place(vault: &VaultFile, key: &UnlockKey, target: &OutputTarget, selector: &EntrySelector, group: &str) -> (r: Result<PendingWrite, AnahtarError>)
    ensures
        crate::paths::file_name_of(vault.path@) matches Some(n)
            ==> write_outcome(*vault, key.password@, key_bytes(*key), crate::paths::in_place_temp(vault.path@, n), false, *target, selection_applies(*vault, key.password@, key_bytes(*key), selector@) && lookup_applies(*vault, key.password@, key_bytes(*key), group@), r),
        crate::paths::file_name_of(vault.path@) is None ==> (r matches Err(AnahtarError::InvalidGroupPath(m)) && m@ == "vault path has no file name"@),
        crate::paths::file_name_of(vault.path@) matches Some(n)
            ==> write_gate(*vault, key.password@, key_bytes(*key), crate::paths::in_place_temp(vault.path@, n), false, *target, r),
        crate::paths::file_name_of(vault.path@) is Some ==> move_refusals(*vault, key.password@, key_bytes(*key), *target, selector@, group@, r),
        r matches Ok(p) ==> in_place_pending(p, vault.path@) && move_written(*vault, key.password@, key_bytes(*key), p, selector@, group@),
{
    match in_place_options(vault) {
        Err(e) => Err(e),
        Ok(o) => move_entry_save_as_with_credentials(vault, key, &o, target, selector, group),
    }
}

} // verus!
