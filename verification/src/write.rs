//! Writing a changed vault as a new KDBX 4.1 file, never over its input.
//!
//! A write runs in stages around the file system. The caller resolves both
//! paths and checks what exists; a `*_save_as*` function opens the input
//! bytes, makes the change, and hands back the bytes to write to the
//! temporary path; the caller writes them, reads them back, and
//! [`finish_save_as`] checks what was read back before the caller renames the
//! temporary file over the output.
use vstd::prelude::*;
use keepass::Database;
use crate::error::AnahtarError;
use crate::header::KdbxVersion;
use crate::ids::{hyphenated, parse_uuid, parsed_uuid, uuid_text};
use crate::kdbx::{
    stored_entries, stored_format, stored_groups, tidy, unlocks, key_view, vault_mirrors, read_vault,
    set_kdbx41, save_database, entry_total, database_version, version_of, StoredFormat,
    opened, parsed_as, kdbx_file, db_view, same_tree, stored_root, tree_size, lemma_group_count, DbView, lemma_tree_size_same,
    with_entry, without_entry, first_named, subtree, subtree_entries, descends,
};
use crate::paths::{parent_and_name, valid_new_group_path};
use crate::edit::{
    UnlockKey, VaultCredentials, AddEntryRequest, EditEntryRequest, key_bytes,
    open_database_with_credentials, apply_add_entry, apply_edit_entry, apply_delete_entry,
    apply_move_entry, apply_add_group, apply_rename_group, apply_delete_group,
    resolve_unique_entry_id, resolve_unique_entry_id_by_selector,
    entry_added, entry_edited, entry_deleted, entry_moved, group_added, group_renamed, group_deleted,
    lookup_group, lookup_error, resolves_to_id, new_group_parent, lemma_lookup_found,
};
use crate::listing::{count_groups, group_count, pair_views, collect_pairs};
use crate::detail::all_pairs;
use crate::readback::{lemma_search_finds, lemma_search_misses, no_title};
use crate::census::group_count_is_number_of_groups;
use crate::paths::temp_path;
use crate::query::{EntrySelector, first_entry, find_entry, selector_label, SelectorView, matching, resolve_error, label_of};
use crate::text::push_str;
use crate::vault::{Vault, VaultEntry};

verus! {

/// Where a save-as writes, and whether it may replace an existing file.
#[derive(Debug)]
pub struct SaveAsOptions {
    pub output_path: String,
    pub force: bool,
}

/// Where an in-place write replaces a vault, and where it keeps the backup.
#[derive(Debug)]
pub struct InPlaceOptions {
    pub target_path: String,
    pub backup_dir: Option<String>,
}

/// The vault file a write reads: its path as given, the path the file system
/// resolves it to, and its bytes.
#[derive(Debug)]
pub struct VaultFile {
    pub path: String,
    pub canonical: String,
    pub data: Vec<u8>,
}

/// What the file system says of a save-as output: the path it resolves to,
/// whether it exists, and whether its temporary path exists.
#[derive(Debug)]
pub struct OutputTarget {
    pub canonical: String,
    pub exists: bool,
    pub temp_exists: bool,
}

/// The kind of change a write made.
#[derive(Clone, Copy, PartialEq, Eq, Structural, Debug)]
pub enum WriteOperation {
    Upgrade,
    Add,
    Edit,
    Delete,
    GroupAdd,
    GroupRename,
    GroupDelete,
    MoveEntry,
}

/// What a finished write reports.
#[derive(Debug)]
pub struct WriteReport {
    pub operation: WriteOperation,
    pub input_path: String,
    pub output_path: String,
    pub input_version: KdbxVersion,
    pub output_version: KdbxVersion,
    pub input_group_count: usize,
    pub input_entry_count: usize,
    pub output_group_count: usize,
    pub output_entry_count: usize,
    pub changed_entry_id: Option<String>,
    pub backup_path: Option<String>,
    pub final_target_path: Option<String>,
}

/// What the read-back of a written vault must show besides its counts.
#[derive(Debug)]
pub enum SavedCheck {
    Nothing,
    /// The entry with this id or title is there.
    EntryPresent(String),
    /// The entry with this id or title is gone.
    EntryAbsent(String),
}

/// The check of a written entry passes on a read-back whose stored entries
/// are `es`: the entry checked present (its id's text given) is stored; the
/// entry checked gone is not, and no stored entry is titled with its id's text.
pub open spec fn check_passes(check: SavedCheck, es: Map<u128, (u128, Map<Seq<char>, (Seq<char>, bool)>)>) -> bool {
    match check {
        SavedCheck::Nothing => true,
        SavedCheck::EntryPresent(t) => exists|u: u128| t@ == hyphenated(u) && #[trigger] es.contains_key(u),
        SavedCheck::EntryAbsent(t) => exists|u: u128| t@ == hyphenated(u) && !#[trigger] es.contains_key(u) && no_title(es, t@),
    }
}

/// A write whose bytes are ready: the caller writes `bytes` to `temp_path`,
/// reads them back for [`finish_save_as`], and on success renames the
/// temporary file over `output_path` (removing an existing output first
/// where `force` allows it).
#[derive(Debug)]
pub struct PendingWrite {
    pub operation: WriteOperation,
    pub input_path: String,
    pub output_path: String,
    pub temp_path: String,
    pub force: bool,
    pub bytes: Vec<u8>,
    pub input_version: KdbxVersion,
    pub input_group_count: usize,
    pub input_entry_count: usize,
    pub expected_group_count: usize,
    pub expected_entry_count: usize,
    pub changed_entry_id: Option<String>,
    pub check: SavedCheck,
}

/// KDBX 4.1, the version every write produces.
pub open spec fn kdbx41() -> KdbxVersion {
    KdbxVersion::Kdbx { major: 4, minor: 1 }
}

/// Refuses a write whose output resolves to its input.
pub fn ensure_input_output_distinct(input_canonical: &str, output_canonical: &str, output_path: &str) -> (r: Result<(), AnahtarError>)
    ensures
        input_canonical@ == output_canonical@ ==> (r matches Err(AnahtarError::InputOutputSame(p)) && p@ == output_path@),
        input_canonical@ != output_canonical@ ==> r is Ok,
{
    if input_canonical.to_owned() == output_canonical.to_owned() {
        Err(AnahtarError::InputOutputSame(output_path.to_owned()))
    } else {
        Ok(())
    }
}

/// The number of groups of a database, counted over the tree from its root.
pub open spec fn counts_groups(db: Database, n: usize) -> bool {
    exists|v: Vault| vault_mirrors(v, db) && n == group_count(v)
}

/// The group and entry counts of a database view: the groups of its tree
/// from the root, and all its entries.
pub open spec fn view_counts(w: DbView) -> (nat, nat) {
    (tree_size(w.groups, w.root, w.groups.len()), w.entries.len())
}

/// The version, group count and entry count of an opened database.
fn input_stats(db: &Database) -> (r: (KdbxVersion, usize, usize))
    requires
        tidy(*db),
    ensures
        r.0 == version_of(stored_format(*db)),
        counts_groups(*db, r.1),
        r.2 == stored_entries(*db).len(),
        (r.1 as nat, r.2 as nat) == view_counts(db_view(*db)),
{
    let version = database_version(db);
    let entries = entry_total(db);
    match read_vault(db) {
        Some(v) => {
            let groups = count_groups(&v);
            proof { lemma_group_count(v, *db); }
            (version, groups, entries)
        },
        None => (version, 0, entries),
    }
}

/// The common last stage of a save-as: refuses an output that resolves to
/// the input, an existing output unless forced, and an existing temporary
/// file; then sets the format to KDBX 4.1 and serializes the database.
fn save_stage(db: &mut Database, input: &VaultFile, options: &SaveAsOptions, target: &OutputTarget, key: &UnlockKey) -> (r: Result<(String, Vec<u8>), AnahtarError>)
    requires
        tidy(*old(db)),
    ensures
        tidy(*final(db)),
        save_outcome(*input, *options, *target, match r { Ok(t) => Ok(t.0), Err(e) => Err(e) }),
        same_tree(*old(db), *final(db)),
        r matches Ok(t) ==> stored_format(*final(db)) == StoredFormat::Kdb4(1),
{
    match ensure_input_output_distinct(input.canonical.as_str(), target.canonical.as_str(), options.output_path.as_str()) {
        Err(e) => return Err(e),
        Ok(()) => {},
    }
    if target.exists && !options.force {
        return Err(AnahtarError::OutputExists(options.output_path.clone()));
    }
    set_kdbx41(db);
    let tmp = crate::paths::temp_path_for(options.output_path.as_str());
    if target.temp_exists {
        return Err(AnahtarError::TempOutputExists(tmp));
    }
    match save_database(db, key.password.as_str(), key_slice(key)) {
        Some(bytes) => Ok((tmp, bytes)),
        None => Err(AnahtarError::SaveDatabase),
    }
}

fn key_slice(k: &UnlockKey) -> (r: Option<&[u8]>)
    ensures
        key_view(r) == key_bytes(*k),
{
    match &k.key_file {
        Some(b) => Some(b.as_slice()),
        None => None,
    }
}

/// What the last stage of a save-as gives: `InputOutputSame`, `OutputExists`
/// (unless forced) and `TempOutputExists` in that order, else the temporary
/// path with the bytes, or `SaveDatabase` where serializing fails.
pub open spec fn save_outcome(input: VaultFile, options: SaveAsOptions, target: OutputTarget, r: Result<String, AnahtarError>) -> bool {
    if input.canonical@ == target.canonical@ {
        r matches Err(AnahtarError::InputOutputSame(p)) && p@ == options.output_path@
    } else if target.exists && !options.force {
        r matches Err(AnahtarError::OutputExists(p)) && p@ == options.output_path@
    } else if target.temp_exists {
        r matches Err(AnahtarError::TempOutputExists(p)) && p@ == temp_path(options.output_path@)
    } else {
        match r {
            Ok(t) => t@ == temp_path(options.output_path@),
            Err(e) => e is SaveDatabase,
        }
    }
}

/// The fields of a pending write that follow from its inputs alone.
pub open spec fn pending_basics(p: PendingWrite, op: WriteOperation, input: VaultFile, options: SaveAsOptions) -> bool {
    &&& p.operation == op
    &&& p.input_path@ == input.path@
    &&& p.output_path@ == options.output_path@
    &&& p.temp_path@ == temp_path(options.output_path@)
    &&& p.force == options.force
}

/// What every save-as promises before the vault is opened: the paths are
/// compared first, then the input must unlock; a write that gets through
/// never had its output resolve to its input, nor found the output (unless
/// forced) or the temporary file existing.
pub open spec fn save_as_gate(input: VaultFile, password: Seq<char>, key_file: Option<Seq<u8>>, options: SaveAsOptions, target: OutputTarget, r: Result<PendingWrite, AnahtarError>) -> bool {
    write_gate(input, password, key_file, options.output_path@, options.force, target, r)
}

/// [`save_as_gate`] for an output path and a `force` flag.
pub open spec fn write_gate(input: VaultFile, password: Seq<char>, key_file: Option<Seq<u8>>, output_path: Seq<char>, force: bool, target: OutputTarget, r: Result<PendingWrite, AnahtarError>) -> bool {
    &&& input.canonical@ == target.canonical@ ==> (r matches Err(AnahtarError::InputOutputSame(p)) && p@ == output_path)
    &&& input.canonical@ != target.canonical@ && !unlocks(input.data@, password, key_file) ==> (r matches Err(e) && e is OpenDatabase)
    &&& r is Ok ==> input.canonical@ != target.canonical@ && (!target.exists || force) && !target.temp_exists
}

/// The input opens with the key to `b` (see [`parsed_as`]), and `a` is the
/// database whose serialization the pending write's bytes hold, in KDBX 4.1;
/// both are well formed, and the pending write's input counts are those of
/// `b`. What the bytes read back as is checked on read-back
/// ([`finish_save_as`]).
pub open spec fn saved_from(input: VaultFile, password: Seq<char>, key_file: Option<Seq<u8>>, p: PendingWrite, b: Database, a: Database) -> bool {
    &&& parsed_as(input.data@, password, key_file, b)
    &&& stored_format(a) == StoredFormat::Kdb4(1)
    &&& tidy(b)
    &&& tidy(a)
    &&& (p.input_group_count as nat, p.input_entry_count as nat) == view_counts(db_view(b))
}

/// How a selector fails to name one entry of `v` with a UUID: the error of
/// the resolution, where there is one.
pub open spec fn selection_fails(v: Vault, sel: SelectorView, r: Result<PendingWrite, AnahtarError>) -> bool {
    let m = matching(v, sel);
    &&& (m.len() != 1 ==> (r matches Err(e) && resolve_error(v, sel, e)))
    &&& (m.len() == 1 && parsed_uuid(m[0].id) is None ==> (r matches Err(AnahtarError::EntryNotFound(t)) && t@ == label_of(sel)))
}

/// A change at a group path refuses a path that names no group of the
/// opened vault, with the lookup's error.
/// It is stated of a KeePass 2 input of format 3 or 4, whose opened
/// database [`opened`] names.
pub open spec fn lookup_refusals(input: VaultFile, password: Seq<char>, key_file: Option<Seq<u8>>, target: OutputTarget, group_path: Seq<char>, r: Result<PendingWrite, AnahtarError>) -> bool {
    input.canonical@ != target.canonical@ && kdbx_file(input.data@) ==> forall|b: Database|
        opened(input.data@, password, key_file) == Some(#[trigger] db_view(b)) && lookup_group(b, group_path) is None
            ==> (r matches Err(e) && lookup_error(b, group_path, e))
}

/// A group add refuses a path that is not a new group's path
/// (`InvalidGroupPath`), whose parent names no group of the opened vault
/// (the lookup's error), or whose group exists already.
/// It is stated of a KeePass 2 input of format 3 or 4, whose opened
/// database [`opened`] names.
pub open spec fn group_add_refusals(input: VaultFile, password: Seq<char>, key_file: Option<Seq<u8>>, target: OutputTarget, group_path: Seq<char>, r: Result<PendingWrite, AnahtarError>) -> bool {
    input.canonical@ != target.canonical@ && kdbx_file(input.data@) ==> forall|b: Database|
        opened(input.data@, password, key_file) == Some(#[trigger] db_view(b)) ==> {
            &&& !valid_new_group_path(group_path) ==> (r matches Err(AnahtarError::InvalidGroupPath(t)) && t@ == group_path)
            &&& valid_new_group_path(group_path) && new_group_parent(b, group_path) is None
                ==> (r matches Err(e) && lookup_error(b, parent_and_name(group_path).0, e))
            &&& valid_new_group_path(group_path) && new_group_parent(b, group_path) is Some
                && first_named(stored_groups(b), stored_groups(b)[new_group_parent(b, group_path)->0].2, parent_and_name(group_path).1) is Some
                ==> (r matches Err(AnahtarError::InvalidGroupPath(t)) && t@ == "group already exists: "@ + group_path)
        }
}

/// How a write ends, given whether its change `applies` to the opened input:
/// where the paths differ, the key opens a KeePass 2 input of format 3 or
/// 4, the change applies, the output is absent or forced and no temporary
/// file is in the way, it succeeds unless serializing fails
/// (`SaveDatabase`); and it fails with any other error only where one of
/// those conditions does not hold.
pub open spec fn write_outcome<T>(input: VaultFile, password: Seq<char>, key_file: Option<Seq<u8>>, output_path: Seq<char>, force: bool, target: OutputTarget, applies: bool, r: Result<T, AnahtarError>) -> bool {
    &&& kdbx_file(input.data@) && input.canonical@ != target.canonical@ && unlocks(input.data@, password, key_file) && applies
        && (!target.exists || force) && !target.temp_exists
        ==> (r is Ok || r matches Err(AnahtarError::SaveDatabase))
    &&& r matches Err(e) ==> {
        ||| e is SaveDatabase
        ||| input.canonical@ == target.canonical@
        ||| !unlocks(input.data@, password, key_file)
        ||| (target.exists && !force)
        ||| target.temp_exists
        ||| (kdbx_file(input.data@) ==> !applies)
    }
}

/// The group path names a group of the opened input.
pub open spec fn lookup_applies(input: VaultFile, password: Seq<char>, key_file: Option<Seq<u8>>, group_path: Seq<char>) -> bool {
    forall|b: Database| opened(input.data@, password, key_file) == Some(#[trigger] db_view(b)) ==> lookup_group(b, group_path) is Some
}

/// The path is a new group's path, under a group of the opened input that
/// has no child group of that name.
pub open spec fn group_add_applies(input: VaultFile, password: Seq<char>, key_file: Option<Seq<u8>>, group_path: Seq<char>) -> bool {
    forall|b: Database| opened(input.data@, password, key_file) == Some(#[trigger] db_view(b)) ==> {
        &&& valid_new_group_path(group_path)
        &&& new_group_parent(b, group_path) is Some
        &&& first_named(stored_groups(b), stored_groups(b)[new_group_parent(b, group_path)->0].2, parent_and_name(group_path).1) is None
    }
}

/// The id parses as a UUID that the opened input holds.
pub open spec fn delete_applies(input: VaultFile, password: Seq<char>, key_file: Option<Seq<u8>>, entry_id: Seq<char>) -> bool {
    &&& parsed_uuid(entry_id) is Some
    &&& forall|b: Database| opened(input.data@, password, key_file) == Some(#[trigger] db_view(b))
        ==> stored_entries(b).contains_key(parsed_uuid(entry_id)->0)
}

/// The selector names one entry of the opened input by a UUID that the
/// input holds.
pub open spec fn selection_applies(input: VaultFile, password: Seq<char>, key_file: Option<Seq<u8>>, sel: SelectorView) -> bool {
    forall|b: Database, v: Vault| opened(input.data@, password, key_file) == Some(db_view(b)) && #[trigger] vault_mirrors(v, b)
        ==> exists|id: u128| resolves_to_id(v, sel, Ok::<u128, AnahtarError>(id)) && #[trigger] stored_entries(b).contains_key(id)
}

/// Once its change applies, a write refuses an existing output unless
/// forced (`OutputExists`, naming the output), then an existing temporary
/// file (`TempOutputExists`, naming it).
pub open spec fn output_refusals<T>(output_path: Seq<char>, force: bool, target: OutputTarget, r: Result<T, AnahtarError>) -> bool {
    &&& target.exists && !force ==> (r matches Err(AnahtarError::OutputExists(p)) && p@ == output_path)
    &&& (!target.exists || force) && target.temp_exists ==> (r matches Err(AnahtarError::TempOutputExists(p)) && p@ == temp_path(output_path))
}

/// An add whose group path names a group of the opened vault meets the
/// output's refusals.
/// It is stated of a KeePass 2 input of format 3 or 4, whose opened
/// database [`opened`] names.
pub open spec fn add_output_refusals(input: VaultFile, password: Seq<char>, key_file: Option<Seq<u8>>, options: SaveAsOptions, target: OutputTarget, group_path: Seq<char>, r: Result<PendingWrite, AnahtarError>) -> bool {
    input.canonical@ != target.canonical@ && kdbx_file(input.data@) ==> forall|b: Database|
        opened(input.data@, password, key_file) == Some(#[trigger] db_view(b)) && lookup_group(b, group_path) is Some
            ==> output_refusals(options.output_path@, options.force, target, r)
}

/// A change at a group path that names a group of the opened vault (a
/// rename, a group delete) meets the output's refusals.
/// It is stated of a KeePass 2 input of format 3 or 4, whose opened
/// database [`opened`] names.
pub open spec fn group_output_refusals(input: VaultFile, password: Seq<char>, key_file: Option<Seq<u8>>, options: SaveAsOptions, target: OutputTarget, group_path: Seq<char>, r: Result<PendingWrite, AnahtarError>) -> bool {
    input.canonical@ != target.canonical@ && kdbx_file(input.data@) ==> forall|b: Database|
        opened(input.data@, password, key_file) == Some(#[trigger] db_view(b)) && lookup_group(b, group_path) is Some
            ==> output_refusals(options.output_path@, options.force, target, r)
}

/// A group add of a new group's path under a group of the opened vault,
/// whose name is free there, meets the output's refusals.
/// It is stated of a KeePass 2 input of format 3 or 4, whose opened
/// database [`opened`] names.
pub open spec fn group_add_output_refusals(input: VaultFile, password: Seq<char>, key_file: Option<Seq<u8>>, options: SaveAsOptions, target: OutputTarget, group_path: Seq<char>, r: Result<PendingWrite, AnahtarError>) -> bool {
    input.canonical@ != target.canonical@ && kdbx_file(input.data@) ==> forall|b: Database|
        opened(input.data@, password, key_file) == Some(#[trigger] db_view(b)) && valid_new_group_path(group_path)
            && new_group_parent(b, group_path) is Some
            && first_named(stored_groups(b), stored_groups(b)[new_group_parent(b, group_path)->0].2, parent_and_name(group_path).1) is None
            ==> output_refusals(options.output_path@, options.force, target, r)
}

/// A delete of a UUID that the opened vault holds meets the output's refusals.
/// It is stated of a KeePass 2 input of format 3 or 4, whose opened
/// database [`opened`] names.
pub open spec fn delete_output_refusals(input: VaultFile, password: Seq<char>, key_file: Option<Seq<u8>>, options: SaveAsOptions, target: OutputTarget, entry_id: Seq<char>, r: Result<PendingWrite, AnahtarError>) -> bool {
    input.canonical@ != target.canonical@ && kdbx_file(input.data@) && parsed_uuid(entry_id) is Some ==> forall|b: Database|
        opened(input.data@, password, key_file) == Some(#[trigger] db_view(b)) && stored_entries(b).contains_key(parsed_uuid(entry_id)->0)
            ==> output_refusals(options.output_path@, options.force, target, r)
}

/// An edit whose selector names one stored entry of the opened vault by its
/// UUID meets the output's refusals.
pub open spec fn edit_output_refusals(input: VaultFile, password: Seq<char>, key_file: Option<Seq<u8>>, options: SaveAsOptions, target: OutputTarget, sel: SelectorView, r: Result<PendingWrite, AnahtarError>) -> bool {
    input.canonical@ != target.canonical@ && unlocks(input.data@, password, key_file) ==> exists|b: Database, v: Vault|
        parsed_as(input.data@, password, key_file, b) && #[trigger] vault_mirrors(v, b)
            && forall|id: u128| resolves_to_id(v, sel, Ok::<u128, AnahtarError>(id)) && #[trigger] stored_entries(b).contains_key(id)
                ==> output_refusals(options.output_path@, options.force, target, r)
}

/// A move whose selector names one stored entry of the opened vault by its
/// UUID, to a group path that names a group of it, meets the output's refusals.
pub open spec fn move_output_refusals(input: VaultFile, password: Seq<char>, key_file: Option<Seq<u8>>, options: SaveAsOptions, target: OutputTarget, sel: SelectorView, group_path: Seq<char>, r: Result<PendingWrite, AnahtarError>) -> bool {
    input.canonical@ != target.canonical@ && unlocks(input.data@, password, key_file) ==> exists|b: Database, v: Vault|
        parsed_as(input.data@, password, key_file, b) && #[trigger] vault_mirrors(v, b)
            && forall|id: u128| resolves_to_id(v, sel, Ok::<u128, AnahtarError>(id)) && #[trigger] stored_entries(b).contains_key(id)
                && lookup_group(b, group_path) is Some
                ==> output_refusals(options.output_path@, options.force, target, r)
}

/// A change to an entry named by a selector fails as the selection does.
pub open spec fn selection_refusals(input: VaultFile, password: Seq<char>, key_file: Option<Seq<u8>>, target: OutputTarget, sel: SelectorView, r: Result<PendingWrite, AnahtarError>) -> bool {
    input.canonical@ != target.canonical@ && unlocks(input.data@, password, key_file) ==> exists|b: Database, v: Vault|
        parsed_as(input.data@, password, key_file, b) && #[trigger] vault_mirrors(v, b) && selection_fails(v, sel, r)
}

/// A delete refuses a UUID that the opened vault does not hold, naming it.
/// It is stated of a KeePass 2 input of format 3 or 4, whose opened
/// database [`opened`] names.
pub open spec fn delete_refusals(input: VaultFile, password: Seq<char>, key_file: Option<Seq<u8>>, target: OutputTarget, entry_id: Seq<char>, r: Result<PendingWrite, AnahtarError>) -> bool {
    input.canonical@ != target.canonical@ && kdbx_file(input.data@) && parsed_uuid(entry_id) is Some ==> forall|b: Database|
        opened(input.data@, password, key_file) == Some(#[trigger] db_view(b)) && !stored_entries(b).contains_key(parsed_uuid(entry_id)->0)
            ==> (r matches Err(AnahtarError::EntryNotFound(t)) && t@ == hyphenated(parsed_uuid(entry_id)->0))
}

/// A move fails as the selection does, then as the lookup of the group does.
pub open spec fn move_refusals(input: VaultFile, password: Seq<char>, key_file: Option<Seq<u8>>, target: OutputTarget, sel: SelectorView, group_path: Seq<char>, r: Result<PendingWrite, AnahtarError>) -> bool {
    input.canonical@ != target.canonical@ && unlocks(input.data@, password, key_file) ==> exists|b: Database, v: Vault|
        parsed_as(input.data@, password, key_file, b) && #[trigger] vault_mirrors(v, b)
            && selection_fails(v, sel, r)
            && (matching(v, sel).len() == 1 && parsed_uuid(matching(v, sel)[0].id) is Some
                && lookup_group(b, group_path) is None ==> (r matches Err(e) && lookup_error(b, group_path, e)))
}

/// What an add writes: the input opens to `b`, the saved database is `a`, and `a`
/// is `b` with a new entry holding the request's fields at the end of the
/// group the request's path names; the changed id is the new entry's.
pub open spec fn add_written(input: VaultFile, password: Seq<char>, key_file: Option<Seq<u8>>, p: PendingWrite, request: AddEntryRequest) -> bool {
    exists|b: Database, a: Database, g: u128, id: u128|
        #[trigger] entry_added(b, a, g, id, request) && saved_from(input, password, key_file, p, b, a)
            && lookup_group(b, request.group_path@) == Some(g) && crate::vault::opt_view(p.changed_entry_id) == Some(hyphenated(id))
}

/// What an edit writes: the saved database is the input with the fields of the entry
/// that the selector (UUID or title) names edited as the request says.
pub open spec fn edit_written(input: VaultFile, password: Seq<char>, key_file: Option<Seq<u8>>, p: PendingWrite, selector: Seq<char>, request: EditEntryRequest) -> bool {
    exists|b: Database, a: Database, id: u128|
        #[trigger] entry_edited(b, a, id, request) && saved_from(input, password, key_file, p, b, a)
            && crate::vault::opt_view(p.changed_entry_id) == Some(hyphenated(id))
            && exists|v: Vault| #[trigger] vault_mirrors(v, b) && resolves_to_id(v, SelectorView::Auto(selector), Ok::<u128, AnahtarError>(id))
}

/// What a delete writes: the saved database is the input without entry `id`.
pub open spec fn delete_written(input: VaultFile, password: Seq<char>, key_file: Option<Seq<u8>>, p: PendingWrite, id: u128) -> bool {
    exists|b: Database, a: Database| #[trigger] entry_deleted(b, a, id) && saved_from(input, password, key_file, p, b, a)
}

/// What a group add writes: the saved database is the input with a new empty group,
/// named after the path's last part, under the group the rest names.
pub open spec fn group_add_written(input: VaultFile, password: Seq<char>, key_file: Option<Seq<u8>>, p: PendingWrite, group_path: Seq<char>) -> bool {
    exists|b: Database, a: Database, parent: u128, id: u128|
        #[trigger] group_added(b, a, parent, id, crate::paths::parent_and_name(group_path).1)
            && saved_from(input, password, key_file, p, b, a)
            && new_group_parent(b, group_path) == Some(parent)
            && crate::vault::opt_view(p.changed_entry_id) == Some(hyphenated(id))
}

/// What a group rename writes: the saved database is the input with the group that
/// the path names renamed.
pub open spec fn group_rename_written(input: VaultFile, password: Seq<char>, key_file: Option<Seq<u8>>, p: PendingWrite, group_path: Seq<char>, new_name: Seq<char>) -> bool {
    exists|b: Database, a: Database, g: u128|
        #[trigger] group_renamed(b, a, g, new_name) && saved_from(input, password, key_file, p, b, a)
            && lookup_group(b, group_path) == Some(g) && crate::vault::opt_view(p.changed_entry_id) == Some(hyphenated(g))
}

/// What a group delete writes: the saved database is the input without the group
/// that the path names and everything below it.
pub open spec fn group_delete_written(input: VaultFile, password: Seq<char>, key_file: Option<Seq<u8>>, p: PendingWrite, group_path: Seq<char>) -> bool {
    exists|b: Database, a: Database, g: u128|
        #[trigger] group_deleted(b, a, g) && saved_from(input, password, key_file, p, b, a)
            && lookup_group(b, group_path) == Some(g) && crate::vault::opt_view(p.changed_entry_id) == Some(hyphenated(g))
            && p.expected_group_count == p.input_group_count - subtree(stored_groups(b), g).len()
            && p.expected_entry_count == p.input_entry_count - subtree_entries(stored_groups(b), stored_entries(b), g).len()
}

/// What a move writes: the saved database is the input with the entry that the
/// selector names moved to the group that the path names.
pub open spec fn move_written(input: VaultFile, password: Seq<char>, key_file: Option<Seq<u8>>, p: PendingWrite, selector: SelectorView, group_path: Seq<char>) -> bool {
    exists|b: Database, a: Database, id: u128, g: u128|
        #[trigger] entry_moved(b, a, id, g) && saved_from(input, password, key_file, p, b, a)
            && lookup_group(b, group_path) == Some(g) && crate::vault::opt_view(p.changed_entry_id) == Some(hyphenated(id))
            && exists|v: Vault| #[trigger] vault_mirrors(v, b) && resolves_to_id(v, selector, Ok::<u128, AnahtarError>(id))
}

/// An add's pending write: one entry more, the same groups, and the new
/// entry's id to find again on read-back.
pub open spec fn add_pending(p: PendingWrite, input: VaultFile, options: SaveAsOptions) -> bool {
    &&& pending_basics(p, WriteOperation::Add, input, options)
    &&& p.expected_group_count == p.input_group_count
    &&& p.expected_entry_count == p.input_entry_count.saturating_add(1)
    &&& p.changed_entry_id matches Some(id) && p.check == SavedCheck::EntryPresent(id)
}

/// Adds an entry and prepares the KDBX 4.1 output: one entry more, the same
/// groups, and the new entry found again on read-back.
pub fn add_entry_save_as_with_credentials(input: &VaultFile, key: &UnlockKey, options: &SaveAsOptions, target: &OutputTarget, request: &AddEntryRequest) -> (r: Result<PendingWrite, AnahtarError>)
    ensures
        write_outcome(*input, key.password@, key_bytes(*key), options.output_path@, options.force, *target, lookup_applies(*input, key.password@, key_bytes(*key), request.group_path@), r),
        add_output_refusals(*input, key.password@, key_bytes(*key), *options, *target, request.group_path@, r),
        save_as_gate(*input, key.password@, key_bytes(*key), *options, *target, r),
        lookup_refusals(*input, key.password@, key_bytes(*key), *target, request.group_path@, r),
        r matches Ok(p) ==> add_pending(p, *input, *options),
        r matches Ok(p) ==> add_written(*input, key.password@, key_bytes(*key), p, *request),
{
    match ensure_input_output_distinct(input.canonical.as_str(), target.canonical.as_str(), options.output_path.as_str()) {
        Err(e) => return Err(e),
        Ok(()) => {},
    }
    let mut db = match open_database_with_credentials(input.data.as_slice(), key) {
        Ok(db) => db,
        Err(e) => return Err(e),
    };
    let (version, groups, entries) = input_stats(&db);
    let ghost before = db;
    let id = match apply_add_entry(&mut db, request) {
        Ok(id) => id,
        Err(e) => return Err(e),
    };
    let changed = uuid_text(id);
    let (tmp, bytes) = match save_stage(&mut db, input, options, target, key) {
        Ok(t) => t,
        Err(e) => return Err(e),
    };
    proof {
        let g = lookup_group(before, request.group_path@)->0;
        assert(entry_added(before, db, g, id, *request));
    }
    Ok(PendingWrite {
        operation: WriteOperation::Add,
        input_path: input.path.clone(),
        output_path: options.output_path.clone(),
        temp_path: tmp,
        force: options.force,
        bytes,
        input_version: version,
        input_group_count: groups,
        input_entry_count: entries,
        expected_group_count: groups,
        expected_entry_count: entries.saturating_add(1),
        changed_entry_id: Some(changed.clone()),
        check: SavedCheck::EntryPresent(changed),
    })
}

/// Adds an entry, unlocking with a password alone.
pub fn add_entry_save_as(input: &VaultFile, password: &str, options: &SaveAsOptions, target: &OutputTarget, request: &AddEntryRequest) -> (r: Result<PendingWrite, AnahtarError>)
    ensures
        write_outcome(*input, password@, None, options.output_path@, options.force, *target, lookup_applies(*input, password@, None, request.group_path@), r),
        add_output_refusals(*input, password@, None, *options, *target, request.group_path@, r),
        save_as_gate(*input, password@, None, *options, *target, r),
        lookup_refusals(*input, password@, None, *target, request.group_path@, r),
        r matches Ok(p) ==> add_pending(p, *input, *options),
        r matches Ok(p) ==> add_written(*input, password@, None, p, *request),
{
    add_entry_save_as_with_credentials(input, &UnlockKey::password_only(password), options, target, request)
}

/// An edit's pending write: the same counts and the edited entry's id to
/// find again on read-back.
pub open spec fn edit_pending(p: PendingWrite, input: VaultFile, options: SaveAsOptions) -> bool {
    &&& pending_basics(p, WriteOperation::Edit, input, options)
    &&& p.expected_group_count == p.input_group_count
    &&& p.expected_entry_count == p.input_entry_count
    &&& p.changed_entry_id matches Some(id) && p.check == SavedCheck::EntryPresent(id)
}

/// Edits the entry named by UUID or title (it must be the only one) and
/// prepares the output: the same counts, the entry found again on read-back.
pub fn edit_entry_save_as_with_credentials(input: &VaultFile, selector: &str, key: &UnlockKey, options: &SaveAsOptions, target: &OutputTarget, request: &EditEntryRequest) -> (r: Result<PendingWrite, AnahtarError>)
    ensures
        write_outcome(*input, key.password@, key_bytes(*key), options.output_path@, options.force, *target, selection_applies(*input, key.password@, key_bytes(*key), SelectorView::Auto(selector@)), r),
        edit_output_refusals(*input, key.password@, key_bytes(*key), *options, *target, SelectorView::Auto(selector@), r),
        save_as_gate(*input, key.password@, key_bytes(*key), *options, *target, r),
        r matches Ok(p) ==> edit_pending(p, *input, *options),
        r matches Ok(p) ==> edit_written(*input, key.password@, key_bytes(*key), p, selector@, *request),
        selection_refusals(*input, key.password@, key_bytes(*key), *target, SelectorView::Auto(selector@), r),
{
    match ensure_input_output_distinct(input.canonical.as_str(), target.canonical.as_str(), options.output_path.as_str()) {
        Err(e) => return Err(e),
        Ok(()) => {},
    }
    let mut db = match open_database_with_credentials(input.data.as_slice(), key) {
        Ok(db) => db,
        Err(e) => return Err(e),
    };
    let (version, groups, entries) = input_stats(&db);
    let ghost before = db;
    let vault = match read_vault(&db) {
        Some(v) => v,
        None => return Err(AnahtarError::EntryNotFound(selector.to_owned())),
    };
    proof {
        assert(parsed_as(input.data@, key.password@, key_bytes(*key), before));
        assert(vault_mirrors(vault, before));
    }
    let id = match resolve_unique_entry_id(&vault, selector) {
        Ok(id) => id,
        Err(e) => return Err(e),
    };
    let changed = uuid_text(id);
    match apply_edit_entry(&mut db, id, request, selector) {
        Ok(()) => {},
        Err(e) => return Err(e),
    }
    let (tmp, bytes) = match save_stage(&mut db, input, options, target, key) {
        Ok(t) => t,
        Err(e) => return Err(e),
    };
    proof {
        assert(vault_mirrors(vault, before));
        assert(entry_edited(before, db, id, *request));
    }
    Ok(PendingWrite {
        operation: WriteOperation::Edit,
        input_path: input.path.clone(),
        output_path: options.output_path.clone(),
        temp_path: tmp,
        force: options.force,
        bytes,
        input_version: version,
        input_group_count: groups,
        input_entry_count: entries,
        expected_group_count: groups,
        expected_entry_count: entries,
        changed_entry_id: Some(changed.clone()),
        check: SavedCheck::EntryPresent(changed),
    })
}

/// Edits an entry, unlocking with a password alone.
pub fn edit_entry_save_as(input: &VaultFile, selector: &str, password: &str, options: &SaveAsOptions, target: &OutputTarget, request: &EditEntryRequest) -> (r: Result<PendingWrite, AnahtarError>)
    ensures
        write_outcome(*input, password@, None, options.output_path@, options.force, *target, selection_applies(*input, password@, None, SelectorView::Auto(selector@)), r),
        edit_output_refusals(*input, password@, None, *options, *target, SelectorView::Auto(selector@), r),
        save_as_gate(*input, password@, None, *options, *target, r),
        r matches Ok(p) ==> edit_pending(p, *input, *options),
        r matches Ok(p) ==> edit_written(*input, password@, None, p, selector@, *request),
        selection_refusals(*input, password@, None, *target, SelectorView::Auto(selector@), r),
{
    edit_entry_save_as_with_credentials(input, selector, &UnlockKey::password_only(password), options, target, request)
}

/// A delete's pending write: one entry fewer (none below zero), the same
/// groups, and the deleted id to find gone on read-back.
pub open spec fn delete_pending(p: PendingWrite, input: VaultFile, options: SaveAsOptions, entry_id: Seq<char>) -> bool {
    &&& pending_basics(p, WriteOperation::Delete, input, options)
    &&& p.expected_group_count == p.input_group_count
    &&& p.expected_entry_count == p.input_entry_count.saturating_sub(1)
    &&& parsed_uuid(entry_id) matches Some(u) && p.changed_entry_id matches Some(id) && id@ == hyphenated(u) && p.check == SavedCheck::EntryAbsent(id)
}

/// Deletes the entry with a UUID and prepares the output. The id must parse
/// as a UUID, checked before the vault is opened (`EntryNotFound` with the
/// id as given); an entry the vault lacks is `EntryNotFound` with the UUID.
pub fn delete_entry_save_as_with_credentials(input: &VaultFile, entry_id: &str, key: &UnlockKey, options: &SaveAsOptions, target: &OutputTarget) -> (r: Result<PendingWrite, AnahtarError>)
    ensures
        write_outcome(*input, key.password@, key_bytes(*key), options.output_path@, options.force, *target, delete_applies(*input, key.password@, key_bytes(*key), entry_id@), r),
        delete_output_refusals(*input, key.password@, key_bytes(*key), *options, *target, entry_id@, r),
        input.canonical@ == target.canonical@ ==> (r matches Err(AnahtarError::InputOutputSame(p)) && p@ == options.output_path@),
        input.canonical@ != target.canonical@ && parsed_uuid(entry_id@) is None ==> (r matches Err(AnahtarError::EntryNotFound(t)) && t@ == entry_id@),
        input.canonical@ != target.canonical@ && parsed_uuid(entry_id@) is Some ==> save_as_gate(*input, key.password@, key_bytes(*key), *options, *target, r),
        r matches Ok(p) ==> delete_pending(p, *input, *options, entry_id@),
        r matches Ok(p) ==> delete_written(*input, key.password@, key_bytes(*key), p, parsed_uuid(entry_id@)->0),
        delete_refusals(*input, key.password@, key_bytes(*key), *target, entry_id@, r),
{
    match ensure_input_output_distinct(input.canonical.as_str(), target.canonical.as_str(), options.output_path.as_str()) {
        Err(e) => return Err(e),
        Ok(()) => {},
    }
    let uuid = match parse_uuid(entry_id) {
        Some(u) => u,
        None => return Err(AnahtarError::EntryNotFound(entry_id.to_owned())),
    };
    let mut db = match open_database_with_credentials(input.data.as_slice(), key) {
        Ok(db) => db,
        Err(e) => return Err(e),
    };
    let (version, groups, entries) = input_stats(&db);
    let ghost before = db;
    match apply_delete_entry(&mut db, uuid) {
        Ok(()) => {},
        Err(e) => return Err(e),
    }
    let changed = uuid_text(uuid);
    let (tmp, bytes) = match save_stage(&mut db, input, options, target, key) {
        Ok(t) => t,
        Err(e) => return Err(e),
    };
    proof {
        assert(entry_deleted(before, db, uuid));
    }
    Ok(PendingWrite {
        operation: WriteOperation::Delete,
        input_path: input.path.clone(),
        output_path: options.output_path.clone(),
        temp_path: tmp,
        force: options.force,
        bytes,
        input_version: version,
        input_group_count: groups,
        input_entry_count: entries,
        expected_group_count: groups,
        expected_entry_count: entries.saturating_sub(1),
        changed_entry_id: Some(changed.clone()),
        check: SavedCheck::EntryAbsent(changed),
    })
}

/// Deletes an entry, unlocking with a password alone.
pub fn delete_entry_save_as(input: &VaultFile, entry_id: &str, password: &str, options: &SaveAsOptions, target: &OutputTarget) -> (r: Result<PendingWrite, AnahtarError>)
    ensures
        write_outcome(*input, password@, None, options.output_path@, options.force, *target, delete_applies(*input, password@, None, entry_id@), r),
        delete_output_refusals(*input, password@, None, *options, *target, entry_id@, r),
        input.canonical@ == target.canonical@ ==> (r matches Err(AnahtarError::InputOutputSame(p)) && p@ == options.output_path@),
        input.canonical@ != target.canonical@ && parsed_uuid(entry_id@) is None ==> (r matches Err(AnahtarError::EntryNotFound(t)) && t@ == entry_id@),
        input.canonical@ != target.canonical@ && parsed_uuid(entry_id@) is Some ==> save_as_gate(*input, password@, None, *options, *target, r),
        r matches Ok(p) ==> delete_pending(p, *input, *options, entry_id@),
        r matches Ok(p) ==> delete_written(*input, password@, None, p, parsed_uuid(entry_id@)->0),
        delete_refusals(*input, password@, None, *target, entry_id@, r),
{
    delete_entry_save_as_with_credentials(input, entry_id, &UnlockKey::password_only(password), options, target)
}

/// A group write's pending write: the given group count, the same entries
/// unless stated, and the group's UUID as the changed id.
pub open spec fn group_pending(p: PendingWrite, op: WriteOperation, input: VaultFile, options: SaveAsOptions) -> bool {
    &&& pending_basics(p, op, input, options)
    &&& p.changed_entry_id is Some
    &&& p.check == SavedCheck::Nothing
}

/// Adds a group and prepares the output: one group more, the same entries.
pub fn add_group_save_as_with_credentials(input: &VaultFile, key: &UnlockKey, options: &SaveAsOptions, target: &OutputTarget, group_path: &str) -> (r: Result<PendingWrite, AnahtarError>)
    ensures
        write_outcome(*input, key.password@, key_bytes(*key), options.output_path@, options.force, *target, group_add_applies(*input, key.password@, key_bytes(*key), group_path@), r),
        group_add_output_refusals(*input, key.password@, key_bytes(*key), *options, *target, group_path@, r),
        save_as_gate(*input, key.password@, key_bytes(*key), *options, *target, r),
        r matches Ok(p) ==> group_pending(p, WriteOperation::GroupAdd, *input, *options)
            && p.expected_group_count == p.input_group_count.saturating_add(1)
            && p.expected_entry_count == p.input_entry_count,
        r matches Ok(p) ==> group_add_written(*input, key.password@, key_bytes(*key), p, group_path@),
        group_add_refusals(*input, key.password@, key_bytes(*key), *target, group_path@, r),
{
    match ensure_input_output_distinct(input.canonical.as_str(), target.canonical.as_str(), options.output_path.as_str()) {
        Err(e) => return Err(e),
        Ok(()) => {},
    }
    let mut db = match open_database_with_credentials(input.data.as_slice(), key) {
        Ok(db) => db,
        Err(e) => return Err(e),
    };
    let (version, groups, entries) = input_stats(&db);
    let ghost before = db;
    let id = match apply_add_group(&mut db, group_path) {
        Ok(id) => id,
        Err(e) => return Err(e),
    };
    let (tmp, bytes) = match save_stage(&mut db, input, options, target, key) {
        Ok(t) => t,
        Err(e) => return Err(e),
    };
    proof {
        let parent = new_group_parent(before, group_path@)->0;
        assert(group_added(before, db, parent, id, crate::paths::parent_and_name(group_path@).1));
    }
    Ok(PendingWrite {
        operation: WriteOperation::GroupAdd,
        input_path: input.path.clone(),
        output_path: options.output_path.clone(),
        temp_path: tmp,
        force: options.force,
        bytes,
        input_version: version,
        input_group_count: groups,
        input_entry_count: entries,
        expected_group_count: groups.saturating_add(1),
        expected_entry_count: entries,
        changed_entry_id: Some(uuid_text(id)),
        check: SavedCheck::Nothing,
    })
}

/// Renames a group and prepares the output: the same counts.
pub fn rename_group_save_as_with_credentials(input: &VaultFile, key: &UnlockKey, options: &SaveAsOptions, target: &OutputTarget, group_path: &str, new_name: &str) -> (r: Result<PendingWrite, AnahtarError>)
    ensures
        write_outcome(*input, key.password@, key_bytes(*key), options.output_path@, options.force, *target, lookup_applies(*input, key.password@, key_bytes(*key), group_path@), r),
        group_output_refusals(*input, key.password@, key_bytes(*key), *options, *target, group_path@, r),
        save_as_gate(*input, key.password@, key_bytes(*key), *options, *target, r),
        r matches Ok(p) ==> group_pending(p, WriteOperation::GroupRename, *input, *options)
            && p.expected_group_count == p.input_group_count
            && p.expected_entry_count == p.input_entry_count,
        lookup_refusals(*input, key.password@, key_bytes(*key), *target, group_path@, r),
        r matches Ok(p) ==> group_rename_written(*input, key.password@, key_bytes(*key), p, group_path@, new_name@),
{
    match ensure_input_output_distinct(input.canonical.as_str(), target.canonical.as_str(), options.output_path.as_str()) {
        Err(e) => return Err(e),
        Ok(()) => {},
    }
    let mut db = match open_database_with_credentials(input.data.as_slice(), key) {
        Ok(db) => db,
        Err(e) => return Err(e),
    };
    let (version, groups, entries) = input_stats(&db);
    let ghost before = db;
    let id = match apply_rename_group(&mut db, group_path, new_name) {
        Ok(id) => id,
        Err(e) => return Err(e),
    };
    let (tmp, bytes) = match save_stage(&mut db, input, options, target, key) {
        Ok(t) => t,
        Err(e) => return Err(e),
    };
    proof {
        assert(group_renamed(before, db, id, new_name@));
    }
    Ok(PendingWrite {
        operation: WriteOperation::GroupRename,
        input_path: input.path.clone(),
        output_path: options.output_path.clone(),
        temp_path: tmp,
        force: options.force,
        bytes,
        input_version: version,
        input_group_count: groups,
        input_entry_count: entries,
        expected_group_count: groups,
        expected_entry_count: entries,
        changed_entry_id: Some(uuid_text(id)),
        check: SavedCheck::Nothing,
    })
}

/// Deletes a group with every group and entry below it and prepares the
/// output: as many groups fewer as the deleted subtree held, and as many
/// entries fewer as its groups held.
pub fn delete_group_save_as_with_credentials(input: &VaultFile, key: &UnlockKey, options: &SaveAsOptions, target: &OutputTarget, group_path: &str) -> (r: Result<PendingWrite, AnahtarError>)
    ensures
        write_outcome(*input, key.password@, key_bytes(*key), options.output_path@, options.force, *target, lookup_applies(*input, key.password@, key_bytes(*key), group_path@), r),
        group_output_refusals(*input, key.password@, key_bytes(*key), *options, *target, group_path@, r),
        save_as_gate(*input, key.password@, key_bytes(*key), *options, *target, r),
        r matches Ok(p) ==> group_pending(p, WriteOperation::GroupDelete, *input, *options),
        lookup_refusals(*input, key.password@, key_bytes(*key), *target, group_path@, r),
        r matches Ok(p) ==> group_delete_written(*input, key.password@, key_bytes(*key), p, group_path@),
{
    match ensure_input_output_distinct(input.canonical.as_str(), target.canonical.as_str(), options.output_path.as_str()) {
        Err(e) => return Err(e),
        Ok(()) => {},
    }
    let mut db = match open_database_with_credentials(input.data.as_slice(), key) {
        Ok(db) => db,
        Err(e) => return Err(e),
    };
    let (version, groups, entries) = input_stats(&db);
    let ghost before = db;
    let id = match apply_delete_group(&mut db, group_path) {
        Ok(t) => t.0,
        Err(e) => return Err(e),
    };
    let (_, left_groups, left_entries) = input_stats(&db);
    proof {
        lemma_lookup_found(before, group_path@);
        lemma_group_delete_counts(before, db, id);
    }
    let (tmp, bytes) = match save_stage(&mut db, input, options, target, key) {
        Ok(t) => t,
        Err(e) => return Err(e),
    };
    proof {
        assert(group_deleted(before, db, id));
    }
    Ok(PendingWrite {
        operation: WriteOperation::GroupDelete,
        input_path: input.path.clone(),
        output_path: options.output_path.clone(),
        temp_path: tmp,
        force: options.force,
        bytes,
        input_version: version,
        input_group_count: groups,
        input_entry_count: entries,
        expected_group_count: left_groups,
        expected_entry_count: left_entries,
        changed_entry_id: Some(uuid_text(id)),
        check: SavedCheck::Nothing,
    })
}

/// Moves the entry that a selector names to another group and prepares the
/// output: the same counts, the entry's UUID as the changed id.
pub fn move_entry_save_as_with_credentials(input: &VaultFile, key: &UnlockKey, options: &SaveAsOptions, target: &OutputTarget, selector: &EntrySelector, group_path: &str) -> (r: Result<PendingWrite, AnahtarError>)
    ensures
        write_outcome(*input, key.password@, key_bytes(*key), options.output_path@, options.force, *target, selection_applies(*input, key.password@, key_bytes(*key), selector@) && lookup_applies(*input, key.password@, key_bytes(*key), group_path@), r),
        move_output_refusals(*input, key.password@, key_bytes(*key), *options, *target, selector@, group_path@, r),
        save_as_gate(*input, key.password@, key_bytes(*key), *options, *target, r),
        r matches Ok(p) ==> group_pending(p, WriteOperation::MoveEntry, *input, *options)
            && p.expected_group_count == p.input_group_count
            && p.expected_entry_count == p.input_entry_count,
        r matches Ok(p) ==> move_written(*input, key.password@, key_bytes(*key), p, selector@, group_path@),
        move_refusals(*input, key.password@, key_bytes(*key), *target, selector@, group_path@, r),
{
    match ensure_input_output_distinct(input.canonical.as_str(), target.canonical.as_str(), options.output_path.as_str()) {
        Err(e) => return Err(e),
        Ok(()) => {},
    }
    let mut db = match open_database_with_credentials(input.data.as_slice(), key) {
        Ok(db) => db,
        Err(e) => return Err(e),
    };
    let (version, groups, entries) = input_stats(&db);
    let ghost before = db;
    let label = selector_label(selector);
    let vault = match read_vault(&db) {
        Some(v) => v,
        None => return Err(AnahtarError::EntryNotFound(label)),
    };
    proof {
        assert(parsed_as(input.data@, key.password@, key_bytes(*key), before));
        assert(vault_mirrors(vault, before));
    }
    let id = match resolve_unique_entry_id_by_selector(&vault, selector) {
        Ok(id) => id,
        Err(e) => return Err(e),
    };
    let group = match apply_move_entry(&mut db, id, group_path, label.as_str()) {
        Ok(g) => g,
        Err(e) => return Err(e),
    };
    let (tmp, bytes) = match save_stage(&mut db, input, options, target, key) {
        Ok(t) => t,
        Err(e) => return Err(e),
    };
    proof {
        assert(vault_mirrors(vault, before));
        assert(entry_moved(before, db, id, group));
    }
    Ok(PendingWrite {
        operation: WriteOperation::MoveEntry,
        input_path: input.path.clone(),
        output_path: options.output_path.clone(),
        temp_path: tmp,
        force: options.force,
        bytes,
        input_version: version,
        input_group_count: groups,
        input_entry_count: entries,
        expected_group_count: groups,
        expected_entry_count: entries,
        changed_entry_id: Some(uuid_text(id)),
        check: SavedCheck::Nothing,
    })
}

/// What an upgrade reports.
#[derive(Debug)]
pub struct UpgradeReport {
    pub input_path: String,
    pub output_path: String,
    pub input_version: KdbxVersion,
    pub output_version: KdbxVersion,
    pub input_group_count: usize,
    pub input_entry_count: usize,
    pub output_group_count: Option<usize>,
    pub output_entry_count: Option<usize>,
    pub dry_run: bool,
    pub warning: Option<String>,
}

/// An upgrade after its first stage: done (a dry run), or bytes to write.
#[derive(Debug)]
pub enum UpgradePlan {
    Done(UpgradeReport),
    Write(UpgradeReport, PendingWrite),
}

/// The warning of an upgrade from a version other than KDBX 4.1.
pub open spec fn upgrade_warning(v: KdbxVersion) -> Option<Seq<char>> {
    if v == kdbx41() {
        None
    } else {
        Some("input is "@ + crate::header::version_text(v) + "; output will be written as KDBX 4.1"@)
    }
}

/// The first stage of an upgrade to KDBX 4.1: a dry run reports the input's
/// version and counts and writes nothing; otherwise an existing output is
/// refused unless forced, and the KDBX 4.1 bytes are prepared.
pub fn upgrade_to_kdbx41_with_credentials(input: &VaultFile, output_path: &str, target: &OutputTarget, key: &UnlockKey, force: bool, dry_run: bool) -> (r: Result<UpgradePlan, AnahtarError>)
    ensures
        write_outcome(*input, key.password@, key_bytes(*key), output_path@, force, *target, true, r),
        input.canonical@ == target.canonical@ ==> (r matches Err(AnahtarError::InputOutputSame(p)) && p@ == output_path@),
        input.canonical@ != target.canonical@ && !unlocks(input.data@, key.password@, key_bytes(*key)) ==> (r matches Err(e) && e is OpenDatabase),
        r matches Ok(plan) ==> match plan {
            UpgradePlan::Done(report) => dry_run && upgrade_basics(report, *input, output_path@, true),
            UpgradePlan::Write(report, p) => !dry_run && upgrade_basics(report, *input, output_path@, false)
                && (!target.exists || force) && !target.temp_exists
                && p.operation == WriteOperation::Upgrade && p.temp_path@ == temp_path(output_path@)
                && p.expected_group_count == report.input_group_count && p.expected_entry_count == report.input_entry_count
                && p.input_group_count == report.input_group_count && p.input_entry_count == report.input_entry_count
                && exists|b: Database, a: Database| #[trigger] same_tree(b, a) && saved_from(*input, key.password@, key_bytes(*key), p, b, a),
        },
        dry_run && input.canonical@ != target.canonical@ && unlocks(input.data@, key.password@, key_bytes(*key))
            ==> r matches Ok(UpgradePlan::Done(_)),
        r matches Ok(UpgradePlan::Done(report)) ==> upgrade_inputs(report, *input, key.password@, key_bytes(*key)),
        !dry_run && input.canonical@ != target.canonical@ && unlocks(input.data@, key.password@, key_bytes(*key))
            ==> output_refusals(output_path@, force, *target, r),
{
    match ensure_input_output_distinct(input.canonical.as_str(), target.canonical.as_str(), output_path) {
        Err(e) => return Err(e),
        Ok(()) => {},
    }
    let mut db = match open_database_with_credentials(input.data.as_slice(), key) {
        Ok(db) => db,
        Err(e) => return Err(e),
    };
    let (version, groups, entries) = input_stats(&db);
    let target_version = KdbxVersion::Kdbx { major: 4, minor: 1 };
    let warning = if version != target_version {
        let mut w = "input is ".to_owned();
        push_str(&mut w, version.display().as_str());
        push_str(&mut w, "; output will be written as KDBX 4.1");
        Some(w)
    } else {
        None
    };
    let report = UpgradeReport {
        input_path: input.path.clone(),
        output_path: output_path.to_owned(),
        input_version: version,
        output_version: target_version,
        input_group_count: groups,
        input_entry_count: entries,
        output_group_count: None,
        output_entry_count: None,
        dry_run,
        warning,
    };
    if dry_run {
        return Ok(UpgradePlan::Done(report));
    }
    if target.exists && !force {
        return Err(AnahtarError::OutputExists(output_path.to_owned()));
    }
    let ghost before = db;
    let options = SaveAsOptions { output_path: output_path.to_owned(), force };
    let (tmp, bytes) = match save_stage(&mut db, input, &options, target, key) {
        Ok(t) => t,
        Err(e) => return Err(e),
    };
    proof {
        assert(same_tree(before, db));
    }
    let pending = PendingWrite {
        operation: WriteOperation::Upgrade,
        input_path: input.path.clone(),
        output_path: output_path.to_owned(),
        temp_path: tmp,
        force,
        bytes,
        input_version: version,
        input_group_count: groups,
        input_entry_count: entries,
        expected_group_count: groups,
        expected_entry_count: entries,
        changed_entry_id: None,
        check: SavedCheck::Nothing,
    };
    Ok(UpgradePlan::Write(report, pending))
}

/// The input version and counts of an upgrade report are those of a
/// database that the input opens to.
pub open spec fn upgrade_inputs(report: UpgradeReport, input: VaultFile, password: Seq<char>, key_file: Option<Seq<u8>>) -> bool {
    exists|b: Database| #[trigger] parsed_as(input.data@, password, key_file, b)
        && report.input_version == version_of(stored_format(b))
        && (report.input_group_count as nat, report.input_entry_count as nat) == view_counts(db_view(b))
}

/// The fields of an upgrade report that follow from its inputs.
pub open spec fn upgrade_basics(report: UpgradeReport, input: VaultFile, output_path: Seq<char>, dry_run: bool) -> bool {
    &&& report.input_path@ == input.path@
    &&& report.output_path@ == output_path
    &&& report.output_version == kdbx41()
    &&& report.output_group_count is None
    &&& report.output_entry_count is None
    &&& report.dry_run == dry_run
    &&& crate::vault::opt_view(report.warning) == upgrade_warning(report.input_version)
}

/// Upgrades, unlocking with a password alone.
pub fn upgrade_to_kdbx41(input: &VaultFile, output_path: &str, target: &OutputTarget, password: &str, force: bool, dry_run: bool) -> (r: Result<UpgradePlan, AnahtarError>)
    ensures
        write_outcome(*input, password@, None, output_path@, force, *target, true, r),
        input.canonical@ == target.canonical@ ==> (r matches Err(AnahtarError::InputOutputSame(p)) && p@ == output_path@),
        input.canonical@ != target.canonical@ && !unlocks(input.data@, password@, None) ==> (r matches Err(e) && e is OpenDatabase),
        r matches Ok(plan) ==> match plan {
            UpgradePlan::Done(report) => dry_run && upgrade_basics(report, *input, output_path@, true),
            UpgradePlan::Write(report, p) => !dry_run && upgrade_basics(report, *input, output_path@, false)
                && (!target.exists || force) && !target.temp_exists
                && p.operation == WriteOperation::Upgrade && p.temp_path@ == temp_path(output_path@)
                && p.expected_group_count == report.input_group_count && p.expected_entry_count == report.input_entry_count
                && p.input_group_count == report.input_group_count && p.input_entry_count == report.input_entry_count
                && exists|b: Database, a: Database| #[trigger] same_tree(b, a) && saved_from(*input, password@, None, p, b, a),
        },
        dry_run && input.canonical@ != target.canonical@ && unlocks(input.data@, password@, None)
            ==> r matches Ok(UpgradePlan::Done(_)),
        r matches Ok(UpgradePlan::Done(report)) ==> upgrade_inputs(report, *input, password@, None),
        !dry_run && input.canonical@ != target.canonical@ && unlocks(input.data@, password@, None)
            ==> output_refusals(output_path@, force, *target, r),
{
    upgrade_to_kdbx41_with_credentials(input, output_path, target, &UnlockKey::password_only(password), force, dry_run)
}

/// What the read-back of a written vault shows: the number of groups over
/// its tree and the number of entries.
pub open spec fn read_back(db: Database, groups: usize, entries: usize) -> bool {
    &&& counts_groups(db, groups)
    &&& entries == stored_entries(db).len()
}

/// Checks an opened read-back against what the write expects: the counts
/// (`CountMismatch` with the expected and found counts), then the entry the
/// write changed, present or gone.
pub fn verify_saved(db: &Database, pending: &PendingWrite) -> (r: Result<(usize, usize), AnahtarError>)
    requires
        tidy(*db),
    ensures
        r matches Ok(t) ==> read_back(*db, t.0, t.1) && t.0 == pending.expected_group_count && t.1 == pending.expected_entry_count,
        r is Ok ==> expects_counts(*pending, db_view(*db)),
        r matches Err(AnahtarError::CountMismatch { input_groups, output_groups, input_entries, output_entries }) ==>
            input_groups == pending.expected_group_count && input_entries == pending.expected_entry_count
            && read_back(*db, output_groups, output_entries)
            && (output_groups != pending.expected_group_count || output_entries != pending.expected_entry_count),
        r matches Err(e) ==> e is CountMismatch || (e matches AnahtarError::EntryNotFound(t) && pending.check matches SavedCheck::EntryPresent(id) && t@ == id@)
            || (e matches AnahtarError::VerificationFailed(t) && pending.check matches SavedCheck::EntryAbsent(id) && t@ == "deleted entry still present: "@ + id@),
        r matches Err(AnahtarError::EntryNotFound(_)) ==> (pending.check matches SavedCheck::EntryPresent(t)
            && forall|u: u128| t@ == hyphenated(u) ==> !#[trigger] stored_entries(*db).contains_key(u)),
        expects_counts(*pending, db_view(*db)) && check_passes(pending.check, stored_entries(*db)) ==> r is Ok,
{
    let (_, groups, entries) = input_stats(db);
    if groups != pending.expected_group_count || entries != pending.expected_entry_count {
        return Err(AnahtarError::CountMismatch {
            input_groups: pending.expected_group_count,
            output_groups: groups,
            input_entries: pending.expected_entry_count,
            output_entries: entries,
        });
    }
    let vault = match read_vault(db) {
        Some(v) => v,
        None => return Err(AnahtarError::CountMismatch {
            input_groups: pending.expected_group_count,
            output_groups: groups,
            input_entries: pending.expected_entry_count,
            output_entries: entries,
        }),
    };
    let mut pairs: Vec<(&VaultEntry, String)> = Vec::new();
    collect_pairs(&vault.root, vault.root.name.clone(), &mut pairs);
    assert(pair_views(pairs@) =~= all_pairs(vault));
    match &pending.check {
        SavedCheck::Nothing => Ok((groups, entries)),
        SavedCheck::EntryPresent(id) => match find_entry(&pairs, id.as_str()) {
            Some(_) => Ok((groups, entries)),
            None => {
                assert forall|u: u128| id@ == hyphenated(u) implies !#[trigger] stored_entries(*db).contains_key(u) by {
                    if stored_entries(*db).contains_key(u) {
                        lemma_search_finds(vault, *db, u, id@);
                    }
                }
                Err(AnahtarError::EntryNotFound(id.clone()))
            },
        },
        SavedCheck::EntryAbsent(id) => match find_entry(&pairs, id.as_str()) {
            Some(_) => {
                proof {
                    if check_passes(pending.check, stored_entries(*db)) {
                        let u = choose|u: u128| id@ == hyphenated(u) && !#[trigger] stored_entries(*db).contains_key(u)
                            && no_title(stored_entries(*db), id@);
                        lemma_search_misses(vault, *db, u, id@);
                    }
                }
                let mut msg = "deleted entry still present: ".to_owned();
                push_str(&mut msg, id.as_str());
                Err(AnahtarError::VerificationFailed(msg))
            },
            None => Ok((groups, entries)),
        },
    }
}

/// The pending write expects the counts of `w`.
pub open spec fn expects_counts(p: PendingWrite, w: DbView) -> bool {
    (p.expected_group_count as nat, p.expected_entry_count as nat) == view_counts(w)
}

/// The database `a` that a write saved has the counts that the write
/// expects of its read-back, and its entry check passes on it.
pub open spec fn saved_as_expected(p: PendingWrite, a: Database) -> bool {
    &&& expects_counts(p, db_view(a))
    &&& check_passes(p.check, stored_entries(a))
}

/// The bytes read back open with the key to a database with the counts that
/// the write expects.
pub open spec fn reads_back_counts(p: PendingWrite, data: Seq<u8>, password: Seq<char>, key_file: Option<Seq<u8>>) -> bool {
    exists|db: Database| #[trigger] parsed_as(data, password, key_file, db) && expects_counts(p, db_view(db))
}

/// The bytes read back are a KeePass 2 file of format 3 or 4 that opens with
/// the key to a database that the write saved as expected.
pub open spec fn reads_back_passing(p: PendingWrite, data: Seq<u8>, password: Seq<char>, key_file: Option<Seq<u8>>) -> bool {
    &&& kdbx_file(data)
    &&& unlocks(data, password, key_file)
    &&& expects_counts(p, opened(data, password, key_file)->0)
    &&& check_passes(p.check, opened(data, password, key_file)->0.entries)
}

/// Two databases whose groups have the same ids, child lists and root have
/// trees of the same size.
proof fn lemma_same_shape(b: Database, a: Database)
    requires
        stored_groups(a).dom() == stored_groups(b).dom(),
        forall|k: u128| #[trigger] stored_groups(b).contains_key(k) ==> stored_groups(b)[k].2 == stored_groups(a)[k].2,
        stored_root(a) == stored_root(b),
        stored_groups(b).contains_key(stored_root(b)),
    ensures
        view_counts(db_view(a)).0 == view_counts(db_view(b)).0,
{
    lemma_tree_size_same(stored_groups(b), stored_groups(a), stored_root(b), stored_groups(b).len());
    assert(stored_groups(a).len() == stored_groups(b).len());
}

/// Whatever database an add saves holds one entry more and the same groups, the
/// counts it expects (where the input's count of entries leaves room for one),
/// and holds the new entry.
pub proof fn add_saves_as_expected(input: VaultFile, password: Seq<char>, key_file: Option<Seq<u8>>, p: PendingWrite, request: AddEntryRequest, options: SaveAsOptions)
    requires
        add_pending(p, input, options),
        p.input_entry_count < usize::MAX,
    ensures
        forall|b: Database, a: Database, g: u128, id: u128|
            #[trigger] entry_added(b, a, g, id, request) && saved_from(input, password, key_file, p, b, a)
            && lookup_group(b, request.group_path@) == Some(g) && crate::vault::opt_view(p.changed_entry_id) == Some(hyphenated(id))
            ==> saved_as_expected(p, a),
{
    assert forall|b: Database, a: Database, g: u128, id: u128|
        #[trigger] entry_added(b, a, g, id, request) && saved_from(input, password, key_file, p, b, a)
            && lookup_group(b, request.group_path@) == Some(g) && crate::vault::opt_view(p.changed_entry_id) == Some(hyphenated(id))
        implies saved_as_expected(p, a) by {
        lemma_lookup_found(b, request.group_path@);
        assert(stored_groups(a).dom() =~= stored_groups(b).dom());
        lemma_same_shape(b, a);
        assert(stored_entries(a).dom() =~= stored_entries(b).dom().insert(id));
        assert(stored_entries(a).contains_key(id));
    }
}

/// Whatever database an edit saves holds the counts of its input, the counts it
/// expects, and still holds the edited entry.
pub proof fn edit_saves_as_expected(input: VaultFile, password: Seq<char>, key_file: Option<Seq<u8>>, p: PendingWrite, selector: Seq<char>, request: EditEntryRequest, options: SaveAsOptions)
    requires
        edit_pending(p, input, options),
    ensures
        forall|b: Database, a: Database, id: u128|
            #[trigger] entry_edited(b, a, id, request) && saved_from(input, password, key_file, p, b, a)
            && crate::vault::opt_view(p.changed_entry_id) == Some(hyphenated(id))
            ==> saved_as_expected(p, a),
{
    assert forall|b: Database, a: Database, id: u128|
        #[trigger] entry_edited(b, a, id, request) && saved_from(input, password, key_file, p, b, a)
            && crate::vault::opt_view(p.changed_entry_id) == Some(hyphenated(id))
        implies saved_as_expected(p, a) by {
        lemma_same_shape(b, a);
        assert(stored_entries(a).dom() =~= stored_entries(b).dom());
        assert(stored_entries(a).contains_key(id));
    }
}

/// Whatever database a delete saves holds one entry fewer and the same groups,
/// the counts it expects, and without the deleted entry, where no other
/// entry of the input is titled with the deleted id's text.
pub proof fn delete_saves_as_expected(input: VaultFile, password: Seq<char>, key_file: Option<Seq<u8>>, p: PendingWrite, entry_id: Seq<char>, options: SaveAsOptions)
    requires
        delete_pending(p, input, options, entry_id),
    ensures
        forall|b: Database, a: Database|
            #[trigger] entry_deleted(b, a, parsed_uuid(entry_id)->0) && saved_from(input, password, key_file, p, b, a)
            && no_title(stored_entries(b).remove(parsed_uuid(entry_id)->0), hyphenated(parsed_uuid(entry_id)->0))
            ==> saved_as_expected(p, a),
{
    let id = parsed_uuid(entry_id)->0;
    assert forall|b: Database, a: Database|
        #[trigger] entry_deleted(b, a, parsed_uuid(entry_id)->0) && saved_from(input, password, key_file, p, b, a)
            && no_title(stored_entries(b).remove(parsed_uuid(entry_id)->0), hyphenated(parsed_uuid(entry_id)->0))
        implies saved_as_expected(p, a) by {
        assert(stored_groups(b).contains_key(stored_entries(b)[id].0));
        assert(stored_groups(a).dom() =~= stored_groups(b).dom());
        lemma_same_shape(b, a);
        assert(stored_entries(a).dom() =~= stored_entries(b).dom().remove(id));
        assert(!stored_entries(a).contains_key(id));
    }
}

/// Whatever database a rename saves holds the counts of its input, the counts it
/// expects.
pub proof fn rename_saves_as_expected(input: VaultFile, password: Seq<char>, key_file: Option<Seq<u8>>, p: PendingWrite, group_path: Seq<char>, new_name: Seq<char>)
    requires
        p.check is Nothing,
        p.expected_group_count == p.input_group_count,
        p.expected_entry_count == p.input_entry_count,
    ensures
        forall|b: Database, a: Database, g: u128|
            #[trigger] group_renamed(b, a, g, new_name) && saved_from(input, password, key_file, p, b, a)
            && lookup_group(b, group_path) == Some(g) && crate::vault::opt_view(p.changed_entry_id) == Some(hyphenated(g))
            ==> saved_as_expected(p, a),
{
    assert forall|b: Database, a: Database, g: u128|
        #[trigger] group_renamed(b, a, g, new_name) && saved_from(input, password, key_file, p, b, a)
            && lookup_group(b, group_path) == Some(g) && crate::vault::opt_view(p.changed_entry_id) == Some(hyphenated(g))
        implies saved_as_expected(p, a) by {
        lemma_lookup_found(b, group_path);
        assert(stored_groups(a).dom() =~= stored_groups(b).dom());
        lemma_same_shape(b, a);
    }
}

/// Whatever database a move saves holds the counts of its input, the counts it
/// expects.
pub proof fn move_saves_as_expected(input: VaultFile, password: Seq<char>, key_file: Option<Seq<u8>>, p: PendingWrite, selector: SelectorView, group_path: Seq<char>)
    requires
        p.check is Nothing,
        p.expected_group_count == p.input_group_count,
        p.expected_entry_count == p.input_entry_count,
    ensures
        forall|b: Database, a: Database, id: u128, g: u128|
            #[trigger] entry_moved(b, a, id, g) && saved_from(input, password, key_file, p, b, a)
            && lookup_group(b, group_path) == Some(g) && crate::vault::opt_view(p.changed_entry_id) == Some(hyphenated(id))
            ==> saved_as_expected(p, a),
{
    assert forall|b: Database, a: Database, id: u128, g: u128|
        #[trigger] entry_moved(b, a, id, g) && saved_from(input, password, key_file, p, b, a)
            && lookup_group(b, group_path) == Some(g) && crate::vault::opt_view(p.changed_entry_id) == Some(hyphenated(id))
        implies saved_as_expected(p, a) by {
        lemma_lookup_found(b, group_path);
        assert(stored_groups(b).contains_key(stored_entries(b)[id].0));
        assert(stored_groups(a).dom() =~= stored_groups(b).dom());
        lemma_same_shape(b, a);
        assert(stored_entries(a).dom() =~= stored_entries(b).dom());
    }
}

/// Whatever database an upgrade saves holds the counts of its input, the counts
/// it expects.
pub proof fn upgrade_saves_as_expected(input: VaultFile, password: Seq<char>, key_file: Option<Seq<u8>>, p: PendingWrite)
    requires
        p.check is Nothing,
        p.expected_group_count == p.input_group_count,
        p.expected_entry_count == p.input_entry_count,
    ensures
        forall|b: Database, a: Database|
            #[trigger] same_tree(b, a) && saved_from(input, password, key_file, p, b, a)
            ==> saved_as_expected(p, a),
{
    assert forall|b: Database, a: Database|
        #[trigger] same_tree(b, a) && saved_from(input, password, key_file, p, b, a)
        implies saved_as_expected(p, a) by {
        assert(view_counts(db_view(a)) == view_counts(db_view(b)));
    }
}

/// Whatever database a group add saves holds one group more and the same
/// entries, the counts it expects (where the input's count of groups leaves
/// room for one).
pub proof fn group_add_saves_as_expected(input: VaultFile, password: Seq<char>, key_file: Option<Seq<u8>>, p: PendingWrite, group_path: Seq<char>)
    requires
        p.check is Nothing,
        p.expected_group_count == p.input_group_count.saturating_add(1),
        p.expected_entry_count == p.input_entry_count,
        p.input_group_count < usize::MAX,
    ensures
        forall|b: Database, a: Database, q: u128, id: u128|
            #[trigger] group_added(b, a, q, id, crate::paths::parent_and_name(group_path).1)
            && saved_from(input, password, key_file, p, b, a)
            && new_group_parent(b, group_path) == Some(q)
            && crate::vault::opt_view(p.changed_entry_id) == Some(hyphenated(id))
            ==> saved_as_expected(p, a),
{
    assert forall|b: Database, a: Database, q: u128, id: u128|
        #[trigger] group_added(b, a, q, id, crate::paths::parent_and_name(group_path).1)
            && saved_from(input, password, key_file, p, b, a)
            && new_group_parent(b, group_path) == Some(q)
            && crate::vault::opt_view(p.changed_entry_id) == Some(hyphenated(id))
        implies saved_as_expected(p, a) by {
        if crate::paths::parent_and_name(group_path).0.len() != 0 {
            lemma_lookup_found(b, crate::paths::parent_and_name(group_path).0);
        }
        let gs = stored_groups(b);
        assert(gs.contains_key(q));
        assert(stored_groups(a).dom() =~= gs.dom().insert(id));
        group_count_is_number_of_groups(b);
        group_count_is_number_of_groups(a);
    }
}

/// Deleting a group from a tidy database leaves as many groups fewer as its
/// subtree held and as many entries fewer as the subtree's groups held.
proof fn lemma_group_delete_counts(b: Database, a: Database, g: u128)
    requires
        tidy(b),
        tidy(a),
        group_deleted(b, a, g),
        stored_groups(b).contains_key(g),
        g != stored_root(b),
    ensures
        view_counts(db_view(a)).0 == view_counts(db_view(b)).0 - subtree(stored_groups(b), g).len(),
        view_counts(db_view(a)).1 == view_counts(db_view(b)).1 - subtree_entries(stored_groups(b), stored_entries(b), g).len(),
{
    let gs = stored_groups(b);
    let es = stored_entries(b);
    let q = gs[g].0->0;
    let sub = subtree(gs, g);
    let gone = subtree_entries(gs, es, g);
    assert(gs.contains_key(q) && gs[q].2.contains(g));
    assert(!sub.contains(q)) by {
        crate::census::lemma_parent_misses_child(b, q, g, gs.len());
    }
    assert(sub =~= gs.dom().intersect(sub));
    assert(gone =~= es.dom().intersect(gone));
    assert(stored_groups(a).dom() =~= gs.dom().difference(sub));
    assert(stored_entries(a).dom() =~= es.dom().difference(gone));
    vstd::set_lib::lemma_set_difference_len(gs.dom(), sub);
    vstd::set_lib::lemma_set_difference_len(es.dom(), gone);
    group_count_is_number_of_groups(b);
    group_count_is_number_of_groups(a);
}

/// Whatever database a group delete saves holds the counts it expects: as many
/// groups fewer as the deleted subtree held, and as many entries fewer as
/// its groups held.
pub proof fn group_delete_saves_as_expected(input: VaultFile, password: Seq<char>, key_file: Option<Seq<u8>>, p: PendingWrite, group_path: Seq<char>)
    requires
        p.check is Nothing,
    ensures
        forall|b: Database, a: Database, g: u128|
            #[trigger] group_deleted(b, a, g) && saved_from(input, password, key_file, p, b, a)
            && lookup_group(b, group_path) == Some(g) && crate::vault::opt_view(p.changed_entry_id) == Some(hyphenated(g))
            && p.expected_group_count == p.input_group_count - subtree(stored_groups(b), g).len()
            && p.expected_entry_count == p.input_entry_count - subtree_entries(stored_groups(b), stored_entries(b), g).len()
            ==> saved_as_expected(p, a),
{
    assert forall|b: Database, a: Database, g: u128|
        #[trigger] group_deleted(b, a, g) && saved_from(input, password, key_file, p, b, a)
            && lookup_group(b, group_path) == Some(g) && crate::vault::opt_view(p.changed_entry_id) == Some(hyphenated(g))
            && p.expected_group_count == p.input_group_count - subtree(stored_groups(b), g).len()
            && p.expected_entry_count == p.input_entry_count - subtree_entries(stored_groups(b), stored_entries(b), g).len()
        implies saved_as_expected(p, a) by {
        lemma_lookup_found(b, group_path);
        lemma_group_delete_counts(b, a, g);
    }
}

/// The report of a finished save-as.
pub open spec fn reports(p: PendingWrite, r: WriteReport) -> bool {
    &&& r.operation == p.operation
    &&& r.input_path@ == p.input_path@
    &&& r.output_path@ == p.output_path@
    &&& r.input_version == p.input_version
    &&& r.output_version == kdbx41()
    &&& r.input_group_count == p.input_group_count
    &&& r.input_entry_count == p.input_entry_count
    &&& r.output_group_count == p.expected_group_count
    &&& r.output_entry_count == p.expected_entry_count
    &&& crate::vault::opt_view(r.changed_entry_id) == crate::vault::opt_view(p.changed_entry_id)
    &&& r.backup_path is None
    &&& r.final_target_path is None
}

/// The last stage of a save-as: opens the bytes read back from the temporary
/// file (`OpenDatabase` where they do not unlock), checks them with
/// [`verify_saved`], and reports.
pub fn finish_save_as(pending: &PendingWrite, key: &UnlockKey, saved: &[u8]) -> (r: Result<WriteReport, AnahtarError>)
    ensures
        !unlocks(saved@, key.password@, key_bytes(*key)) ==> (r matches Err(e) && e is OpenDatabase),
        r matches Ok(report) ==> reports(*pending, report),
        r is Ok ==> reads_back_counts(*pending, saved@, key.password@, key_bytes(*key)),
        reads_back_passing(*pending, saved@, key.password@, key_bytes(*key)) ==> r is Ok,
{
    let db = match open_database_with_credentials(saved, key) {
        Ok(db) => db,
        Err(e) => return Err(e),
    };
    match verify_saved(&db, pending) {
        Err(e) => Err(e),
        Ok((groups, entries)) => Ok(WriteReport {
            operation: pending.operation,
            input_path: pending.input_path.clone(),
            output_path: pending.output_path.clone(),
            input_version: pending.input_version,
            output_version: KdbxVersion::Kdbx { major: 4, minor: 1 },
            input_group_count: pending.input_group_count,
            input_entry_count: pending.input_entry_count,
            output_group_count: groups,
            output_entry_count: entries,
            changed_entry_id: match &pending.changed_entry_id { Some(id) => Some(id.clone()), None => None },
            backup_path: None,
            final_target_path: None,
        }),
    }
}

/// An upgrade's report with the output counts of its finished save-as.
pub fn upgrade_report_of(report: UpgradeReport, done: &WriteReport) -> (out: UpgradeReport)
    ensures
        out.input_path == report.input_path && out.output_path == report.output_path
            && out.input_version == report.input_version && out.output_version == report.output_version
            && out.input_group_count == report.input_group_count && out.input_entry_count == report.input_entry_count
            && out.output_group_count == Some(done.output_group_count)
            && out.output_entry_count == Some(done.output_entry_count)
            && out.dry_run == report.dry_run && out.warning == report.warning,
{
    let mut out = report;
    out.output_group_count = Some(done.output_group_count);
    out.output_entry_count = Some(done.output_entry_count);
    out
}

/// The last stage of an upgrade: as [`finish_save_as`], with the output
/// counts filled into the upgrade's report.
pub fn finish_upgrade(report: UpgradeReport, pending: &PendingWrite, key: &UnlockKey, saved: &[u8]) -> (r: Result<UpgradeReport, AnahtarError>)
    ensures
        !unlocks(saved@, key.password@, key_bytes(*key)) ==> (r matches Err(e) && e is OpenDatabase),
        r matches Ok(out) ==> out.input_path == report.input_path && out.output_path == report.output_path
            && out.input_version == report.input_version && out.output_version == report.output_version
            && out.input_group_count == report.input_group_count && out.input_entry_count == report.input_entry_count
            && out.output_group_count == Some(pending.expected_group_count)
            && out.output_entry_count == Some(pending.expected_entry_count)
            && out.dry_run == report.dry_run && out.warning == report.warning,
        reads_back_passing(*pending, saved@, key.password@, key_bytes(*key)) ==> r is Ok,
{
    match finish_save_as(pending, key, saved) {
        Err(e) => Err(e),
        Ok(done) => Ok(upgrade_report_of(report, &done)),
    }
}

/// Which read-back an in-place write checks: the temporary copy, or the
/// replaced vault (with or without a backup to restore it from).
#[derive(Clone, Copy, PartialEq, Eq, Structural, Debug)]
pub enum InPlaceStage {
    Temporary,
    FinalWithBackup,
    FinalWithoutBackup,
}

/// The message of a failed in-place check.
pub open spec fn in_place_mismatch(stage: InPlaceStage) -> Seq<char> {
    match stage {
        InPlaceStage::Temporary => "temporary in-place verification count mismatch"@,
        InPlaceStage::FinalWithBackup => "final in-place verification count mismatch; restored target from backup"@,
        InPlaceStage::FinalWithoutBackup => "final in-place verification count mismatch"@,
    }
}

/// The bytes open with the key to a database whose group and entry counts
/// meet `p`.
pub open spec fn copy_counts(data: Seq<u8>, password: Seq<char>, key_file: Option<Seq<u8>>, p: spec_fn(usize, usize) -> bool) -> bool {
    exists|db: Database, groups: usize| parsed_as(data, password, key_file, db)
        && #[trigger] counts_groups(db, groups) && p(groups, stored_entries(db).len() as usize)
}

/// Checks a copy read back during an in-place write: it must unlock
/// (`OpenDatabase` otherwise) and hold the report's output counts
/// (`VerificationFailed` with the stage's message otherwise).
pub fn check_in_place_copy(report: &WriteReport, key: &UnlockKey, data: &[u8], stage: InPlaceStage) -> (r: Result<(), AnahtarError>)
    ensures
        !unlocks(data@, key.password@, key_bytes(*key)) ==> (r matches Err(e) && e is OpenDatabase),
        unlocks(data@, key.password@, key_bytes(*key)) ==> (r is Ok || r matches Err(AnahtarError::VerificationFailed(_))),
        r matches Err(AnahtarError::VerificationFailed(m)) ==> m@ == in_place_mismatch(stage)
            && copy_counts(data@, key.password@, key_bytes(*key), |g: usize, e: usize| g != report.output_group_count || e != report.output_entry_count),
        r is Ok ==> copy_counts(data@, key.password@, key_bytes(*key), |g: usize, e: usize| g == report.output_group_count && e == report.output_entry_count),
{
    let db = match open_database_with_credentials(data, key) {
        Ok(db) => db,
        Err(e) => return Err(e),
    };
    let (_, groups, entries) = input_stats(&db);
    assert(parsed_as(data@, key.password@, key_bytes(*key), db));
    if groups != report.output_group_count || entries != report.output_entry_count {
        let msg = match stage {
            InPlaceStage::Temporary => "temporary in-place verification count mismatch".to_owned(),
            InPlaceStage::FinalWithBackup => "final in-place verification count mismatch; restored target from backup".to_owned(),
            InPlaceStage::FinalWithoutBackup => "final in-place verification count mismatch".to_owned(),
        };
        return Err(AnahtarError::VerificationFailed(msg));
    }
    Ok(())
}

/// The report of an in-place write: the target as output and final path,
/// with the backup where one was made.
pub fn in_place_report(report: WriteReport, target: &str, backup: Option<String>) -> (r: WriteReport)
    ensures
        r.output_path@ == target@,
        r.final_target_path matches Some(t) && t@ == target@,
        r.backup_path == backup,
        r.operation == report.operation,
        r.input_path == report.input_path,
        r.input_version == report.input_version,
        r.output_version == report.output_version,
        r.input_group_count == report.input_group_count,
        r.input_entry_count == report.input_entry_count,
        r.output_group_count == report.output_group_count,
        r.output_entry_count == report.output_entry_count,
        r.changed_entry_id == report.changed_entry_id,
{
    let mut r = report;
    r.output_path = target.to_owned();
    r.backup_path = backup;
    r.final_target_path = Some(target.to_owned());
    r
}

} // verus!
