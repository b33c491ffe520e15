//! Opening a vault and changing it: the group lookup by path, and adding,
//! editing, deleting and moving entries and groups in an opened database.
use vstd::prelude::*;
use keepass::Database;
use crate::error::AnahtarError;
use crate::ids::{hyphenated, parsed_uuid, parse_uuid, uuid_text};
use crate::kdbx::{
    stored_groups, stored_entries, stored_root, stored_format, tidy, unlocks, key_view, same_tree, opened, parsed_as, kdbx_file, db_view,
    parse_database, read_vault, vault_mirrors, group_node, entry_node, root_group_id, walk_path,
    first_named, name_views, descends, group_at_path, has_child_named, with_entry, with_child, without_entry,
    without_child, subtree, subtree_entries, add_entry_to, set_plain_field, set_protected_field, remove_entry,
    move_entry_to, add_group_to, set_group_name, remove_group, drop_id,
};
use crate::paths::{
    valid_group_path, split_slash, string_views, group_path_parts, valid_new_group_path,
    parent_and_name, split_group_parent,
};
use crate::query::{EntrySelector, SelectorView, label_of, matching, resolve_error, selector_label, resolve_entry_summary_by_selector};
use crate::text::{eq_ignore_case, eq_ignore_ascii_case, push_str};
use crate::vault::{Vault, key_title, key_username, key_password, key_url, key_notes, title_key, username_key, password_key, url_key, notes_key};

verus! {

/// A vault's password and, optionally, the path of its key file.
#[derive(Debug)]
pub struct VaultCredentials {
    pub password: String,
    pub key_file: Option<String>,
}

impl VaultCredentials {
    /// Credentials made of a password alone.
    pub fn password_only(password: &str) -> (r: VaultCredentials)
        ensures
            r.password@ == password@,
            r.key_file is None,
    {
        VaultCredentials { password: password.to_owned(), key_file: None }
    }

    /// Credentials made of a password and a key file.
    pub fn with_key_file(password: &str, key_file: &str) -> (r: VaultCredentials)
        ensures
            r.password@ == password@,
            r.key_file matches Some(k) && k@ == key_file@,
    {
        VaultCredentials { password: password.to_owned(), key_file: Some(key_file.to_owned()) }
    }
}

/// What unlocks a vault: the password and the bytes of the key file, if any.
#[derive(Debug)]
pub struct UnlockKey {
    pub password: String,
    pub key_file: Option<Vec<u8>>,
}

impl UnlockKey {
    /// A key made of a password alone.
    pub fn password_only(password: &str) -> (r: UnlockKey)
        ensures
            r.password@ == password@,
            r.key_file is None,
    {
        UnlockKey { password: password.to_owned(), key_file: None }
    }
}

/// The key file bytes of an unlock key.
pub open spec fn key_bytes(k: UnlockKey) -> Option<Seq<u8>> {
    match k.key_file {
        Some(b) => Some(b@),
        None => None,
    }
}

fn key_slice(k: &UnlockKey) -> (r: Option<&[u8]>)
    ensures
        key_view(r) == key_bytes(*k),
{
    match &k.key_file {
        Some(b) => Some(b.as_slice()),
        None => None,
    }
}

/// Opens a vault from its bytes; `OpenDatabase` where the key does not unlock it.
pub fn open_database_with_credentials(data: &[u8], key: &UnlockKey) -> (r: Result<Database, AnahtarError>)
    ensures
        r is Ok <==> unlocks(data@, key.password@, key_bytes(*key)),
        r matches Err(e) ==> e is OpenDatabase,
        r matches Ok(db) ==> parsed_as(data@, key.password@, key_bytes(*key), db),
{
    match parse_database(data, key.password.as_str(), key_slice(key)) {
        Some(db) => Ok(db),
        None => Err(AnahtarError::OpenDatabase),
    }
}

/// Opens a vault with a password alone.
pub fn open_database(data: &[u8], password: &str) -> (r: Result<Database, AnahtarError>)
    ensures
        r is Ok <==> unlocks(data@, password@, None),
        r matches Err(e) ==> e is OpenDatabase,
        r matches Ok(db) ==> parsed_as(data@, password@, None, db),
{
    open_database_with_credentials(data, &UnlockKey::password_only(password))
}

/// `v` is a vault that `data` opens to with the key: the library's copy of a
/// database that `Database::parse` makes of it (see [`parsed_as`]).
pub open spec fn opens_to(data: Seq<u8>, password: Seq<char>, key_file: Option<Seq<u8>>, v: Vault) -> bool {
    exists|db: Database| parsed_as(data, password, key_file, db) && #[trigger] vault_mirrors(v, db)
}

/// Opens a vault and reads it whole.
pub fn open_vault(data: &[u8], key: &UnlockKey) -> (r: Result<Vault, AnahtarError>)
    ensures
        r is Ok <==> unlocks(data@, key.password@, key_bytes(*key)),
        r matches Err(e) ==> e is OpenDatabase,
        r matches Ok(v) ==> opens_to(data@, key.password@, key_bytes(*key), v),
{
    match open_database_with_credentials(data, key) {
        Ok(db) => match read_vault(&db) {
            Some(v) => {
                assert(parsed_as(data@, key.password@, key_bytes(*key), db));
                Ok(v)
            },
            None => Err(AnahtarError::OpenDatabase),
        },
        Err(e) => Err(e),
    }
}

/// The name of the root group.
pub open spec fn root_name(db: Database) -> Seq<char> {
    stored_groups(db)[stored_root(db)].1
}

/// The group a path names: valid, not starting with the root's own name
/// (ASCII case ignored), and found by following child groups from the root.
pub open spec fn lookup_group(db: Database, p: Seq<char>) -> Option<u128> {
    if !valid_group_path(p) || eq_ignore_case(split_slash(p)[0], root_name(db)) {
        None
    } else {
        walk_path(stored_groups(db), stored_root(db), split_slash(p))
    }
}

/// The error of a group path that names no group: `InvalidGroupPath` for a
/// malformed path or one that starts with the root's name, else `GroupNotFound`.
pub open spec fn lookup_error(db: Database, p: Seq<char>, e: AnahtarError) -> bool {
    if !valid_group_path(p) || eq_ignore_case(split_slash(p)[0], root_name(db)) {
        e matches AnahtarError::InvalidGroupPath(t) && t@ == p
    } else {
        e matches AnahtarError::GroupNotFound(t) && t@ == p
    }
}

/// A group that a path of names reaches from a group is a group of the
/// database below it, never the root itself.
pub proof fn lemma_walk_found(db: Database, cur: u128, parts: Seq<Seq<char>>)
    requires
        tidy(db),
        parts.len() > 0,
        walk_path(stored_groups(db), cur, parts) is Some,
    ensures
        stored_groups(db).contains_key(walk_path(stored_groups(db), cur, parts)->0),
        walk_path(stored_groups(db), cur, parts)->0 != stored_root(db),
    decreases parts.len(),
{
    let gs = stored_groups(db);
    lemma_first_named(gs, gs[cur].2, parts[0]);
    let c = first_named(gs, gs[cur].2, parts[0])->0;
    assert(gs[cur].2.contains(c));
    if parts.len() > 1 {
        lemma_walk_found(db, c, parts.drop_first());
    } else {
        assert(walk_path(gs, c, parts.drop_first()) == Some(c));
    }
}

/// The first id with a name is one of the ids, of a group the database holds.
pub proof fn lemma_first_named(gs: Map<u128, (Option<u128>, Seq<char>, Seq<u128>, Seq<u128>)>, ids: Seq<u128>, name: Seq<char>)
    ensures
        first_named(gs, ids, name) matches Some(c) ==> ids.contains(c) && gs.contains_key(c),
    decreases ids.len(),
{
    if ids.len() > 0 && !(gs.contains_key(ids[0]) && eq_ignore_case(gs[ids[0]].1, name)) {
        lemma_first_named(gs, ids.drop_first(), name);
        if first_named(gs, ids.drop_first(), name) is Some {
            let c = first_named(gs, ids.drop_first(), name)->0;
            let k = choose|k: int| 0 <= k < ids.drop_first().len() && ids.drop_first()[k] == c;
            assert(ids[k + 1] == c);
        }
    } else if ids.len() > 0 {
        assert(ids[0] == ids[0]);
    }
}

/// A group that a path names is a group of the database, never the root.
pub proof fn lemma_lookup_found(db: Database, p: Seq<char>)
    requires
        tidy(db),
        lookup_group(db, p) is Some,
    ensures
        stored_groups(db).contains_key(lookup_group(db, p)->0),
        lookup_group(db, p)->0 != stored_root(db),
{
    crate::paths::lemma_split_nonempty(p);
    lemma_walk_found(db, stored_root(db), split_slash(p));
}

/// Finds the group that a path names, below the root.
pub fn group_id_by_path(db: &Database, group_path: &str) -> (r: Result<u128, AnahtarError>)
    requires
        tidy(*db),
    ensures
        match lookup_group(*db, group_path@) {
            Some(g) => r matches Ok(id) && id == g,
            None => r matches Err(e) && lookup_error(*db, group_path@, e),
        },
        r matches Ok(id) ==> stored_groups(*db).contains_key(id) && id != stored_root(*db),
{
    let parts = match group_path_parts(group_path) {
        Ok(p) => p,
        Err(e) => return Err(e),
    };
    proof { crate::paths::lemma_split_nonempty(group_path@); }
    assert(string_views(parts@)[0] == parts@[0]@);
    let root = root_group_id(db);
    let root_name = match group_node(db, root) {
        Some(node) => node.0,
        None => return Err(AnahtarError::GroupNotFound(group_path.to_owned())),
    };
    if eq_ignore_ascii_case(parts[0].as_str(), root_name.as_str()) {
        return Err(AnahtarError::InvalidGroupPath(group_path.to_owned()));
    }
    assert(name_views(parts@) =~= split_slash(group_path@));
    match group_at_path(db, &parts) {
        Some(id) => {
            proof { lemma_walk_found(*db, root, split_slash(group_path@)); }
            Ok(id)
        },
        None => Err(AnahtarError::GroupNotFound(group_path.to_owned())),
    }
}

/// What to put into a new entry.
#[derive(Debug)]
pub struct AddEntryRequest {
    pub group_path: String,
    pub title: String,
    pub username: Option<String>,
    pub password: Option<String>,
    pub url: Option<String>,
    pub notes: Option<String>,
}

/// `m` with `key` set to `value` where a value is given.
pub open spec fn set_if(m: Map<Seq<char>, (Seq<char>, bool)>, key: Seq<char>, value: Option<String>, protected: bool) -> Map<Seq<char>, (Seq<char>, bool)> {
    match value {
        Some(v) => m.insert(key, (v@, protected)),
        None => m,
    }
}

/// The fields of a new entry: the title, and the user name, password
/// (protected), URL and notes where given.
pub open spec fn new_entry_fields(req: AddEntryRequest) -> Map<Seq<char>, (Seq<char>, bool)> {
    let m = Map::<Seq<char>, (Seq<char>, bool)>::empty().insert(key_title(), (req.title@, false));
    set_if(set_if(set_if(set_if(m, key_username(), req.username, false), key_password(), req.password, true), key_url(), req.url, false), key_notes(), req.notes, false)
}

/// The database is unchanged.
pub open spec fn unchanged(a: Database, b: Database) -> bool {
    same_tree(a, b) && stored_format(a) == stored_format(b)
}

fn set_plain_if(db: &mut Database, entry: u128, key: &str, value: &Option<String>)
    requires
        stored_entries(*old(db)).contains_key(entry),
    ensures
        stored_entries(*final(db)) == stored_entries(*old(db)).insert(entry,
            (stored_entries(*old(db))[entry].0, set_if(stored_entries(*old(db))[entry].1, key@, *value, false))),
        stored_groups(*final(db)) == stored_groups(*old(db)),
        stored_root(*final(db)) == stored_root(*old(db)),
        stored_format(*final(db)) == stored_format(*old(db)),
        tidy(*old(db)) ==> tidy(*final(db)),
{
    match value {
        Some(v) => set_plain_field(db, entry, key, v.as_str()),
        None => {
            assert(stored_entries(*old(db)).insert(entry, stored_entries(*old(db))[entry]) =~= stored_entries(*old(db)));
        },
    }
}

fn set_protected_if(db: &mut Database, entry: u128, key: &str, value: &Option<String>)
    requires
        stored_entries(*old(db)).contains_key(entry),
    ensures
        stored_entries(*final(db)) == stored_entries(*old(db)).insert(entry,
            (stored_entries(*old(db))[entry].0, set_if(stored_entries(*old(db))[entry].1, key@, *value, true))),
        stored_groups(*final(db)) == stored_groups(*old(db)),
        stored_root(*final(db)) == stored_root(*old(db)),
        stored_format(*final(db)) == stored_format(*old(db)),
        tidy(*old(db)) ==> tidy(*final(db)),
{
    match value {
        Some(v) => set_protected_field(db, entry, key, v.as_str()),
        None => {
            assert(stored_entries(*old(db)).insert(entry, stored_entries(*old(db))[entry]) =~= stored_entries(*old(db)));
        },
    }
}

/// `a` is `b` with a new entry `id` at the end of group `g`, holding the
/// fields of the request.
pub open spec fn entry_added(b: Database, a: Database, g: u128, id: u128, req: AddEntryRequest) -> bool {
    &&& !stored_entries(b).contains_key(id)
    &&& stored_entries(a) == stored_entries(b).insert(id, (g, new_entry_fields(req)))
    &&& stored_groups(a) == stored_groups(b).insert(g, with_entry(stored_groups(b)[g], id))
    &&& stored_root(a) == stored_root(b)
}

/// Dropping an id that a list does not hold leaves the list as it is.
proof fn lemma_drop_absent(s: Seq<u128>, x: u128)
    requires
        !s.contains(x),
    ensures
        drop_id(s, x) == s,
    decreases s.len(),
{
    if s.len() > 0 {
        assert(!s.drop_last().contains(x)) by {
            if s.drop_last().contains(x) {
                let k = choose|k: int| 0 <= k < s.drop_last().len() && s.drop_last()[k] == x;
                assert(s[k] == x);
            }
        }
        lemma_drop_absent(s.drop_last(), x);
        assert(s[s.len() - 1] != x);
        assert(s.drop_last().push(s.last()) =~= s);
    }
}

/// Dropping an id just pushed drops nothing else.
proof fn lemma_drop_pushed(s: Seq<u128>, x: u128)
    ensures
        drop_id(s.push(x), x) == drop_id(s, x),
{
    assert(s.push(x).drop_last() =~= s);
}

/// Deleting an entry right after adding it gives back the groups and the
/// entries as they were.
pub proof fn delete_undoes_add(b: Database, m: Database, a: Database, g: u128, id: u128, req: AddEntryRequest)
    requires
        tidy(b),
        stored_groups(b).contains_key(g),
        entry_added(b, m, g, id, req),
        entry_deleted(m, a, id),
    ensures
        stored_entries(a) == stored_entries(b),
        stored_groups(a) == stored_groups(b),
        stored_root(a) == stored_root(b),
{
    let gs = stored_groups(b);
    let es = stored_entries(b);
    assert(stored_entries(a) =~= es);
    assert(!gs[g].3.contains(id));
    assert(stored_entries(m)[id].0 == g);
    lemma_drop_absent(gs[g].3, id);
    lemma_drop_pushed(gs[g].3, id);
    let n = with_entry(gs[g], id);
    assert(without_entry(n, id).3 == gs[g].3);
    assert(without_entry(n, id) == gs[g]);
    assert(stored_groups(a) =~= gs);
}

/// Renaming a group back to its old name gives back the groups as they were.
pub proof fn rename_back_undoes_rename(b: Database, m: Database, a: Database, g: u128, name: Seq<char>)
    requires
        stored_groups(b).contains_key(g),
        group_renamed(b, m, g, name),
        group_renamed(m, a, g, stored_groups(b)[g].1),
    ensures
        stored_groups(a) == stored_groups(b),
        stored_entries(a) == stored_entries(b),
        stored_root(a) == stored_root(b),
{
    assert(stored_groups(a) =~= stored_groups(b));
}

/// Adds an entry to the group that the request's path names: a new entry with
/// a fresh UUID at the end of the group's entries, holding the request's
/// fields. Fails as [`group_id_by_path`] does, changing nothing.
pub fn apply_add_entry(db: &mut Database, request: &AddEntryRequest) -> (r: Result<u128, AnahtarError>)
    requires
        tidy(*old(db)),
    ensures
        tidy(*final(db)),
        match lookup_group(*old(db), request.group_path@) {
            None => r matches Err(e) && lookup_error(*old(db), request.group_path@, e) && unchanged(*old(db), *final(db)),
            Some(g) => r matches Ok(id) && entry_added(*old(db), *final(db), g, id, *request)
                && stored_format(*final(db)) == stored_format(*old(db)),
        },
{
    let group = match group_id_by_path(db, request.group_path.as_str()) {
        Ok(g) => g,
        Err(e) => return Err(e),
    };
    let ghost before = *db;
    let id = add_entry_to(db, group);
    let ghost added = *db;
    set_plain_field(db, id, title_key(), request.title.as_str());
    set_plain_if(db, id, username_key(), &request.username);
    set_protected_if(db, id, password_key(), &request.password);
    set_plain_if(db, id, url_key(), &request.url);
    set_plain_if(db, id, notes_key(), &request.notes);
    proof {
        assert(stored_entries(*db) =~= stored_entries(before).insert(id, (group, new_entry_fields(*request))));
    }
    Ok(id)
}

/// Which fields an edit sets; the others stay as they are.
#[derive(Debug)]
pub struct EditEntryRequest {
    pub title: Option<String>,
    pub username: Option<String>,
    pub password: Option<String>,
    pub url: Option<String>,
    pub notes: Option<String>,
}

impl EditEntryRequest {
    /// An edit that sets nothing.
    pub fn empty() -> (r: EditEntryRequest)
        ensures
            r.title is None && r.username is None && r.password is None && r.url is None && r.notes is None,
    {
        EditEntryRequest { title: None, username: None, password: None, url: None, notes: None }
    }
}

/// The fields of an entry after an edit.
pub open spec fn edited_fields(m: Map<Seq<char>, (Seq<char>, bool)>, req: EditEntryRequest) -> Map<Seq<char>, (Seq<char>, bool)> {
    set_if(set_if(set_if(set_if(set_if(m, key_title(), req.title, false), key_username(), req.username, false), key_password(), req.password, true), key_url(), req.url, false), key_notes(), req.notes, false)
}

/// What an edit request sets a field to, if anything.
pub open spec fn edit_sets(req: EditEntryRequest, k: Seq<char>) -> Option<(Seq<char>, bool)> {
    if k == key_title() && req.title is Some {
        Some((req.title->0@, false))
    } else if k == key_username() && req.username is Some {
        Some((req.username->0@, false))
    } else if k == key_password() && req.password is Some {
        Some((req.password->0@, true))
    } else if k == key_url() && req.url is Some {
        Some((req.url->0@, false))
    } else if k == key_notes() && req.notes is Some {
        Some((req.notes->0@, false))
    } else {
        None
    }
}

/// An edit sets exactly the fields that the request gives (the password
/// stored protected) and leaves every other field of the entry as it was.
pub proof fn edit_changes_only_given_fields(m: Map<Seq<char>, (Seq<char>, bool)>, req: EditEntryRequest, k: Seq<char>)
    ensures
        edit_sets(req, k) matches Some(v) ==> edited_fields(m, req).contains_key(k) && edited_fields(m, req)[k] == v,
        edit_sets(req, k) is None ==> (edited_fields(m, req).contains_key(k) == m.contains_key(k)
            && (m.contains_key(k) ==> edited_fields(m, req)[k] == m[k])),
{
    assert(key_title() != key_username() && key_title() != key_password() && key_title() != key_url() && key_title() != key_notes()) by {
        assert(key_title().len() != key_username().len() && key_title().len() != key_password().len());
        assert(key_title()[0] != key_url()[0] && key_title()[0] != key_notes()[0]);
    }
    assert(key_username() != key_password() && key_username() != key_url() && key_username() != key_notes()) by {
        assert(key_username()[0] != key_password()[0] && key_username().len() != key_url().len());
        assert(key_username()[0] != key_notes()[0]);
    }
    assert(key_password() != key_url() && key_password() != key_notes()) by {
        assert(key_password()[0] != key_url()[0] && key_password()[0] != key_notes()[0]);
    }
    assert(key_url() != key_notes()) by {
        assert(key_url().len() != key_notes().len());
    }
}

/// What resolving a selector to an entry UUID gives: the resolution's error,
/// or the UUID of the resolved id, or `EntryNotFound` with the selector's
/// label where the id does not parse as a UUID.
pub open spec fn resolves_to_id(v: Vault, sel: SelectorView, r: Result<u128, AnahtarError>) -> bool {
    let m = matching(v, sel);
    if m.len() != 1 {
        r matches Err(e) && resolve_error(v, sel, e)
    } else {
        match parsed_uuid(m[0].id) {
            Some(u) => r matches Ok(id) && id == u,
            None => r matches Err(AnahtarError::EntryNotFound(t)) && t@ == label_of(sel),
        }
    }
}

/// The UUID of the one entry that a selector names.
pub fn resolve_unique_entry_id_by_selector(vault: &Vault, selector: &EntrySelector) -> (r: Result<u128, AnahtarError>)
    ensures
        resolves_to_id(*vault, selector@, r),
{
    match resolve_entry_summary_by_selector(vault, selector) {
        Err(e) => Err(e),
        Ok(summary) => match parse_uuid(summary.id.as_str()) {
            Some(u) => Ok(u),
            None => Err(AnahtarError::EntryNotFound(selector_label(selector))),
        },
    }
}

/// The UUID of the one entry named by UUID or title.
pub fn resolve_unique_entry_id(vault: &Vault, selector: &str) -> (r: Result<u128, AnahtarError>)
    ensures
        resolves_to_id(*vault, SelectorView::Auto(selector@), r),
{
    resolve_unique_entry_id_by_selector(vault, &EntrySelector::Auto(selector.to_owned()))
}

/// `a` is `b` with the fields of entry `id` edited as the request says.
pub open spec fn entry_edited(b: Database, a: Database, id: u128, req: EditEntryRequest) -> bool {
    &&& stored_entries(b).contains_key(id)
    &&& stored_entries(a) == stored_entries(b).insert(id, (stored_entries(b)[id].0, edited_fields(stored_entries(b)[id].1, req)))
    &&& stored_groups(a) == stored_groups(b)
    &&& stored_root(a) == stored_root(b)
}

/// `a` is `b` without entry `id`, which its group no longer lists.
pub open spec fn entry_deleted(b: Database, a: Database, id: u128) -> bool {
    &&& stored_entries(b).contains_key(id)
    &&& stored_entries(a) == stored_entries(b).remove(id)
    &&& stored_groups(a) == stored_groups(b).insert(stored_entries(b)[id].0, without_entry(stored_groups(b)[stored_entries(b)[id].0], id))
    &&& stored_root(a) == stored_root(b)
}

/// `a` is `b` with entry `id` moved, fields unchanged, to the end of group `g`.
pub open spec fn entry_moved(b: Database, a: Database, id: u128, g: u128) -> bool {
    let p = stored_entries(b)[id].0;
    let g1 = stored_groups(b).insert(p, without_entry(stored_groups(b)[p], id));
    &&& stored_entries(b).contains_key(id)
    &&& stored_entries(a) == stored_entries(b).insert(id, (g, stored_entries(b)[id].1))
    &&& stored_groups(a) == g1.insert(g, with_entry(g1[g], id))
    &&& stored_root(a) == stored_root(b)
}

/// Sets the given fields of the entry with UUID `id`; `EntryNotFound` with
/// `missing` where the database has no such entry.
pub fn apply_edit_entry(db: &mut Database, id: u128, request: &EditEntryRequest, missing: &str) -> (r: Result<(), AnahtarError>)
    requires
        tidy(*old(db)),
    ensures
        tidy(*final(db)),
        !stored_entries(*old(db)).contains_key(id) ==> (r matches Err(AnahtarError::EntryNotFound(t)) && t@ == missing@ && unchanged(*old(db), *final(db))),
        stored_entries(*old(db)).contains_key(id) ==> (r is Ok && entry_edited(*old(db), *final(db), id, *request)
            && stored_format(*final(db)) == stored_format(*old(db))),
{
    if entry_node(db, id).is_none() {
        return Err(AnahtarError::EntryNotFound(missing.to_owned()));
    }
    let ghost before = *db;
    set_plain_if(db, id, title_key(), &request.title);
    set_plain_if(db, id, username_key(), &request.username);
    set_protected_if(db, id, password_key(), &request.password);
    set_plain_if(db, id, url_key(), &request.url);
    set_plain_if(db, id, notes_key(), &request.notes);
    proof {
        assert(stored_entries(*db) =~= stored_entries(before).insert(id,
            (stored_entries(before)[id].0, edited_fields(stored_entries(before)[id].1, *request))));
    }
    Ok(())
}

/// Removes the entry with UUID `id`; `EntryNotFound` with its UUID text where
/// the database has no such entry.
pub fn apply_delete_entry(db: &mut Database, id: u128) -> (r: Result<(), AnahtarError>)
    requires
        tidy(*old(db)),
    ensures
        tidy(*final(db)),
        !stored_entries(*old(db)).contains_key(id) ==> (r matches Err(AnahtarError::EntryNotFound(t)) && t@ == hyphenated(id) && unchanged(*old(db), *final(db))),
        stored_entries(*old(db)).contains_key(id) ==> (r is Ok && entry_deleted(*old(db), *final(db), id)
            && stored_format(*final(db)) == stored_format(*old(db))),
{
    if entry_node(db, id).is_none() {
        return Err(AnahtarError::EntryNotFound(uuid_text(id)));
    }
    remove_entry(db, id);
    Ok(())
}

/// Moves the entry with UUID `id` to the end of the group that `group_path`
/// names. Fails as [`group_id_by_path`] does; `EntryNotFound` with `missing`
/// where the database has no such entry. Nothing changes on failure.
pub fn apply_move_entry(db: &mut Database, id: u128, group_path: &str, missing: &str) -> (r: Result<u128, AnahtarError>)
    requires
        tidy(*old(db)),
    ensures
        tidy(*final(db)),
        r is Err ==> unchanged(*old(db), *final(db)),
        match lookup_group(*old(db), group_path@) {
            None => r matches Err(e) && lookup_error(*old(db), group_path@, e),
            Some(g) => if !stored_entries(*old(db)).contains_key(id) {
                r matches Err(AnahtarError::EntryNotFound(t)) && t@ == missing@
            } else {
                r matches Ok(target) && target == g && entry_moved(*old(db), *final(db), id, g)
                    && stored_format(*final(db)) == stored_format(*old(db))
            },
        },
{
    let group = match group_id_by_path(db, group_path) {
        Ok(g) => g,
        Err(e) => return Err(e),
    };
    if entry_node(db, id).is_none() {
        return Err(AnahtarError::EntryNotFound(missing.to_owned()));
    }
    if move_entry_to(db, id, group) {
        Ok(group)
    } else {
        Err(AnahtarError::GroupNotFound(group_path.to_owned()))
    }
}

/// Where a new group goes: the root for a bare name, else the group that the
/// parent path names.
pub open spec fn new_group_parent(db: Database, p: Seq<char>) -> Option<u128> {
    let parent = parent_and_name(p).0;
    if parent.len() == 0 { Some(stored_root(db)) } else { lookup_group(db, parent) }
}

/// `a` is `b` with a new, empty group `id` named `name` at the end of the
/// child groups of `p`.
pub open spec fn group_added(b: Database, a: Database, p: u128, id: u128, name: Seq<char>) -> bool {
    let gs = stored_groups(b);
    &&& !gs.contains_key(id)
    &&& stored_groups(a) == gs.insert(p, with_child(gs[p], id)).insert(id, (Some(p), name, Seq::<u128>::empty(), Seq::<u128>::empty()))
    &&& stored_entries(a) == stored_entries(b)
    &&& stored_root(a) == stored_root(b)
}

/// `a` is `b` with group `g` named `name`.
pub open spec fn group_renamed(b: Database, a: Database, g: u128, name: Seq<char>) -> bool {
    let gs = stored_groups(b);
    &&& stored_groups(a) == gs.insert(g, (gs[g].0, name, gs[g].2, gs[g].3))
    &&& stored_entries(a) == stored_entries(b)
    &&& stored_root(a) == stored_root(b)
}

/// `a` is `b` without group `g`, the groups below it and their entries; the
/// parent of `g` no longer lists it.
pub open spec fn group_deleted(b: Database, a: Database, g: u128) -> bool {
    let gs = stored_groups(b);
    let es = stored_entries(b);
    let p = gs[g].0->0;
    &&& stored_groups(a) == gs.insert(p, without_child(gs[p], g)).remove_keys(subtree(gs, g))
    &&& stored_entries(a) == es.remove_keys(subtree_entries(gs, es, g))
    &&& stored_root(a) == stored_root(b)
}

/// Following parent links from a group of the old groups never reaches a
/// group that they did not hold, when the new groups keep every old parent.
proof fn lemma_not_below_new(
    gs: Map<u128, (Option<u128>, Seq<char>, Seq<u128>, Seq<u128>)>,
    ns: Map<u128, (Option<u128>, Seq<char>, Seq<u128>, Seq<u128>)>,
    g: u128,
    id: u128,
    fuel: nat,
)
    requires
        gs.contains_key(g),
        !gs.contains_key(id),
        forall|k: u128| #[trigger] gs.contains_key(k) ==> ns.contains_key(k) && ns[k].0 == gs[k].0,
        forall|k: u128| #[trigger] gs.contains_key(k) && gs[k].0 is Some ==> gs.contains_key(gs[k].0->0),
    ensures
        !descends(ns, g, id, fuel),
    decreases fuel,
{
    if fuel > 0 {
        if let Some(q) = gs[g].0 {
            lemma_not_below_new(gs, ns, q, id, (fuel - 1) as nat);
        }
    }
}

/// Deleting a group right after adding it gives back the groups and the
/// entries as they were.
pub proof fn delete_undoes_group_add(b: Database, m: Database, a: Database, p: u128, id: u128, name: Seq<char>)
    requires
        tidy(b),
        stored_groups(b).contains_key(p),
        group_added(b, m, p, id, name),
        group_deleted(m, a, id),
    ensures
        stored_groups(a) == stored_groups(b),
        stored_entries(a) == stored_entries(b),
        stored_root(a) == stored_root(b),
{
    let gs = stored_groups(b);
    let es = stored_entries(b);
    let ns = stored_groups(m);
    assert(!gs[p].2.contains(id));
    lemma_drop_absent(gs[p].2, id);
    lemma_drop_pushed(gs[p].2, id);
    assert(ns[id].0 == Some(p));
    assert(ns[p] == with_child(gs[p], id));
    assert(without_child(ns[p], id).2 == gs[p].2);
    assert(without_child(ns[p], id) == gs[p]);
    assert forall|k: u128| #[trigger] gs.contains_key(k) implies ns.contains_key(k) && ns[k].0 == gs[k].0 by {
        if k == p {
            assert(ns[p].0 == gs[p].0);
        }
    }
    assert forall|k: u128| #[trigger] gs.contains_key(k) && gs[k].0 is Some implies gs.contains_key(gs[k].0->0) by {
        if k != stored_root(b) {
            assert(gs.contains_key(gs[k].0->0));
        }
    }
    let sub = subtree(ns, id);
    assert forall|k: u128| #[trigger] sub.contains(k) implies k == id by {
        if k != id {
            assert(ns.contains_key(k));
            assert(gs.contains_key(k));
            lemma_not_below_new(gs, ns, k, id, ns.len());
        }
    }
    assert(sub.contains(id));
    assert(stored_groups(a) =~= gs);
    let gone = subtree_entries(ns, es, id);
    assert(gone =~= Set::<u128>::empty()) by {
        assert forall|e: u128| !#[trigger] gone.contains(e) by {
            if es.contains_key(e) {
                assert(gs.contains_key(es[e].0));
            }
        }
    }
    assert(stored_entries(a) =~= es);
}

/// Adds a group at `group_path`: a new group with a fresh UUID and the path's
/// last name, at the end of its parent's child groups. `InvalidGroupPath`
/// for a malformed path or where the parent already has a child of that name
/// (ASCII case ignored); the parent path fails as [`group_id_by_path`] does.
/// Nothing changes on failure.
pub fn apply_add_group(db: &mut Database, group_path: &str) -> (r: Result<u128, AnahtarError>)
    requires
        tidy(*old(db)),
    ensures
        tidy(*final(db)),
        r is Err ==> unchanged(*old(db), *final(db)),
        !valid_new_group_path(group_path@) ==> (r matches Err(AnahtarError::InvalidGroupPath(t)) && t@ == group_path@),
        valid_new_group_path(group_path@) ==> match new_group_parent(*old(db), group_path@) {
            None => r matches Err(e) && lookup_error(*old(db), parent_and_name(group_path@).0, e),
            Some(p) => {
                let name = parent_and_name(group_path@).1;
                let gs = stored_groups(*old(db));
                if first_named(gs, gs[p].2, name) is Some {
                    r matches Err(AnahtarError::InvalidGroupPath(t)) && t@ == "group already exists: "@ + group_path@
                } else {
                    r matches Ok(id) && group_added(*old(db), *final(db), p, id, name)
                        && stored_format(*final(db)) == stored_format(*old(db))
                }
            },
        },
{
    let (parent_path, name) = match split_group_parent(group_path) {
        Ok(t) => t,
        Err(e) => return Err(e),
    };
    let parent = if parent_path.as_str().is_empty() {
        root_group_id(db)
    } else {
        match group_id_by_path(db, parent_path.as_str()) {
            Ok(g) => g,
            Err(e) => return Err(e),
        }
    };
    if has_child_named(db, parent, name.as_str()) {
        let mut msg = "group already exists: ".to_owned();
        push_str(&mut msg, group_path);
        return Err(AnahtarError::InvalidGroupPath(msg));
    }
    let ghost before = *db;
    let id = add_group_to(db, parent);
    set_group_name(db, id, name.as_str());
    proof {
        assert(stored_groups(*db) =~= stored_groups(before).insert(parent, with_child(stored_groups(before)[parent], id))
            .insert(id, (Some(parent), name@, Seq::<u128>::empty(), Seq::<u128>::empty())));
    }
    Ok(id)
}

/// Renames the group that `group_path` names. Fails as [`group_id_by_path`]
/// does, changing nothing.
pub fn apply_rename_group(db: &mut Database, group_path: &str, new_name: &str) -> (r: Result<u128, AnahtarError>)
    requires
        tidy(*old(db)),
    ensures
        tidy(*final(db)),
        match lookup_group(*old(db), group_path@) {
            None => r matches Err(e) && lookup_error(*old(db), group_path@, e) && unchanged(*old(db), *final(db)),
            Some(g) => r matches Ok(id) && id == g && group_renamed(*old(db), *final(db), g, new_name@)
                && stored_format(*final(db)) == stored_format(*old(db)),
        },
{
    let group = match group_id_by_path(db, group_path) {
        Ok(g) => g,
        Err(e) => return Err(e),
    };
    set_group_name(db, group, new_name);
    Ok(group)
}

/// Deletes the group that `group_path` names with everything below it, and
/// returns its UUID and the number of entries it held itself (not counting
/// those of groups below it). Fails as [`group_id_by_path`] does, changing
/// nothing.
pub fn apply_delete_group(db: &mut Database, group_path: &str) -> (r: Result<(u128, usize), AnahtarError>)
    requires
        tidy(*old(db)),
    ensures
        tidy(*final(db)),
        match lookup_group(*old(db), group_path@) {
            None => r matches Err(e) && lookup_error(*old(db), group_path@, e) && unchanged(*old(db), *final(db)),
            Some(g) => r matches Ok(t) && t.0 == g && t.1 == stored_groups(*old(db))[g].3.len()
                && group_deleted(*old(db), *final(db), g) && stored_format(*final(db)) == stored_format(*old(db)),
        },
{
    let group = match group_id_by_path(db, group_path) {
        Ok(g) => g,
        Err(e) => return Err(e),
    };
    let removed = match group_node(db, group) {
        Some(node) => node.2.len(),
        None => 0,
    };
    remove_group(db, group);
    Ok((group, removed))
}

/// An added entry holds exactly the fields that the request gives: its
/// title, and each of the user name, the password (protected), the URL and
/// the notes that the request gives, with the given value, unprotected but
/// for the password; no other field.
pub proof fn added_entry_holds_given_fields(b: Database, a: Database, g: u128, id: u128, req: AddEntryRequest)
    requires
        entry_added(b, a, g, id, req),
    ensures
        stored_entries(a).contains_key(id),
        stored_entries(a)[id].0 == g,
        stored_entries(a)[id].1.contains_key(seq!['T', 'i', 't', 'l', 'e']) && stored_entries(a)[id].1[seq!['T', 'i', 't', 'l', 'e']] == (req.title@, false),
        req.username is Some ==> stored_entries(a)[id].1.contains_key(seq!['U', 's', 'e', 'r', 'N', 'a', 'm', 'e'])
            && stored_entries(a)[id].1[seq!['U', 's', 'e', 'r', 'N', 'a', 'm', 'e']] == (req.username->0@, false),
        req.password is Some ==> stored_entries(a)[id].1.contains_key(seq!['P', 'a', 's', 's', 'w', 'o', 'r', 'd'])
            && stored_entries(a)[id].1[seq!['P', 'a', 's', 's', 'w', 'o', 'r', 'd']] == (req.password->0@, true),
        req.url is Some ==> stored_entries(a)[id].1.contains_key(seq!['U', 'R', 'L'])
            && stored_entries(a)[id].1[seq!['U', 'R', 'L']] == (req.url->0@, false),
        req.notes is Some ==> stored_entries(a)[id].1.contains_key(seq!['N', 'o', 't', 'e', 's'])
            && stored_entries(a)[id].1[seq!['N', 'o', 't', 'e', 's']] == (req.notes->0@, false),
        req.username is None ==> !stored_entries(a)[id].1.contains_key(seq!['U', 's', 'e', 'r', 'N', 'a', 'm', 'e']),
        req.password is None ==> !stored_entries(a)[id].1.contains_key(seq!['P', 'a', 's', 's', 'w', 'o', 'r', 'd']),
        req.url is None ==> !stored_entries(a)[id].1.contains_key(seq!['U', 'R', 'L']),
        req.notes is None ==> !stored_entries(a)[id].1.contains_key(seq!['N', 'o', 't', 'e', 's']),
        forall|k: Seq<char>| #[trigger] stored_entries(a)[id].1.contains_key(k)
            ==> k == seq!['T', 'i', 't', 'l', 'e'] || k == seq!['U', 's', 'e', 'r', 'N', 'a', 'm', 'e'] || k == seq!['P', 'a', 's', 's', 'w', 'o', 'r', 'd'] || k == seq!['U', 'R', 'L'] || k == seq!['N', 'o', 't', 'e', 's'],
{
}

} // verus!
