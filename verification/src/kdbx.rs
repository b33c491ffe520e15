//! The database of the `keepass` crate, as the library reads, changes and saves it.
//!
//! A `keepass::Database` is held as it is; what the library reads of it is
//! named by four functions (its groups, its entries, its root and its format
//! version), and each call into the crate states what it reads or changes in
//! their terms.
use vstd::prelude::*;
use keepass::Database;
use crate::ids::{hyphenated, uuid_text};
use crate::text::eq_ignore_case;
use crate::vault::{EntryField, VaultEntry, VaultGroup, Vault};
use crate::listing::{group_rows, group_child_rows, group_count};
use crate::header::{KdbxVersion, le16, le32, KEEPASS_FILE_SIGNATURE, KDBX_SIGNATURE};

verus! {

#[verifier::external_type_specification]
#[verifier::external_body]
pub struct ExDatabase(keepass::Database);

/// The format version of a database, as `keepass::config::DatabaseVersion` holds it.
#[derive(Clone, Copy, PartialEq, Eq, Structural, Debug)]
pub enum StoredFormat {
    Kdb(u16),
    Kdb2(u16),
    Kdb3(u16),
    Kdb4(u16),
}

/// The groups of a database by UUID: the parent group (none for the root),
/// the name, the child groups in order and the entries in order.
pub uninterp spec fn stored_groups(db: Database) -> Map<u128, (Option<u128>, Seq<char>, Seq<u128>, Seq<u128>)>;

/// The entries of a database by UUID: the group that holds the entry, and its
/// fields by name, each with its text and whether it is stored protected.
pub uninterp spec fn stored_entries(db: Database) -> Map<u128, (u128, Map<Seq<char>, (Seq<char>, bool)>)>;

/// The UUID of the root group of a database.
pub uninterp spec fn stored_root(db: Database) -> u128;

/// The format version a database was read in, or is to be saved in.
pub uninterp spec fn stored_format(db: Database) -> StoredFormat;

/// What the library reads of a database: its groups, its entries, its root
/// and its format version, as the four functions above name them.
pub struct DbView {
    pub groups: Map<u128, (Option<u128>, Seq<char>, Seq<u128>, Seq<u128>)>,
    pub entries: Map<u128, (u128, Map<Seq<char>, (Seq<char>, bool)>)>,
    pub root: u128,
    pub format: StoredFormat,
}

/// The view of a database.
pub open spec fn db_view(db: Database) -> DbView {
    DbView { groups: stored_groups(db), entries: stored_entries(db), root: stored_root(db), format: stored_format(db) }
}

/// The file starts with the header of a KeePass 2 file of format 3 or 4,
/// which `Database::parse` reads from the file alone. (A KeePass 1 file is
/// rebuilt with freshly drawn random UUIDs for its groups and entries.)
pub open spec fn kdbx_file(data: Seq<u8>) -> bool {
    &&& data.len() >= 12
    &&& le32(data, 0) == KEEPASS_FILE_SIGNATURE
    &&& le32(data, 4) == KDBX_SIGNATURE
    &&& (le16(data, 10) == 3 || le16(data, 10) == 4)
}

/// What `Database::parse` makes of `data` with a key made of `password` and,
/// where given, the bytes of a key file: whether the key opens it (for every
/// file), and the view of the database it opens (for a [`kdbx_file`] only).
pub uninterp spec fn opened(data: Seq<u8>, password: Seq<char>, key_file: Option<Seq<u8>>) -> Option<DbView>;

/// `db` is a database that the key opens `data` to: the key opens it, `db`
/// is [`tidy`], and for a [`kdbx_file`] it is the one that [`opened`] names.
pub open spec fn parsed_as(data: Seq<u8>, password: Seq<char>, key_file: Option<Seq<u8>>, db: Database) -> bool {
    &&& unlocks(data, password, key_file)
    &&& tidy(db)
    &&& kdbx_file(data) ==> opened(data, password, key_file) == Some(db_view(db))
}

/// Whether `Database::parse` opens `data` with that key.
pub open spec fn unlocks(data: Seq<u8>, password: Seq<char>, key_file: Option<Seq<u8>>) -> bool {
    opened(data, password, key_file) is Some
}

/// The bytes of an optional key file.
pub open spec fn key_view(key_file: Option<&[u8]>) -> Option<Seq<u8>> {
    match key_file {
        Some(k) => Some(k@),
        None => None,
    }
}

/// `g` reaches `top` by following parent links at most `fuel` times.
pub open spec fn descends(gs: Map<u128, (Option<u128>, Seq<char>, Seq<u128>, Seq<u128>)>, g: u128, top: u128, fuel: nat) -> bool
    decreases fuel,
{
    if g == top {
        true
    } else if fuel == 0 || !gs.contains_key(g) {
        false
    } else {
        match gs[g].0 {
            Some(p) => descends(gs, p, top, (fuel - 1) as nat),
            None => false,
        }
    }
}

/// The shape that the `keepass` crate keeps every database in: a tree of
/// groups under the root, where each group and entry names its parent, every
/// parent lists its children and entries once, and parent links lead to the root.
pub open spec fn tidy(db: Database) -> bool {
    let gs = stored_groups(db);
    let es = stored_entries(db);
    let root = stored_root(db);
    &&& gs.dom().finite()
    &&& es.dom().finite()
    &&& gs.contains_key(root)
    &&& gs[root].0 is None
    &&& forall|g: u128| #[trigger] gs.contains_key(g) && g != root ==> {
            &&& gs[g].0 is Some
            &&& gs.contains_key(gs[g].0->0)
            &&& gs[gs[g].0->0].2.contains(g)
            &&& descends(gs, g, root, gs.len())
        }
    &&& forall|g: u128, c: u128| gs.contains_key(g) && #[trigger] gs[g].2.contains(c) ==> gs.contains_key(c) && gs[c].0 == Some(g)
    &&& forall|g: u128, e: u128| gs.contains_key(g) && #[trigger] gs[g].3.contains(e) ==> es.contains_key(e) && es[e].0 == g
    &&& forall|e: u128| #[trigger] es.contains_key(e) ==> gs.contains_key(es[e].0) && gs[es[e].0].3.contains(e)
    &&& forall|g: u128| #[trigger] gs.contains_key(g) ==> gs[g].2.no_duplicates() && gs[g].3.no_duplicates()
}

/// `Database::parse`, with a `DatabaseKey` made of the password and, where
/// given, the key file's bytes. The database comes back as the crate builds
/// every database it parses: through its own group and entry insertions,
/// which keep it [`tidy`]. Whether it opens the file depends on the bytes
/// and the key alone. A KeePass 2 file of format 3 or 4 is read from the
/// file alone, so its database is [`opened`] of the bytes and the key; a
/// KeePass 1 file gets freshly drawn UUIDs, and nothing more is said of it.
#[verifier::external_body]
pub(crate) fn parse_database(data: &[u8], password: &str, key_file: Option<&[u8]>) -> (r: Option<Database>)
    ensures
        r is Some <==> unlocks(data@, password@, key_view(key_file)),
        r matches Some(db) ==> tidy(db),
        kdbx_file(data@) ==> (r matches Some(db) ==> opened(data@, password@, key_view(key_file)) == Some(db_view(db))),
{
    let key = keepass::DatabaseKey::new().with_password(password);
    let key = match key_file {
        Some(mut bytes) => match key.with_keyfile(&mut bytes) {
            Ok(k) => k,
            Err(_) => return None,
        },
        None => key,
    };
    match keepass::Database::parse(data, key) {
        Ok(db) => Some(db),
        Err(_) => None,
    }
}

/// `Database::save` into memory, with a key made as for [`parse_database`].
/// The crate writes only KDBX 4.1 (`dump_kdbx4` refuses any other version).
/// The bytes hold a fresh random seed and IV, so they are not named, and
/// what they read back as is left to the read-back check that every write
/// makes. Whether saving succeeds is not stated: encryption and the random
/// source may fail.
#[verifier::external_body]
pub(crate) fn save_database(db: &Database, password: &str, key_file: Option<&[u8]>) -> (r: Option<Vec<u8>>)
    ensures
        stored_format(*db) != StoredFormat::Kdb4(1) ==> r is None,
{
    let key = keepass::DatabaseKey::new().with_password(password);
    let key = match key_file {
        Some(mut bytes) => match key.with_keyfile(&mut bytes) {
            Ok(k) => k,
            Err(_) => return None,
        },
        None => key,
    };
    let mut out: Vec<u8> = Vec::new();
    match db.save(&mut out, key) {
        Ok(()) => Some(out),
        Err(_) => None,
    }
}

/// `Database::root`: the UUID of the root group. The crate builds the root
/// group's reference by looking the group up, which panics where the
/// database no longer holds it, so the group must be there.
#[verifier::external_body]
pub(crate) fn root_group_id(db: &Database) -> (r: u128)
    requires
        stored_groups(*db).contains_key(stored_root(*db)),
    ensures
        r == stored_root(*db),
{
    db.root().id().uuid().as_u128()
}

/// `Database::num_groups`: how many groups the database holds.
#[verifier::external_body]
pub(crate) fn group_total(db: &Database) -> (r: usize)
    ensures
        r == stored_groups(*db).len(),
{
    db.num_groups()
}

/// `Database::num_entries`: how many entries the database holds.
#[verifier::external_body]
pub(crate) fn entry_total(db: &Database) -> (r: usize)
    ensures
        r == stored_entries(*db).len(),
{
    db.num_entries()
}

/// The `version` of the database's `config`.
#[verifier::external_body]
pub(crate) fn stored_version(db: &Database) -> (r: StoredFormat)
    ensures
        r == stored_format(*db),
{
    match db.config.version {
        keepass::config::DatabaseVersion::KDB(m) => StoredFormat::Kdb(m),
        keepass::config::DatabaseVersion::KDB2(m) => StoredFormat::Kdb2(m),
        keepass::config::DatabaseVersion::KDB3(m) => StoredFormat::Kdb3(m),
        keepass::config::DatabaseVersion::KDB4(m) => StoredFormat::Kdb4(m),
    }
}

/// `Database::group`: the name, child group UUIDs and entry UUIDs of a group,
/// if the database holds it.
#[verifier::external_body]
pub(crate) fn group_node(db: &Database, id: u128) -> (r: Option<(String, Vec<u128>, Vec<u128>)>)
    ensures
        match r {
            Some(t) => {
                &&& stored_groups(*db).contains_key(id)
                &&& t.0@ == stored_groups(*db)[id].1
                &&& t.1@ == stored_groups(*db)[id].2
                &&& t.2@ == stored_groups(*db)[id].3
            },
            None => !stored_groups(*db).contains_key(id),
        },
{
    match db.group(keepass::db::GroupId::from_uuid(uuid::Uuid::from_u128(id))) {
        Some(g) => Some((
            g.name.clone(),
            g.group_ids().map(|c| c.uuid().as_u128()).collect(),
            g.entry_ids().map(|e| e.uuid().as_u128()).collect(),
        )),
        None => None,
    }
}

/// The fields of `v` are exactly the fields of `m`, each once, in some order.
pub open spec fn fields_listed(v: Seq<(String, String, bool)>, m: Map<Seq<char>, (Seq<char>, bool)>) -> bool {
    &&& forall|i: int, j: int| 0 <= i < j < v.len() ==> (#[trigger] v[i]).0@ != (#[trigger] v[j]).0@
    &&& forall|i: int| 0 <= i < v.len() ==> m.contains_key((#[trigger] v[i]).0@) && m[v[i].0@] == (v[i].1@, v[i].2)
    &&& forall|k: Seq<char>| #[trigger] m.contains_key(k) ==> exists|i: int| 0 <= i < v.len() && (#[trigger] v[i]).0@ == k
}

/// `Database::entry`: the fields of an entry with their protection, if the
/// database holds it. The fields come in the order of the crate's hash map,
/// which is not stated.
#[verifier::external_body]
pub(crate) fn entry_node(db: &Database, id: u128) -> (r: Option<Vec<(String, String, bool)>>)
    ensures
        match r {
            Some(v) => stored_entries(*db).contains_key(id) && fields_listed(v@, stored_entries(*db)[id].1),
            None => !stored_entries(*db).contains_key(id),
        },
{
    match db.entry(keepass::db::EntryId::from_uuid(uuid::Uuid::from_u128(id))) {
        Some(e) => Some(
            e.fields.iter().map(|(k, v)| (k.clone(), v.as_str().to_owned(), v.is_protected())).collect(),
        ),
        None => None,
    }
}

/// The ids of `ids` that `m` holds, in order.
pub open spec fn present<V>(ids: Seq<u128>, m: Map<u128, V>) -> Seq<u128>
    decreases ids.len(),
{
    if ids.len() == 0 {
        Seq::empty()
    } else {
        let r = present(ids.drop_last(), m);
        if m.contains_key(ids.last()) { r.push(ids.last()) } else { r }
    }
}

/// One step of [`present`] over a growing prefix.
pub proof fn lemma_present_step<V>(ids: Seq<u128>, m: Map<u128, V>, i: int)
    requires
        0 <= i < ids.len(),
    ensures
        present(ids.take(i + 1), m) == if m.contains_key(ids[i]) {
            present(ids.take(i), m).push(ids[i])
        } else {
            present(ids.take(i), m)
        },
{
    assert(ids.take(i + 1).drop_last() =~= ids.take(i));
    assert(ids.take(i + 1).last() == ids[i]);
}

/// The fields of an entry of the library are exactly the fields of `m`, each once.
pub open spec fn fields_mirror(fs: Seq<EntryField>, m: Map<Seq<char>, (Seq<char>, bool)>) -> bool {
    &&& forall|i: int, j: int| 0 <= i < j < fs.len() ==> (#[trigger] fs[i]).key@ != (#[trigger] fs[j]).key@
    &&& forall|i: int| 0 <= i < fs.len() ==> m.contains_key((#[trigger] fs[i]).key@) && m[fs[i].key@] == (fs[i].value@, fs[i].protected)
    &&& forall|k: Seq<char>| #[trigger] m.contains_key(k) ==> exists|i: int| 0 <= i < fs.len() && (#[trigger] fs[i]).key@ == k
}

/// Entry `e` of the library is the stored entry `id`.
pub open spec fn entry_mirrors(e: VaultEntry, es: Map<u128, (u128, Map<Seq<char>, (Seq<char>, bool)>)>, id: u128) -> bool {
    &&& es.contains_key(id)
    &&& e.id@ == hyphenated(id)
    &&& fields_mirror(e.fields@, es[id].1)
}

/// The entries `v` are the stored entries `ids`, in order.
pub open spec fn entries_mirror(v: Seq<VaultEntry>, es: Map<u128, (u128, Map<Seq<char>, (Seq<char>, bool)>)>, ids: Seq<u128>) -> bool {
    &&& v.len() == ids.len()
    &&& forall|i: int| 0 <= i < ids.len() ==> entry_mirrors(#[trigger] v[i], es, ids[i])
}

/// Group `g` of the library is the stored group `id` with everything below
/// it, down to `fuel` levels of child groups; listed ids that the database
/// does not hold are left out.
pub open spec fn group_mirrors(
    g: VaultGroup,
    gs: Map<u128, (Option<u128>, Seq<char>, Seq<u128>, Seq<u128>)>,
    es: Map<u128, (u128, Map<Seq<char>, (Seq<char>, bool)>)>,
    id: u128,
    fuel: nat,
) -> bool
    decreases fuel,
{
    &&& gs.contains_key(id)
    &&& g.id@ == hyphenated(id)
    &&& g.name@ == gs[id].1
    &&& entries_mirror(g.entries@, es, present(gs[id].3, es))
    &&& if fuel == 0 {
            g.groups@.len() == 0
        } else {
            let cs = present(gs[id].2, gs);
            &&& g.groups@.len() == cs.len()
            &&& forall|i: int| 0 <= i < cs.len() ==> group_mirrors(#[trigger] g.groups@[i], gs, es, cs[i], (fuel - 1) as nat)
        }
}

/// The number of groups at and below `id` that a copy down to `fuel` levels
/// of child groups holds.
pub open spec fn tree_size(gs: Map<u128, (Option<u128>, Seq<char>, Seq<u128>, Seq<u128>)>, id: u128, fuel: nat) -> nat
    decreases fuel, 0int, 0int,
{
    if fuel == 0 {
        1
    } else {
        let cs = present(gs[id].2, gs);
        1 + forest_size(gs, cs, (fuel - 1) as nat, cs.len() as int)
    }
}

/// The number of groups at and below the first `k` of `cs`, each copied
/// down to `fuel` levels.
pub open spec fn forest_size(gs: Map<u128, (Option<u128>, Seq<char>, Seq<u128>, Seq<u128>)>, cs: Seq<u128>, fuel: nat, k: int) -> nat
    decreases fuel, 1int, k,
{
    if k <= 0 || k > cs.len() {
        0
    } else {
        forest_size(gs, cs, fuel, k - 1) + tree_size(gs, cs[k - 1], fuel)
    }
}

/// A copy of a group holds as many groups as the stored tree below it.
pub proof fn lemma_rows_size(g: VaultGroup, gs: Map<u128, (Option<u128>, Seq<char>, Seq<u128>, Seq<u128>)>, es: Map<u128, (u128, Map<Seq<char>, (Seq<char>, bool)>)>, id: u128, fuel: nat, path: Seq<char>)
    requires
        group_mirrors(g, gs, es, id, fuel),
    ensures
        group_rows(g, path).len() == tree_size(gs, id, fuel),
    decreases g, 1int, 0int,
{
    if fuel > 0 {
        lemma_child_rows_size(g, gs, es, id, fuel, path, g.groups@.len() as int);
    }
}

/// The child rows of a copy hold as many groups as the stored trees below
/// the first `k` children.
pub proof fn lemma_child_rows_size(g: VaultGroup, gs: Map<u128, (Option<u128>, Seq<char>, Seq<u128>, Seq<u128>)>, es: Map<u128, (u128, Map<Seq<char>, (Seq<char>, bool)>)>, id: u128, fuel: nat, path: Seq<char>, k: int)
    requires
        fuel > 0,
        group_mirrors(g, gs, es, id, fuel),
        0 <= k <= g.groups@.len(),
    ensures
        group_child_rows(g, path, k).len() == forest_size(gs, present(gs[id].2, gs), (fuel - 1) as nat, k),
    decreases g, 0int, k,
{
    if k > 0 {
        let cs = present(gs[id].2, gs);
        let c = g.groups@[k - 1];
        lemma_child_rows_size(g, gs, es, id, fuel, path, k - 1);
        assert(group_mirrors(c, gs, es, cs[k - 1], (fuel - 1) as nat));
        lemma_rows_size(c, gs, es, cs[k - 1], (fuel - 1) as nat, path + seq!['/'] + c.name@);
    }
}

/// Every copy of a database holds as many groups as its stored tree.
pub proof fn lemma_group_count(v: Vault, db: Database)
    requires
        vault_mirrors(v, db),
    ensures
        group_count(v) == tree_size(stored_groups(db), stored_root(db), stored_groups(db).len()),
{
    lemma_rows_size(v.root, stored_groups(db), stored_entries(db), stored_root(db), stored_groups(db).len(), v.root.name@);
}

/// Trees of the same groups with the same child lists have the same size.
pub proof fn lemma_tree_size_same(
    a: Map<u128, (Option<u128>, Seq<char>, Seq<u128>, Seq<u128>)>,
    b: Map<u128, (Option<u128>, Seq<char>, Seq<u128>, Seq<u128>)>,
    id: u128,
    fuel: nat,
)
    requires
        a.dom() == b.dom(),
        forall|k: u128| #[trigger] a.contains_key(k) ==> a[k].2 == b[k].2,
        a.contains_key(id),
    ensures
        tree_size(a, id, fuel) == tree_size(b, id, fuel),
    decreases fuel, 0int, 0int,
{
    if fuel > 0 {
        lemma_present_same(a[id].2, a, b);
        let cs = present(a[id].2, a);
        lemma_forest_size_same(a, b, cs, (fuel - 1) as nat, cs.len() as int);
    }
}

/// Forests of the same groups with the same child lists have the same size.
pub proof fn lemma_forest_size_same(
    a: Map<u128, (Option<u128>, Seq<char>, Seq<u128>, Seq<u128>)>,
    b: Map<u128, (Option<u128>, Seq<char>, Seq<u128>, Seq<u128>)>,
    cs: Seq<u128>,
    fuel: nat,
    k: int,
)
    requires
        a.dom() == b.dom(),
        forall|x: u128| #[trigger] a.contains_key(x) ==> a[x].2 == b[x].2,
        forall|i: int| 0 <= i < cs.len() ==> a.contains_key(#[trigger] cs[i]),
        k <= cs.len(),
    ensures
        forest_size(a, cs, fuel, k) == forest_size(b, cs, fuel, k),
    decreases fuel, 1int, k,
{
    if k > 0 {
        lemma_forest_size_same(a, b, cs, fuel, k - 1);
        lemma_tree_size_same(a, b, cs[k - 1], fuel);
    }
}

/// The ids that two maps with the same keys hold are the same, and all held.
pub proof fn lemma_present_same<V, W>(ids: Seq<u128>, a: Map<u128, V>, b: Map<u128, W>)
    requires
        a.dom() == b.dom(),
    ensures
        present(ids, a) == present(ids, b),
        forall|i: int| 0 <= i < present(ids, a).len() ==> a.contains_key(#[trigger] present(ids, a)[i]),
    decreases ids.len(),
{
    if ids.len() > 0 {
        lemma_present_same(ids.drop_last(), a, b);
        assert(a.contains_key(ids.last()) == b.contains_key(ids.last()));
        let r = present(ids.drop_last(), a);
        assert forall|i: int| 0 <= i < present(ids, a).len() implies a.contains_key(#[trigger] present(ids, a)[i]) by {
            if i < r.len() {
                assert(present(ids, a)[i] == r[i]);
            }
        }
    }
}

/// The version a stored format is reported as.
pub open spec fn version_of(f: StoredFormat) -> KdbxVersion {
    match f {
        StoredFormat::Kdb(m) => KdbxVersion::Kdb1 { major: 1, minor: m },
        StoredFormat::Kdb2(m) => KdbxVersion::Kdbx { major: 2, minor: m },
        StoredFormat::Kdb3(m) => KdbxVersion::Kdbx { major: 3, minor: m },
        StoredFormat::Kdb4(m) => KdbxVersion::Kdbx { major: 4, minor: m },
    }
}

/// The vault of the library is the whole database: the root with every group
/// below it (a group is never deeper than there are groups) and the version.
pub open spec fn vault_mirrors(v: Vault, db: Database) -> bool {
    &&& group_mirrors(v.root, stored_groups(db), stored_entries(db), stored_root(db), stored_groups(db).len())
    &&& v.version == version_of(stored_format(db))
}

/// The version of the database, as the tools report it.
pub fn database_version(db: &Database) -> (r: KdbxVersion)
    ensures
        r == version_of(stored_format(*db)),
{
    match stored_version(db) {
        StoredFormat::Kdb(m) => KdbxVersion::Kdb1 { major: 1, minor: m },
        StoredFormat::Kdb2(m) => KdbxVersion::Kdbx { major: 2, minor: m },
        StoredFormat::Kdb3(m) => KdbxVersion::Kdbx { major: 3, minor: m },
        StoredFormat::Kdb4(m) => KdbxVersion::Kdbx { major: 4, minor: m },
    }
}

/// Reads one stored entry into the library's form.
fn read_entry(db: &Database, id: u128) -> (r: Option<VaultEntry>)
    ensures
        match r {
            Some(e) => entry_mirrors(e, stored_entries(*db), id),
            None => !stored_entries(*db).contains_key(id),
        },
{
    match entry_node(db, id) {
        None => None,
        Some(list) => {
            let mut fields: Vec<EntryField> = Vec::new();
            let mut i: usize = 0;
            while i < list.len()
                invariant
                    i <= list.len(),
                    fields@.len() == i,
                    forall|j: int| 0 <= j < i ==> {
                        &&& (#[trigger] fields@[j]).key@ == list@[j].0@
                        &&& fields@[j].value@ == list@[j].1@
                        &&& fields@[j].protected == list@[j].2
                    },
                decreases list.len() - i,
            {
                let f = EntryField {
                    key: list[i].0.clone(),
                    value: list[i].1.clone(),
                    protected: list[i].2,
                };
                fields.push(f);
                i = i + 1;
            }
            let e = VaultEntry { id: uuid_text(id), fields };
            proof {
                let m = stored_entries(*db)[id].1;
                assert forall|k: Seq<char>| #[trigger] m.contains_key(k) implies
                    exists|i: int| 0 <= i < e.fields@.len() && (#[trigger] e.fields@[i]).key@ == k by {
                    let i = choose|i: int| 0 <= i < list@.len() && (#[trigger] list@[i]).0@ == k;
                    assert(e.fields@[i].key@ == k);
                }
                assert forall|i: int, j: int| 0 <= i < j < e.fields@.len() implies
                    (#[trigger] e.fields@[i]).key@ != (#[trigger] e.fields@[j]).key@ by {
                    assert(list@[i].0@ != list@[j].0@);
                }
                assert forall|i: int| 0 <= i < e.fields@.len() implies
                    m.contains_key((#[trigger] e.fields@[i]).key@) && m[e.fields@[i].key@] == (e.fields@[i].value@, e.fields@[i].protected) by {
                    assert(m.contains_key(list@[i].0@));
                }
            }
            Some(e)
        },
    }
}

/// Reads a stored group and everything below it, down to `fuel` levels.
fn read_group(db: &Database, id: u128, fuel: usize) -> (r: Option<VaultGroup>)
    ensures
        match r {
            Some(g) => group_mirrors(g, stored_groups(*db), stored_entries(*db), id, fuel as nat),
            None => !stored_groups(*db).contains_key(id),
        },
    decreases fuel,
{
    let ghost gs = stored_groups(*db);
    let ghost es = stored_entries(*db);
    match group_node(db, id) {
        None => None,
        Some(node) => {
            let (name, children, entry_ids) = node;
            let mut entries: Vec<VaultEntry> = Vec::new();
            let mut i: usize = 0;
            while i < entry_ids.len()
                invariant
                    i <= entry_ids.len(),
                    es == stored_entries(*db),
                    entries_mirror(entries@, es, present(entry_ids@.take(i as int), es)),
                decreases entry_ids.len() - i,
            {
                proof { lemma_present_step(entry_ids@, es, i as int); }
                match read_entry(db, entry_ids[i]) {
                    Some(e) => {
                        entries.push(e);
                    },
                    None => {},
                }
                i = i + 1;
            }
            assert(entry_ids@.take(entry_ids.len() as int) =~= entry_ids@);
            let mut groups: Vec<VaultGroup> = Vec::new();
            if fuel > 0 {
                let mut k: usize = 0;
                while k < children.len()
                    invariant
                        k <= children.len(),
                        fuel > 0,
                        gs == stored_groups(*db),
                        es == stored_entries(*db),
                        groups@.len() == present(children@.take(k as int), gs).len(),
                        forall|j: int| 0 <= j < groups@.len() ==> group_mirrors(
                            #[trigger] groups@[j], gs, es, present(children@.take(k as int), gs)[j], (fuel - 1) as nat),
                    decreases children.len() - k,
                {
                    proof { lemma_present_step(children@, gs, k as int); }
                    match read_group(db, children[k], fuel - 1) {
                        Some(c) => {
                            groups.push(c);
                        },
                        None => {},
                    }
                    k = k + 1;
                }
                assert(children@.take(children.len() as int) =~= children@);
            }
            Some(VaultGroup { id: uuid_text(id), name, entries, groups })
        },
    }
}

/// Reads the whole database into the library's form: every group reachable
/// from the root and every entry they hold, in the crate's order, and the
/// version. A [`tidy`] database always holds its root group, so the copy
/// is always made.
pub fn read_vault(db: &Database) -> (r: Option<Vault>)
    requires
        tidy(*db),
    ensures
        r matches Some(v) && vault_mirrors(v, *db),
{
    let root = root_group_id(db);
    let n = group_total(db);
    match read_group(db, root, n) {
        Some(g) => Some(Vault { root: g, version: database_version(db) }),
        None => None,
    }
}

/// The group node with `e` added to its entries, as an index set adds it:
/// at the end, unless it is there already.
pub open spec fn with_entry(n: (Option<u128>, Seq<char>, Seq<u128>, Seq<u128>), e: u128) -> (Option<u128>, Seq<char>, Seq<u128>, Seq<u128>) {
    if n.3.contains(e) { n } else { (n.0, n.1, n.2, n.3.push(e)) }
}

/// The group node with `c` added to its child groups, at the end unless it is there already.
pub open spec fn with_child(n: (Option<u128>, Seq<char>, Seq<u128>, Seq<u128>), c: u128) -> (Option<u128>, Seq<char>, Seq<u128>, Seq<u128>) {
    if n.2.contains(c) { n } else { (n.0, n.1, n.2.push(c), n.3) }
}

/// `s` without `x`, the rest in order.
pub open spec fn drop_id(s: Seq<u128>, x: u128) -> Seq<u128>
    decreases s.len(),
{
    if s.len() == 0 {
        s
    } else {
        let r = drop_id(s.drop_last(), x);
        if s.last() == x { r } else { r.push(s.last()) }
    }
}

/// The group node without entry `e`.
pub open spec fn without_entry(n: (Option<u128>, Seq<char>, Seq<u128>, Seq<u128>), e: u128) -> (Option<u128>, Seq<char>, Seq<u128>, Seq<u128>) {
    (n.0, n.1, n.2, drop_id(n.3, e))
}

/// The group node without child group `c`.
pub open spec fn without_child(n: (Option<u128>, Seq<char>, Seq<u128>, Seq<u128>), c: u128) -> (Option<u128>, Seq<char>, Seq<u128>, Seq<u128>) {
    (n.0, n.1, drop_id(n.2, c), n.3)
}

/// The groups at or below `top`.
pub open spec fn subtree(gs: Map<u128, (Option<u128>, Seq<char>, Seq<u128>, Seq<u128>)>, top: u128) -> Set<u128> {
    Set::new(|g: u128| gs.contains_key(g) && descends(gs, g, top, gs.len()))
}

/// The entries held by the groups at and below `top`.
pub open spec fn subtree_entries(
    gs: Map<u128, (Option<u128>, Seq<char>, Seq<u128>, Seq<u128>)>,
    es: Map<u128, (u128, Map<Seq<char>, (Seq<char>, bool)>)>,
    top: u128,
) -> Set<u128> {
    Set::new(|e: u128| es.contains_key(e) && subtree(gs, top).contains(es[e].0))
}

/// Only the format version changes.
pub open spec fn same_tree(a: Database, b: Database) -> bool {
    &&& stored_groups(a) == stored_groups(b)
    &&& stored_entries(a) == stored_entries(b)
    &&& stored_root(a) == stored_root(b)
}

/// Sets the format version to KDBX 4.1, the version the crate saves.
#[verifier::external_body]
pub(crate) fn set_kdbx41(db: &mut Database)
    ensures
        stored_format(*final(db)) == StoredFormat::Kdb4(1),
        same_tree(*old(db), *final(db)),
        tidy(*old(db)) ==> tidy(*final(db)),
{
    db.config.version = keepass::config::DatabaseVersion::KDB4(1);
}

/// `GroupMut::add_entry`: a new entry with a fresh random UUID and no fields,
/// at the end of the group's entries.
#[verifier::external_body]
pub(crate) fn add_entry_to(db: &mut Database, group: u128) -> (r: u128)
    requires
        tidy(*old(db)),
        stored_groups(*old(db)).contains_key(group),
    ensures
        !stored_entries(*old(db)).contains_key(r),
        stored_entries(*final(db)) == stored_entries(*old(db)).insert(r, (group, Map::empty())),
        stored_groups(*final(db)) == stored_groups(*old(db)).insert(group, with_entry(stored_groups(*old(db))[group], r)),
        stored_root(*final(db)) == stored_root(*old(db)),
        stored_format(*final(db)) == stored_format(*old(db)),
        tidy(*final(db)),
{
    let gid = keepass::db::GroupId::from_uuid(uuid::Uuid::from_u128(group));
    db.group_mut(gid).unwrap().add_entry().id().uuid().as_u128()
}

/// `Entry::set_unprotected`: sets a field to a plain value.
#[verifier::external_body]
pub(crate) fn set_plain_field(db: &mut Database, entry: u128, key: &str, value: &str)
    requires
        stored_entries(*old(db)).contains_key(entry),
    ensures
        stored_entries(*final(db)) == stored_entries(*old(db)).insert(entry,
            (stored_entries(*old(db))[entry].0, stored_entries(*old(db))[entry].1.insert(key@, (value@, false)))),
        stored_groups(*final(db)) == stored_groups(*old(db)),
        stored_root(*final(db)) == stored_root(*old(db)),
        stored_format(*final(db)) == stored_format(*old(db)),
        tidy(*old(db)) ==> tidy(*final(db)),
{
    let eid = keepass::db::EntryId::from_uuid(uuid::Uuid::from_u128(entry));
    db.entry_mut(eid).unwrap().set_unprotected(key, value);
}

/// `Entry::set_protected`: sets a field to a protected value.
#[verifier::external_body]
pub(crate) fn set_protected_field(db: &mut Database, entry: u128, key: &str, value: &str)
    requires
        stored_entries(*old(db)).contains_key(entry),
    ensures
        stored_entries(*final(db)) == stored_entries(*old(db)).insert(entry,
            (stored_entries(*old(db))[entry].0, stored_entries(*old(db))[entry].1.insert(key@, (value@, true)))),
        stored_groups(*final(db)) == stored_groups(*old(db)),
        stored_root(*final(db)) == stored_root(*old(db)),
        stored_format(*final(db)) == stored_format(*old(db)),
        tidy(*old(db)) ==> tidy(*final(db)),
{
    let eid = keepass::db::EntryId::from_uuid(uuid::Uuid::from_u128(entry));
    db.entry_mut(eid).unwrap().set_protected(key, value);
}

/// `EntryMut::remove`: removes an entry from the database and from its group.
#[verifier::external_body]
pub(crate) fn remove_entry(db: &mut Database, entry: u128)
    requires
        tidy(*old(db)),
        stored_entries(*old(db)).contains_key(entry),
    ensures
        stored_entries(*final(db)) == stored_entries(*old(db)).remove(entry),
        stored_groups(*final(db)) == stored_groups(*old(db)).insert(stored_entries(*old(db))[entry].0,
            without_entry(stored_groups(*old(db))[stored_entries(*old(db))[entry].0], entry)),
        stored_root(*final(db)) == stored_root(*old(db)),
        stored_format(*final(db)) == stored_format(*old(db)),
        tidy(*final(db)),
{
    let eid = keepass::db::EntryId::from_uuid(uuid::Uuid::from_u128(entry));
    db.entry_mut(eid).unwrap().remove();
}

/// `EntryMut::move_to`: moves an entry to the end of another group's entries;
/// `false`, with nothing changed, where the database has no such group.
#[verifier::external_body]
pub(crate) fn move_entry_to(db: &mut Database, entry: u128, group: u128) -> (r: bool)
    requires
        tidy(*old(db)),
        stored_entries(*old(db)).contains_key(entry),
    ensures
        r == stored_groups(*old(db)).contains_key(group),
        !r ==> same_tree(*old(db), *final(db)) && stored_format(*final(db)) == stored_format(*old(db)),
        r ==> stored_entries(*final(db)) == stored_entries(*old(db)).insert(entry, (group, stored_entries(*old(db))[entry].1)),
        r ==> stored_groups(*final(db)) == ({
            let p = stored_entries(*old(db))[entry].0;
            let g1 = stored_groups(*old(db)).insert(p, without_entry(stored_groups(*old(db))[p], entry));
            g1.insert(group, with_entry(g1[group], entry))
        }),
        stored_root(*final(db)) == stored_root(*old(db)),
        stored_format(*final(db)) == stored_format(*old(db)),
        tidy(*final(db)),
{
    let eid = keepass::db::EntryId::from_uuid(uuid::Uuid::from_u128(entry));
    let gid = keepass::db::GroupId::from_uuid(uuid::Uuid::from_u128(group));
    db.entry_mut(eid).unwrap().move_to(gid).is_ok()
}

/// `GroupMut::add_group`: a new group with a fresh random UUID, an empty name
/// and nothing in it, at the end of the parent's child groups.
#[verifier::external_body]
pub(crate) fn add_group_to(db: &mut Database, parent: u128) -> (r: u128)
    requires
        tidy(*old(db)),
        stored_groups(*old(db)).contains_key(parent),
    ensures
        !stored_groups(*old(db)).contains_key(r),
        stored_groups(*final(db)) == stored_groups(*old(db))
            .insert(parent, with_child(stored_groups(*old(db))[parent], r))
            .insert(r, (Some(parent), Seq::<char>::empty(), Seq::<u128>::empty(), Seq::<u128>::empty())),
        stored_entries(*final(db)) == stored_entries(*old(db)),
        stored_root(*final(db)) == stored_root(*old(db)),
        stored_format(*final(db)) == stored_format(*old(db)),
        tidy(*final(db)),
{
    let gid = keepass::db::GroupId::from_uuid(uuid::Uuid::from_u128(parent));
    db.group_mut(gid).unwrap().add_group().id().uuid().as_u128()
}

/// Sets the `name` of a group.
#[verifier::external_body]
pub(crate) fn set_group_name(db: &mut Database, group: u128, name: &str)
    requires
        stored_groups(*old(db)).contains_key(group),
    ensures
        stored_groups(*final(db)) == stored_groups(*old(db)).insert(group, (
            stored_groups(*old(db))[group].0,
            name@,
            stored_groups(*old(db))[group].2,
            stored_groups(*old(db))[group].3,
        )),
        stored_entries(*final(db)) == stored_entries(*old(db)),
        stored_root(*final(db)) == stored_root(*old(db)),
        stored_format(*final(db)) == stored_format(*old(db)),
        tidy(*old(db)) ==> tidy(*final(db)),
{
    let gid = keepass::db::GroupId::from_uuid(uuid::Uuid::from_u128(group));
    db.group_mut(gid).unwrap().name = name.to_string();
}

/// `GroupMut::remove`: removes a group, every group below it and every entry
/// those groups hold, and takes the group out of its parent's child groups.
/// What it does besides to the crate's metadata, icons and attachments is not
/// stated.
#[verifier::external_body]
pub(crate) fn remove_group(db: &mut Database, group: u128)
    requires
        tidy(*old(db)),
        stored_groups(*old(db)).contains_key(group),
        group != stored_root(*old(db)),
    ensures
        stored_groups(*final(db)) == ({
            let gs = stored_groups(*old(db));
            let p = gs[group].0->0;
            gs.insert(p, without_child(gs[p], group)).remove_keys(subtree(gs, group))
        }),
        stored_entries(*final(db)) == ({
            let gs = stored_groups(*old(db));
            let es = stored_entries(*old(db));
            es.remove_keys(subtree_entries(gs, es, group))
        }),
        stored_root(*final(db)) == stored_root(*old(db)),
        stored_format(*final(db)) == stored_format(*old(db)),
        tidy(*final(db)),
{
    let gid = keepass::db::GroupId::from_uuid(uuid::Uuid::from_u128(group));
    db.group_mut(gid).unwrap().remove();
}

/// The first of `ids` that names a stored group whose name equals `name`,
/// ASCII letters compared without case.
pub open spec fn first_named(gs: Map<u128, (Option<u128>, Seq<char>, Seq<u128>, Seq<u128>)>, ids: Seq<u128>, name: Seq<char>) -> Option<u128>
    decreases ids.len(),
{
    if ids.len() == 0 {
        None
    } else if gs.contains_key(ids[0]) && eq_ignore_case(gs[ids[0]].1, name) {
        Some(ids[0])
    } else {
        first_named(gs, ids.drop_first(), name)
    }
}

/// The group reached from `cur` by following child groups named `parts`, in turn.
pub open spec fn walk_path(gs: Map<u128, (Option<u128>, Seq<char>, Seq<u128>, Seq<u128>)>, cur: u128, parts: Seq<Seq<char>>) -> Option<u128>
    decreases parts.len(),
{
    if parts.len() == 0 {
        Some(cur)
    } else if !gs.contains_key(cur) {
        None
    } else {
        match first_named(gs, gs[cur].2, parts[0]) {
            Some(c) => walk_path(gs, c, parts.drop_first()),
            None => None,
        }
    }
}

/// The views of a list of names.
pub open spec fn name_views(parts: Seq<String>) -> Seq<Seq<char>> {
    parts.map_values(|s: String| s@)
}

/// `GroupRef::group_by_path` from the root: the group reached by following
/// child groups by name, ASCII case ignored, the first match at each step.
/// The walk starts from `Database::root`, which must hold the root group.
#[verifier::external_body]
pub(crate) fn group_at_path(db: &Database, parts: &Vec<String>) -> (r: Option<u128>)
    requires
        stored_groups(*db).contains_key(stored_root(*db)),
    ensures
        r == walk_path(stored_groups(*db), stored_root(*db), name_views(parts@)),
{
    let names: Vec<&str> = parts.iter().map(|p| p.as_str()).collect();
    db.root().group_by_path(&names).map(|g| g.id().uuid().as_u128())
}

/// `GroupRef::group_by_name`: whether a child group of `group` has the name,
/// ASCII case ignored.
#[verifier::external_body]
pub(crate) fn has_child_named(db: &Database, group: u128, name: &str) -> (r: bool)
    requires
        tidy(*db),
        stored_groups(*db).contains_key(group),
    ensures
        r == first_named(stored_groups(*db), stored_groups(*db)[group].2, name@) is Some,
{
    let gid = keepass::db::GroupId::from_uuid(uuid::Uuid::from_u128(group));
    db.group(gid).unwrap().group_by_name(name).is_some()
}

} // verus!
