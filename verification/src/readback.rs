//! What a search of a read-back vault finds: every stored entry below the
//! root is listed in the copy of the vault, and every listed entry is stored.
use vstd::prelude::*;
use keepass::Database;
use crate::census::lemma_descends_child;
use crate::ids::{hyphenated, parsed_uuid};
use crate::kdbx::{descends, entry_mirrors, group_mirrors, present, stored_entries, stored_groups, stored_root, tidy, vault_mirrors};
use crate::listing::{child_pairs, child_path, entry_pairs};
use crate::query::{entry_is, first_entry};
use crate::text::eq_ignore_case;
use crate::vault::{field_lookup, field_text, key_title, EntryField, Vault, VaultEntry, VaultGroup};

verus! {

/// Some pair of `ps` holds the entry whose id text is `t`.
pub open spec fn lists_id(ps: Seq<(VaultEntry, Seq<char>)>, t: Seq<char>) -> bool {
    exists|i: int| 0 <= i < ps.len() && (#[trigger] ps[i]).0.id@ == t
}

/// An id that `ids` lists and `m` holds is among the present ones.
pub proof fn lemma_present_has<V>(ids: Seq<u128>, m: Map<u128, V>, c: u128)
    requires
        ids.contains(c),
        m.contains_key(c),
    ensures
        present(ids, m).contains(c),
    decreases ids.len(),
{
    let r = present(ids.drop_last(), m);
    if ids.last() == c {
        assert(present(ids, m) == r.push(c));
        assert(present(ids, m)[r.len() as int] == c);
    } else {
        let i = choose|i: int| 0 <= i < ids.len() && ids[i] == c;
        assert(i < ids.len() - 1);
        assert(ids.drop_last()[i] == c);
        lemma_present_has(ids.drop_last(), m, c);
        let j = choose|j: int| 0 <= j < r.len() && r[j] == c;
        if m.contains_key(ids.last()) {
            assert(present(ids, m)[j] == c);
        } else {
            assert(present(ids, m)[j] == c);
        }
    }
}

/// What the first `k` child groups list, the group lists among its children.
proof fn lemma_child_lists(g: VaultGroup, path: Seq<char>, i: int, k: int, t: Seq<char>)
    requires
        0 <= i < k <= g.groups@.len(),
        lists_id(entry_pairs(g.groups@[i], child_path(path, g.groups@[i].name@)), t),
    ensures
        lists_id(child_pairs(g, path, k), t),
    decreases k,
{
    let c = g.groups@[k - 1];
    let before = child_pairs(g, path, k - 1);
    let last = entry_pairs(c, child_path(path, c.name@));
    assert(child_pairs(g, path, k) == before + last);
    if i == k - 1 {
        let j = choose|j: int| 0 <= j < last.len() && (#[trigger] last[j]).0.id@ == t;
        assert((before + last)[before.len() + j] == last[j]);
    } else {
        lemma_child_lists(g, path, i, k - 1, t);
        let j = choose|j: int| 0 <= j < before.len() && (#[trigger] before[j]).0.id@ == t;
        assert((before + last)[j] == before[j]);
    }
}

/// A copy of the tree at `top`, made down to `fuel` levels, lists every
/// stored entry of every group that descends from `top` in at most `fuel` steps.
proof fn lemma_mirror_lists(g: VaultGroup, db: Database, top: u128, fuel: nat, x: u128, k: nat, u: u128, path: Seq<char>)
    requires
        tidy(db),
        group_mirrors(g, stored_groups(db), stored_entries(db), top, fuel),
        descends(stored_groups(db), x, top, k),
        k <= fuel,
        stored_groups(db).contains_key(x),
        stored_groups(db)[x].3.contains(u),
    ensures
        lists_id(entry_pairs(g, path), hyphenated(u)),
    decreases k,
{
    let gs = stored_groups(db);
    let es = stored_entries(db);
    let pairs = entry_pairs(g, path);
    let own = g.entries@.map_values(|e: VaultEntry| (e, path));
    assert(pairs == own + child_pairs(g, path, g.groups@.len() as int));
    if x == top {
        lemma_present_has(gs[top].3, es, u);
        let ids = present(gs[top].3, es);
        let j = choose|j: int| 0 <= j < ids.len() && ids[j] == u;
        assert(entry_mirrors(g.entries@[j], es, ids[j]));
        assert(pairs[j] == own[j]);
        assert(pairs[j].0.id@ == hyphenated(u));
    } else {
        lemma_descends_child(db, x, top, k);
        let c = choose|c: u128| #[trigger] gs[top].2.contains(c) && gs.contains_key(c)
            && descends(gs, x, c, (k - 1) as nat);
        lemma_present_has(gs[top].2, gs, c);
        let cs = present(gs[top].2, gs);
        let i = choose|i: int| 0 <= i < cs.len() && cs[i] == c;
        let h = g.groups@[i];
        assert(group_mirrors(h, gs, es, cs[i], (fuel - 1) as nat));
        lemma_mirror_lists(h, db, c, (fuel - 1) as nat, x, (k - 1) as nat, u, child_path(path, h.name@));
        lemma_child_lists(g, path, i, g.groups@.len() as int, hyphenated(u));
        let ch = child_pairs(g, path, g.groups@.len() as int);
        let j = choose|j: int| 0 <= j < ch.len() && (#[trigger] ch[j]).0.id@ == hyphenated(u);
        assert(pairs[own.len() + j] == ch[j]);
    }
}

/// The copy of a tidy database lists every entry that the database stores.
pub proof fn lemma_stored_listed(v: Vault, db: Database, u: u128)
    requires
        tidy(db),
        vault_mirrors(v, db),
        stored_entries(db).contains_key(u),
    ensures
        lists_id(entry_pairs(v.root, v.root.name@), hyphenated(u)),
{
    let gs = stored_groups(db);
    let x = stored_entries(db)[u].0;
    let root = stored_root(db);
    if x != root {
        assert(descends(gs, x, root, gs.len()));
    }
    lemma_mirror_lists(v.root, db, root, gs.len(), x, gs.len(), u, v.root.name@);
}

/// Every entry that a copy down to `fuel` levels lists is a stored entry.
pub proof fn lemma_listed_stored(
    g: VaultGroup,
    gs: Map<u128, (Option<u128>, Seq<char>, Seq<u128>, Seq<u128>)>,
    es: Map<u128, (u128, Map<Seq<char>, (Seq<char>, bool)>)>,
    top: u128,
    fuel: nat,
    path: Seq<char>,
    i: int,
)
    requires
        group_mirrors(g, gs, es, top, fuel),
        0 <= i < entry_pairs(g, path).len(),
    ensures
        exists|x: u128| #[trigger] entry_mirrors(entry_pairs(g, path)[i].0, es, x),
    decreases fuel, 1int, 0int,
{
    let own = g.entries@.map_values(|e: VaultEntry| (e, path));
    let rest = child_pairs(g, path, g.groups@.len() as int);
    assert(entry_pairs(g, path) == own + rest);
    let ids = present(gs[top].3, es);
    if i < own.len() {
        assert(entry_pairs(g, path)[i] == own[i]);
        assert(entry_mirrors(g.entries@[i], es, ids[i]));
        assert(entry_mirrors(entry_pairs(g, path)[i].0, es, ids[i]));
    } else {
        lemma_child_listed_stored(g, gs, es, top, fuel, path, g.groups@.len() as int, i - own.len());
        assert(entry_pairs(g, path)[i] == rest[i - own.len()]);
        let x = choose|x: u128| #[trigger] entry_mirrors(rest[i - own.len()].0, es, x);
        assert(entry_mirrors(entry_pairs(g, path)[i].0, es, x));
    }
}

/// Every entry that the first `k` child groups of a copy list is a stored entry.
proof fn lemma_child_listed_stored(
    g: VaultGroup,
    gs: Map<u128, (Option<u128>, Seq<char>, Seq<u128>, Seq<u128>)>,
    es: Map<u128, (u128, Map<Seq<char>, (Seq<char>, bool)>)>,
    top: u128,
    fuel: nat,
    path: Seq<char>,
    k: int,
    j: int,
)
    requires
        group_mirrors(g, gs, es, top, fuel),
        0 <= j < child_pairs(g, path, k).len(),
    ensures
        exists|x: u128| #[trigger] entry_mirrors(child_pairs(g, path, k)[j].0, es, x),
    decreases fuel, 0int, k,
{
    let c = g.groups@[k - 1];
    let before = child_pairs(g, path, k - 1);
    let last = entry_pairs(c, child_path(path, c.name@));
    assert(child_pairs(g, path, k) == before + last);
    if j < before.len() {
        lemma_child_listed_stored(g, gs, es, top, fuel, path, k - 1, j);
        assert(child_pairs(g, path, k)[j] == before[j]);
    } else {
        let cs = present(gs[top].2, gs);
        assert(group_mirrors(c, gs, es, cs[k - 1], (fuel - 1) as nat));
        lemma_listed_stored(c, gs, es, cs[k - 1], (fuel - 1) as nat, child_path(path, c.name@), j - before.len());
        assert(child_pairs(g, path, k)[j] == last[j - before.len()]);
    }
}

/// No stored entry of `es` has a title equal to `t`, ASCII case ignored.
pub open spec fn no_title(es: Map<u128, (u128, Map<Seq<char>, (Seq<char>, bool)>)>, t: Seq<char>) -> bool {
    forall|x: u128| #[trigger] es.contains_key(x) && es[x].1.contains_key(key_title()) ==> !eq_ignore_case(es[x].1[key_title()].0, t)
}

/// A field that a lookup finds is one of the fields, under the key looked up.
proof fn lemma_field_found(fs: Seq<EntryField>, k: Seq<char>)
    requires
        field_lookup(fs, k) is Some,
    ensures
        exists|i: int| 0 <= i < fs.len() && fs[i] == field_lookup(fs, k)->0 && (#[trigger] fs[i]).key@ == k,
    decreases fs.len(),
{
    if fs[0].key@ != k {
        lemma_field_found(fs.drop_first(), k);
        let i = choose|i: int| 0 <= i < fs.drop_first().len() && fs.drop_first()[i] == field_lookup(fs.drop_first(), k)->0
            && (#[trigger] fs.drop_first()[i]).key@ == k;
        assert(fs[i + 1] == fs.drop_first()[i]);
    } else {
        assert(fs[0] == field_lookup(fs, k)->0);
    }
}

/// The title of a copied entry is the title that the database stores.
proof fn lemma_title_stored(e: VaultEntry, es: Map<u128, (u128, Map<Seq<char>, (Seq<char>, bool)>)>, x: u128)
    requires
        entry_mirrors(e, es, x),
        field_text(e, key_title()) is Some,
    ensures
        es[x].1.contains_key(key_title()),
        es[x].1[key_title()].0 == field_text(e, key_title())->0,
{
    lemma_field_found(e.fields@, key_title());
    let i = choose|i: int| 0 <= i < e.fields@.len() && e.fields@[i] == field_lookup(e.fields@, key_title())->0
        && (#[trigger] e.fields@[i]).key@ == key_title();
    assert(es[x].1.contains_key(e.fields@[i].key@));
}

/// Where no pair is the one `t` names, the search finds nothing, and the
/// other way round.
proof fn lemma_first_none(ps: Seq<(VaultEntry, Seq<char>)>, t: Seq<char>)
    ensures
        first_entry(ps, t) is None <==> forall|i: int| 0 <= i < ps.len() ==> !entry_is(#[trigger] ps[i].0, t),
    decreases ps.len(),
{
    if ps.len() > 0 {
        lemma_first_none(ps.drop_first(), t);
        if first_entry(ps, t) is None {
            assert forall|i: int| 0 <= i < ps.len() implies !entry_is(#[trigger] ps[i].0, t) by {
                if i > 0 {
                    assert(ps[i] == ps.drop_first()[i - 1]);
                }
            }
        } else if forall|i: int| 0 <= i < ps.len() ==> !entry_is(#[trigger] ps[i].0, t) {
            assert(!entry_is(ps[0].0, t));
            assert forall|i: int| 0 <= i < ps.drop_first().len() implies !entry_is(#[trigger] ps.drop_first()[i].0, t) by {
                assert(ps.drop_first()[i] == ps[i + 1]);
            }
        }
    }
}

/// A search by the text of a stored entry's id finds an entry in the copy
/// of a tidy database.
pub proof fn lemma_search_finds(v: Vault, db: Database, u: u128, t: Seq<char>)
    requires
        tidy(db),
        vault_mirrors(v, db),
        stored_entries(db).contains_key(u),
        t == hyphenated(u),
        parsed_uuid(t) == Some(u),
    ensures
        first_entry(entry_pairs(v.root, v.root.name@), t) is Some,
{
    let ps = entry_pairs(v.root, v.root.name@);
    lemma_stored_listed(v, db, u);
    let i = choose|i: int| 0 <= i < ps.len() && (#[trigger] ps[i]).0.id@ == hyphenated(u);
    assert(entry_is(ps[i].0, t));
    lemma_first_none(ps, t);
}

/// A search by the text of an id that the database does not store finds
/// nothing in its copy, where no stored entry is titled with that text.
pub proof fn lemma_search_misses(v: Vault, db: Database, u: u128, t: Seq<char>)
    requires
        vault_mirrors(v, db),
        !stored_entries(db).contains_key(u),
        no_title(stored_entries(db), t),
        t == hyphenated(u),
        forall|x: u128| t == hyphenated(x) ==> parsed_uuid(t) == Some(x),
    ensures
        first_entry(entry_pairs(v.root, v.root.name@), t) is None,
{
    let es = stored_entries(db);
    let ps = entry_pairs(v.root, v.root.name@);
    assert forall|i: int| 0 <= i < ps.len() implies !entry_is(#[trigger] ps[i].0, t) by {
        lemma_listed_stored(v.root, stored_groups(db), es, stored_root(db), stored_groups(db).len(), v.root.name@, i);
        let x = choose|x: u128| #[trigger] entry_mirrors(ps[i].0, es, x);
        if field_text(ps[i].0, key_title()) is Some {
            lemma_title_stored(ps[i].0, es, x);
        }
        assert(parsed_uuid(t) == Some(u));
        if ps[i].0.id@ == hyphenated(u) {
            assert(t == hyphenated(x));
            assert(parsed_uuid(t) == Some(x));
        }
    }
    lemma_first_none(ps, t);
}

} // verus!
