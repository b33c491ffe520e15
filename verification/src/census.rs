//! The tree of a tidy database: parent links never loop, so the walk from
//! the root meets every stored group exactly once, and the count of groups
//! over the tree is the number of stored groups.
use vstd::prelude::*;
use keepass::Database;
use crate::kdbx::{descends, present, stored_groups, stored_root, tidy, tree_size, forest_size};

verus! {

/// The groups of a database, by id: parent, name, child groups, entries.
pub type GroupMap = Map<u128, (Option<u128>, Seq<char>, Seq<u128>, Seq<u128>)>;

/// More steps allowed reach at least as far.
proof fn lemma_descends_more(gs: GroupMap, x: u128, y: u128, f: nat, f2: nat)
    requires
        descends(gs, x, y, f),
        f <= f2,
    ensures
        descends(gs, x, y, f2),
    decreases f,
{
    if x != y {
        lemma_descends_more(gs, gs[x].0->0, y, (f - 1) as nat, (f2 - 1) as nat);
    }
}

/// Reaching a group whose parent is `id` is reaching `id` one step later.
proof fn lemma_descends_extend(gs: GroupMap, x: u128, c: u128, id: u128, k: nat)
    requires
        descends(gs, x, c, k),
        gs.contains_key(c),
        gs[c].0 == Some(id),
    ensures
        descends(gs, x, id, k + 1),
    decreases k,
{
    if x == c {
        if c != id {
            assert(descends(gs, id, id, k));
        }
    } else if x != id {
        lemma_descends_extend(gs, gs[x].0->0, c, id, (k - 1) as nat);
    }
}

/// Two groups that one group reaches lie on one line: one reaches the other.
proof fn lemma_descends_line(gs: GroupMap, x: u128, y: u128, z: u128, f: nat, f2: nat)
    requires
        descends(gs, x, y, f),
        descends(gs, x, z, f2),
    ensures
        descends(gs, y, z, f2) || descends(gs, z, y, f),
    decreases f,
{
    if x != y && x != z {
        let p = gs[x].0->0;
        lemma_descends_line(gs, p, y, z, (f - 1) as nat, (f2 - 1) as nat);
        if descends(gs, y, z, (f2 - 1) as nat) {
            lemma_descends_more(gs, y, z, (f2 - 1) as nat, f2);
        } else {
            lemma_descends_more(gs, z, y, (f - 1) as nat, f);
        }
    }
}

/// The root reaches no group but itself.
proof fn lemma_root_reaches_itself(db: Database, c: u128, f: nat)
    requires
        tidy(db),
        descends(stored_groups(db), stored_root(db), c, f),
    ensures
        c == stored_root(db),
{
}

/// In a tidy database, a child group never leads back up to itself: its
/// parent does not reach it.
proof fn lemma_no_loop(db: Database, id: u128, c: u128, f: nat, g: nat)
    requires
        tidy(db),
        stored_groups(db).contains_key(c),
        stored_groups(db)[c].0 == Some(id),
        descends(stored_groups(db), id, c, f),
    ensures
        !descends(stored_groups(db), c, stored_root(db), g),
    decreases g,
{
    let gs = stored_groups(db);
    let root = stored_root(db);
    if descends(gs, c, root, g) {
        assert(c != root);
        assert(descends(gs, id, root, (g - 1) as nat));
        lemma_descends_line(gs, id, c, root, f, (g - 1) as nat);
        if descends(gs, root, c, f) {
            lemma_root_reaches_itself(db, c, f);
        }
        lemma_no_loop(db, id, c, f, (g - 1) as nat);
    }
}

/// In a tidy database, the parent of a child group does not reach it.
pub proof fn lemma_parent_misses_child(db: Database, id: u128, c: u128, f: nat)
    requires
        tidy(db),
        stored_groups(db).contains_key(id),
        stored_groups(db)[id].2.contains(c),
    ensures
        !descends(stored_groups(db), id, c, f),
{
    let gs = stored_groups(db);
    assert(gs.contains_key(c) && gs[c].0 == Some(id));
    if descends(gs, id, c, f) {
        assert(c != stored_root(db));
        assert(descends(gs, c, stored_root(db), gs.len()));
        lemma_no_loop(db, id, c, f, gs.len());
    }
}

/// In a tidy database, no group lies below two distinct children of one group.
proof fn lemma_siblings_apart(db: Database, id: u128, c1: u128, c2: u128, x: u128, f: nat)
    requires
        tidy(db),
        stored_groups(db).contains_key(id),
        stored_groups(db)[id].2.contains(c1),
        stored_groups(db)[id].2.contains(c2),
        c1 != c2,
    ensures
        !(descends(stored_groups(db), x, c1, f) && descends(stored_groups(db), x, c2, f)),
{
    let gs = stored_groups(db);
    if descends(gs, x, c1, f) && descends(gs, x, c2, f) {
        lemma_descends_line(gs, x, c1, c2, f, f);
        assert(gs[c1].0 == Some(id) && gs[c2].0 == Some(id));
        if descends(gs, c1, c2, f) {
            assert(descends(gs, id, c2, (f - 1) as nat));
            lemma_parent_misses_child(db, id, c2, (f - 1) as nat);
        } else {
            assert(descends(gs, id, c1, (f - 1) as nat));
            lemma_parent_misses_child(db, id, c1, (f - 1) as nat);
        }
    }
}

/// The ids that the walk of [`tree_size`] meets, in order.
pub open spec fn tree_ids(gs: GroupMap, id: u128, fuel: nat) -> Seq<u128>
    decreases fuel, 0int, 0int,
{
    if fuel == 0 {
        seq![id]
    } else {
        let cs = present(gs[id].2, gs);
        seq![id] + forest_ids(gs, cs, (fuel - 1) as nat, cs.len() as int)
    }
}

/// The ids that the walks below the first `k` of `cs` meet, in order.
pub open spec fn forest_ids(gs: GroupMap, cs: Seq<u128>, fuel: nat, k: int) -> Seq<u128>
    decreases fuel, 1int, k,
{
    if k <= 0 || k > cs.len() {
        Seq::empty()
    } else {
        forest_ids(gs, cs, fuel, k - 1) + tree_ids(gs, cs[k - 1], fuel)
    }
}

/// The walk meets as many ids as it counts.
proof fn lemma_tree_ids_len(gs: GroupMap, id: u128, fuel: nat)
    ensures
        tree_ids(gs, id, fuel).len() == tree_size(gs, id, fuel),
    decreases fuel, 0int, 0int,
{
    if fuel > 0 {
        let cs = present(gs[id].2, gs);
        lemma_forest_ids_len(gs, cs, (fuel - 1) as nat, cs.len() as int);
    }
}

/// The walks below a forest meet as many ids as they count.
proof fn lemma_forest_ids_len(gs: GroupMap, cs: Seq<u128>, fuel: nat, k: int)
    ensures
        forest_ids(gs, cs, fuel, k).len() == forest_size(gs, cs, fuel, k),
    decreases fuel, 1int, k,
{
    if k > 0 && k <= cs.len() {
        lemma_forest_ids_len(gs, cs, fuel, k - 1);
        lemma_tree_ids_len(gs, cs[k - 1], fuel);
    }
}

/// Every id that the walks below a forest meet is met below one of its trees.
proof fn lemma_forest_member(gs: GroupMap, cs: Seq<u128>, fuel: nat, k: int, i: int)
    requires
        0 <= i < forest_ids(gs, cs, fuel, k).len(),
    ensures
        exists|j: int| 0 <= j < k && j < cs.len() && #[trigger] tree_ids(gs, cs[j], fuel).contains(forest_ids(gs, cs, fuel, k)[i]),
    decreases k,
{
    let before = forest_ids(gs, cs, fuel, k - 1);
    let last = tree_ids(gs, cs[k - 1], fuel);
    assert(forest_ids(gs, cs, fuel, k) == before + last);
    if i < before.len() {
        lemma_forest_member(gs, cs, fuel, k - 1, i);
        assert(forest_ids(gs, cs, fuel, k)[i] == before[i]);
    } else {
        assert(forest_ids(gs, cs, fuel, k)[i] == last[i - before.len()]);
        assert(tree_ids(gs, cs[k - 1], fuel).contains(forest_ids(gs, cs, fuel, k)[i]));
    }
}

/// What the walk below a tree of a forest meets, the walks below the forest meet.
proof fn lemma_forest_covers(gs: GroupMap, cs: Seq<u128>, fuel: nat, k: int, j: int, x: u128)
    requires
        0 <= j < k <= cs.len(),
        tree_ids(gs, cs[j], fuel).contains(x),
    ensures
        forest_ids(gs, cs, fuel, k).contains(x),
    decreases k,
{
    let before = forest_ids(gs, cs, fuel, k - 1);
    let last = tree_ids(gs, cs[k - 1], fuel);
    assert(forest_ids(gs, cs, fuel, k) == before + last);
    if j == k - 1 {
        let t = choose|t: int| 0 <= t < last.len() && last[t] == x;
        assert((before + last)[before.len() + t] == x);
    } else {
        lemma_forest_covers(gs, cs, fuel, k - 1, j, x);
        let t = choose|t: int| 0 <= t < before.len() && before[t] == x;
        assert((before + last)[t] == x);
    }
}

/// The ids that `m` holds of a list without repeats come without repeats.
proof fn lemma_present_unique<V>(ids: Seq<u128>, m: Map<u128, V>)
    requires
        ids.no_duplicates(),
    ensures
        present(ids, m).no_duplicates(),
        forall|x: u128| #[trigger] present(ids, m).contains(x) ==> ids.contains(x) && m.contains_key(x),
    decreases ids.len(),
{
    if ids.len() > 0 {
        let r = present(ids.drop_last(), m);
        lemma_present_unique(ids.drop_last(), m);
        assert forall|x: u128| #[trigger] r.contains(x) implies ids.contains(x) by {
            let i = choose|i: int| 0 <= i < ids.drop_last().len() && ids.drop_last()[i] == x;
            assert(ids[i] == x);
        }
        assert(!r.contains(ids.last())) by {
            if r.contains(ids.last()) {
                let i = choose|i: int| 0 <= i < ids.drop_last().len() && ids.drop_last()[i] == ids.last();
                assert(ids[i] == ids[ids.len() - 1]);
            }
        }
        if m.contains_key(ids.last()) {
            assert forall|x: u128| #[trigger] present(ids, m).contains(x) implies ids.contains(x) && m.contains_key(x) by {
                let i = choose|i: int| 0 <= i < present(ids, m).len() && present(ids, m)[i] == x;
                if i < r.len() {
                    assert(r[i] == x);
                    assert(r.contains(x));
                } else {
                    assert(ids[ids.len() - 1] == x);
                }
            }
        }
    }
}

/// Every id the walk meets is a stored group that reaches the start within
/// the walk's depth.
proof fn lemma_tree_ids_below(db: Database, id: u128, fuel: nat, i: int)
    requires
        tidy(db),
        stored_groups(db).contains_key(id),
        0 <= i < tree_ids(stored_groups(db), id, fuel).len(),
    ensures
        stored_groups(db).contains_key(tree_ids(stored_groups(db), id, fuel)[i]),
        descends(stored_groups(db), tree_ids(stored_groups(db), id, fuel)[i], id, fuel),
    decreases fuel,
{
    let gs = stored_groups(db);
    let x = tree_ids(gs, id, fuel)[i];
    if i > 0 {
        let cs = present(gs[id].2, gs);
        let fs = forest_ids(gs, cs, (fuel - 1) as nat, cs.len() as int);
        assert(tree_ids(gs, id, fuel) == seq![id] + fs);
        assert(x == fs[i - 1]);
        lemma_forest_member(gs, cs, (fuel - 1) as nat, cs.len() as int, i - 1);
        let j = choose|j: int| 0 <= j < cs.len() && #[trigger] tree_ids(gs, cs[j], (fuel - 1) as nat).contains(x);
        lemma_present_unique_members(gs[id].2, gs, cs[j], j);
        let sub = tree_ids(gs, cs[j], (fuel - 1) as nat);
        let t = choose|t: int| 0 <= t < sub.len() && #[trigger] sub[t] == x;
        lemma_tree_ids_below(db, cs[j], (fuel - 1) as nat, t);
        lemma_descends_extend(gs, x, cs[j], id, (fuel - 1) as nat);
    }
}

/// A present id is one that the list holds and the map holds.
proof fn lemma_present_unique_members<V>(ids: Seq<u128>, m: Map<u128, V>, x: u128, j: int)
    requires
        0 <= j < present(ids, m).len(),
        present(ids, m)[j] == x,
    ensures
        ids.contains(x),
        m.contains_key(x),
    decreases ids.len(),
{
    if ids.len() > 0 {
        let r = present(ids.drop_last(), m);
        if j < r.len() {
            if m.contains_key(ids.last()) {
                assert(r[j] == x);
            }
            lemma_present_unique_members(ids.drop_last(), m, x, j);
            let i = choose|i: int| 0 <= i < ids.drop_last().len() && ids.drop_last()[i] == x;
            assert(ids[i] == x);
        } else {
            assert(ids[ids.len() - 1] == x);
        }
    }
}

/// A group that descends from `top` and is not `top` descends, one step
/// shorter, from a child group of `top`.
pub proof fn lemma_descends_child(db: Database, x: u128, top: u128, k: nat)
    requires
        tidy(db),
        descends(stored_groups(db), x, top, k),
        x != top,
    ensures
        k > 0,
        exists|c: u128| #[trigger] stored_groups(db)[top].2.contains(c) && stored_groups(db).contains_key(c)
            && descends(stored_groups(db), x, c, (k - 1) as nat),
    decreases k,
{
    let gs = stored_groups(db);
    let p = gs[x].0->0;
    assert(x != stored_root(db));
    assert(gs.contains_key(p) && gs[p].2.contains(x));
    if p == top {
        assert(descends(gs, x, x, (k - 1) as nat));
        assert(gs[top].2.contains(x) && gs.contains_key(x));
    } else {
        lemma_descends_child(db, p, top, (k - 1) as nat);
        let c = choose|c: u128| #[trigger] gs[top].2.contains(c) && gs.contains_key(c)
            && descends(gs, p, c, (k - 2) as nat);
        if x != c {
            assert(descends(gs, x, c, (k - 1) as nat));
        }
        assert(gs[top].2.contains(c) && gs.contains_key(c) && descends(gs, x, c, (k - 1) as nat));
    }
}

/// The walk from a group of a tidy database meets no group twice.
proof fn lemma_tree_ids_unique(db: Database, id: u128, fuel: nat)
    requires
        tidy(db),
        stored_groups(db).contains_key(id),
    ensures
        tree_ids(stored_groups(db), id, fuel).no_duplicates(),
    decreases fuel, 0int, 0int,
{
    let gs = stored_groups(db);
    if fuel > 0 {
        let cs = present(gs[id].2, gs);
        let fs = forest_ids(gs, cs, (fuel - 1) as nat, cs.len() as int);
        lemma_forest_ids_unique(db, id, (fuel - 1) as nat, cs.len() as int);
        assert forall|i: int| 0 <= i < fs.len() implies fs[i] != id by {
            lemma_forest_member(gs, cs, (fuel - 1) as nat, cs.len() as int, i);
            let j = choose|j: int| 0 <= j < cs.len() && #[trigger] tree_ids(gs, cs[j], (fuel - 1) as nat).contains(fs[i]);
            lemma_present_unique_members(gs[id].2, gs, cs[j], j);
            if fs[i] == id {
                let sub = tree_ids(gs, cs[j], (fuel - 1) as nat);
                let t = choose|t: int| 0 <= t < sub.len() && #[trigger] sub[t] == id;
                lemma_tree_ids_below(db, cs[j], (fuel - 1) as nat, t);
                lemma_parent_misses_child(db, id, cs[j], (fuel - 1) as nat);
            }
        }
        vstd::seq_lib::lemma_no_dup_in_concat(seq![id], fs);
        assert(tree_ids(gs, id, fuel) == seq![id] + fs);
    }
}

/// The walks below the first `k` child groups of a group of a tidy
/// database meet no group twice.
proof fn lemma_forest_ids_unique(db: Database, id: u128, fuel: nat, k: int)
    requires
        tidy(db),
        stored_groups(db).contains_key(id),
        k <= present(stored_groups(db)[id].2, stored_groups(db)).len(),
    ensures
        forest_ids(stored_groups(db), present(stored_groups(db)[id].2, stored_groups(db)), fuel, k).no_duplicates(),
    decreases fuel, 1int, k,
{
    let gs = stored_groups(db);
    let cs = present(gs[id].2, gs);
    if k > 0 {
        let before = forest_ids(gs, cs, fuel, k - 1);
        let last = tree_ids(gs, cs[k - 1], fuel);
        lemma_forest_ids_unique(db, id, fuel, k - 1);
        lemma_present_unique_members(gs[id].2, gs, cs[k - 1], k - 1);
        lemma_tree_ids_unique(db, cs[k - 1], fuel);
        lemma_present_unique(gs[id].2, gs);
        assert forall|a: int, b: int| 0 <= a < before.len() && 0 <= b < last.len() implies before[a] != last[b] by {
            if before[a] == last[b] {
                let x = last[b];
                lemma_forest_member(gs, cs, fuel, k - 1, a);
                let j = choose|j: int| 0 <= j < k - 1 && j < cs.len() && #[trigger] tree_ids(gs, cs[j], fuel).contains(before[a]);
                lemma_present_unique_members(gs[id].2, gs, cs[j], j);
                let sub = tree_ids(gs, cs[j], fuel);
                let t = choose|t: int| 0 <= t < sub.len() && #[trigger] sub[t] == x;
                lemma_tree_ids_below(db, cs[j], fuel, t);
                lemma_tree_ids_below(db, cs[k - 1], fuel, b);
                assert(cs[j] != cs[k - 1]);
                lemma_siblings_apart(db, id, cs[j], cs[k - 1], x, fuel);
            }
        }
        vstd::seq_lib::lemma_no_dup_in_concat(before, last);
        assert(forest_ids(gs, cs, fuel, k) == before + last);
    }
}

/// The walk from `top` meets every group that reaches `top` within the
/// walk's depth.
proof fn lemma_tree_ids_cover(db: Database, top: u128, fuel: nat, x: u128, k: nat)
    requires
        tidy(db),
        stored_groups(db).contains_key(top),
        descends(stored_groups(db), x, top, k),
        k <= fuel,
    ensures
        tree_ids(stored_groups(db), top, fuel).contains(x),
    decreases k,
{
    let gs = stored_groups(db);
    if x == top {
        assert(tree_ids(gs, top, fuel)[0] == top);
    } else {
        lemma_descends_child(db, x, top, k);
        let c = choose|c: u128| #[trigger] gs[top].2.contains(c) && gs.contains_key(c)
            && descends(gs, x, c, (k - 1) as nat);
        let cs = present(gs[top].2, gs);
        crate::readback::lemma_present_has(gs[top].2, gs, c);
        let j = choose|j: int| 0 <= j < cs.len() && cs[j] == c;
        lemma_tree_ids_cover(db, c, (fuel - 1) as nat, x, (k - 1) as nat);
        lemma_forest_covers(gs, cs, (fuel - 1) as nat, cs.len() as int, j, x);
        let fs = forest_ids(gs, cs, (fuel - 1) as nat, cs.len() as int);
        let t = choose|t: int| 0 <= t < fs.len() && fs[t] == x;
        assert(tree_ids(gs, top, fuel) == seq![top] + fs);
        assert(tree_ids(gs, top, fuel)[t + 1] == x);
    }
}

/// The walk from the root of a tidy database counts every stored group
/// once: the group count over its tree is the number of stored groups.
pub proof fn group_count_is_number_of_groups(db: Database)
    requires
        tidy(db),
    ensures
        tree_size(stored_groups(db), stored_root(db), stored_groups(db).len()) == stored_groups(db).len(),
{
    let gs = stored_groups(db);
    let root = stored_root(db);
    let s = tree_ids(gs, root, gs.len());
    lemma_tree_ids_len(gs, root, gs.len());
    lemma_tree_ids_unique(db, root, gs.len());
    s.unique_seq_to_set();
    assert forall|x: u128| s.to_set().contains(x) <==> gs.dom().contains(x) by {
        if s.to_set().contains(x) {
            let i = choose|i: int| 0 <= i < s.len() && s[i] == x;
            lemma_tree_ids_below(db, root, gs.len(), i);
        }
        if gs.dom().contains(x) {
            if x != root {
                assert(descends(gs, x, root, gs.len()));
            }
            lemma_tree_ids_cover(db, root, gs.len(), x, gs.len());
        }
    }
    assert(s.to_set() =~= gs.dom());
}

} // verus!
