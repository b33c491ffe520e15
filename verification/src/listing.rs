//! Listing the entries and groups of a vault, in the order the tools show them.
use vstd::prelude::*;
use crate::text::{push_str, text_order, compare_text, lemma_text_order_zero, lemma_text_order_trans};
use crate::order::{insert_stable, stable_sort, insert_pos, lemma_insert_pos, lemma_sort_step, opt_text_order, ordered_by, transitive, irreflexive, lemma_sort_ordered, lemma_sort_permutes};
use crate::vault::{
    VaultEntry, VaultGroup, Vault, field_text, get_field, opt_view, key_title, key_username,
    key_url, title_key, username_key, url_key,
};

verus! {

/// What a listing shows of an entry: no password, no notes.
#[derive(Clone, Debug)]
pub struct EntrySummary {
    pub id: String,
    pub group_path: String,
    pub title: Option<String>,
    pub username: Option<String>,
    pub url: Option<String>,
}

/// The mathematical value of an [`EntrySummary`].
pub struct SummaryView {
    pub id: Seq<char>,
    pub group_path: Seq<char>,
    pub title: Option<Seq<char>>,
    pub username: Option<Seq<char>>,
    pub url: Option<Seq<char>>,
}

impl View for EntrySummary {
    type V = SummaryView;

    open spec fn view(&self) -> SummaryView {
        SummaryView {
            id: self.id@,
            group_path: self.group_path@,
            title: opt_view(self.title),
            username: opt_view(self.username),
            url: opt_view(self.url),
        }
    }
}

/// The summary of entry `e` found in the group at `path`.
pub open spec fn summary_of(e: VaultEntry, path: Seq<char>) -> SummaryView {
    SummaryView {
        id: e.id@,
        group_path: path,
        title: field_text(e, key_title()),
        username: field_text(e, key_username()),
        url: field_text(e, key_url()),
    }
}

/// The path of a child group named `name` below the group at `path`.
pub open spec fn child_path(path: Seq<char>, name: Seq<char>) -> Seq<char> {
    if path.len() == 0 {
        name
    } else {
        path + seq!['/'] + name
    }
}

/// The summaries of the entries of `g` (at `path`) and of all groups below it, depth first:
/// a group's own entries, then each child group in turn.
pub open spec fn entry_rows(g: VaultGroup, path: Seq<char>) -> Seq<SummaryView>
    decreases g, 1int, 0int,
{
    g.entries@.map_values(|e: VaultEntry| summary_of(e, path)) + child_rows(g, path, g.groups@.len() as int)
}

/// The rows of the first `k` child groups of `g`.
pub open spec fn child_rows(g: VaultGroup, path: Seq<char>, k: int) -> Seq<SummaryView>
    decreases g, 0int, k,
{
    if k <= 0 || k > g.groups@.len() {
        Seq::empty()
    } else {
        let c = g.groups@[k - 1];
        child_rows(g, path, k - 1) + entry_rows(c, child_path(path, c.name@))
    }
}

/// The views of a sequence of summaries.
pub open spec fn summary_views(s: Seq<EntrySummary>) -> Seq<SummaryView> {
    s.map_values(|x: EntrySummary| x@)
}

/// The summary of one entry found at `path`.
pub fn summary_from_entry(e: &VaultEntry, path: &String) -> (s: EntrySummary)
    ensures
        s@ == summary_of(*e, path@),
{
    EntrySummary {
        id: e.id.clone(),
        group_path: path.clone(),
        title: get_field(e, title_key()),
        username: get_field(e, username_key()),
        url: get_field(e, url_key()),
    }
}

/// The path of the child group `name` below `path`.
pub fn make_child_path(path: &String, name: &String) -> (r: String)
    ensures
        r@ == child_path(path@, name@),
{
    if path.as_str().is_empty() {
        name.clone()
    } else {
        let mut r = path.clone();
        r.push('/');
        push_str(&mut r, name.as_str());
        r
    }
}

/// Appends the rows of `g` at `path` to `out`.
pub fn collect_summaries(g: &VaultGroup, path: String, out: &mut Vec<EntrySummary>)
    ensures
        summary_views(final(out)@) == summary_views(old(out)@) + entry_rows(*g, path@),
    decreases g,
{
    let ghost start = summary_views(out@);
    let mut i: usize = 0;
    while i < g.entries.len()
        invariant
            i <= g.entries.len(),
            summary_views(out@) == start + g.entries@.take(i as int).map_values(|e: VaultEntry| summary_of(e, path@)),
        decreases g.entries.len() - i,
    {
        let s = summary_from_entry(&g.entries[i], &path);
        let ghost prev = out@;
        out.push(s);
        proof {
            assert(summary_views(out@) =~= summary_views(prev).push(s@));
            assert(g.entries@.take(i + 1).map_values(|e: VaultEntry| summary_of(e, path@)) =~=
                g.entries@.take(i as int).map_values(|e: VaultEntry| summary_of(e, path@)).push(summary_of(g.entries@[i as int], path@)));
            assert(g.entries@.take(i + 1) =~= g.entries@.take(i as int).push(g.entries@[i as int]));
            assert(summary_views(out@) =~= start + g.entries@.take(i + 1).map_values(|e: VaultEntry| summary_of(e, path@)));
        }
        i = i + 1;
    }
    assert(g.entries@.take(g.entries.len() as int) =~= g.entries@);
    let ghost own = g.entries@.map_values(|e: VaultEntry| summary_of(e, path@));
    let mut k: usize = 0;
    while k < g.groups.len()
        invariant
            k <= g.groups.len(),
            own == g.entries@.map_values(|e: VaultEntry| summary_of(e, path@)),
            summary_views(out@) == start + own + child_rows(*g, path@, k as int),
        decreases g.groups.len() - k,
    {
        let c = &g.groups[k];
        let cp = make_child_path(&path, &c.name);
        collect_summaries(c, cp, out);
        proof {
            assert(summary_views(out@) =~= start + own + child_rows(*g, path@, k + 1));
        }
        k = k + 1;
    }
}

/// Listing order of entries: by group path, then by title (entries without a title first).
pub open spec fn summary_lt(a: SummaryView, b: SummaryView) -> bool {
    let g = text_order(a.group_path, b.group_path);
    g < 0 || (g == 0 && opt_text_order(a.title, b.title) < 0)
}

/// Compares two optional texts: none first, then by text.
pub fn compare_opt_text(a: &Option<String>, b: &Option<String>) -> (r: i8)
    ensures
        r as int == opt_text_order(opt_view(*a), opt_view(*b)),
{
    match (a, b) {
        (None, None) => 0,
        (None, Some(_)) => -1,
        (Some(_), None) => 1,
        (Some(x), Some(y)) => compare_text(x.as_str(), y.as_str()),
    }
}

/// Exec form of [`summary_lt`].
pub fn summary_less(a: &EntrySummary, b: &EntrySummary) -> (r: bool)
    ensures
        r == summary_lt(a@, b@),
{
    let g = compare_text(a.group_path.as_str(), b.group_path.as_str());
    g < 0 || (g == 0 && compare_opt_text(&a.title, &b.title) < 0)
}

/// A copy of a summary.
pub fn copy_summary(s: &EntrySummary) -> (r: EntrySummary)
    ensures
        r@ == s@,
{
    EntrySummary {
        id: s.id.clone(),
        group_path: s.group_path.clone(),
        title: match &s.title { Some(t) => Some(t.clone()), None => None },
        username: match &s.username { Some(t) => Some(t.clone()), None => None },
        url: match &s.url { Some(t) => Some(t.clone()), None => None },
    }
}

/// Stably sorts summaries by group path, then title.
pub fn sort_summaries(v: &Vec<EntrySummary>) -> (r: Vec<EntrySummary>)
    ensures
        summary_views(r@) == stable_sort(summary_views(v@), |a: SummaryView, b: SummaryView| summary_lt(a, b)),
{
    let ghost lt = |a: SummaryView, b: SummaryView| summary_lt(a, b);
    let ghost sv = summary_views(v@);
    let mut r: Vec<EntrySummary> = Vec::new();
    let mut i: usize = 0;
    assert(sv.take(0) =~= Seq::<SummaryView>::empty());
    while i < v.len()
        invariant
            i <= v.len(),
            sv == summary_views(v@),
            lt == (|a: SummaryView, b: SummaryView| summary_lt(a, b)),
            summary_views(r@) == stable_sort(sv.take(i as int), lt),
        decreases v.len() - i,
    {
        let x = copy_summary(&v[i]);
        let mut j: usize = 0;
        while j < r.len() && !summary_less(&x, &r[j])
            invariant
                j <= r.len(),
                lt == (|a: SummaryView, b: SummaryView| summary_lt(a, b)),
                forall|k: int| 0 <= k < j ==> !lt(x@, #[trigger] summary_views(r@)[k]),
            decreases r.len() - j,
        {
            j = j + 1;
        }
        proof {
            lemma_insert_pos(summary_views(r@), x@, lt, j as int);
            lemma_sort_step(sv, lt, i as int);
            assert(sv[i as int] == x@);
        }
        let ghost before = r@;
        r.insert(j, x);
        proof {
            assert(summary_views(r@) =~= summary_views(before).insert(j as int, x@));
        }
        i = i + 1;
    }
    assert(sv.take(v.len() as int) =~= sv);
    r
}

/// The entries of the vault as the listing shows them, in listing order.
pub open spec fn listed_entries(v: Vault) -> Seq<SummaryView> {
    stable_sort(entry_rows(v.root, v.root.name@), |a: SummaryView, b: SummaryView| summary_lt(a, b))
}

/// Texts in listing order: equal texts are not before each other, and
/// "before" chains.
proof fn lemma_text_before(a: Seq<char>, b: Seq<char>, c: Seq<char>)
    ensures
        !(text_order(a, a) < 0),
        text_order(a, b) < 0 && text_order(b, c) <= 0 ==> text_order(a, c) < 0,
        text_order(a, b) <= 0 && text_order(b, c) < 0 ==> text_order(a, c) < 0,
{
    lemma_text_order_zero(a, a);
    lemma_text_order_zero(a, b);
    lemma_text_order_zero(b, c);
    if text_order(a, b) < 0 && text_order(b, c) < 0 {
        lemma_text_order_trans(a, b, c);
    }
}

/// The order of entry listings is a strict order.
proof fn lemma_summary_order()
    ensures
        transitive(|a: SummaryView, b: SummaryView| summary_lt(a, b)),
        irreflexive(|a: SummaryView, b: SummaryView| summary_lt(a, b)),
{
    let lt = |a: SummaryView, b: SummaryView| summary_lt(a, b);
    assert forall|a: SummaryView, b: SummaryView, c: SummaryView| #[trigger] lt(a, b) && #[trigger] lt(b, c) implies lt(a, c) by {
        lemma_text_before(a.group_path, b.group_path, c.group_path);
        lemma_text_order_zero(a.group_path, b.group_path);
        lemma_text_order_zero(b.group_path, c.group_path);
        match (a.title, b.title, c.title) {
            (Some(x), Some(y), Some(z)) => lemma_text_before(x, y, z),
            _ => {},
        }
    }
    assert forall|a: SummaryView| !#[trigger] lt(a, a) by {
        lemma_text_before(a.group_path, a.group_path, a.group_path);
        match a.title {
            Some(x) => lemma_text_before(x, x, x),
            None => {},
        }
    }
}

/// The listing shows every entry of the vault once, ordered by group path
/// and then by title: no row comes after a row that it sorts before.
pub proof fn listing_is_ordered_and_complete(v: Vault)
    ensures
        listed_entries(v).to_multiset() == entry_rows(v.root, v.root.name@).to_multiset(),
        ordered_by(listed_entries(v), |a: SummaryView, b: SummaryView| summary_lt(a, b)),
{
    lemma_summary_order();
    lemma_sort_permutes(entry_rows(v.root, v.root.name@), |a: SummaryView, b: SummaryView| summary_lt(a, b));
    lemma_sort_ordered(entry_rows(v.root, v.root.name@), |a: SummaryView, b: SummaryView| summary_lt(a, b));
}

/// Lists every entry of the vault without secrets, ordered by group path and title.
pub fn list_entries(vault: &Vault) -> (r: Vec<EntrySummary>)
    ensures
        summary_views(r@) == listed_entries(*vault),
{
    let mut out: Vec<EntrySummary> = Vec::new();
    collect_summaries(&vault.root, vault.root.name.clone(), &mut out);
    assert(summary_views(out@) =~= entry_rows(vault.root, vault.root.name@));
    sort_summaries(&out)
}

/// What a listing shows of a group.
#[derive(Debug)]
pub struct GroupSummary {
    pub id: String,
    pub path: String,
    pub name: String,
    pub entry_count: usize,
    pub child_group_count: usize,
}

/// The mathematical value of a [`GroupSummary`].
pub struct GroupSummaryView {
    pub id: Seq<char>,
    pub path: Seq<char>,
    pub name: Seq<char>,
    pub entry_count: nat,
    pub child_group_count: nat,
}

impl View for GroupSummary {
    type V = GroupSummaryView;

    open spec fn view(&self) -> GroupSummaryView {
        GroupSummaryView {
            id: self.id@,
            path: self.path@,
            name: self.name@,
            entry_count: self.entry_count as nat,
            child_group_count: self.child_group_count as nat,
        }
    }
}

/// The views of a sequence of group summaries.
pub open spec fn group_views(s: Seq<GroupSummary>) -> Seq<GroupSummaryView> {
    s.map_values(|x: GroupSummary| x@)
}

/// The summary of group `g` at `path`.
pub open spec fn group_summary_of(g: VaultGroup, path: Seq<char>) -> GroupSummaryView {
    GroupSummaryView {
        id: g.id@,
        path: path,
        name: g.name@,
        entry_count: g.entries@.len(),
        child_group_count: g.groups@.len(),
    }
}

/// The summaries of `g` (at `path`) and of every group below it, in preorder;
/// a child's path is its parent's path, a slash and its name.
pub open spec fn group_rows(g: VaultGroup, path: Seq<char>) -> Seq<GroupSummaryView>
    decreases g, 1int, 0int,
{
    seq![group_summary_of(g, path)] + group_child_rows(g, path, g.groups@.len() as int)
}

/// The group rows of the first `k` child groups of `g`.
pub open spec fn group_child_rows(g: VaultGroup, path: Seq<char>, k: int) -> Seq<GroupSummaryView>
    decreases g, 0int, k,
{
    if k <= 0 || k > g.groups@.len() {
        Seq::empty()
    } else {
        let c = g.groups@[k - 1];
        group_child_rows(g, path, k - 1) + group_rows(c, path + seq!['/'] + c.name@)
    }
}

/// Appends the group rows of `g` at `path` to `out`.
pub fn collect_group_summaries(g: &VaultGroup, path: String, out: &mut Vec<GroupSummary>)
    ensures
        group_views(final(out)@) == group_views(old(out)@) + group_rows(*g, path@),
    decreases g,
{
    let ghost start = group_views(out@);
    let ghost prev = out@;
    let s = GroupSummary {
        id: g.id.clone(),
        path: path.clone(),
        name: g.name.clone(),
        entry_count: g.entries.len(),
        child_group_count: g.groups.len(),
    };
    out.push(s);
    assert(group_views(out@) =~= start + seq![group_summary_of(*g, path@)]);
    let mut k: usize = 0;
    while k < g.groups.len()
        invariant
            k <= g.groups.len(),
            group_views(out@) == start + seq![group_summary_of(*g, path@)] + group_child_rows(*g, path@, k as int),
        decreases g.groups.len() - k,
    {
        let c = &g.groups[k];
        let mut cp = path.clone();
        cp.push('/');
        push_str(&mut cp, c.name.as_str());
        assert(cp@ == path@ + seq!['/'] + c.name@);
        collect_group_summaries(c, cp, out);
        proof {
            assert(group_views(out@) =~= start + seq![group_summary_of(*g, path@)] + group_child_rows(*g, path@, k + 1));
        }
        k = k + 1;
    }
    assert(group_views(out@) =~= start + group_rows(*g, path@));
}

/// Listing order of groups: by path.
pub open spec fn group_lt(a: GroupSummaryView, b: GroupSummaryView) -> bool {
    text_order(a.path, b.path) < 0
}

/// Stably sorts group summaries by path.
pub fn sort_group_summaries(v: Vec<GroupSummary>) -> (r: Vec<GroupSummary>)
    ensures
        group_views(r@) == stable_sort(group_views(v@), |a: GroupSummaryView, b: GroupSummaryView| group_lt(a, b)),
{
    let ghost lt = |a: GroupSummaryView, b: GroupSummaryView| group_lt(a, b);
    let ghost sv = group_views(v@);
    let mut src = v;
    let mut r: Vec<GroupSummary> = Vec::new();
    let mut i: usize = 0;
    assert(sv.take(0) =~= Seq::<GroupSummaryView>::empty());
    while i < src.len()
        invariant
            i <= src.len(),
            sv == group_views(src@),
            lt == (|a: GroupSummaryView, b: GroupSummaryView| group_lt(a, b)),
            group_views(r@) == stable_sort(sv.take(i as int), lt),
        decreases src.len() - i,
    {
        let x = GroupSummary {
            id: src[i].id.clone(),
            path: src[i].path.clone(),
            name: src[i].name.clone(),
            entry_count: src[i].entry_count,
            child_group_count: src[i].child_group_count,
        };
        assert(x@ == sv[i as int]);
        let mut j: usize = 0;
        while j < r.len() && !(compare_text(x.path.as_str(), r[j].path.as_str()) < 0)
            invariant
                j <= r.len(),
                lt == (|a: GroupSummaryView, b: GroupSummaryView| group_lt(a, b)),
                forall|k: int| 0 <= k < j ==> !lt(x@, #[trigger] group_views(r@)[k]),
            decreases r.len() - j,
        {
            j = j + 1;
        }
        proof {
            lemma_insert_pos(group_views(r@), x@, lt, j as int);
            lemma_sort_step(sv, lt, i as int);
        }
        let ghost before = r@;
        r.insert(j, x);
        proof {
            assert(group_views(r@) =~= group_views(before).insert(j as int, x@));
        }
        i = i + 1;
    }
    assert(sv.take(src.len() as int) =~= sv);
    r
}

/// The groups of the vault as the listing shows them, in path order; the root's path is its name.
pub open spec fn listed_groups(v: Vault) -> Seq<GroupSummaryView> {
    stable_sort(group_rows(v.root, v.root.name@), |a: GroupSummaryView, b: GroupSummaryView| group_lt(a, b))
}

/// The group listing shows every group of the vault once, ordered by path.
pub proof fn group_listing_is_ordered_and_complete(v: Vault)
    ensures
        listed_groups(v).to_multiset() == group_rows(v.root, v.root.name@).to_multiset(),
        ordered_by(listed_groups(v), |a: GroupSummaryView, b: GroupSummaryView| group_lt(a, b)),
{
    let lt = |a: GroupSummaryView, b: GroupSummaryView| group_lt(a, b);
    assert forall|a: GroupSummaryView, b: GroupSummaryView, c: GroupSummaryView| #[trigger] lt(a, b) && #[trigger] lt(b, c) implies lt(a, c) by {
        lemma_text_before(a.path, b.path, c.path);
    }
    assert forall|a: GroupSummaryView| !#[trigger] lt(a, a) by {
        lemma_text_before(a.path, a.path, a.path);
    }
    lemma_sort_permutes(group_rows(v.root, v.root.name@), lt);
    lemma_sort_ordered(group_rows(v.root, v.root.name@), lt);
}

/// Lists every group of the vault with its path and counts, ordered by path.
pub fn list_groups(vault: &Vault) -> (r: Vec<GroupSummary>)
    ensures
        group_views(r@) == listed_groups(*vault),
{
    let mut out: Vec<GroupSummary> = Vec::new();
    collect_group_summaries(&vault.root, vault.root.name.clone(), &mut out);
    assert(group_views(out@) =~= group_rows(vault.root, vault.root.name@));
    sort_group_summaries(out)
}

/// The number of groups of the vault, the root included.
pub open spec fn group_count(v: Vault) -> nat {
    group_rows(v.root, v.root.name@).len()
}

/// The number of entries of the vault.
pub open spec fn entry_count(v: Vault) -> nat {
    entry_rows(v.root, v.root.name@).len()
}

/// Counts the groups of the vault, the root included.
pub fn count_groups(vault: &Vault) -> (r: usize)
    ensures
        r == group_count(*vault),
{
    let mut out: Vec<GroupSummary> = Vec::new();
    collect_group_summaries(&vault.root, vault.root.name.clone(), &mut out);
    assert(group_views(out@).len() == out@.len());
    out.len()
}

/// Counts the entries of the vault.
pub fn count_entries(vault: &Vault) -> (r: usize)
    ensures
        r == entry_count(*vault),
{
    let mut out: Vec<EntrySummary> = Vec::new();
    collect_summaries(&vault.root, vault.root.name.clone(), &mut out);
    assert(summary_views(out@).len() == out@.len());
    out.len()
}

/// Every entry of `g` and of the groups below it with the path of its group, depth first.
pub open spec fn entry_pairs(g: VaultGroup, path: Seq<char>) -> Seq<(VaultEntry, Seq<char>)>
    decreases g, 1int, 0int,
{
    g.entries@.map_values(|e: VaultEntry| (e, path)) + child_pairs(g, path, g.groups@.len() as int)
}

/// The entry pairs of the first `k` child groups of `g`.
pub open spec fn child_pairs(g: VaultGroup, path: Seq<char>, k: int) -> Seq<(VaultEntry, Seq<char>)>
    decreases g, 0int, k,
{
    if k <= 0 || k > g.groups@.len() {
        Seq::empty()
    } else {
        let c = g.groups@[k - 1];
        child_pairs(g, path, k - 1) + entry_pairs(c, child_path(path, c.name@))
    }
}

/// The views of collected entry pairs.
pub open spec fn pair_views(s: Seq<(&VaultEntry, String)>) -> Seq<(VaultEntry, Seq<char>)> {
    s.map_values(|p: (&VaultEntry, String)| (*p.0, p.1@))
}

/// Appends the entry pairs of `g` at `path` to `out`.
pub fn collect_pairs<'a>(g: &'a VaultGroup, path: String, out: &mut Vec<(&'a VaultEntry, String)>)
    ensures
        pair_views(final(out)@) == pair_views(old(out)@) + entry_pairs(*g, path@),
    decreases g,
{
    let ghost start = pair_views(out@);
    let mut i: usize = 0;
    while i < g.entries.len()
        invariant
            i <= g.entries.len(),
            pair_views(out@) == start + g.entries@.take(i as int).map_values(|e: VaultEntry| (e, path@)),
        decreases g.entries.len() - i,
    {
        let ghost prev = out@;
        out.push((&g.entries[i], path.clone()));
        proof {
            assert(pair_views(out@) =~= pair_views(prev).push((g.entries@[i as int], path@)));
            assert(g.entries@.take(i + 1).map_values(|e: VaultEntry| (e, path@)) =~=
                g.entries@.take(i as int).map_values(|e: VaultEntry| (e, path@)).push((g.entries@[i as int], path@)));
        }
        i = i + 1;
    }
    assert(g.entries@.take(g.entries.len() as int) =~= g.entries@);
    let ghost own = g.entries@.map_values(|e: VaultEntry| (e, path@));
    let mut k: usize = 0;
    while k < g.groups.len()
        invariant
            k <= g.groups.len(),
            own == g.entries@.map_values(|e: VaultEntry| (e, path@)),
            pair_views(out@) == start + own + child_pairs(*g, path@, k as int),
        decreases g.groups.len() - k,
    {
        let c = &g.groups[k];
        let cp = make_child_path(&path, &c.name);
        collect_pairs(c, cp, out);
        proof {
            assert(pair_views(out@) =~= start + own + child_pairs(*g, path@, k + 1));
        }
        k = k + 1;
    }
}

} // verus!
