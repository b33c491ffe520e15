//! What the graphical front end decides: its input clean-up, selectors,
//! errors, and the list of recent vaults.
use vstd::prelude::*;
use crate::edit::VaultCredentials;
use crate::listing::{EntrySummary, summary_views, SummaryView};
use crate::query::{EntrySelector, SelectorView};
use crate::text::{trim, trimmed, trim_slashes, slash_trimmed, starts_with, seq_starts_with, push_str, usize_to_decimal, decimal};

verus! {

/// An error the graphical front end shows: a kind and a message.
#[derive(Debug)]
pub struct GuiError {
    pub kind: &'static str,
    pub message: String,
}

/// An error of the given kind with the given message.
pub fn gui_error(kind: &'static str, message: &str) -> (r: GuiError)
    ensures
        r.kind@ == kind@,
        r.message@ == message@,
{
    GuiError { kind, message: message.to_owned() }
}

/// Credentials from the form: a key file path only when one was entered.
pub fn credentials_from_gui(password: String, key_file: Option<String>) -> (r: VaultCredentials)
    ensures
        r.password@ == password@,
        match key_file {
            Some(k) => if k@.len() == 0 { r.key_file is None } else { r.key_file matches Some(p) && p@ == k@ },
            None => r.key_file is None,
        },
{
    let key_file = match key_file {
        Some(k) => if k.as_str().is_empty() { None } else { Some(k) },
        None => None,
    };
    VaultCredentials { password, key_file }
}

/// The selector a form's kind and value stand for.
pub open spec fn gui_selector(kind: Seq<char>, value: Seq<char>) -> Option<SelectorView> {
    if kind == "id"@ {
        Some(SelectorView::Id(value))
    } else if kind == "title"@ {
        Some(SelectorView::Title(value))
    } else if kind == "url"@ {
        Some(SelectorView::Url(value))
    } else if kind == "username"@ {
        Some(SelectorView::Username(value))
    } else if kind == "auto"@ {
        Some(SelectorView::Auto(value))
    } else {
        None
    }
}

/// The selector a form asks for. A blank value (after trimming) and an
/// unknown kind are `validation_failed` errors.
pub fn selector_from_gui(kind: &str, value: String) -> (r: Result<EntrySelector, GuiError>)
    ensures
        trimmed(value@).len() == 0 ==> (r matches Err(e) && e.kind@ == "validation_failed"@ && e.message@ == "entry selector value is required"@),
        trimmed(value@).len() > 0 ==> match gui_selector(kind@, value@) {
            Some(s) => r matches Ok(sel) && sel@ == s,
            None => r matches Err(e) && e.kind@ == "validation_failed"@ && e.message@ == "unknown entry selector kind"@,
        },
{
    if trim(value.as_str()).as_str().is_empty() {
        return Err(gui_error("validation_failed", "entry selector value is required"));
    }
    let k = kind.to_owned();
    proof {
        reveal_strlit("id");
        reveal_strlit("title");
        reveal_strlit("url");
        reveal_strlit("username");
        reveal_strlit("auto");
    }
    if k == "id".to_owned() {
        Ok(EntrySelector::Id(value))
    } else if k == "title".to_owned() {
        Ok(EntrySelector::Title(value))
    } else if k == "url".to_owned() {
        Ok(EntrySelector::Url(value))
    } else if k == "username".to_owned() {
        Ok(EntrySelector::Username(value))
    } else if k == "auto".to_owned() {
        Ok(EntrySelector::Auto(value))
    } else {
        Err(gui_error("validation_failed", "unknown entry selector kind"))
    }
}

/// A text field, trimmed; `None` when it is missing or blank.
pub open spec fn cleaned(value: Option<Seq<char>>) -> Option<Seq<char>> {
    match value {
        Some(v) => if trimmed(v).len() == 0 { None } else { Some(trimmed(v)) },
        None => None,
    }
}

/// A text field, trimmed, or `None` when it is missing or blank.
pub fn empty_to_none(value: Option<String>) -> (r: Option<String>)
    ensures
        crate::vault::opt_view(r) == cleaned(crate::vault::opt_view(value)),
{
    match value {
        Some(v) => {
            let t = trim(v.as_str());
            if t.as_str().is_empty() { None } else { Some(t) }
        },
        None => None,
    }
}

/// A secret field as typed, or `None` when it is missing or empty; spaces are kept.
pub fn empty_secret_to_none(value: Option<String>) -> (r: Option<String>)
    ensures
        match value {
            Some(v) => if v@.len() == 0 { r is None } else { r matches Some(s) && s@ == v@ },
            None => r is None,
        },
{
    match value {
        Some(v) => if v.as_str().is_empty() { None } else { Some(v) },
        None => None,
    }
}

/// An optional path from the form: trimmed, or `None` when blank.
pub fn optional_path(value: Option<String>) -> (r: Option<String>)
    ensures
        crate::vault::opt_view(r) == cleaned(crate::vault::opt_view(value)),
{
    empty_to_none(value)
}

/// A group path as the front end compares it: without leading and trailing
/// slashes, and without a leading `Root/`.
pub open spec fn normalized(path: Seq<char>) -> Seq<char> {
    let t = slash_trimmed(path);
    if seq_starts_with(t, "Root/"@) { t.skip(5) } else { t }
}

/// Normalizes a group path for comparison.
pub fn normalize_group_path(path: &str) -> (r: String)
    ensures
        r@ == normalized(path@),
{
    let t = trim_slashes(path);
    proof { reveal_strlit("Root/"); }
    if starts_with(t.as_str(), "Root/") {
        let cs = crate::text::chars_of(t.as_str());
        let r = crate::text::substring(&cs, 5, cs.len());
        assert(r@ =~= t@.skip(5));
        r
    } else {
        t
    }
}

/// Whether an entry's group path lies in a group: the same path, or below it.
pub open spec fn in_group(entry_path: Seq<char>, group_path: Seq<char>) -> bool {
    let e = normalized(entry_path);
    let g = normalized(group_path);
    e == g || seq_starts_with(e, g + seq!['/'])
}

/// Whether an entry's group path lies in a group (or below it).
pub fn entry_is_in_group(entry_group_path: &str, group_path: &str) -> (r: bool)
    ensures
        r == in_group(entry_group_path@, group_path@),
{
    let e = normalize_group_path(entry_group_path);
    let g = normalize_group_path(group_path);
    if e == g {
        return true;
    }
    let mut prefix = g.clone();
    prefix.push('/');
    assert(prefix@ =~= g@ + seq!['/']);
    starts_with(e.as_str(), prefix.as_str())
}

/// How many of `s` lie in a group.
pub open spec fn count_in_group(s: Seq<SummaryView>, group_path: Seq<char>) -> nat
    decreases s.len(),
{
    if s.len() == 0 {
        0
    } else {
        count_in_group(s.drop_last(), group_path) + if in_group(s.last().group_path, group_path) { 1nat } else { 0nat }
    }
}

/// The check the front end makes before deleting a group: refused, with the
/// number of entries, when the group or a group below it holds any.
pub fn check_group_empty(entries: &Vec<EntrySummary>, group_path: &str) -> (r: Result<(), GuiError>)
    ensures
        count_in_group(summary_views(entries@), group_path@) == 0 ==> r is Ok,
        count_in_group(summary_views(entries@), group_path@) > 0 ==> (r matches Err(e) && e.kind@ == "validation_failed"@
            && e.message@ == "group contains "@ + decimal(count_in_group(summary_views(entries@), group_path@)) + " entries"@),
{
    let ghost sv = summary_views(entries@);
    let mut count: usize = 0;
    let mut i: usize = 0;
    assert(sv.take(0) =~= Seq::<SummaryView>::empty());
    while i < entries.len()
        invariant
            i <= entries.len(),
            sv == summary_views(entries@),
            count == count_in_group(sv.take(i as int), group_path@),
            count <= i,
        decreases entries.len() - i,
    {
        assert(sv.take(i + 1).drop_last() =~= sv.take(i as int));
        assert(sv.take(i + 1).last() == entries@[i as int]@);
        if entry_is_in_group(entries[i].group_path.as_str(), group_path) {
            count = count + 1;
        }
        i = i + 1;
    }
    assert(sv.take(entries.len() as int) =~= sv);
    if count > 0 {
        let mut msg = "group contains ".to_owned();
        push_str(&mut msg, usize_to_decimal(count).as_str());
        push_str(&mut msg, " entries");
        proof { reveal_strlit("validation_failed"); }
        Err(GuiError { kind: "validation_failed", message: msg })
    } else {
        Ok(())
    }
}

/// A vault the front end remembers, with its key file if one was used.
#[derive(Debug)]
pub struct RecentVault {
    pub path: String,
    pub key_file: Option<String>,
}

/// The mathematical value of a [`RecentVault`].
pub struct RecentView {
    pub path: Seq<char>,
    pub key_file: Option<Seq<char>>,
}

impl View for RecentVault {
    type V = RecentView;

    open spec fn view(&self) -> RecentView {
        RecentView { path: self.path@, key_file: crate::vault::opt_view(self.key_file) }
    }
}

/// The views of a list of recent vaults.
pub open spec fn recent_views(s: Seq<RecentVault>) -> Seq<RecentView> {
    s.map_values(|v: RecentVault| v@)
}

/// The front end's settings: the last vault and the recent ones, newest first.
#[derive(Debug)]
pub struct GuiConfig {
    pub last_vault_path: Option<String>,
    pub recent_vaults: Vec<RecentVault>,
}

impl GuiConfig {
    /// Settings with nothing remembered.
    pub fn empty() -> (r: GuiConfig)
        ensures
            r.last_vault_path is None,
            r.recent_vaults@.len() == 0,
    {
        GuiConfig { last_vault_path: None, recent_vaults: Vec::new() }
    }
}

/// The recent vaults other than `path`, in order.
pub open spec fn others(s: Seq<RecentView>, path: Seq<char>) -> Seq<RecentView>
    decreases s.len(),
{
    if s.len() == 0 {
        Seq::empty()
    } else {
        let r = others(s.drop_last(), path);
        if s.last().path == path { r } else { r.push(s.last()) }
    }
}

/// A key file path is kept as typed unless it is blank.
pub open spec fn cleaned_key(k: Option<Seq<char>>) -> Option<Seq<char>> {
    match k {
        Some(v) => if trimmed(v).len() == 0 { None } else { Some(v) },
        None => None,
    }
}

/// The recent list after remembering `path` with `key_file`: the new entry
/// first, then the others in order, at most five in all.
pub open spec fn remembered(old: Seq<RecentView>, path: Seq<char>, key_file: Option<Seq<char>>) -> Seq<RecentView> {
    let l = seq![RecentView { path, key_file: cleaned_key(key_file) }] + others(old, path);
    if l.len() <= 5 { l } else { l.take(5) }
}

fn copy_recent(v: &RecentVault) -> (r: RecentVault)
    ensures
        r@ == v@,
{
    RecentVault {
        path: v.path.clone(),
        key_file: match &v.key_file { Some(k) => Some(k.clone()), None => None },
    }
}

/// Remembers a vault: the trimmed path becomes the last vault and heads the
/// recent list, which keeps the other vaults in order, drops an earlier
/// mention of the same path, and keeps at most five. A blank key file is
/// not kept. A blank path is a `validation_failed` error.
pub fn remember_vault(config: GuiConfig, path: String, key_file: Option<String>) -> (r: Result<GuiConfig, GuiError>)
    ensures
        trimmed(path@).len() == 0 ==> (r matches Err(e) && e.kind@ == "validation_failed"@ && e.message@ == "vault path is required"@),
        trimmed(path@).len() > 0 ==> (r matches Ok(c)
            && c.last_vault_path matches Some(l) && l@ == trimmed(path@)
            && recent_views(c.recent_vaults@) == remembered(recent_views(config.recent_vaults@), trimmed(path@), crate::vault::opt_view(key_file))),
{
    let p = trim(path.as_str());
    if p.as_str().is_empty() {
        return Err(gui_error("validation_failed", "vault path is required"));
    }
    let old_list = config.recent_vaults;
    let ghost ov = recent_views(old_list@);
    let mut kept: Vec<RecentVault> = Vec::new();
    let mut i: usize = 0;
    assert(ov.take(0) =~= Seq::<RecentView>::empty());
    while i < old_list.len()
        invariant
            i <= old_list.len(),
            ov == recent_views(old_list@),
            recent_views(kept@) == others(ov.take(i as int), p@),
        decreases old_list.len() - i,
    {
        assert(ov.take(i + 1).drop_last() =~= ov.take(i as int));
        assert(ov.take(i + 1).last() == old_list@[i as int]@);
        let same = old_list[i].path == p;
        if !same {
            let ghost before = kept@;
            kept.push(copy_recent(&old_list[i]));
            assert(recent_views(kept@) =~= recent_views(before).push(old_list@[i as int]@));
        }
        i = i + 1;
    }
    assert(ov.take(old_list.len() as int) =~= ov);
    let key = match key_file {
        Some(k) => if trim(k.as_str()).as_str().is_empty() { None } else { Some(k) },
        None => None,
    };
    let ghost head = RecentView { path: p@, key_file: crate::vault::opt_view(key) };
    let ghost full = seq![head] + recent_views(kept@);
    let mut list: Vec<RecentVault> = Vec::new();
    list.push(RecentVault { path: p.clone(), key_file: key });
    let mut j: usize = 0;
    assert(recent_views(list@) =~= full.take(1));
    while j < kept.len() && list.len() < 5
        invariant
            j <= kept.len(),
            list@.len() == j + 1,
            list@.len() <= 5,
            full == seq![head] + recent_views(kept@),
            recent_views(list@) == full.take(j + 1),
        decreases kept.len() - j,
    {
        let ghost before = list@;
        list.push(copy_recent(&kept[j]));
        assert(recent_views(list@) =~= full.take(j + 2));
        j = j + 1;
    }
    assert(recent_views(list@) =~= remembered(ov, p@, crate::vault::opt_view(key_file)));
    Ok(GuiConfig { last_vault_path: Some(p), recent_vaults: list })
}

/// No two remembered vaults have the same path.
pub open spec fn distinct_paths(s: Seq<RecentView>) -> bool {
    forall|i: int, j: int| 0 <= i < j < s.len() ==> (#[trigger] s[i]).path != (#[trigger] s[j]).path
}

proof fn lemma_others(s: Seq<RecentView>, path: Seq<char>)
    requires
        distinct_paths(s),
    ensures
        distinct_paths(others(s, path)),
        forall|k: int| 0 <= k < others(s, path).len() ==> (#[trigger] others(s, path)[k]).path != path && s.contains(others(s, path)[k]),
    decreases s.len(),
{
    if s.len() > 0 {
        let front = s.drop_last();
        assert forall|i: int, j: int| 0 <= i < j < front.len() implies (#[trigger] front[i]).path != (#[trigger] front[j]).path by {
            assert(front[i] == s[i] && front[j] == s[j]);
        }
        lemma_others(front, path);
        let r = others(front, path);
        assert forall|k: int| 0 <= k < r.len() implies s.contains(#[trigger] r[k]) && r[k].path != s.last().path by {
            let i = choose|i: int| 0 <= i < front.len() && front[i] == r[k];
            assert(s[i] == r[k]);
            assert(s[i].path != s[s.len() - 1].path);
        }
        if s.last().path != path {
            let t = r.push(s.last());
            assert(s[s.len() - 1] == s.last());
            assert forall|i: int, j: int| 0 <= i < j < t.len() implies (#[trigger] t[i]).path != (#[trigger] t[j]).path by {
                assert(t[i] == r[i]);
                if j < r.len() {
                    assert(t[j] == r[j]);
                }
            }
            assert forall|k: int| 0 <= k < t.len() implies (#[trigger] t[k]).path != path && s.contains(t[k]) by {
                if k < r.len() {
                    assert(t[k] == r[k]);
                }
            }
        }
    }
}

/// Remembering a vault puts it first, keeps at most five, and keeps the
/// paths distinct: the vault's earlier place in the list is dropped, and the
/// others keep their order.
pub proof fn remembered_vaults_stay_distinct(old: Seq<RecentView>, path: Seq<char>, key_file: Option<Seq<char>>)
    requires
        distinct_paths(old),
    ensures
        remembered(old, path, key_file).len() <= 5,
        remembered(old, path, key_file)[0].path == path,
        distinct_paths(remembered(old, path, key_file)),
        forall|k: int| 1 <= k < remembered(old, path, key_file).len() ==> old.contains(#[trigger] remembered(old, path, key_file)[k]),
{
    lemma_others(old, path);
    let o = others(old, path);
    let head = RecentView { path, key_file: cleaned_key(key_file) };
    let l = seq![head] + o;
    let r = remembered(old, path, key_file);
    assert(r[0] == l[0]);
    assert forall|k: int| 1 <= k < r.len() implies old.contains(#[trigger] r[k]) by {
        assert(r[k] == l[k] && l[k] == o[k - 1]);
    }
    assert forall|i: int, j: int| 0 <= i < j < r.len() implies (#[trigger] r[i]).path != (#[trigger] r[j]).path by {
        assert(r[i] == l[i] && r[j] == l[j]);
        assert(l[j] == o[j - 1]);
        if i > 0 {
            assert(l[i] == o[i - 1]);
        }
    }
}

} // verus!
