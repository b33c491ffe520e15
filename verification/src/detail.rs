//! Showing one entry, searching entries, and TOTP codes.
use vstd::prelude::*;
use crate::text::{text_order, compare_text, seq_contains, contains};
use crate::order::{stable_sort, lemma_insert_pos, lemma_sort_step, lemma_sort_permutes};
use crate::error::AnahtarError;
use crate::stdtext::{unicode_lowercase, lowercase};
use crate::totp::{totp_config, totp_settings, totp_now, is_digit};
use crate::listing::{
    EntrySummary, SummaryView, summary_views, listed_entries, list_entries, copy_summary,
    entry_pairs, pair_views, collect_pairs,
};
use crate::query::{
    EntrySelector, SelectorView, label_of, matching, resolves_to, resolve_error, first_entry,
    find_entry, selector_label, resolve_entry_summary_by_selector,
};
use crate::vault::{
    EntryField, VaultEntry, Vault, field_text, get_field, opt_view, key_title, key_username,
    key_password, key_url, key_notes, key_otp, title_key, username_key, password_key, url_key,
    notes_key, otp_key,
};

verus! {

/// A field of an entry other than title, user name, password, URL and notes.
#[derive(Debug)]
pub struct CustomField {
    pub key: String,
    pub value: String,
    pub protected: bool,
}

/// The mathematical value of a [`CustomField`].
pub struct CustomFieldView {
    pub key: Seq<char>,
    pub value: Seq<char>,
    pub protected: bool,
}

impl View for CustomField {
    type V = CustomFieldView;

    open spec fn view(&self) -> CustomFieldView {
        CustomFieldView { key: self.key@, value: self.value@, protected: self.protected }
    }
}

/// Everything shown of one entry. The password is there only when asked for.
#[derive(Debug)]
pub struct EntryDetail {
    pub id: String,
    pub group_path: String,
    pub title: Option<String>,
    pub username: Option<String>,
    pub url: Option<String>,
    pub notes: Option<String>,
    pub has_totp: bool,
    pub password: Option<String>,
    pub custom_fields: Vec<CustomField>,
}

/// The mathematical value of an [`EntryDetail`].
pub struct DetailView {
    pub id: Seq<char>,
    pub group_path: Seq<char>,
    pub title: Option<Seq<char>>,
    pub username: Option<Seq<char>>,
    pub url: Option<Seq<char>>,
    pub notes: Option<Seq<char>>,
    pub has_totp: bool,
    pub password: Option<Seq<char>>,
    pub custom_fields: Seq<CustomFieldView>,
}

/// The views of a sequence of custom fields.
pub open spec fn custom_views(s: Seq<CustomField>) -> Seq<CustomFieldView> {
    s.map_values(|f: CustomField| f@)
}

impl View for EntryDetail {
    type V = DetailView;

    open spec fn view(&self) -> DetailView {
        DetailView {
            id: self.id@,
            group_path: self.group_path@,
            title: opt_view(self.title),
            username: opt_view(self.username),
            url: opt_view(self.url),
            notes: opt_view(self.notes),
            has_totp: self.has_totp,
            password: opt_view(self.password),
            custom_fields: custom_views(self.custom_fields@),
        }
    }
}

/// Title, user name, password, URL and notes: the fields every entry may have.
pub open spec fn is_standard_key(k: Seq<char>) -> bool {
    k == key_title() || k == key_username() || k == key_password() || k == key_url() || k == key_notes()
}

/// A custom field as shown: a protected value is masked unless revealed.
pub open spec fn shown_field(f: EntryField, reveal: bool) -> CustomFieldView {
    CustomFieldView {
        key: f.key@,
        value: if f.protected && !reveal { "<protected>"@ } else { f.value@ },
        protected: f.protected,
    }
}

/// The custom fields among `fs`, as shown, in the order of `fs`.
pub open spec fn custom_rows(fs: Seq<EntryField>, reveal: bool) -> Seq<CustomFieldView>
    decreases fs.len(),
{
    if fs.len() == 0 {
        Seq::empty()
    } else {
        let r = custom_rows(fs.drop_last(), reveal);
        if is_standard_key(fs.last().key@) { r } else { r.push(shown_field(fs.last(), reveal)) }
    }
}

/// Custom fields are listed by key.
pub open spec fn field_lt(a: CustomFieldView, b: CustomFieldView) -> bool {
    text_order(a.key, b.key) < 0
}

/// Whether the entry's `otp` field holds a TOTP setting that parses.
pub open spec fn has_totp_setting(e: VaultEntry) -> bool {
    match field_text(e, key_otp()) {
        Some(u) => totp_config(u) is Some,
        None => false,
    }
}

/// What is shown of entry `e` found at `path`.
pub open spec fn detail_of(e: VaultEntry, path: Seq<char>, reveal: bool) -> DetailView {
    DetailView {
        id: e.id@,
        group_path: path,
        title: field_text(e, key_title()),
        username: field_text(e, key_username()),
        url: field_text(e, key_url()),
        notes: field_text(e, key_notes()),
        has_totp: has_totp_setting(e),
        password: if reveal { field_text(e, key_password()) } else { None },
        custom_fields: stable_sort(custom_rows(e.fields@, reveal), |a: CustomFieldView, b: CustomFieldView| field_lt(a, b)),
    }
}

fn is_standard(k: &String) -> (r: bool)
    ensures
        r == is_standard_key(k@),
{
    let t = title_key().to_owned();
    let u = username_key().to_owned();
    let p = password_key().to_owned();
    let l = url_key().to_owned();
    let n = notes_key().to_owned();
    *k == t || *k == u || *k == p || *k == l || *k == n
}

fn sort_fields(v: Vec<CustomField>) -> (r: Vec<CustomField>)
    ensures
        custom_views(r@) == stable_sort(custom_views(v@), |a: CustomFieldView, b: CustomFieldView| field_lt(a, b)),
{
    let ghost lt = |a: CustomFieldView, b: CustomFieldView| field_lt(a, b);
    let ghost sv = custom_views(v@);
    let mut r: Vec<CustomField> = Vec::new();
    let mut i: usize = 0;
    assert(sv.take(0) =~= Seq::<CustomFieldView>::empty());
    while i < v.len()
        invariant
            i <= v.len(),
            sv == custom_views(v@),
            lt == (|a: CustomFieldView, b: CustomFieldView| field_lt(a, b)),
            custom_views(r@) == stable_sort(sv.take(i as int), lt),
        decreases v.len() - i,
    {
        let x = CustomField { key: v[i].key.clone(), value: v[i].value.clone(), protected: v[i].protected };
        assert(x@ == sv[i as int]);
        let mut j: usize = 0;
        while j < r.len() && !(compare_text(x.key.as_str(), r[j].key.as_str()) < 0)
            invariant
                j <= r.len(),
                lt == (|a: CustomFieldView, b: CustomFieldView| field_lt(a, b)),
                forall|k: int| 0 <= k < j ==> !lt(x@, #[trigger] custom_views(r@)[k]),
            decreases r.len() - j,
        {
            j = j + 1;
        }
        proof {
            lemma_insert_pos(custom_views(r@), x@, lt, j as int);
            lemma_sort_step(sv, lt, i as int);
        }
        let ghost before = r@;
        r.insert(j, x);
        assert(custom_views(r@) =~= custom_views(before).insert(j as int, x@));
        i = i + 1;
    }
    assert(sv.take(v.len() as int) =~= sv);
    r
}

/// Whether the entry has a TOTP setting that parses.
pub fn entry_has_totp(e: &VaultEntry) -> (r: bool)
    ensures
        r == has_totp_setting(*e),
{
    match get_field(e, otp_key()) {
        Some(u) => totp_settings(u.as_str()).is_some(),
        None => false,
    }
}

/// Everything shown of an entry, with custom fields ordered by key and
/// protected values masked unless `reveal_password`.
pub fn detail_from_entry(entry: &VaultEntry, group_path: String, reveal_password: bool) -> (r: EntryDetail)
    ensures
        r@ == detail_of(*entry, group_path@, reveal_password),
{
    let mut custom: Vec<CustomField> = Vec::new();
    let mut i: usize = 0;
    while i < entry.fields.len()
        invariant
            i <= entry.fields.len(),
            custom_views(custom@) == custom_rows(entry.fields@.take(i as int), reveal_password),
        decreases entry.fields.len() - i,
    {
        let f = &entry.fields[i];
        assert(entry.fields@.take(i + 1).drop_last() =~= entry.fields@.take(i as int));
        assert(entry.fields@.take(i + 1).last() == *f);
        if !is_standard(&f.key) {
            let value = if f.protected && !reveal_password {
                "<protected>".to_owned()
            } else {
                f.value.clone()
            };
            let ghost before = custom@;
            custom.push(CustomField { key: f.key.clone(), value, protected: f.protected });
            assert(custom_views(custom@) =~= custom_views(before).push(shown_field(*f, reveal_password)));
        }
        i = i + 1;
    }
    assert(entry.fields@.take(entry.fields.len() as int) =~= entry.fields@);
    let custom_fields = sort_fields(custom);
    EntryDetail {
        id: entry.id.clone(),
        group_path,
        title: get_field(entry, title_key()),
        username: get_field(entry, username_key()),
        url: get_field(entry, url_key()),
        notes: get_field(entry, notes_key()),
        has_totp: entry_has_totp(entry),
        password: if reveal_password { get_field(entry, password_key()) } else { None },
        custom_fields,
    }
}

/// Every entry of the vault with the path of its group, depth first.
pub open spec fn all_pairs(v: Vault) -> Seq<(VaultEntry, Seq<char>)> {
    entry_pairs(v.root, v.root.name@)
}

/// What showing the entry that `sel` names gives: the resolution's error, or
/// the entry found by the resolved id with the resolved group path, or
/// `EntryNotFound` where no entry has that id or title.
pub open spec fn shows(v: Vault, sel: SelectorView, reveal: bool, r: Result<EntryDetail, AnahtarError>) -> bool {
    let m = matching(v, sel);
    if m.len() != 1 {
        r matches Err(e) && resolve_error(v, sel, e)
    } else {
        match first_entry(all_pairs(v), m[0].id) {
            Some(i) => r matches Ok(d) && d@ == detail_of(all_pairs(v)[i].0, m[0].group_path, reveal),
            None => r matches Err(AnahtarError::EntryNotFound(t)) && t@ == label_of(sel),
        }
    }
}

/// Every custom field shown without reveal hides a protected value.
proof fn lemma_rows_masked(fs: Seq<EntryField>)
    ensures
        forall|i: int| 0 <= i < custom_rows(fs, false).len() && (#[trigger] custom_rows(fs, false)[i]).protected
            ==> custom_rows(fs, false)[i].value == "<protected>"@,
    decreases fs.len(),
{
    if fs.len() > 0 {
        lemma_rows_masked(fs.drop_last());
        let r = custom_rows(fs.drop_last(), false);
        assert forall|i: int| 0 <= i < custom_rows(fs, false).len() && (#[trigger] custom_rows(fs, false)[i]).protected
            implies custom_rows(fs, false)[i].value == "<protected>"@ by {
            if i < r.len() {
                assert(custom_rows(fs, false)[i] == r[i]);
            }
        }
    }
}

/// Shown without reveal, an entry shows no protected value: the password is
/// left out, and every protected custom field shows `<protected>`.
pub proof fn hidden_unless_revealed(e: VaultEntry, path: Seq<char>)
    ensures
        detail_of(e, path, false).password is None,
        forall|i: int| 0 <= i < detail_of(e, path, false).custom_fields.len()
            && (#[trigger] detail_of(e, path, false).custom_fields[i]).protected
            ==> detail_of(e, path, false).custom_fields[i].value == "<protected>"@,
{
    broadcast use vstd::seq_lib::group_to_multiset_ensures;
    let rows = custom_rows(e.fields@, false);
    let lt = |a: CustomFieldView, b: CustomFieldView| field_lt(a, b);
    let sorted = stable_sort(rows, lt);
    lemma_rows_masked(e.fields@);
    lemma_sort_permutes(rows, lt);
    assert forall|i: int| 0 <= i < sorted.len() && (#[trigger] sorted[i]).protected implies sorted[i].value == "<protected>"@ by {
        assert(sorted.to_multiset().count(sorted[i]) > 0);
        assert(rows.contains(sorted[i]));
        let k = choose|k: int| 0 <= k < rows.len() && rows[k] == sorted[i];
        assert(rows[k].protected);
    }
}

/// A shown entry's password appears only when revealed.
pub proof fn shown_password_needs_reveal(v: Vault, sel: SelectorView, r: Result<EntryDetail, AnahtarError>)
    requires
        shows(v, sel, false, r),
    ensures
        r matches Ok(d) ==> d.password is None && forall|i: int| 0 <= i < d.custom_fields@.len()
            && (#[trigger] d.custom_fields@[i]).protected ==> d.custom_fields@[i].value@ == "<protected>"@,
{
    let m = matching(v, sel);
    if m.len() == 1 {
        if let Some(i) = first_entry(all_pairs(v), m[0].id) {
            let e = all_pairs(v)[i].0;
            hidden_unless_revealed(e, m[0].group_path);
            let d = r->Ok_0;
            assert(d@ == detail_of(e, m[0].group_path, false));
            assert forall|k: int| 0 <= k < d.custom_fields@.len() && (#[trigger] d.custom_fields@[k]).protected
                implies d.custom_fields@[k].value@ == "<protected>"@ by {
                assert(custom_views(d.custom_fields@)[k] == d.custom_fields@[k]@);
                assert(detail_of(e, m[0].group_path, false).custom_fields[k] == d.custom_fields@[k]@);
            }
        }
    }
}

/// Shows the entry that a selector names, the password only if `reveal_password`.
pub fn show_entry_by_selector(vault: &Vault, selector: &EntrySelector, reveal_password: bool) -> (r: Result<EntryDetail, AnahtarError>)
    ensures
        shows(*vault, selector@, reveal_password, r),
{
    let resolved = resolve_entry_summary_by_selector(vault, selector);
    match resolved {
        Err(e) => Err(e),
        Ok(summary) => {
            let mut pairs: Vec<(&VaultEntry, String)> = Vec::new();
            collect_pairs(&vault.root, vault.root.name.clone(), &mut pairs);
            assert(pair_views(pairs@) =~= all_pairs(*vault));
            match find_entry(&pairs, summary.id.as_str()) {
                None => Err(AnahtarError::EntryNotFound(selector_label(selector))),
                Some(i) => Ok(detail_from_entry(pairs[i].0, summary.group_path, reveal_password)),
            }
        },
    }
}

/// Shows the entry named by UUID or title.
pub fn show_entry(vault: &Vault, selector: &str, reveal_password: bool) -> (r: Result<EntryDetail, AnahtarError>)
    ensures
        shows(*vault, SelectorView::Auto(selector@), reveal_password, r),
{
    show_entry_by_selector(vault, &EntrySelector::Auto(selector.to_owned()), reveal_password)
}

/// The text of `o`, lowercased, contains `needle` (already lowercased).
pub open spec fn lower_contains(o: Option<Seq<char>>, needle: Seq<char>) -> bool {
    match o {
        Some(t) => seq_contains(unicode_lowercase(t), needle),
        None => false,
    }
}

/// The notes of the entry that `id` names, looked up as [`find_entry`] does.
pub open spec fn notes_by_id(v: Vault, id: Seq<char>) -> Option<Seq<char>> {
    match first_entry(all_pairs(v), id) {
        Some(i) => field_text(all_pairs(v)[i].0, key_notes()),
        None => None,
    }
}

/// A listed entry is a search hit when its title, user name, URL or notes,
/// lowercased, contain the lowercased query.
pub open spec fn search_hit(v: Vault, s: SummaryView, query: Seq<char>) -> bool {
    let needle = unicode_lowercase(query);
    ||| lower_contains(s.title, needle)
    ||| lower_contains(s.username, needle)
    ||| lower_contains(s.url, needle)
    ||| lower_contains(notes_by_id(v, s.id), needle)
}

/// The search hits among `s`, in order.
pub open spec fn hits(v: Vault, s: Seq<SummaryView>, query: Seq<char>) -> Seq<SummaryView>
    decreases s.len(),
{
    if s.len() == 0 {
        Seq::empty()
    } else {
        let r = hits(v, s.drop_last(), query);
        if search_hit(v, s.last(), query) { r.push(s.last()) } else { r }
    }
}

fn lower_has(o: &Option<String>, needle: &String) -> (r: bool)
    ensures
        r == lower_contains(opt_view(*o), needle@),
{
    match o {
        Some(t) => {
            let l = lowercase(t.as_str());
            contains(l.as_str(), needle.as_str())
        },
        None => false,
    }
}

/// The listed entries whose title, user name, URL or notes contain the query,
/// letter case ignored, in listing order.
pub fn search_entries(vault: &Vault, query: &str) -> (r: Vec<EntrySummary>)
    ensures
        summary_views(r@) == hits(*vault, listed_entries(*vault), query@),
{
    let needle = lowercase(query);
    let all = list_entries(vault);
    let mut pairs: Vec<(&VaultEntry, String)> = Vec::new();
    collect_pairs(&vault.root, vault.root.name.clone(), &mut pairs);
    assert(pair_views(pairs@) =~= all_pairs(*vault));
    let ghost sv = summary_views(all@);
    let mut out: Vec<EntrySummary> = Vec::new();
    let mut i: usize = 0;
    assert(sv.take(0) =~= Seq::<SummaryView>::empty());
    while i < all.len()
        invariant
            i <= all.len(),
            sv == summary_views(all@),
            sv == listed_entries(*vault),
            pair_views(pairs@) == all_pairs(*vault),
            needle@ == unicode_lowercase(query@),
            summary_views(out@) == hits(*vault, sv.take(i as int), query@),
        decreases all.len() - i,
    {
        let s = &all[i];
        assert(sv.take(i + 1).drop_last() =~= sv.take(i as int));
        assert(sv.take(i + 1).last() == s@);
        let notes = match find_entry(&pairs, s.id.as_str()) {
            Some(k) => get_field(pairs[k].0, notes_key()),
            None => None,
        };
        let hit = lower_has(&s.title, &needle) || lower_has(&s.username, &needle)
            || lower_has(&s.url, &needle) || lower_has(&notes, &needle);
        if hit {
            let ghost before = out@;
            out.push(copy_summary(s));
            assert(summary_views(out@) =~= summary_views(before).push(s@));
        }
        i = i + 1;
    }
    assert(sv.take(all.len() as int) =~= sv);
    out
}

/// A TOTP code, without the setting it came from.
#[derive(Debug)]
pub struct TotpCode {
    pub code: String,
    pub valid_for_seconds: u64,
    pub period_seconds: u64,
}

/// The entry's TOTP setting, where it parses, can be run: its period is not
/// zero and it asks for at most 19 digits.
pub open spec fn otp_usable(e: VaultEntry) -> bool {
    match field_text(e, key_otp()) {
        Some(u) => match totp_config(u) {
            Some(c) => c.0 > 0 && c.1 <= 19,
            None => true,
        },
        None => true,
    }
}

/// The entry that a TOTP request reaches, if the selector resolves and the
/// entry is found.
pub open spec fn reached_entry(v: Vault, sel: SelectorView) -> Option<VaultEntry> {
    let m = matching(v, sel);
    if m.len() == 1 {
        match first_entry(all_pairs(v), m[0].id) {
            Some(i) => Some(all_pairs(v)[i].0),
            None => None,
        }
    } else {
        None
    }
}

/// What a TOTP request gives: the resolution's error; `EntryNotFound` where
/// the resolved id finds no entry; `TotpUnavailable` with the selector's
/// label where the entry has no TOTP setting that parses or the clock fails;
/// else a code of the setting's digit count, its period, and how long it
/// stays valid.
pub open spec fn totp_answer(v: Vault, sel: SelectorView, r: Result<TotpCode, AnahtarError>) -> bool {
    let m = matching(v, sel);
    if m.len() != 1 {
        r matches Err(e) && resolve_error(v, sel, e)
    } else {
        match reached_entry(v, sel) {
            None => r matches Err(AnahtarError::EntryNotFound(t)) && t@ == label_of(sel),
            Some(e) => match field_text(e, key_otp()) {
                Some(u) if totp_config(u) is Some => {
                    let c = totp_config(u)->0;
                    match r {
                        Ok(code) => {
                            &&& code.period_seconds == c.0
                            &&& 1 <= code.valid_for_seconds <= c.0
                            &&& code.code@.len() == if c.1 == 0 { 1 } else { c.1 as int }
                            &&& forall|i: int| 0 <= i < code.code@.len() ==> is_digit(#[trigger] code.code@[i])
                        },
                        Err(err) => err matches AnahtarError::TotpUnavailable(t) && t@ == label_of(sel),
                    }
                },
                _ => r matches Err(AnahtarError::TotpUnavailable(t)) && t@ == label_of(sel),
            },
        }
    }
}

/// The current TOTP code of the entry that a selector names. The entry's
/// setting must be one the code generator can run (see [`otp_usable`]); the
/// outcome depends on the clock, so only its shape is stated.
pub fn totp_code_by_selector(vault: &Vault, selector: &EntrySelector) -> (r: Result<TotpCode, AnahtarError>)
    requires
        reached_entry(*vault, selector@) matches Some(e) ==> otp_usable(e),
    ensures
        totp_answer(*vault, selector@, r),
{
    let resolved = resolve_entry_summary_by_selector(vault, selector);
    match resolved {
        Err(e) => Err(e),
        Ok(summary) => {
            let mut pairs: Vec<(&VaultEntry, String)> = Vec::new();
            collect_pairs(&vault.root, vault.root.name.clone(), &mut pairs);
            assert(pair_views(pairs@) =~= all_pairs(*vault));
            match find_entry(&pairs, summary.id.as_str()) {
                None => Err(AnahtarError::EntryNotFound(selector_label(selector))),
                Some(i) => {
                    let entry = pairs[i].0;
                    match get_field(entry, otp_key()) {
                        None => Err(AnahtarError::TotpUnavailable(selector_label(selector))),
                        Some(uri) => match totp_settings(uri.as_str()) {
                            None => Err(AnahtarError::TotpUnavailable(selector_label(selector))),
                            Some(_) => match totp_now(uri.as_str()) {
                                None => Err(AnahtarError::TotpUnavailable(selector_label(selector))),
                                Some(t) => Ok(TotpCode { code: t.0, valid_for_seconds: t.1, period_seconds: t.2 }),
                            },
                        },
                    }
                },
            }
        },
    }
}

/// The current TOTP code of the entry named by UUID or title.
pub fn totp_code(vault: &Vault, selector: &str) -> (r: Result<TotpCode, AnahtarError>)
    requires
        reached_entry(*vault, SelectorView::Auto(selector@)) matches Some(e) ==> otp_usable(e),
    ensures
        totp_answer(*vault, SelectorView::Auto(selector@), r),
{
    totp_code_by_selector(vault, &EntrySelector::Auto(selector.to_owned()))
}

/// Whether the TOTP request can be run: `false` only where the entry it
/// reaches has a setting with a zero period or more than 19 digits.
pub fn totp_request_usable(vault: &Vault, selector: &EntrySelector) -> (r: bool)
    ensures
        r == (reached_entry(*vault, selector@) matches Some(e) ==> otp_usable(e)),
{
    let resolved = resolve_entry_summary_by_selector(vault, selector);
    match resolved {
        Err(_) => true,
        Ok(summary) => {
            let mut pairs: Vec<(&VaultEntry, String)> = Vec::new();
            collect_pairs(&vault.root, vault.root.name.clone(), &mut pairs);
            assert(pair_views(pairs@) =~= all_pairs(*vault));
            match find_entry(&pairs, summary.id.as_str()) {
                None => true,
                Some(i) => match get_field(pairs[i].0, otp_key()) {
                    None => true,
                    Some(uri) => match totp_settings(uri.as_str()) {
                        None => true,
                        Some(c) => c.0 > 0 && c.1 <= 19,
                    },
                },
            }
        },
    }
}

/// The TOTP code of the entry a selector names, where its setting can be
/// run; `None` where the setting has a zero period or more than 19 digits.
pub fn totp_code_checked(vault: &Vault, selector: &EntrySelector) -> (r: Option<Result<TotpCode, AnahtarError>>)
    ensures
        match r {
            Some(res) => (reached_entry(*vault, selector@) matches Some(e) ==> otp_usable(e)) && totp_answer(*vault, selector@, res),
            None => !(reached_entry(*vault, selector@) matches Some(e) ==> otp_usable(e)),
        },
{
    if totp_request_usable(vault, selector) {
        Some(totp_code_by_selector(vault, selector))
    } else {
        None
    }
}

/// An entry is shown as having TOTP exactly when it has an `otp` field
/// whose value parses as a TOTP setting.
pub proof fn totp_flag_means_parsable_setting(e: VaultEntry, path: Seq<char>, reveal: bool)
    ensures
        detail_of(e, path, reveal).has_totp <==> (field_text(e, seq!['o', 't', 'p']) is Some && totp_config(field_text(e, seq!['o', 't', 'p'])->0) is Some),
{
}

/// A listed entry that hits the query is among the search results.
proof fn lemma_hits_has(v: Vault, rows: Seq<SummaryView>, query: Seq<char>, i: int)
    requires
        0 <= i < rows.len(),
        search_hit(v, rows[i], query),
    ensures
        hits(v, rows, query).contains(rows[i]),
    decreases rows.len(),
{
    let r = hits(v, rows.drop_last(), query);
    if i == rows.len() - 1 {
        assert(hits(v, rows, query) == r.push(rows[i]));
        assert(hits(v, rows, query)[r.len() as int] == rows[i]);
    } else {
        assert(rows.drop_last()[i] == rows[i]);
        lemma_hits_has(v, rows.drop_last(), query, i);
        let j = choose|j: int| 0 <= j < r.len() && r[j] == rows[i];
        if search_hit(v, rows.last(), query) {
            assert(hits(v, rows, query)[j] == rows[i]);
        } else {
            assert(hits(v, rows, query)[j] == rows[i]);
        }
    }
}

/// A search returns every listed entry whose title, user name or URL,
/// lowercased, holds the lowercased query (here at position `k`).
pub proof fn search_finds_matching_fields(v: Vault, query: Seq<char>, i: int, k: int)
    requires
        0 <= i < listed_entries(v).len(),
    ensures
        (listed_entries(v)[i].title is Some && 0 <= k && k + unicode_lowercase(query).len() <= unicode_lowercase(listed_entries(v)[i].title->0).len()
                && unicode_lowercase(listed_entries(v)[i].title->0).subrange(k, k + unicode_lowercase(query).len()) == unicode_lowercase(query))
            ==> hits(v, listed_entries(v), query).contains(listed_entries(v)[i]),
        (listed_entries(v)[i].username is Some && 0 <= k && k + unicode_lowercase(query).len() <= unicode_lowercase(listed_entries(v)[i].username->0).len()
                && unicode_lowercase(listed_entries(v)[i].username->0).subrange(k, k + unicode_lowercase(query).len()) == unicode_lowercase(query))
            ==> hits(v, listed_entries(v), query).contains(listed_entries(v)[i]),
        (listed_entries(v)[i].url is Some && 0 <= k && k + unicode_lowercase(query).len() <= unicode_lowercase(listed_entries(v)[i].url->0).len()
                && unicode_lowercase(listed_entries(v)[i].url->0).subrange(k, k + unicode_lowercase(query).len()) == unicode_lowercase(query))
            ==> hits(v, listed_entries(v), query).contains(listed_entries(v)[i]),
{
    let s = listed_entries(v)[i];
    let q = unicode_lowercase(query);
    if (s.title is Some && 0 <= k && k + unicode_lowercase(query).len() <= unicode_lowercase(s.title->0).len()
                && unicode_lowercase(s.title->0).subrange(k, k + unicode_lowercase(query).len()) == unicode_lowercase(query)) || (s.username is Some && 0 <= k && k + unicode_lowercase(query).len() <= unicode_lowercase(s.username->0).len()
                && unicode_lowercase(s.username->0).subrange(k, k + unicode_lowercase(query).len()) == unicode_lowercase(query)) || (s.url is Some && 0 <= k && k + unicode_lowercase(query).len() <= unicode_lowercase(s.url->0).len()
                && unicode_lowercase(s.url->0).subrange(k, k + unicode_lowercase(query).len()) == unicode_lowercase(query)) {
        if s.title is Some { assert(crate::text::occurs_at(unicode_lowercase(s.title->0), q, k) ==> search_hit(v, s, query)); }
        if s.username is Some { assert(crate::text::occurs_at(unicode_lowercase(s.username->0), q, k) ==> search_hit(v, s, query)); }
        if s.url is Some { assert(crate::text::occurs_at(unicode_lowercase(s.url->0), q, k) ==> search_hit(v, s, query)); }
        lemma_hits_has(v, listed_entries(v), query, i);
    }
}

} // verus!
