//! Finding entries: selectors, the unique-match rule, and entry lookup by id or title.
use vstd::prelude::*;
use crate::text::{push_str, eq_ignore_case, eq_ignore_ascii_case, seq_contains, contains};
use crate::error::AnahtarError;
use crate::ids::{hyphenated, parsed_uuid, parse_uuid, uuid_text};
use crate::listing::{EntrySummary, SummaryView, summary_views, listed_entries, list_entries, copy_summary, pair_views};
use crate::vault::{VaultEntry, field_text, key_title};

verus! {

/// How a caller names the entry it means.
#[derive(Debug)]
pub enum EntrySelector {
    /// By UUID text, ASCII case ignored.
    Id(String),
    /// By title, ASCII case ignored.
    Title(String),
    /// By URL: equal with ASCII case ignored, or containing the text.
    Url(String),
    /// By user name, ASCII case ignored.
    Username(String),
    /// By UUID text or by title.
    Auto(String),
}

/// The mathematical value of an [`EntrySelector`].
pub enum SelectorView {
    Id(Seq<char>),
    Title(Seq<char>),
    Url(Seq<char>),
    Username(Seq<char>),
    Auto(Seq<char>),
}

impl View for EntrySelector {
    type V = SelectorView;

    open spec fn view(&self) -> SelectorView {
        match self {
            EntrySelector::Id(v) => SelectorView::Id(v@),
            EntrySelector::Title(v) => SelectorView::Title(v@),
            EntrySelector::Url(v) => SelectorView::Url(v@),
            EntrySelector::Username(v) => SelectorView::Username(v@),
            EntrySelector::Auto(v) => SelectorView::Auto(v@),
        }
    }
}

impl EntrySelector {
    /// A copy of the selector.
    pub fn copy(&self) -> (r: EntrySelector)
        ensures
            r == *self,
    {
        match self {
            EntrySelector::Id(v) => EntrySelector::Id(v.clone()),
            EntrySelector::Title(v) => EntrySelector::Title(v.clone()),
            EntrySelector::Url(v) => EntrySelector::Url(v.clone()),
            EntrySelector::Username(v) => EntrySelector::Username(v.clone()),
            EntrySelector::Auto(v) => EntrySelector::Auto(v.clone()),
        }
    }
}

/// An optional text equals `v` with ASCII case ignored.
pub open spec fn opt_eq_ignore_case(o: Option<Seq<char>>, v: Seq<char>) -> bool {
    match o {
        Some(t) => eq_ignore_case(t, v),
        None => false,
    }
}

/// Whether a listed entry is one that `sel` names.
pub open spec fn summary_matches(s: SummaryView, sel: SelectorView) -> bool {
    match sel {
        SelectorView::Id(v) => eq_ignore_case(s.id, v),
        SelectorView::Title(v) => opt_eq_ignore_case(s.title, v),
        SelectorView::Url(v) => match s.url {
            Some(u) => eq_ignore_case(u, v) || seq_contains(u, v),
            None => false,
        },
        SelectorView::Username(v) => opt_eq_ignore_case(s.username, v),
        SelectorView::Auto(v) => eq_ignore_case(s.id, v) || opt_eq_ignore_case(s.title, v),
    }
}

fn opt_equal_ignoring_case(o: &Option<String>, v: &String) -> (r: bool)
    ensures
        r == opt_eq_ignore_case(crate::vault::opt_view(*o), v@),
{
    match o {
        Some(t) => eq_ignore_ascii_case(t.as_str(), v.as_str()),
        None => false,
    }
}

/// Whether the listed entry is one that the selector names.
pub fn entry_summary_matches(entry: &EntrySummary, selector: &EntrySelector) -> (r: bool)
    ensures
        r == summary_matches(entry@, selector@),
{
    match selector {
        EntrySelector::Id(id) => eq_ignore_ascii_case(entry.id.as_str(), id.as_str()),
        EntrySelector::Title(title) => opt_equal_ignoring_case(&entry.title, title),
        EntrySelector::Url(url) => match &entry.url {
            Some(u) => eq_ignore_ascii_case(u.as_str(), url.as_str()) || contains(u.as_str(), url.as_str()),
            None => false,
        },
        EntrySelector::Username(username) => opt_equal_ignoring_case(&entry.username, username),
        EntrySelector::Auto(value) => eq_ignore_ascii_case(entry.id.as_str(), value.as_str())
            || opt_equal_ignoring_case(&entry.title, value),
    }
}

/// How a selector is named in messages: `kind=value`, or the bare value for `Auto`.
pub open spec fn label_of(sel: SelectorView) -> Seq<char> {
    match sel {
        SelectorView::Id(v) => "id="@ + v,
        SelectorView::Title(v) => "title="@ + v,
        SelectorView::Url(v) => "url="@ + v,
        SelectorView::Username(v) => "username="@ + v,
        SelectorView::Auto(v) => v,
    }
}

/// The selector as messages name it.
pub fn selector_label(selector: &EntrySelector) -> (r: String)
    ensures
        r@ == label_of(selector@),
{
    match selector {
        EntrySelector::Id(v) => crate::text::join_text("id=", v.as_str()),
        EntrySelector::Title(v) => crate::text::join_text("title=", v.as_str()),
        EntrySelector::Url(v) => crate::text::join_text("url=", v.as_str()),
        EntrySelector::Username(v) => crate::text::join_text("username=", v.as_str()),
        EntrySelector::Auto(v) => v.clone(),
    }
}

/// An optional text, or the empty text.
pub open spec fn or_empty(o: Option<Seq<char>>) -> Seq<char> {
    match o {
        Some(t) => t,
        None => Seq::empty(),
    }
}

/// What an ambiguous match shows of a candidate: no password, no notes.
pub open spec fn candidate_text(s: SummaryView) -> Seq<char> {
    "id="@ + s.id + " title="@ + or_empty(s.title) + " username="@ + or_empty(s.username) + " url="@ + or_empty(s.url)
}

fn push_opt(r: &mut String, o: &Option<String>)
    ensures
        final(r)@ == old(r)@ + or_empty(crate::vault::opt_view(*o)),
{
    match o {
        Some(t) => push_str(r, t.as_str()),
        None => {
            assert(old(r)@ + Seq::<char>::empty() =~= old(r)@);
        },
    }
}

/// The one-line description of a candidate entry.
pub fn safe_candidate_summary(summary: &EntrySummary) -> (r: String)
    ensures
        r@ == candidate_text(summary@),
{
    let mut r = "id=".to_owned();
    push_str(&mut r, summary.id.as_str());
    push_str(&mut r, " title=");
    push_opt(&mut r, &summary.title);
    push_str(&mut r, " username=");
    push_opt(&mut r, &summary.username);
    push_str(&mut r, " url=");
    push_opt(&mut r, &summary.url);
    r
}

/// The listed entries that `sel` names, in listing order.
pub open spec fn select(s: Seq<SummaryView>, sel: SelectorView) -> Seq<SummaryView>
    decreases s.len(),
{
    if s.len() == 0 {
        Seq::empty()
    } else {
        let r = select(s.drop_last(), sel);
        if summary_matches(s.last(), sel) { r.push(s.last()) } else { r }
    }
}

/// The candidates of an ambiguous match, separated by `", "`.
pub open spec fn candidates_text(s: Seq<SummaryView>) -> Seq<char>
    decreases s.len(),
{
    if s.len() == 0 {
        Seq::empty()
    } else if s.len() == 1 {
        candidate_text(s[0])
    } else {
        candidates_text(s.drop_last()) + ", "@ + candidate_text(s.last())
    }
}

/// The entries of the vault that a selector names, in listing order.
pub open spec fn matching(v: crate::vault::Vault, sel: SelectorView) -> Seq<SummaryView> {
    select(listed_entries(v), sel)
}

/// What resolving a selector gives: the one entry it names; `EntryNotFound`
/// with the selector's label when it names none; `DuplicateEntrySelector`
/// with the label and every candidate when it names several.
pub open spec fn resolves_to(v: crate::vault::Vault, sel: SelectorView, r: Result<EntrySummary, AnahtarError>) -> bool {
    let m = matching(v, sel);
    if m.len() == 1 {
        r matches Ok(s) && s@ == m[0]
    } else {
        r matches Err(e) && resolve_error(v, sel, e)
    }
}

/// The error of a selector that names no entry, or several.
pub open spec fn resolve_error(v: crate::vault::Vault, sel: SelectorView, e: AnahtarError) -> bool {
    let m = matching(v, sel);
    if m.len() == 0 {
        e matches AnahtarError::EntryNotFound(t) && t@ == label_of(sel)
    } else {
        e matches AnahtarError::DuplicateEntrySelector(t) && t@ == label_of(sel) + "; candidates: "@ + candidates_text(m)
    }
}

/// Finds the one entry that a selector names.
pub fn resolve_entry_summary_by_selector(vault: &crate::vault::Vault, selector: &EntrySelector) -> (r: Result<EntrySummary, AnahtarError>)
    ensures
        resolves_to(*vault, selector@, r),
{
    let all = list_entries(vault);
    let ghost sv = summary_views(all@);
    let mut found: Vec<EntrySummary> = Vec::new();
    let mut i: usize = 0;
    assert(sv.take(0) =~= Seq::<SummaryView>::empty());
    while i < all.len()
        invariant
            i <= all.len(),
            sv == summary_views(all@),
            summary_views(found@) == select(sv.take(i as int), selector@),
        decreases all.len() - i,
    {
        assert(sv.take(i + 1).drop_last() =~= sv.take(i as int));
        assert(sv.take(i + 1).last() == all@[i as int]@);
        if entry_summary_matches(&all[i], selector) {
            let ghost before = found@;
            found.push(copy_summary(&all[i]));
            assert(summary_views(found@) =~= summary_views(before).push(all@[i as int]@));
        }
        i = i + 1;
    }
    assert(sv.take(all.len() as int) =~= sv);
    let ghost m = summary_views(found@);
    if found.len() == 1 {
        assert(found@[0]@ == m[0]);
        Ok(copy_summary(&found[0]))
    } else if found.len() == 0 {
        Err(AnahtarError::EntryNotFound(selector_label(selector)))
    } else {
        let mut msg = selector_label(selector);
        push_str(&mut msg, "; candidates: ");
        let ghost head = msg@;
        let mut k: usize = 0;
        while k < found.len()
            invariant
                k <= found.len(),
                m == summary_views(found@),
                msg@ == head + candidates_text(m.take(k as int)),
            decreases found.len() - k,
        {
            let ghost prev = msg@;
            if k > 0 {
                push_str(&mut msg, ", ");
            }
            let c = safe_candidate_summary(&found[k]);
            push_str(&mut msg, c.as_str());
            proof {
                let t = m.take(k + 1);
                assert(t.drop_last() =~= m.take(k as int));
                assert(t.last() == found@[k as int]@);
                if k == 0 {
                    assert(candidates_text(m.take(0)) =~= Seq::<char>::empty());
                    assert(msg@ =~= head + candidates_text(t));
                } else {
                    assert(msg@ =~= head + candidates_text(t));
                }
            }
            k = k + 1;
        }
        assert(m.take(found.len() as int) =~= m);
        proof { reveal_strlit("; candidates: "); }
        Err(AnahtarError::DuplicateEntrySelector(msg))
    }
}

/// An entry of the vault is the one `selector` names by id or title: its id is
/// the UUID that the selector parses to, or its title equals the selector,
/// ASCII case ignored.
pub open spec fn entry_is(e: VaultEntry, selector: Seq<char>) -> bool {
    ||| (parsed_uuid(selector) matches Some(u) && e.id@ == hyphenated(u))
    ||| opt_eq_ignore_case(field_text(e, key_title()), selector)
}

/// The position of the first of `ps` that is the one `selector` names.
pub open spec fn first_entry(ps: Seq<(VaultEntry, Seq<char>)>, selector: Seq<char>) -> Option<int>
    decreases ps.len(),
{
    if ps.len() == 0 {
        None
    } else if entry_is(ps[0].0, selector) {
        Some(0)
    } else {
        match first_entry(ps.drop_first(), selector) {
            Some(i) => Some(i + 1),
            None => None,
        }
    }
}

/// Finds the entry that a selector names by UUID or title, in vault order.
pub fn find_entry(pairs: &Vec<(&VaultEntry, String)>, selector: &str) -> (r: Option<usize>)
    ensures
        r matches Some(i) ==> i < pairs.len(),
        match r {
            Some(i) => first_entry(pair_views(pairs@), selector@) == Some(i as int),
            None => first_entry(pair_views(pairs@), selector@) is None,
        },
        forall|u: u128| selector@ == hyphenated(u) ==> parsed_uuid(selector@) == Some(u),
{
    let parsed = parse_uuid(selector);
    let wanted = match parsed {
        Some(u) => Some(uuid_text(u)),
        None => None,
    };
    let ghost ps = pair_views(pairs@);
    let mut i: usize = 0;
    assert(ps.skip(0) =~= ps);
    while i < pairs.len()
        invariant
            i <= pairs.len(),
            ps == pair_views(pairs@),
            wanted matches Some(w) ==> parsed_uuid(selector@) matches Some(u) && w@ == hyphenated(u),
            wanted is None ==> parsed_uuid(selector@) is None,
            forall|u: u128| selector@ == hyphenated(u) ==> parsed_uuid(selector@) == Some(u),
            first_entry(ps, selector@) == match first_entry(ps.skip(i as int), selector@) {
                Some(j) => Some(j + i),
                None => None,
            },
        decreases pairs.len() - i,
    {
        let e = pairs[i].0;
        let by_id = match &wanted {
            Some(w) => e.id == *w,
            None => false,
        };
        let title = crate::vault::get_field(e, crate::vault::title_key());
        let by_title = opt_equal_ignoring_case(&title, &selector.to_owned());
        assert(ps.skip(i as int)[0] == ps[i as int]);
        assert(ps[i as int].0 == *e);
        if by_id || by_title {
            return Some(i);
        }
        assert(ps.skip(i as int).drop_first() =~= ps.skip(i + 1));
        i = i + 1;
    }
    assert(ps.skip(i as int).len() == 0);
    None
}

/// A listed entry that a selector matches is among the entries it selects.
proof fn lemma_select_has(s: Seq<SummaryView>, sel: SelectorView, i: int)
    requires
        0 <= i < s.len(),
        summary_matches(s[i], sel),
    ensures
        select(s, sel).contains(s[i]),
    decreases s.len(),
{
    let r = select(s.drop_last(), sel);
    if i == s.len() - 1 {
        assert(select(s, sel)[r.len() as int] == s[i]);
    } else {
        assert(s.drop_last()[i] == s[i]);
        lemma_select_has(s.drop_last(), sel, i);
        let j = choose|j: int| 0 <= j < r.len() && r[j] == s[i];
        assert(select(s, sel)[j] == s[i]);
    }
}

/// A URL selector selects every listed entry whose URL holds the selector's
/// text (here at position `k`), and every one whose URL equals it, ASCII
/// case ignored.
pub proof fn url_selector_selects_containing_urls(v: crate::vault::Vault, x: Seq<char>, i: int, k: int)
    requires
        0 <= i < listed_entries(v).len(),
        listed_entries(v)[i].url is Some,
    ensures
        ({
            let u = listed_entries(v)[i].url->0;
            (0 <= k && k + x.len() <= u.len() && u.subrange(k, k + x.len()) == x)
                ==> matching(v, SelectorView::Url(x)).contains(listed_entries(v)[i])
        }),
        eq_ignore_case(listed_entries(v)[i].url->0, x) ==> matching(v, SelectorView::Url(x)).contains(listed_entries(v)[i]),
{
    let u = listed_entries(v)[i].url->0;
    if (0 <= k && k + x.len() <= u.len() && u.subrange(k, k + x.len()) == x) || eq_ignore_case(u, x) {
        assert(crate::text::occurs_at(u, x, k) ==> seq_contains(u, x));
        lemma_select_has(listed_entries(v), SelectorView::Url(x), i);
    }
}

/// A title (user name) selector selects every listed entry whose title
/// (user name) equals it, ASCII case ignored; an id selector every one whose
/// id does; and a plain selector every one whose id or title does.
pub proof fn selectors_select_equal_fields(v: crate::vault::Vault, x: Seq<char>, i: int)
    requires
        0 <= i < listed_entries(v).len(),
    ensures
        ({
            let s = listed_entries(v)[i];
            &&& (s.title is Some && eq_ignore_case(s.title->0, x)) ==> matching(v, SelectorView::Title(x)).contains(s)
            &&& (s.username is Some && eq_ignore_case(s.username->0, x)) ==> matching(v, SelectorView::Username(x)).contains(s)
            &&& eq_ignore_case(s.id, x) ==> matching(v, SelectorView::Id(x)).contains(s)
            &&& eq_ignore_case(s.id, x) ==> matching(v, SelectorView::Auto(x)).contains(s)
            &&& (s.title is Some && eq_ignore_case(s.title->0, x)) ==> matching(v, SelectorView::Auto(x)).contains(s)
        }),
{
    let s = listed_entries(v)[i];
    if s.title is Some && eq_ignore_case(s.title->0, x) {
        lemma_select_has(listed_entries(v), SelectorView::Title(x), i);
        lemma_select_has(listed_entries(v), SelectorView::Auto(x), i);
    }
    if s.username is Some && eq_ignore_case(s.username->0, x) {
        lemma_select_has(listed_entries(v), SelectorView::Username(x), i);
    }
    if eq_ignore_case(s.id, x) {
        lemma_select_has(listed_entries(v), SelectorView::Id(x), i);
        lemma_select_has(listed_entries(v), SelectorView::Auto(x), i);
    }
}

} // verus!
