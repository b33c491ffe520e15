//! Auditing a vault: missing user names and URLs, TOTP settings, weak and
//! reused passwords. Findings name entries; they never hold a secret.
use vstd::prelude::*;
use crate::text::{push_str, utf8_len, utf8_len_below, usize_to_decimal, decimal};
use crate::listing::{EntrySummary, SummaryView, summary_views, listed_entries, list_entries, copy_summary, pair_views, collect_pairs};
use crate::query::{first_entry, find_entry};
use crate::totp::totp_config;
use crate::detail::{all_pairs, has_totp_setting, entry_has_totp};
use crate::vault::{VaultEntry, Vault, field_text, get_field, opt_view, key_password, password_key};

verus! {

/// One audit finding about one entry.
#[derive(Debug)]
pub struct AuditFinding {
    pub kind: String,
    pub entry_id: String,
    pub title: Option<String>,
    pub group_path: String,
    pub message: String,
}

/// The mathematical value of an [`AuditFinding`].
pub struct FindingView {
    pub kind: Seq<char>,
    pub entry_id: Seq<char>,
    pub title: Option<Seq<char>>,
    pub group_path: Seq<char>,
    pub message: Seq<char>,
}

impl View for AuditFinding {
    type V = FindingView;

    open spec fn view(&self) -> FindingView {
        FindingView {
            kind: self.kind@,
            entry_id: self.entry_id@,
            title: opt_view(self.title),
            group_path: self.group_path@,
            message: self.message@,
        }
    }
}

/// The findings of an audit.
#[derive(Debug)]
pub struct AuditReport {
    pub findings: Vec<AuditFinding>,
}

/// The views of a sequence of findings.
pub open spec fn finding_views(s: Seq<AuditFinding>) -> Seq<FindingView> {
    s.map_values(|f: AuditFinding| f@)
}

/// A finding of the given kind and message about a listed entry.
pub open spec fn finding(kind: Seq<char>, s: SummaryView, message: Seq<char>) -> FindingView {
    FindingView { kind, entry_id: s.id, title: s.title, group_path: s.group_path, message }
}

/// A text is missing or empty.
pub open spec fn blank(o: Option<Seq<char>>) -> bool {
    match o {
        Some(t) => t.len() == 0,
        None => true,
    }
}

/// The entry of the vault that a listed entry's id finds.
pub open spec fn entry_of(v: Vault, s: SummaryView) -> Option<VaultEntry> {
    match first_entry(all_pairs(v), s.id) {
        Some(i) => Some(all_pairs(v)[i].0),
        None => None,
    }
}

/// A password is weak when its UTF-8 form is shorter than 12 bytes.
pub open spec fn weak(p: Seq<char>) -> bool {
    utf8_len(p) < 12
}

/// The findings about one listed entry, apart from password reuse.
pub open spec fn row_findings(v: Vault, s: SummaryView) -> Seq<FindingView> {
    let a = if blank(s.username) { seq![finding("missing_username"@, s, "entry has no username"@)] } else { Seq::empty() };
    let b = if blank(s.url) { seq![finding("missing_url"@, s, "entry has no url"@)] } else { Seq::empty() };
    let c = match entry_of(v, s) {
        Some(e) => {
            let t = if has_totp_setting(e) { seq![finding("totp_available"@, s, "entry has TOTP configured"@)] } else { Seq::empty() };
            let w = match field_text(e, key_password()) {
                Some(p) => if weak(p) { seq![finding("weak_password"@, s, "password is shorter than 12 characters"@)] } else { Seq::empty() },
                None => Seq::empty(),
            };
            t + w
        },
        None => Seq::empty(),
    };
    a + b + c
}

/// The findings about each of `rows` in turn, apart from password reuse.
pub open spec fn rows_findings(v: Vault, rows: Seq<SummaryView>) -> Seq<FindingView>
    decreases rows.len(),
{
    if rows.len() == 0 {
        Seq::empty()
    } else {
        rows_findings(v, rows.drop_last()) + row_findings(v, rows.last())
    }
}

/// The listed entries that have a password, each with it, in order.
pub open spec fn password_rows(v: Vault, rows: Seq<SummaryView>) -> Seq<(Seq<char>, SummaryView)>
    decreases rows.len(),
{
    if rows.len() == 0 {
        Seq::empty()
    } else {
        let r = password_rows(v, rows.drop_last());
        match entry_of(v, rows.last()) {
            Some(e) => match field_text(e, key_password()) {
                Some(p) => r.push((p, rows.last())),
                None => r,
            },
            None => r,
        }
    }
}

/// The entries of `ps` whose password is `p`, in order.
pub open spec fn same_password(ps: Seq<(Seq<char>, SummaryView)>, p: Seq<char>) -> Seq<SummaryView>
    decreases ps.len(),
{
    if ps.len() == 0 {
        Seq::empty()
    } else {
        let r = same_password(ps.drop_last(), p);
        if ps.last().0 == p { r.push(ps.last().1) } else { r }
    }
}

/// No entry before position `i` has the password of entry `i`.
pub open spec fn first_with_password(ps: Seq<(Seq<char>, SummaryView)>, i: int) -> bool {
    forall|j: int| 0 <= j < i ==> (#[trigger] ps[j]).0 != ps[i].0
}

/// The message of a reuse finding.
pub open spec fn reuse_message(n: nat) -> Seq<char> {
    "password is reused by "@ + decimal(n) + " entries"@
}

/// The reuse findings that entry `i` opens: where it is the first with its
/// password and others share it, one finding for each entry with it.
pub open spec fn reuse_block(ps: Seq<(Seq<char>, SummaryView)>, i: int) -> Seq<FindingView> {
    let same = same_password(ps, ps[i].0);
    if first_with_password(ps, i) && same.len() > 1 {
        same.map_values(|s: SummaryView| finding("reused_password"@, s, reuse_message(same.len())))
    } else {
        Seq::empty()
    }
}

/// The reuse findings opened by the first `n` entries of `ps`.
pub open spec fn reuse_findings(ps: Seq<(Seq<char>, SummaryView)>, n: int) -> Seq<FindingView>
    decreases n,
{
    if n <= 0 {
        Seq::empty()
    } else {
        reuse_findings(ps, n - 1) + reuse_block(ps, n - 1)
    }
}

/// The findings of an audit of the vault: for each listed entry in listing
/// order, a missing or empty user name, a missing or empty URL, a TOTP
/// setting that parses, and a password shorter than 12 bytes; then, for each
/// password that several entries share, taken in the order of its first
/// entry, one finding for each of those entries.
pub open spec fn audit_findings(v: Vault) -> Seq<FindingView> {
    let rows = listed_entries(v);
    let ps = password_rows(v, rows);
    rows_findings(v, rows) + reuse_findings(ps, ps.len() as int)
}

fn make_finding(kind: &str, s: &EntrySummary, message: &str) -> (r: AuditFinding)
    ensures
        r@ == finding(kind@, s@, message@),
{
    AuditFinding {
        kind: kind.to_owned(),
        entry_id: s.id.clone(),
        title: match &s.title { Some(t) => Some(t.clone()), None => None },
        group_path: s.group_path.clone(),
        message: message.to_owned(),
    }
}

fn is_blank(o: &Option<String>) -> (r: bool)
    ensures
        r == blank(opt_view(*o)),
{
    match o {
        Some(t) => t.as_str().is_empty(),
        None => true,
    }
}

/// The views of collected password rows.
pub open spec fn password_views(s: Seq<(String, EntrySummary)>) -> Seq<(Seq<char>, SummaryView)> {
    s.map_values(|p: (String, EntrySummary)| (p.0@, p.1@))
}

/// Audits the vault. Findings carry ids, titles and group paths; no password
/// or other field value.
pub fn audit_database(vault: &Vault) -> (r: AuditReport)
    ensures
        finding_views(r.findings@) == audit_findings(*vault),
{
    let all = list_entries(vault);
    let mut pairs: Vec<(&VaultEntry, String)> = Vec::new();
    collect_pairs(&vault.root, vault.root.name.clone(), &mut pairs);
    assert(pair_views(pairs@) =~= all_pairs(*vault));
    let ghost sv = summary_views(all@);
    let mut findings: Vec<AuditFinding> = Vec::new();
    let mut passwords: Vec<(String, EntrySummary)> = Vec::new();
    let mut i: usize = 0;
    assert(sv.take(0) =~= Seq::<SummaryView>::empty());
    while i < all.len()
        invariant
            i <= all.len(),
            sv == summary_views(all@),
            sv == listed_entries(*vault),
            pair_views(pairs@) == all_pairs(*vault),
            finding_views(findings@) == rows_findings(*vault, sv.take(i as int)),
            password_views(passwords@) == password_rows(*vault, sv.take(i as int)),
        decreases all.len() - i,
    {
        let s = &all[i];
        let ghost before = finding_views(findings@);
        let ghost t = sv.take(i + 1);
        assert(t.drop_last() =~= sv.take(i as int));
        assert(t.last() == s@);
        let ghost own = row_findings(*vault, s@);
        let ghost mut added: Seq<FindingView> = Seq::empty();
        if is_blank(&s.username) {
            findings.push(make_finding("missing_username", s, "entry has no username"));
            proof { added = added.push(finding("missing_username"@, s@, "entry has no username"@)); }
        }
        if is_blank(&s.url) {
            findings.push(make_finding("missing_url", s, "entry has no url"));
            proof { added = added.push(finding("missing_url"@, s@, "entry has no url"@)); }
        }
        let ghost ab = added;
        let ghost mut cpart: Seq<FindingView> = Seq::empty();
        match find_entry(&pairs, s.id.as_str()) {
            Some(k) => {
                let e = pairs[k].0;
                if entry_has_totp(e) {
                    findings.push(make_finding("totp_available", s, "entry has TOTP configured"));
                    proof { cpart = cpart.push(finding("totp_available"@, s@, "entry has TOTP configured"@)); }
                }
                match get_field(e, password_key()) {
                    Some(p) => {
                        let ghost pb = passwords@;
                        if !utf8_len_below(p.as_str(), 12) {
                        } else {
                            findings.push(make_finding("weak_password", s, "password is shorter than 12 characters"));
                            proof { cpart = cpart.push(finding("weak_password"@, s@, "password is shorter than 12 characters"@)); }
                        }
                        passwords.push((p, copy_summary(s)));
                        assert(password_views(passwords@) =~= password_views(pb).push((p@, s@)));
                    },
                    None => {},
                }
            },
            None => {},
        }
        proof {
            assert(own =~= ab + cpart);
            assert(finding_views(findings@) =~= before + ab + cpart);
        }
        i = i + 1;
    }
    assert(sv.take(all.len() as int) =~= sv);
    let ghost ps = password_views(passwords@);
    let mut n: usize = 0;
    while n < passwords.len()
        invariant
            n <= passwords.len(),
            ps == password_views(passwords@),
            finding_views(findings@) == rows_findings(*vault, sv) + reuse_findings(ps, n as int),
        decreases passwords.len() - n,
    {
        let ghost before = finding_views(findings@);
        let mut first = true;
        let mut j: usize = 0;
        while j < n
            invariant
                j <= n < passwords.len(),
                ps == password_views(passwords@),
                first == forall|q: int| 0 <= q < j ==> (#[trigger] ps[q]).0 != ps[n as int].0,
            decreases n - j,
        {
            assert(ps[j as int].0 == passwords@[j as int].0@);
            assert(ps[n as int].0 == passwords@[n as int].0@);
            if passwords[j].0 == passwords[n].0 {
                first = false;
            }
            j = j + 1;
        }
        if first {
            let mut count: usize = 0;
            let mut k: usize = 0;
            assert(ps.take(0) =~= Seq::<(Seq<char>, SummaryView)>::empty());
            while k < passwords.len()
                invariant
                    k <= passwords.len(),
                    n < passwords.len(),
                    ps == password_views(passwords@),
                    count == same_password(ps.take(k as int), ps[n as int].0).len(),
                    count <= k,
                decreases passwords.len() - k,
            {
                assert(ps.take(k + 1).drop_last() =~= ps.take(k as int));
                assert(ps[k as int].0 == passwords@[k as int].0@);
                assert(ps[n as int].0 == passwords@[n as int].0@);
                if passwords[k].0 == passwords[n].0 {
                    count = count + 1;
                }
                k = k + 1;
            }
            assert(ps.take(passwords.len() as int) =~= ps);
            if count > 1 {
                let mut message = "password is reused by ".to_owned();
                push_str(&mut message, usize_to_decimal(count).as_str());
                push_str(&mut message, " entries");
                let mut k: usize = 0;
                assert(ps.take(0) =~= Seq::<(Seq<char>, SummaryView)>::empty());
                while k < passwords.len()
                    invariant
                        k <= passwords.len(),
                        n < passwords.len(),
                        ps == password_views(passwords@),
                        message@ == reuse_message(count as nat),
                        count == same_password(ps, ps[n as int].0).len(),
                        finding_views(findings@) == before + same_password(ps.take(k as int), ps[n as int].0).map_values(
                            |s: SummaryView| finding("reused_password"@, s, reuse_message(count as nat))),
                    decreases passwords.len() - k,
                {
                    assert(ps.take(k + 1).drop_last() =~= ps.take(k as int));
                    assert(ps[k as int] == (passwords@[k as int].0@, passwords@[k as int].1@));
                    assert(ps[n as int].0 == passwords@[n as int].0@);
                    if passwords[k].0 == passwords[n].0 {
                        let ghost fb = finding_views(findings@);
                        findings.push(make_finding("reused_password", &passwords[k].1, message.as_str()));
                        assert(finding_views(findings@) =~= fb.push(finding("reused_password"@, ps[k as int].1, reuse_message(count as nat))));
                    }
                    proof {
                        let f = |s: SummaryView| finding("reused_password"@, s, reuse_message(count as nat));
                        let a = same_password(ps.take(k as int), ps[n as int].0);
                        if ps[k as int].0 == ps[n as int].0 {
                            assert(same_password(ps.take(k + 1), ps[n as int].0) == a.push(ps[k as int].1));
                            assert(a.push(ps[k as int].1).map_values(f) =~= a.map_values(f).push(f(ps[k as int].1)));
                        } else {
                            assert(same_password(ps.take(k + 1), ps[n as int].0) == a);
                        }
                    }
                    k = k + 1;
                }
                assert(ps.take(passwords.len() as int) =~= ps);
                proof { reveal_strlit("password is reused by "); reveal_strlit(" entries"); }
            } else {
                assert(reuse_block(ps, n as int) =~= Seq::<FindingView>::empty());
            }
        }
        proof {
            assert(finding_views(findings@) =~= before + reuse_block(ps, n as int));
        }
        n = n + 1;
    }
    AuditReport { findings }
}

/// The kinds of findings.
pub open spec fn finding_kind(k: Seq<char>) -> bool {
    k == "missing_username"@ || k == "missing_url"@ || k == "totp_available"@ || k == "weak_password"@
        || k == "reused_password"@
}

/// The messages of findings: fixed texts, and the reuse count.
pub open spec fn finding_message(m: Seq<char>) -> bool {
    m == "entry has no username"@ || m == "entry has no url"@ || m == "entry has TOTP configured"@
        || m == "password is shorter than 12 characters"@ || exists|n: nat| m == #[trigger] reuse_message(n)
}

/// The finding names one of `rows` by its id, title and group path, and
/// holds nothing else but a kind and a message of findings.
pub open spec fn safe_finding(rows: Seq<SummaryView>, f: FindingView) -> bool {
    &&& finding_kind(f.kind)
    &&& finding_message(f.message)
    &&& exists|s: SummaryView| #[trigger] rows.contains(s) && f.entry_id == s.id && f.title == s.title && f.group_path == s.group_path
}

proof fn lemma_safe_grows(rows: Seq<SummaryView>, more: Seq<SummaryView>, f: FindingView)
    requires
        safe_finding(rows, f),
        forall|s: SummaryView| rows.contains(s) ==> #[trigger] more.contains(s),
    ensures
        safe_finding(more, f),
{
    let s = choose|s: SummaryView| #[trigger] rows.contains(s) && f.entry_id == s.id && f.title == s.title && f.group_path == s.group_path;
    assert(more.contains(s));
}

proof fn lemma_row_findings_safe(v: Vault, rows: Seq<SummaryView>)
    ensures
        forall|k: int| 0 <= k < rows_findings(v, rows).len() ==> safe_finding(rows, #[trigger] rows_findings(v, rows)[k]),
    decreases rows.len(),
{
    if rows.len() > 0 {
        let front = rows.drop_last();
        let s = rows.last();
        lemma_row_findings_safe(v, front);
        assert(rows[rows.len() - 1] == s);
        assert(rows.contains(s));
        assert forall|t: SummaryView| front.contains(t) implies #[trigger] rows.contains(t) by {
            let j = choose|j: int| 0 <= j < front.len() && front[j] == t;
            assert(rows[j] == t);
        }
        let a = rows_findings(v, front);
        let b = row_findings(v, s);
        assert forall|k: int| 0 <= k < rows_findings(v, rows).len() implies safe_finding(rows, #[trigger] rows_findings(v, rows)[k]) by {
            if k < a.len() {
                assert(rows_findings(v, rows)[k] == a[k]);
                lemma_safe_grows(front, rows, a[k]);
            } else {
                let f = b[k - a.len()];
                assert(rows_findings(v, rows)[k] == f);
                reveal_strlit("missing_username");
                reveal_strlit("missing_url");
                reveal_strlit("totp_available");
                reveal_strlit("weak_password");
                assert(f.entry_id == s.id && f.title == s.title && f.group_path == s.group_path);
            }
        }
    }
}

proof fn lemma_password_rows_from(v: Vault, rows: Seq<SummaryView>)
    ensures
        forall|j: int| 0 <= j < password_rows(v, rows).len() ==> rows.contains(#[trigger] password_rows(v, rows)[j].1),
    decreases rows.len(),
{
    if rows.len() > 0 {
        lemma_password_rows_from(v, rows.drop_last());
        let r = password_rows(v, rows.drop_last());
        assert forall|j: int| 0 <= j < password_rows(v, rows).len() implies rows.contains(#[trigger] password_rows(v, rows)[j].1) by {
            if j < r.len() {
                assert(password_rows(v, rows)[j] == r[j]);
                let i = choose|i: int| 0 <= i < rows.drop_last().len() && rows.drop_last()[i] == r[j].1;
                assert(rows[i] == r[j].1);
            } else {
                assert(password_rows(v, rows)[j].1 == rows.last());
                assert(rows[rows.len() - 1] == rows.last());
            }
        }
    }
}

proof fn lemma_same_password_from(ps: Seq<(Seq<char>, SummaryView)>, p: Seq<char>)
    ensures
        forall|k: int| 0 <= k < same_password(ps, p).len() ==> exists|j: int| 0 <= j < ps.len() && ps[j].1 == #[trigger] same_password(ps, p)[k],
    decreases ps.len(),
{
    if ps.len() > 0 {
        lemma_same_password_from(ps.drop_last(), p);
        let r = same_password(ps.drop_last(), p);
        assert forall|k: int| 0 <= k < same_password(ps, p).len() implies exists|j: int| 0 <= j < ps.len() && ps[j].1 == #[trigger] same_password(ps, p)[k] by {
            if k < r.len() {
                assert(same_password(ps, p)[k] == r[k]);
                let j = choose|j: int| 0 <= j < ps.drop_last().len() && ps.drop_last()[j].1 == r[k];
                assert(ps[j].1 == r[k]);
            } else {
                assert(ps[ps.len() - 1].1 == same_password(ps, p)[k]);
            }
        }
    }
}

proof fn lemma_reuse_safe(rows: Seq<SummaryView>, ps: Seq<(Seq<char>, SummaryView)>, n: int)
    requires
        0 <= n <= ps.len(),
        forall|j: int| 0 <= j < ps.len() ==> rows.contains(#[trigger] ps[j].1),
    ensures
        forall|k: int| 0 <= k < reuse_findings(ps, n).len() ==> safe_finding(rows, #[trigger] reuse_findings(ps, n)[k]),
    decreases n,
{
    if n > 0 {
        lemma_reuse_safe(rows, ps, n - 1);
        let a = reuse_findings(ps, n - 1);
        let b = reuse_block(ps, n - 1);
        let same = same_password(ps, ps[n - 1].0);
        lemma_same_password_from(ps, ps[n - 1].0);
        assert forall|k: int| 0 <= k < reuse_findings(ps, n).len() implies safe_finding(rows, #[trigger] reuse_findings(ps, n)[k]) by {
            if k < a.len() {
                assert(reuse_findings(ps, n)[k] == a[k]);
            } else {
                let i = k - a.len();
                assert(reuse_findings(ps, n)[k] == b[i]);
                assert(first_with_password(ps, n - 1) && same.len() > 1);
                let s = same[i];
                assert(b[i] == finding("reused_password"@, s, reuse_message(same.len())));
                let j = choose|j: int| 0 <= j < ps.len() && ps[j].1 == #[trigger] same[i];
                assert(rows.contains(ps[j].1));
                assert(finding_message(reuse_message(same.len())));
            }
        }
    }
}

/// An audit holds no secret: each finding names a listed entry by its id,
/// title and group path, with one of the fixed kinds and messages (the reuse
/// message carries a count of entries, not the password).
pub proof fn audit_names_entries_only(v: Vault)
    ensures
        forall|k: int| 0 <= k < audit_findings(v).len() ==> safe_finding(listed_entries(v), #[trigger] audit_findings(v)[k]),
{
    let rows = listed_entries(v);
    let ps = password_rows(v, rows);
    lemma_row_findings_safe(v, rows);
    lemma_password_rows_from(v, rows);
    lemma_reuse_safe(rows, ps, ps.len() as int);
    let a = rows_findings(v, rows);
    let b = reuse_findings(ps, ps.len() as int);
    assert forall|k: int| 0 <= k < audit_findings(v).len() implies safe_finding(rows, #[trigger] audit_findings(v)[k]) by {
        if k < a.len() {
            assert(audit_findings(v)[k] == a[k]);
        } else {
            assert(audit_findings(v)[k] == b[k - a.len()]);
        }
    }
}

/// What the findings of one row of a listing ask of their rows: every one
/// holds the row's id, title and group path, and its kind is one of the
/// four per-entry kinds.
proof fn lemma_row_kinds(v: Vault, s: SummaryView)
    ensures
        forall|k: int| 0 <= k < row_findings(v, s).len() ==> {
            let f = #[trigger] row_findings(v, s)[k];
            ||| f == finding("missing_username"@, s, "entry has no username"@)
            ||| f == finding("missing_url"@, s, "entry has no url"@)
            ||| f == finding("totp_available"@, s, "entry has TOTP configured"@)
            ||| f == finding("weak_password"@, s, "password is shorter than 12 characters"@)
        },
{
}

/// A finding about one row is among the findings about the rows.
proof fn lemma_rows_findings_has(v: Vault, rows: Seq<SummaryView>, i: int, f: FindingView)
    requires
        0 <= i < rows.len(),
        row_findings(v, rows[i]).contains(f),
    ensures
        rows_findings(v, rows).contains(f),
    decreases rows.len(),
{
    let before = rows_findings(v, rows.drop_last());
    let last = row_findings(v, rows.last());
    assert(rows_findings(v, rows) == before + last);
    if i == rows.len() - 1 {
        let k = choose|k: int| 0 <= k < last.len() && last[k] == f;
        assert((before + last)[before.len() + k] == f);
    } else {
        assert(rows.drop_last()[i] == rows[i]);
        lemma_rows_findings_has(v, rows.drop_last(), i, f);
        let k = choose|k: int| 0 <= k < before.len() && before[k] == f;
        assert((before + last)[k] == f);
    }
}

/// An audit reports a missing user name for a listed entry whose user name
/// is absent or empty, and a missing URL for one whose URL is absent or
/// empty; an entry with a non-empty user name (URL) gets no such finding.
pub proof fn missing_fields_are_reported(v: Vault, i: int)
    requires
        0 <= i < listed_entries(v).len(),
    ensures
        ({
            let s = listed_entries(v)[i];
            let nu = finding("missing_username"@, s, "entry has no username"@);
            let nl = finding("missing_url"@, s, "entry has no url"@);
            &&& (s.username is None || s.username->0.len() == 0) ==> audit_findings(v).contains(nu)
            &&& (s.url is None || s.url->0.len() == 0) ==> audit_findings(v).contains(nl)
            &&& (s.username is Some && s.username->0.len() > 0) ==> !row_findings(v, s).contains(nu)
            &&& (s.url is Some && s.url->0.len() > 0) ==> !row_findings(v, s).contains(nl)
        }),
{
    reveal_strlit("missing_username");
    reveal_strlit("missing_url");
    reveal_strlit("totp_available");
    reveal_strlit("weak_password");
    let rows = listed_entries(v);
    let s = rows[i];
    let nu = finding("missing_username"@, s, "entry has no username"@);
    let nl = finding("missing_url"@, s, "entry has no url"@);
    let ps = password_rows(v, rows);
    let all = audit_findings(v);
    assert(all == rows_findings(v, rows) + reuse_findings(ps, ps.len() as int));
    lemma_row_kinds(v, s);
    let rf = row_findings(v, s);
    if s.username is None || s.username->0.len() == 0 {
        assert(rf[0] == nu);
        lemma_rows_findings_has(v, rows, i, nu);
        let k = choose|k: int| 0 <= k < rows_findings(v, rows).len() && rows_findings(v, rows)[k] == nu;
        assert(all[k] == nu);
    }
    if s.url is None || s.url->0.len() == 0 {
        let k0: int = if s.username is None || s.username->0.len() == 0 { 1 } else { 0 };
        assert(rf[k0] == nl);
        lemma_rows_findings_has(v, rows, i, nl);
        let k = choose|k: int| 0 <= k < rows_findings(v, rows).len() && rows_findings(v, rows)[k] == nl;
        assert(all[k] == nl);
    }
    if s.username is Some && s.username->0.len() > 0 && rf.contains(nu) {
        let k = choose|k: int| 0 <= k < rf.len() && rf[k] == nu;
        assert(rf[k].kind == "missing_username"@);
    }
    if s.url is Some && s.url->0.len() > 0 && rf.contains(nl) {
        let k = choose|k: int| 0 <= k < rf.len() && rf[k] == nl;
        assert(rf[k].kind == "missing_url"@);
    }
}

/// An audit reports TOTP for a listed entry exactly when the entry has an
/// `otp` field whose value parses as a TOTP setting.
pub proof fn totp_is_reported_when_it_parses(v: Vault, i: int)
    requires
        0 <= i < listed_entries(v).len(),
        entry_of(v, listed_entries(v)[i]) is Some,
    ensures
        ({
            let s = listed_entries(v)[i];
            let e = entry_of(v, s)->0;
            let t = finding("totp_available"@, s, "entry has TOTP configured"@);
            let parses = field_text(e, seq!['o', 't', 'p']) is Some && totp_config(field_text(e, seq!['o', 't', 'p'])->0) is Some;
            &&& parses ==> audit_findings(v).contains(t)
            &&& row_findings(v, s).contains(t) <==> parses
        }),
{
    reveal_strlit("missing_username");
    reveal_strlit("missing_url");
    reveal_strlit("totp_available");
    reveal_strlit("weak_password");
    let rows = listed_entries(v);
    let s = rows[i];
    let e = entry_of(v, s)->0;
    let t = finding("totp_available"@, s, "entry has TOTP configured"@);
    let ps = password_rows(v, rows);
    let all = audit_findings(v);
    assert(all == rows_findings(v, rows) + reuse_findings(ps, ps.len() as int));
    let rf = row_findings(v, s);
    let a = if blank(s.username) { seq![finding("missing_username"@, s, "entry has no username"@)] } else { Seq::empty() };
    let b = if blank(s.url) { seq![finding("missing_url"@, s, "entry has no url"@)] } else { Seq::empty() };
    if has_totp_setting(e) {
        assert(rf[(a.len() + b.len()) as int] == t);
        lemma_rows_findings_has(v, rows, i, t);
        let k = choose|k: int| 0 <= k < rows_findings(v, rows).len() && rows_findings(v, rows)[k] == t;
        assert(all[k] == t);
    } else if rf.contains(t) {
        let k = choose|k: int| 0 <= k < rf.len() && rf[k] == t;
        assert(rf[k].kind == "totp_available"@);
    }
}

/// An audit reports a weak password for a listed entry exactly when the
/// entry has a password whose UTF-8 form is shorter than 12 bytes.
pub proof fn weak_passwords_are_reported(v: Vault, i: int)
    requires
        0 <= i < listed_entries(v).len(),
        entry_of(v, listed_entries(v)[i]) is Some,
    ensures
        ({
            let s = listed_entries(v)[i];
            let e = entry_of(v, s)->0;
            let w = finding("weak_password"@, s, "password is shorter than 12 characters"@);
            let short = field_text(e, seq!['P', 'a', 's', 's', 'w', 'o', 'r', 'd']) is Some && utf8_len(field_text(e, seq!['P', 'a', 's', 's', 'w', 'o', 'r', 'd'])->0) < 12;
            &&& short ==> audit_findings(v).contains(w)
            &&& row_findings(v, s).contains(w) <==> short
        }),
{
    reveal_strlit("missing_username");
    reveal_strlit("missing_url");
    reveal_strlit("totp_available");
    reveal_strlit("weak_password");
    let rows = listed_entries(v);
    let s = rows[i];
    let e = entry_of(v, s)->0;
    let w = finding("weak_password"@, s, "password is shorter than 12 characters"@);
    let ps = password_rows(v, rows);
    let all = audit_findings(v);
    assert(all == rows_findings(v, rows) + reuse_findings(ps, ps.len() as int));
    let rf = row_findings(v, s);
    let a = if blank(s.username) { seq![finding("missing_username"@, s, "entry has no username"@)] } else { Seq::empty() };
    let b = if blank(s.url) { seq![finding("missing_url"@, s, "entry has no url"@)] } else { Seq::empty() };
    let t = if has_totp_setting(e) { seq![finding("totp_available"@, s, "entry has TOTP configured"@)] } else { Seq::empty() };
    if field_text(e, key_password()) is Some && weak(field_text(e, key_password())->0) {
        assert(rf[(a.len() + b.len() + t.len()) as int] == w);
        lemma_rows_findings_has(v, rows, i, w);
        let k = choose|k: int| 0 <= k < rows_findings(v, rows).len() && rows_findings(v, rows)[k] == w;
        assert(all[k] == w);
    } else if rf.contains(w) {
        let k = choose|k: int| 0 <= k < rf.len() && rf[k] == w;
        assert(rf[k].kind == "weak_password"@);
    }
}

} // verus!
