//! What the C interface decides: credentials and write modes from requests,
//! selectors, and the error answer it falls back on.
use vstd::prelude::*;
use crate::edit::VaultCredentials;
use crate::error::AnahtarError;
use crate::gui::cleaned_key;
use crate::query::{EntrySelector, SelectorView};
use crate::service::WriteMode;
use crate::text::{trim, trimmed, push_str};
use crate::write::WriteReport;

verus! {

/// An error the C interface answers with: a kind and a message.
#[derive(Debug)]
pub struct FfiError {
    pub kind: &'static str,
    pub message: String,
}

/// An error of the given kind with the given message.
pub fn ffi_error(kind: &'static str, message: &str) -> (r: FfiError)
    ensures
        r.kind@ == kind@,
        r.message@ == message@,
{
    FfiError { kind, message: message.to_owned() }
}

/// Credentials from a request: the key file only when one that is not
/// blank was given.
pub fn credentials(password: &str, key_file: Option<&str>) -> (r: VaultCredentials)
    ensures
        r.password@ == password@,
        crate::vault::opt_view(r.key_file) == cleaned_key(match key_file { Some(k) => Some(k@), None => None }),
{
    match key_file {
        Some(k) => if trim(k).as_str().is_empty() {
            VaultCredentials::password_only(password)
        } else {
            VaultCredentials::with_key_file(password, k)
        },
        None => VaultCredentials::password_only(password),
    }
}

/// The in-place write mode of a request: a backup directory only when one
/// that is not blank was given.
pub fn in_place(backup_dir: Option<String>) -> (r: WriteMode)
    ensures
        r matches WriteMode::InPlace { backup_dir: d } && crate::vault::opt_view(d) == cleaned_key(crate::vault::opt_view(backup_dir)),
{
    let dir = match backup_dir {
        Some(d) => if trim(d.as_str()).as_str().is_empty() { None } else { Some(d) },
        None => None,
    };
    WriteMode::InPlace { backup_dir: dir }
}

/// The report of a write that must have written; `VerificationFailed` where
/// there is none.
pub fn required_report(report: Option<WriteReport>) -> (r: Result<WriteReport, AnahtarError>)
    ensures
        match report {
            Some(w) => r matches Ok(x) && x == w,
            None => r matches Err(AnahtarError::VerificationFailed(m)) && m@ == "write returned no report"@,
        },
{
    match report {
        Some(w) => Ok(w),
        None => Err(AnahtarError::VerificationFailed("write returned no report".to_owned())),
    }
}

/// The selector a request's kind and value stand for; an unknown kind means `Auto`.
pub open spec fn request_selector(kind: Seq<char>, value: Seq<char>) -> SelectorView {
    if kind == "id"@ {
        SelectorView::Id(value)
    } else if kind == "title"@ {
        SelectorView::Title(value)
    } else if kind == "url"@ {
        SelectorView::Url(value)
    } else if kind == "username"@ {
        SelectorView::Username(value)
    } else {
        SelectorView::Auto(value)
    }
}

/// The selector of a request.
pub fn entry_selector(kind: &str, value: String) -> (r: EntrySelector)
    ensures
        r@ == request_selector(kind@, value@),
{
    let k = kind.to_owned();
    proof {
        reveal_strlit("id");
        reveal_strlit("title");
        reveal_strlit("url");
        reveal_strlit("username");
    }
    if k == "id".to_owned() {
        EntrySelector::Id(value)
    } else if k == "title".to_owned() {
        EntrySelector::Title(value)
    } else if k == "url".to_owned() {
        EntrySelector::Url(value)
    } else if k == "username".to_owned() {
        EntrySelector::Username(value)
    } else {
        EntrySelector::Auto(value)
    }
}

/// A text with every double quote preceded by a backslash.
pub open spec fn quote_escaped(s: Seq<char>) -> Seq<char>
    decreases s.len(),
{
    if s.len() == 0 {
        Seq::empty()
    } else {
        let r = quote_escaped(s.drop_last());
        if s.last() == '"' { r + seq!['\\', '"'] } else { r.push(s.last()) }
    }
}

/// The answer the C interface gives when its own answer cannot be written.
pub open spec fn internal_error_text(message: Seq<char>) -> Seq<char> {
    "{\"ok\":false,\"data\":null,\"error\":{\"kind\":\"serialization_failed\",\"message\":\""@
        + quote_escaped(message) + "\"}}"@
}

/// The fallback error answer, with the message's double quotes escaped.
pub fn internal_error_json(message: &str) -> (r: String)
    ensures
        r@ == internal_error_text(message@),
{
    let cs = crate::text::chars_of(message);
    let mut escaped = String::new();
    let mut i: usize = 0;
    assert(cs@.take(0) =~= Seq::<char>::empty());
    while i < cs.len()
        invariant
            i <= cs.len(),
            cs@ == message@,
            escaped@ == quote_escaped(cs@.take(i as int)),
        decreases cs.len() - i,
    {
        assert(cs@.take(i + 1).drop_last() =~= cs@.take(i as int));
        let ghost before = escaped@;
        if cs[i] == '"' {
            escaped.push('\\');
            escaped.push('"');
            assert(escaped@ =~= before + seq!['\\', '"']);
        } else {
            escaped.push(cs[i]);
        }
        i = i + 1;
    }
    assert(cs@.take(cs.len() as int) =~= cs@);
    let mut r = "{\"ok\":false,\"data\":null,\"error\":{\"kind\":\"serialization_failed\",\"message\":\"".to_owned();
    push_str(&mut r, escaped.as_str());
    push_str(&mut r, "\"}}");
    r
}

} // verus!
