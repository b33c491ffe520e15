//! The vault as the library sees it: a tree of groups that hold entries,
//! each entry a list of named fields.
use vstd::prelude::*;

verus! {

/// One named field of an entry.
pub struct EntryField {
    pub key: String,
    pub value: String,
    pub protected: bool,
}

/// One entry: its id (the hyphenated UUID) and its fields.
pub struct VaultEntry {
    pub id: String,
    pub fields: Vec<EntryField>,
}

/// A group: its id (the hyphenated UUID), its name, its own entries and its
/// child groups, in order.
pub struct VaultGroup {
    pub id: String,
    pub name: String,
    pub entries: Vec<VaultEntry>,
    pub groups: Vec<VaultGroup>,
}

/// An opened vault: the root group and the format it was read in.
pub struct Vault {
    pub root: VaultGroup,
    pub version: crate::header::KdbxVersion,
}

/// The field name of an entry's title.
pub open spec fn key_title() -> Seq<char> { seq!['T', 'i', 't', 'l', 'e'] }
/// The field name of an entry's user name.
pub open spec fn key_username() -> Seq<char> { seq!['U', 's', 'e', 'r', 'N', 'a', 'm', 'e'] }
/// The field name of an entry's password.
pub open spec fn key_password() -> Seq<char> { seq!['P', 'a', 's', 's', 'w', 'o', 'r', 'd'] }
/// The field name of an entry's URL.
pub open spec fn key_url() -> Seq<char> { seq!['U', 'R', 'L'] }
/// The field name of an entry's notes.
pub open spec fn key_notes() -> Seq<char> { seq!['N', 'o', 't', 'e', 's'] }
/// The field name of an entry's TOTP setting.
pub open spec fn key_otp() -> Seq<char> { seq!['o', 't', 'p'] }

/// The title field name.
pub fn title_key() -> (s: &'static str)
    ensures s@ == key_title(),
{
    proof { reveal_strlit("Title"); }
    "Title"
}

/// The user name field name.
pub fn username_key() -> (s: &'static str)
    ensures s@ == key_username(),
{
    proof { reveal_strlit("UserName"); }
    "UserName"
}

/// The password field name.
pub fn password_key() -> (s: &'static str)
    ensures s@ == key_password(),
{
    proof { reveal_strlit("Password"); }
    "Password"
}

/// The URL field name.
pub fn url_key() -> (s: &'static str)
    ensures s@ == key_url(),
{
    proof { reveal_strlit("URL"); }
    "URL"
}

/// The notes field name.
pub fn notes_key() -> (s: &'static str)
    ensures s@ == key_notes(),
{
    proof { reveal_strlit("Notes"); }
    "Notes"
}

/// The TOTP field name.
pub fn otp_key() -> (s: &'static str)
    ensures s@ == key_otp(),
{
    proof { reveal_strlit("otp"); }
    "otp"
}

/// The value of the first field named `key`, if any.
pub open spec fn field_lookup(fs: Seq<EntryField>, key: Seq<char>) -> Option<EntryField>
    decreases fs.len(),
{
    if fs.len() == 0 {
        None
    } else if fs[0].key@ == key {
        Some(fs[0])
    } else {
        field_lookup(fs.drop_first(), key)
    }
}

/// The text of the field named `key`, if the entry has one.
pub open spec fn field_text(e: VaultEntry, key: Seq<char>) -> Option<Seq<char>> {
    match field_lookup(e.fields@, key) {
        Some(f) => Some(f.value@),
        None => None,
    }
}

/// The view of an optional string.
pub open spec fn opt_view(o: Option<String>) -> Option<Seq<char>> {
    match o {
        Some(s) => Some(s@),
        None => None,
    }
}

/// The index of the first field named `key`, or the number of fields.
pub fn find_field(e: &VaultEntry, key: &str) -> (r: usize)
    ensures
        r <= e.fields.len(),
        r < e.fields.len() ==> field_lookup(e.fields@, key@) == Some(e.fields@[r as int]),
        r == e.fields.len() ==> field_lookup(e.fields@, key@) is None,
{
    let mut i: usize = 0;
    assert(e.fields@.subrange(0, e.fields.len() as int) =~= e.fields@);
    while i < e.fields.len()
        invariant
            i <= e.fields.len(),
            field_lookup(e.fields@, key@) == field_lookup(e.fields@.subrange(i as int, e.fields.len() as int), key@),
        decreases e.fields.len() - i,
    {
        let ghost rest = e.fields@.subrange(i as int, e.fields.len() as int);
        assert(rest[0] == e.fields@[i as int]);
        if e.fields[i].key == key.to_owned() {
            return i;
        }
        assert(rest.drop_first() =~= e.fields@.subrange(i + 1, e.fields.len() as int));
        i = i + 1;
    }
    i
}

/// The text of the field named `key`, copied.
pub fn get_field(e: &VaultEntry, key: &str) -> (r: Option<String>)
    ensures
        opt_view(r) == field_text(*e, key@),
{
    let i = find_field(e, key);
    if i < e.fields.len() {
        Some(e.fields[i].value.clone())
    } else {
        None
    }
}

} // verus!
