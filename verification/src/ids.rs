//! Entry and group identifiers: UUIDs and their text form.
use vstd::prelude::*;
use crate::text::{eq_ignore_case, hex_char};

verus! {

/// `16` to the power `n`.
pub open spec fn pow16(n: nat) -> nat
    decreases n,
{
    if n == 0 { 1 } else { 16 * pow16((n - 1) as nat) }
}

/// The 32 lowercase hexadecimal digits of a 128-bit value, most significant first.
pub open spec fn hex32(id: u128) -> Seq<char> {
    Seq::new(32, |i: int| hex_char((id as nat / pow16((31 - i) as nat)) % 16))
}

/// The hyphenated text of a UUID, as `Uuid`'s `Display` writes it:
/// groups of 8, 4, 4, 4 and 12 lowercase hexadecimal digits.
pub open spec fn hyphenated(id: u128) -> Seq<char> {
    let h = hex32(id);
    h.subrange(0, 8) + seq!['-'] + h.subrange(8, 12) + seq!['-'] + h.subrange(12, 16)
        + seq!['-'] + h.subrange(16, 20) + seq!['-'] + h.subrange(20, 32)
}

/// The value of a hexadecimal digit, in either case.
pub open spec fn hex_value(c: char) -> Option<nat> {
    if '0' <= c && c <= '9' {
        Some((c as int - 48) as nat)
    } else if 'a' <= c && c <= 'f' {
        Some((c as int - 87) as nat)
    } else if 'A' <= c && c <= 'F' {
        Some((c as int - 55) as nat)
    } else {
        None
    }
}

/// The number that hexadecimal digits spell, most significant first.
pub open spec fn hex_number(s: Seq<char>) -> nat
    decreases s.len(),
{
    if s.len() == 0 {
        0
    } else {
        hex_number(s.drop_last()) * 16 + match hex_value(s.last()) { Some(d) => d, None => 0 }
    }
}

/// 32 hexadecimal digits, read as a UUID.
pub open spec fn simple_uuid(s: Seq<char>) -> Option<u128> {
    if s.len() == 32 && forall|i: int| 0 <= i < 32 ==> #[trigger] hex_value(s[i]) is Some {
        Some(hex_number(s) as u128)
    } else {
        None
    }
}

/// Groups of 8, 4, 4, 4 and 12 hexadecimal digits joined by hyphens, read
/// as a UUID.
pub open spec fn hyphenated_uuid(s: Seq<char>) -> Option<u128> {
    if s.len() == 36 && s[8] == '-' && s[13] == '-' && s[18] == '-' && s[23] == '-' {
        simple_uuid(s.subrange(0, 8) + s.subrange(9, 13) + s.subrange(14, 18) + s.subrange(19, 23) + s.subrange(24, 36))
    } else {
        None
    }
}

/// What `Uuid::parse_str` reads from a text: 32 digits; the hyphenated form;
/// the hyphenated form in braces; or `urn:uuid:` (either case) followed by
/// the hyphenated form. Any other text fails.
pub open spec fn parsed_uuid(s: Seq<char>) -> Option<u128> {
    if s.len() == 32 {
        simple_uuid(s)
    } else if s.len() == 36 {
        hyphenated_uuid(s)
    } else if s.len() == 38 && s[0] == '{' && s[37] == '}' {
        hyphenated_uuid(s.subrange(1, 37))
    } else if s.len() == 45 && eq_ignore_case(s.subrange(0, 9), seq!['u', 'r', 'n', ':', 'u', 'u', 'i', 'd', ':']) {
        hyphenated_uuid(s.subrange(9, 45))
    } else {
        None
    }
}

/// `Uuid::to_string`: the hyphenated lowercase text of a UUID.
#[verifier::external_body]
pub(crate) fn uuid_text(id: u128) -> (r: String)
    ensures
        r@ == hyphenated(id),
{
    uuid::Uuid::from_u128(id).to_string()
}

/// `Uuid::parse_str`: the UUID that [`parsed_uuid`] reads, or `None` where
/// the text is no UUID. In particular the hyphenated text of a UUID parses
/// back to it.
#[verifier::external_body]
pub(crate) fn parse_uuid(s: &str) -> (r: Option<u128>)
    ensures
        r == parsed_uuid(s@),
        forall|u: u128| s@ == hyphenated(u) ==> r == Some(u),
{
    match uuid::Uuid::parse_str(s) {
        Ok(u) => Some(u.as_u128()),
        Err(_) => None,
    }
}

} // verus!
