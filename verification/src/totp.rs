//! TOTP settings and codes, which the `keepass` crate computes.
use vstd::prelude::*;

verus! {

/// The period and digit count that `keepass`'s `TOTP` parses from an
/// `otpauth://` URI, or `None` where it rejects the URI.
pub uninterp spec fn totp_config(uri: Seq<char>) -> Option<(u64, u32)>;

/// `<keepass::db::TOTP as FromStr>::from_str`: the period and digit count of
/// a TOTP URI, or `None` where it does not parse.
#[verifier::external_body]
pub(crate) fn totp_settings(uri: &str) -> (r: Option<(u64, u32)>)
    ensures
        r == totp_config(uri@),
{
    match uri.parse::<keepass::db::TOTP>() {
        Ok(t) => Some((t.period, t.digits)),
        Err(_) => None,
    }
}

/// A character is an ASCII decimal digit.
pub open spec fn is_digit(c: char) -> bool {
    '0' <= c && c <= '9'
}

/// `TOTP::value_now` on the parsed URI: the current code, the seconds it
/// stays valid and the period. The code is written with exactly as many
/// decimal digits as the setting asks for (at least one), and stays valid for
/// between one second and one period. The crate divides by the period and
/// raises ten to the digit count, so a period of zero or more than 19 digits
/// would panic. `None` where the system clock is before the Unix epoch.
/// Which code comes out depends on the time and is not stated.
#[verifier::external_body]
pub(crate) fn totp_now(uri: &str) -> (r: Option<(String, u64, u64)>)
    requires
        totp_config(uri@) matches Some(c) && c.0 > 0 && c.1 <= 19,
    ensures
        r matches Some(t) ==> {
            let c = totp_config(uri@)->0;
            &&& t.2 == c.0
            &&& 1 <= t.1 <= c.0
            &&& t.0@.len() == if c.1 == 0 { 1 } else { c.1 as int }
            &&& forall|i: int| 0 <= i < t.0@.len() ==> is_digit(#[trigger] t.0@[i])
        },
{
    match uri.parse::<keepass::db::TOTP>() {
        Ok(t) => match t.value_now() {
            Ok(code) => Some((code.code, code.valid_for.as_secs(), code.period.as_secs())),
            Err(_) => None,
        },
        Err(_) => None,
    }
}

} // verus!
