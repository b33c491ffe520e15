//! The timed clear of a copied secret: how long the copy commands wait, and
//! whether they clear the clipboard once the wait is over.
use vstd::prelude::*;
use crate::cli::validate_clear_after;

verus! {

/// The wait before the clear: the seconds asked for on the command line,
/// else the configured ones; more than an hour is refused with the message
/// of [`validate_clear_after`].
pub fn clear_delay(clear_after: Option<u64>, configured: u64) -> (r: Result<u64, String>)
    ensures
        ({
            let s = match clear_after { Some(x) => x, None => configured };
            &&& r is Ok <==> s <= 3600
            &&& r matches Ok(t) ==> t == s
            &&& r matches Err(m) ==> m@ == "clipboard clear timeout must be <= 3600 seconds"@
        }),
{
    let seconds = match clear_after {
        Some(x) => x,
        None => configured,
    };
    match validate_clear_after(seconds) {
        Ok(()) => Ok(seconds),
        Err(m) => Err(m),
    }
}

/// Once the wait is over, the clipboard is cleared only where it still holds
/// exactly the value that was copied; where it cannot be read or holds
/// anything else, it is left alone.
pub fn should_clear(current: &Option<String>, copied: &String) -> (r: bool)
    ensures
        r <==> (current matches Some(c) && c@ == copied@),
{
    match current {
        Some(c) => *c == *copied,
        None => false,
    }
}

} // verus!
