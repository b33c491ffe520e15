//! Random passwords: at least one lowercase letter, uppercase letter, digit
//! and symbol, the rest drawn from all four sets, then shuffled.
use vstd::prelude::*;
use rand::seq::{IndexedRandom, SliceRandom};
use crate::cli::validate_generator_length;

verus! {

/// `IndexedRandom::choose` with the thread's random generator: one byte of
/// the set, or `None` for an empty set. Which byte is left to chance.
#[verifier::external_body]
fn choose_byte(set: &[u8]) -> (r: Option<u8>)
    ensures
        r is Some <==> set@.len() > 0,
        r matches Some(b) ==> set@.contains(b),
{
    set.choose(&mut rand::rng()).copied()
}

/// `SliceRandom::shuffle` with the thread's random generator: the same
/// bytes in an order left to chance.
#[verifier::external_body]
fn shuffle_bytes(v: &mut Vec<u8>)
    ensures
        final(v)@.to_multiset() == old(v)@.to_multiset(),
        final(v)@.len() == old(v)@.len(),
{
    v.shuffle(&mut rand::rng());
}

/// A byte is a lowercase ASCII letter.
pub open spec fn is_lower(b: u32) -> bool { 97 <= b <= 122 }
/// A byte is an uppercase ASCII letter.
pub open spec fn is_upper(b: u32) -> bool { 65 <= b <= 90 }
/// A byte is an ASCII digit.
pub open spec fn is_digit_byte(b: u32) -> bool { 48 <= b <= 57 }
/// A byte is one of the symbols `!@#$%^&*()-_=+[]{};:,.?/`.
pub open spec fn is_symbol(b: u32) -> bool {
    b == 33 || b == 64 || b == 35 || b == 36 || b == 37 || b == 94 || b == 38 || b == 42 || b == 40 || b == 41
        || b == 45 || b == 95 || b == 61 || b == 43 || b == 91 || b == 93 || b == 123 || b == 125 || b == 59
        || b == 58 || b == 44 || b == 46 || b == 63 || b == 47
}

/// A byte is one a password may hold.
pub open spec fn is_password_byte(b: u32) -> bool {
    is_lower(b) || is_upper(b) || is_digit_byte(b) || is_symbol(b)
}

/// What a generated password is: as long as asked, only allowed characters,
/// and at least one of each of the four kinds.
pub open spec fn good_password(p: Seq<char>, length: nat) -> bool {
    &&& p.len() == length
    &&& forall|i: int| 0 <= i < p.len() ==> is_password_byte(#[trigger] p[i] as u32)
    &&& exists|i: int| 0 <= i < p.len() && is_lower(#[trigger] p[i] as u32)
    &&& exists|i: int| 0 <= i < p.len() && is_upper(#[trigger] p[i] as u32)
    &&& exists|i: int| 0 <= i < p.len() && is_digit_byte(#[trigger] p[i] as u32)
    &&& exists|i: int| 0 <= i < p.len() && is_symbol(#[trigger] p[i] as u32)
}

fn lower_bytes() -> (r: Vec<u8>)
    ensures
        r@.len() > 0,
        forall|i: int| 0 <= i < r@.len() ==> is_lower(#[trigger] r@[i] as u32),
{
    let mut v: Vec<u8> = Vec::new();
    let mut b: u8 = 97;
    while b <= 122
        invariant
            97 <= b <= 123,
            v@.len() == b - 97,
            forall|i: int| 0 <= i < v@.len() ==> is_lower(#[trigger] v@[i] as u32),
        decreases 123 - b,
    {
        v.push(b);
        b = b + 1;
    }
    v
}

fn upper_bytes() -> (r: Vec<u8>)
    ensures
        r@.len() > 0,
        forall|i: int| 0 <= i < r@.len() ==> is_upper(#[trigger] r@[i] as u32),
{
    let mut v: Vec<u8> = Vec::new();
    let mut b: u8 = 65;
    while b <= 90
        invariant
            65 <= b <= 91,
            v@.len() == b - 65,
            forall|i: int| 0 <= i < v@.len() ==> is_upper(#[trigger] v@[i] as u32),
        decreases 91 - b,
    {
        v.push(b);
        b = b + 1;
    }
    v
}

fn digit_bytes() -> (r: Vec<u8>)
    ensures
        r@.len() > 0,
        forall|i: int| 0 <= i < r@.len() ==> is_digit_byte(#[trigger] r@[i] as u32),
{
    let mut v: Vec<u8> = Vec::new();
    let mut b: u8 = 48;
    while b <= 57
        invariant
            48 <= b <= 58,
            v@.len() == b - 48,
            forall|i: int| 0 <= i < v@.len() ==> is_digit_byte(#[trigger] v@[i] as u32),
        decreases 58 - b,
    {
        v.push(b);
        b = b + 1;
    }
    v
}

fn symbol_bytes() -> (r: Vec<u8>)
    ensures
        r@.len() > 0,
        forall|i: int| 0 <= i < r@.len() ==> is_symbol(#[trigger] r@[i] as u32),
{
    vec![33u8, 64, 35, 36, 37, 94, 38, 42, 40, 41, 45, 95, 61, 43, 91, 93, 123, 125, 59, 58, 44, 46, 63, 47]
}

/// Generates a password of `length` characters (8 to 256): one random
/// lowercase letter, uppercase letter, digit and symbol, the rest random
/// among all of them, all shuffled.
pub fn generate_password(length: usize) -> (r: Result<String, String>)
    ensures
        !(8 <= length <= 256) ==> (r matches Err(m) && m@ == "generator length must be between 8 and 256"@),
        8 <= length <= 256 ==> (r matches Ok(p) && good_password(p@, length as nat)),
{
    match validate_generator_length(length) {
        Err(e) => return Err(e),
        Ok(()) => {},
    }
    let lower = lower_bytes();
    let upper = upper_bytes();
    let digits = digit_bytes();
    let symbols = symbol_bytes();
    let mut all: Vec<u8> = Vec::new();
    let mut i: usize = 0;
    while i < lower.len()
        invariant
            i <= lower@.len(),
            forall|j: int| 0 <= j < lower@.len() ==> is_lower(#[trigger] lower@[j] as u32),
            all@.len() == i,
            forall|j: int| 0 <= j < all@.len() ==> is_password_byte(#[trigger] all@[j] as u32),
        decreases lower@.len() - i,
    {
        all.push(lower[i]);
        i = i + 1;
    }
    let mut i: usize = 0;
    while i < upper.len()
        invariant
            i <= upper@.len(),
            forall|j: int| 0 <= j < upper@.len() ==> is_upper(#[trigger] upper@[j] as u32),
            all@.len() > 0,
            forall|j: int| 0 <= j < all@.len() ==> is_password_byte(#[trigger] all@[j] as u32),
        decreases upper@.len() - i,
    {
        all.push(upper[i]);
        i = i + 1;
    }
    let mut i: usize = 0;
    while i < digits.len()
        invariant
            i <= digits@.len(),
            forall|j: int| 0 <= j < digits@.len() ==> is_digit_byte(#[trigger] digits@[j] as u32),
            all@.len() > 0,
            forall|j: int| 0 <= j < all@.len() ==> is_password_byte(#[trigger] all@[j] as u32),
        decreases digits@.len() - i,
    {
        all.push(digits[i]);
        i = i + 1;
    }
    let mut i: usize = 0;
    while i < symbols.len()
        invariant
            i <= symbols@.len(),
            forall|j: int| 0 <= j < symbols@.len() ==> is_symbol(#[trigger] symbols@[j] as u32),
            all@.len() > 0,
            forall|j: int| 0 <= j < all@.len() ==> is_password_byte(#[trigger] all@[j] as u32),
        decreases symbols@.len() - i,
    {
        all.push(symbols[i]);
        i = i + 1;
    }
    let mut bytes: Vec<u8> = Vec::new();
    let c0 = match choose_byte(lower.as_slice()) { Some(b) => b, None => return Err("password character class is empty".to_owned()) };
    let c1 = match choose_byte(upper.as_slice()) { Some(b) => b, None => return Err("password character class is empty".to_owned()) };
    let c2 = match choose_byte(digits.as_slice()) { Some(b) => b, None => return Err("password character class is empty".to_owned()) };
    let c3 = match choose_byte(symbols.as_slice()) { Some(b) => b, None => return Err("password character class is empty".to_owned()) };
    bytes.push(c0);
    bytes.push(c1);
    bytes.push(c2);
    bytes.push(c3);
    assert(all@.len() > 0);
    while bytes.len() < length
        invariant
            4 <= bytes@.len() <= length,
            all@.len() > 0,
            forall|i: int| 0 <= i < all@.len() ==> is_password_byte(#[trigger] all@[i] as u32),
            forall|i: int| 0 <= i < bytes@.len() ==> is_password_byte(#[trigger] bytes@[i] as u32),
            is_lower(bytes@[0] as u32) && is_upper(bytes@[1] as u32) && is_digit_byte(bytes@[2] as u32) && is_symbol(bytes@[3] as u32),
        decreases length - bytes@.len(),
    {
        let c = match choose_byte(all.as_slice()) { Some(b) => b, None => return Err("password character set is empty".to_owned()) };
        bytes.push(c);
    }
    let ghost before = bytes@;
    shuffle_bytes(&mut bytes);
    proof {
        broadcast use vstd::seq_lib::group_to_multiset_ensures;
        assert(before.contains(before[0]) && before.contains(before[1]) && before.contains(before[2]) && before.contains(before[3]));
        assert(bytes@.to_multiset().count(before[0]) > 0);
        assert(bytes@.to_multiset().count(before[1]) > 0);
        assert(bytes@.to_multiset().count(before[2]) > 0);
        assert(bytes@.to_multiset().count(before[3]) > 0);
        assert(bytes@.contains(before[0]) && bytes@.contains(before[1]) && bytes@.contains(before[2]) && bytes@.contains(before[3]));
        assert forall|j: int| 0 <= j < bytes@.len() implies is_password_byte(#[trigger] bytes@[j] as u32) by {
            assert(bytes@.contains(bytes@[j]));
            assert(before.to_multiset().count(bytes@[j]) > 0);
            assert(before.contains(bytes@[j]));
        }
    }
    let ghost shuffled = bytes@;
    let mut out = String::new();
    let mut i: usize = 0;
    while i < bytes.len()
        invariant
            i <= bytes@.len(),
            bytes@ == shuffled,
            out@.len() == i,
            forall|j: int| 0 <= j < i ==> (#[trigger] out@[j] as u32) == (bytes@[j] as u32),
        decreases bytes@.len() - i,
    {
        let b = bytes[i];
        let c = b as char;
        assert((c as u32) == (b as u32));
        out.push(c);
        i = i + 1;
    }
    proof {
        let p = out@;
        assert(forall|j: int| 0 <= j < p.len() ==> (p[j] as u32) == (shuffled[j] as u32));
        let k0 = choose|k: int| 0 <= k < shuffled.len() && shuffled[k] == before[0];
        let k1 = choose|k: int| 0 <= k < shuffled.len() && shuffled[k] == before[1];
        let k2 = choose|k: int| 0 <= k < shuffled.len() && shuffled[k] == before[2];
        let k3 = choose|k: int| 0 <= k < shuffled.len() && shuffled[k] == before[3];
        assert(is_lower(p[k0] as u32));
        assert(is_upper(p[k1] as u32));
        assert(is_digit_byte(p[k2] as u32));
        assert(is_symbol(p[k3] as u32));
        assert forall|j: int| 0 <= j < p.len() implies is_password_byte(#[trigger] p[j] as u32) by {
            assert(is_password_byte(shuffled[j] as u32));
        }
    }
    Ok(out)
}

} // verus!
