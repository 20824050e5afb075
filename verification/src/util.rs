//! Random identifiers and the wall clock.

use vstd::prelude::*;
use crate::text::push_char;

verus! {

#[verifier::external_type_specification]
#[verifier::external_body]
pub struct ExRandomError(getrandom::Error);

/// Fills `buf` from the system's random source (`getrandom::fill`).
/// Only the length of the buffer is stated: its contents are chance.
#[verifier::external_body]
fn fill_random(buf: &mut Vec<u8>) -> (r: Result<(), getrandom::Error>)
    ensures
        final(buf)@.len() == old(buf)@.len(),
{
    getrandom::fill(buf.as_mut_slice())
}

/// Nanoseconds since the Unix epoch by the system clock (0 when the clock is set before it).
/// Nothing is stated of the value: it is the time.
#[verifier::external_body]
pub(crate) fn unix_time_nanos() -> (r: u128) {
    std::time::SystemTime::now()
        .duration_since(std::time::UNIX_EPOCH)
        .unwrap_or_default()
        .as_nanos()
}

/// The character of the identifier alphabet `A-Z a-z 0-9 _ -` at position `i` (below 64).
pub open spec fn alphabet_char(i: nat) -> char {
    if i < 26 {
        (65 + i) as char
    } else if i < 52 {
        (97 + (i - 26)) as char
    } else if i < 62 {
        (48 + (i - 52)) as char
    } else if i == 62 {
        '_'
    } else {
        '-'
    }
}

/// Whether `c` belongs to the identifier alphabet.
pub open spec fn is_id_char(c: char) -> bool {
    ('A' <= c && c <= 'Z') || ('a' <= c && c <= 'z') || ('0' <= c && c <= '9') || c == '_' || c
        == '-'
}

fn alphabet_at(i: u8) -> (c: char)
    requires
        i < 64,
    ensures
        c == alphabet_char(i as nat),
        is_id_char(c),
{
    if i < 26 {
        (65 + i) as char
    } else if i < 52 {
        (97 + (i - 26)) as char
    } else if i < 62 {
        (48 + (i - 52)) as char
    } else if i == 62 {
        '_'
    } else {
        '-'
    }
}

/// The identifier made of `bytes`, one alphabet character per byte (the byte modulo 64).
pub fn nanoid_from_bytes(bytes: &[u8]) -> (r: String)
    ensures
        r@.len() == bytes@.len(),
        forall|i: int| 0 <= i < bytes@.len() ==> #[trigger] r@[i] == alphabet_char((bytes@[i] % 64) as nat),
{
    let mut s = String::new();
    let mut i: usize = 0;
    while i < bytes.len()
        invariant
            i <= bytes@.len(),
            s@.len() == i,
            forall|j: int| 0 <= j < i ==> #[trigger] s@[j] == alphabet_char((bytes@[j] % 64) as nat),
        decreases bytes@.len() - i,
    {
        let c = alphabet_at(bytes[i] % 64);
        push_char(&mut s, c);
        i = i + 1;
    }
    s
}

/// The bytes used when the random source fails: byte `i` is the clock value `t` shifted
/// right by `i % 16` bits, plus `i`, both truncated to 8 bits.
pub open spec fn fallback_byte(t: u128, i: int) -> u8 {
    let sum = ((t >> ((i % 16) as u128)) as u8) as int + (i % 256);
    if sum > 255 {
        (sum - 256) as u8
    } else {
        sum as u8
    }
}

pub fn fallback_bytes(t: u128, len: usize) -> (r: Vec<u8>)
    ensures
        r@.len() == len,
        forall|i: int| 0 <= i < len ==> #[trigger] r@[i] == fallback_byte(t, i),
{
    let mut v: Vec<u8> = Vec::new();
    let mut i: usize = 0;
    while i < len
        invariant
            i <= len,
            v@.len() == i,
            forall|j: int| 0 <= j < i ==> #[trigger] v@[j] == fallback_byte(t, j),
        decreases len - i,
    {
        let shift = (i % 16) as u128;
        let b = (t >> shift) as u8;
        let k = (i % 256) as u8;
        let x: u8 = if (b as u16) + (k as u16) > 255 {
            ((b as u16) + (k as u16) - 256) as u8
        } else {
            b + k
        };
        v.push(x);
        i = i + 1;
    }
    v
}

/// A random identifier of `len` characters from `A-Z a-z 0-9 _ -`.
pub fn nanoid(len: usize) -> (r: String)
    ensures
        r@.len() == len,
        forall|i: int| 0 <= i < len ==> is_id_char(#[trigger] r@[i]),
{
    let mut buf: Vec<u8> = Vec::new();
    let mut i: usize = 0;
    while i < len
        invariant
            i <= len,
            buf@.len() == i,
        decreases len - i,
    {
        buf.push(0);
        i = i + 1;
    }
    let bytes = match fill_random(&mut buf) {
        Ok(()) => buf,
        Err(_) => fallback_bytes(unix_time_nanos(), len),
    };
    let r = nanoid_from_bytes(bytes.as_slice());
    proof {
        assert forall|i: int| 0 <= i < len implies is_id_char(#[trigger] r@[i]) by {
            let b = (bytes@[i] % 64) as nat;
            assert(r@[i] == alphabet_char(b));
        }
    }
    r
}

} // verus!
