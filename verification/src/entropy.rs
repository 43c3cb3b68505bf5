//! Numbers that nobody can foretell.

use vstd::prelude::*;

verus! {

/// Calls `getrandom::getrandom` on a buffer of four bytes. Nothing is
/// promised of the bytes: they differ from call to call. `None` where the
/// source of randomness reports an error.
#[verifier::external_body]
fn random_bytes() -> (r: Option<[u8; 4]>) {
    let mut buffer = [0u8; 4];
    match getrandom::getrandom(&mut buffer) {
        Ok(()) => Some(buffer),
        Err(_) => None,
    }
}

/// A number drawn at random, or `None` where none could be drawn.
pub fn random_number() -> (r: Option<u32>) {
    match random_bytes() {
        Some(bytes) => Some(number_of(bytes)),
        None => None,
    }
}

/// The number that four bytes spell, the first byte weighing most.
pub open spec fn big_endian(bytes: Seq<u8>) -> int
    recommends
        bytes.len() == 4,
{
    bytes[0] * 16_777_216 + bytes[1] * 65_536 + bytes[2] * 256 + bytes[3]
}

/// Reads four bytes as one number, the first byte weighing most. This is how
/// a random number is made from the bytes that were drawn.
pub fn number_of(bytes: [u8; 4]) -> (n: u32)
    ensures
        n == big_endian(bytes@),
{
    let high: u32 = bytes[0] as u32 * 16_777_216 + bytes[1] as u32 * 65_536;
    let low: u32 = bytes[2] as u32 * 256 + bytes[3] as u32;
    high + low
}

} // verus!
