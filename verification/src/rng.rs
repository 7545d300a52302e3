use vstd::prelude::*;

verus! {

use crate::decimal::dec_str;

/// Relies on rand::random: a uniformly random value from the thread-local
/// generator; nothing can be promised of which one.
pub assume_specification<T>[ rand::random::<T> ]() -> (r: T)
    where
        rand::distributions::Standard: rand::distributions::Distribution<T>,
;

/// A fresh 128-bit idempotency token.
pub fn random_u128() -> u128 {
    rand::random::<u128>()
}

/// A short random string: the decimal rendering of a random 32-bit value.
pub fn random_string() -> (r: String)
    ensures
        exists|n: u32| r@ == dec_str(n as int),
{
    let n = rand::random::<u32>();
    let r = crate::decimal::u32_to_dec_string(n);
    proof {
        assert(r@ == dec_str(n as int));
    }
    r
}

/// Thirty-two random bytes.
pub fn random_bytes() -> (r: Vec<u8>)
    ensures
        r@.len() == 32,
{
    let bytes = rand::random::<[u8; 32]>();
    let mut r: Vec<u8> = Vec::new();
    let mut i: usize = 0;
    while i < 32
        invariant
            0 <= i <= 32,
            r@.len() == i,
        decreases 32 - i,
    {
        r.push(bytes[i]);
        i += 1;
    }
    r
}

} // verus!
