//! Random world seeds.

use vstd::prelude::*;
use crate::menu_state::{is_seed_char, seed_ok};
use crate::text::{chars_of, string_from_chars};
use crate::rng::thread_rng_below;

verus! {

/// The characters a random seed is drawn from.
pub open spec fn seed_alphabet() -> Seq<char> {
    "abcdefghijklmnopqrstuvwxyzABCDEFGHIJKLMNOPQRSTUVWXYZ0123456789"@
}

proof fn lemma_alphabet()
    ensures
        seed_alphabet().len() == 62,
        forall|i: int| 0 <= i < 62 ==> is_seed_char(#[trigger] seed_alphabet()[i]),
{
    reveal_strlit("abcdefghijklmnopqrstuvwxyzABCDEFGHIJKLMNOPQRSTUVWXYZ0123456789");
}

/// A random seed: 1 to 256 characters drawn from `seed_alphabet()` (the
/// length drawn first, then each character).
pub fn generate_random_seed() -> (s: String)
    ensures
        1 <= s@.len() <= 256,
        forall|i: int| 0 <= i < s@.len() ==> seed_alphabet().contains(#[trigger] s@[i]),
        seed_ok(s@),
{
    proof {
        lemma_alphabet();
    }
    let alphabet = chars_of("abcdefghijklmnopqrstuvwxyzABCDEFGHIJKLMNOPQRSTUVWXYZ0123456789");
    let len = 1 + thread_rng_below(256);
    let mut out: Vec<char> = Vec::new();
    let mut k: usize = 0;
    while k < len
        invariant
            alphabet@ == seed_alphabet(),
            seed_alphabet().len() == 62,
            forall|i: int| 0 <= i < 62 ==> is_seed_char(#[trigger] seed_alphabet()[i]),
            k <= len,
            len <= 256,
            out@.len() == k,
            forall|i: int| 0 <= i < k ==> seed_alphabet().contains(#[trigger] out@[i]),
            forall|i: int| 0 <= i < k ==> is_seed_char(#[trigger] out@[i]),
        decreases len - k,
    {
        let j = thread_rng_below(62);
        let c = alphabet[j];
        assert(seed_alphabet()[j as int] == c);
        out.push(c);
        k = k + 1;
    }
    string_from_chars(&out)
}

} // verus!
