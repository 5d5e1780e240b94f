//! Registration of a series under a random seed.

use crate::fixed::ONE;
use crate::store::State;
use vstd::prelude::*;

verus! {

/// The distance between two neighbouring seeds: 2^-53 in raw units.
pub const SEED_STEP: i128 = 128;

/// The seed that a random word gives: its 53 highest bits, read as a multiple of 2^-53.
pub open spec fn seed_of(word: u64) -> int {
    (word as int / 2048) * 128
}

/// Whether `seed` is one of the seeds: a multiple of 2^-53 that is at least 0 and less
/// than 1.
pub open spec fn is_seed(seed: i128) -> bool {
    &&& 0 <= seed < ONE
    &&& seed as int % 128 == 0
}

/// Every random word gives a seed.
pub proof fn lemma_seed_of_is_seed(word: u64)
    ensures
        0 <= seed_of(word) < ONE,
        seed_of(word) % 128 == 0,
        is_seed(seed_of(word) as i128),
{
    assert(0 <= word as int / 2048 < 0x20_0000_0000_0000);
    assert(seed_of(word) % 128 == 0) by (nonlinear_arith)
        requires
            seed_of(word) == (word as int / 2048) * 128,
    ;
}

/// Every seed is given by some random word.
pub proof fn lemma_seed_has_word(seed: i128) -> (word: u64)
    requires
        is_seed(seed),
    ensures
        seed_of(word) == seed,
{
    let top = seed as int / 128;
    assert(0 <= top < 0x20_0000_0000_0000);
    let word = (top * 2048) as u64;
    assert((top * 2048) / 2048 == top);
    word
}

/// Draws 64 random bits with `rand::Rng::gen` from the generator of the calling thread,
/// `rand::thread_rng()`. Nothing is claimed of the word that comes back.
#[verifier::external_body]
fn random_word() -> (word: u64) {
    rand::Rng::gen::<u64>(&mut rand::thread_rng())
}

/// The seed that `word` gives: a raw value that is at least 0 and less than `ONE`.
pub fn seed_from_word(word: u64) -> (seed: i128)
    ensures
        seed == seed_of(word),
        is_seed(seed),
{
    let top: u64 = word >> 11;
    assert(top == word / 2048 && top < 0x20_0000_0000_0000) by (bit_vector)
        requires
            top == word >> 11,
    ;
    proof {
        lemma_seed_of_is_seed(word);
    }
    (top as i128) * SEED_STEP
}

/// Registers `name` in `state` under the seed that `word` gives, and returns that seed.
pub fn add_series_with<D: Copy, F: Fn(i128) -> D>(
    state: &mut State<D, F>,
    name: String,
    word: u64,
) -> (seed: i128)
    requires
        old(state).wf(),
    ensures
        seed == seed_of(word),
        final(state).registered_from(old(state), name@, seed),
{
    let seed: i128 = seed_from_word(word);
    state.register(name, seed);
    seed
}

/// Registers `name` in `state` under a seed drawn at random, and returns that seed. A
/// name that is registered already gets the new seed.
pub fn add_series<D: Copy, F: Fn(i128) -> D>(state: &mut State<D, F>, name: String) -> (seed:
    i128)
    requires
        old(state).wf(),
    ensures
        is_seed(seed),
        final(state).registered_from(old(state), name@, seed),
{
    let word: u64 = random_word();
    add_series_with(state, name, word)
}

} // verus!
