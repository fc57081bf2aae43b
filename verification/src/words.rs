//! Picking a target word and checking a guess against the word list.

use rand::Rng;
use vstd::prelude::*;

verus! {

#[verifier::external_type_specification]
#[verifier::external_body]
pub struct ExThreadRng(rand::rngs::ThreadRng);

/// Relies on rand::thread_rng: hands out the thread-local generator.
#[verifier::external_body]
fn new_rng() -> rand::rngs::ThreadRng {
    rand::thread_rng()
}

/// Relies on rand's Rng::gen_range: on the non-empty range `0..bound` it
/// returns a value of the range and does not panic.
#[verifier::external_body]
fn rng_below(rng: &mut rand::rngs::ThreadRng, bound: usize) -> (n: usize)
    requires
        bound >= 1,
    ensures
        n < bound,
{
    rng.gen_range(0..bound)
}

/// Draws a target word for a new round: some word of the bank.
pub fn get_random_target_word(word_bank: &Vec<String>) -> (word: String)
    requires
        word_bank@.len() >= 1,
    ensures
        exists|i: int| 0 <= i < word_bank@.len() && word == word_bank@[i],
{
    let mut rng = new_rng();
    let n = rng_below(&mut rng, word_bank.len());
    word_bank[n].clone()
}

/// True exactly when `guess` is a word of the list.
pub fn is_valid(guess: &String, word_list: &Vec<String>) -> (valid: bool)
    ensures
        valid == exists|i: int| 0 <= i < word_list@.len() && (#[trigger] word_list@[i])@ == guess@,
{
    let mut i: usize = 0;
    while i < word_list.len()
        invariant
            i <= word_list@.len(),
            forall|k: int| 0 <= k < i ==> (#[trigger] word_list@[k])@ != guess@,
        decreases word_list@.len() - i,
    {
        if word_list[i] == *guess {
            return true;
        }
        i = i + 1;
    }
    false
}

} // verus!
