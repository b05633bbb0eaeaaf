use vstd::prelude::*;
use rand::seq::SliceRandom;
use rand::SeedableRng;
use crate::text::listed;

verus! {

/// The order into which rand's `StdRng`, seeded from `seed`, shuffles
/// `items`. The generator is deterministic for a seed, so this depends on
/// the arguments alone.
pub uninterp spec fn seeded_shuffle(seed: u64, items: Seq<usize>) -> Seq<usize>;

/// Shuffles `items` with `SliceRandom::shuffle` driven by
/// `StdRng::seed_from_u64(seed)`. Claimed: the outcome is the one named by
/// `seeded_shuffle`, and, since `shuffle` only swaps entries, it holds the
/// same entries as before.
#[verifier::external_body]
pub(crate) fn shuffle_seeded(items: &mut Vec<usize>, seed: u64)
    ensures
        final(items)@ == seeded_shuffle(seed, old(items)@),
        final(items)@.to_multiset() == old(items)@.to_multiset(),
{
    let mut rng = rand::rngs::StdRng::seed_from_u64(seed);
    items.shuffle(&mut rng);
}

/// Picks an entry of `words` with `SliceRandom::choose` and the thread's
/// random generator, and hands back a copy. Claimed: nothing is picked only
/// from an empty list, and what is picked is one of the entries. Which one
/// is left unsaid: it depends on chance.
#[verifier::external_body]
pub(crate) fn choose_random(words: &Vec<String>) -> (picked: Option<String>)
    ensures
        picked is None <==> words@.len() == 0,
        picked matches Some(w) ==> listed(words@, w@),
{
    words.choose(&mut rand::thread_rng()).cloned()
}

} // verus!
