use vstd::prelude::*;
use crate::rng::{choose_random, seeded_shuffle, shuffle_seeded};
use crate::text::listed;

verus! {

/// The indices `0, 1, ..., len - 1`.
pub open spec fn indices(len: nat) -> Seq<usize> {
    Seq::new(len, |i: int| i as usize)
}

/// How many answer words there are.
pub fn final_len(final_set: &Vec<String>) -> (n: usize)
    ensures
        n == final_set@.len(),
{
    final_set.len()
}

/// The answer word at `index`.
pub fn get_final_index(final_set: &Vec<String>, index: usize) -> (w: String)
    requires
        index < final_set@.len(),
    ensures
        w@ == final_set@[index as int]@,
{
    final_set[index].clone()
}

/// An answer word picked at random.
pub fn get_final_random(final_set: &Vec<String>) -> (w: String)
    requires
        final_set@.len() > 0,
    ensures
        listed(final_set@, w@),
{
    match choose_random(final_set) {
        Some(w) => w,
        None => String::new(),
    }
}

/// The answer of day `day_index` (counted from 0) when the answer words
/// are dealt in the order `order`: the word at `order[day_index]`.
pub fn answer_from_order(final_set: &Vec<String>, order: &Vec<usize>, day_index: usize) -> (w:
    String)
    requires
        day_index < order@.len(),
        order@[day_index as int] < final_set@.len(),
    ensures
        w@ == final_set@[order@[day_index as int] as int]@,
{
    get_final_index(final_set, order[day_index])
}

/// The answer of day `day_index` (counted from 0) of a seeded game: the
/// answer words are dealt in the order into which the seed shuffles their
/// indices.
pub fn seeded_answer(final_set: &Vec<String>, seed: u64, day_index: usize) -> (w: String)
    requires
        day_index < final_set@.len(),
    ensures
        ({
            let order = seeded_shuffle(seed, indices(final_set@.len()));
            &&& order.len() == final_set@.len()
            &&& order.to_multiset() == indices(final_set@.len()).to_multiset()
            &&& order[day_index as int] < final_set@.len()
            &&& w@ == final_set@[order[day_index as int] as int]@
        }),
{
    let len = final_len(final_set);
    let mut arr: Vec<usize> = Vec::new();
    let mut i: usize = 0;
    while i < len
        invariant
            0 <= i <= len,
            len == final_set@.len(),
            arr@ == indices(i as nat),
        decreases len - i,
    {
        arr.push(i);
        assert(arr@ =~= indices((i + 1) as nat));
        i = i + 1;
    }
    let ghost before = arr@;
    shuffle_seeded(&mut arr, seed);
    proof {
        arr@.to_multiset_ensures();
        before.to_multiset_ensures();
        assert(arr@.len() == before.len());
        assert(arr@.contains(arr@[day_index as int]));
        assert(arr@.to_multiset().count(arr@[day_index as int]) > 0);
        assert(before.to_multiset().count(arr@[day_index as int]) > 0);
        assert(before.contains(arr@[day_index as int]));
        let k = choose|k: int| 0 <= k < before.len() && before[k] == arr@[day_index as int];
        assert(before[k] < len);
    }
    answer_from_order(final_set, &arr, day_index)
}

/// An order that holds each index once deals different days different
/// indices, so a seeded game gives different days different answers when
/// the answer list has no repeats.
pub proof fn lemma_days_differ(order: Seq<usize>, n: nat, d1: int, d2: int)
    requires
        order.to_multiset() == indices(n).to_multiset(),
        n <= usize::MAX,
        0 <= d1 < order.len(),
        0 <= d2 < order.len(),
        d1 != d2,
    ensures
        order[d1] != order[d2],
{
    let ix = indices(n);
    assert forall|i: int, j: int| 0 <= i < ix.len() && 0 <= j < ix.len() && i != j implies ix[i] != ix[j] by {}
    ix.lemma_multiset_has_no_duplicates();
    ix.to_multiset_ensures();
    order.to_multiset_ensures();
    if order[d1] == order[d2] {
        let x = order[d1];
        assert(order.remove(d1).contains(x)) by {
            if d2 < d1 {
                assert(order.remove(d1)[d2] == x);
            } else {
                assert(order.remove(d1)[d2 - 1] == x);
            }
        }
        order.remove(d1).to_multiset_ensures();
        assert(order.remove(d1).to_multiset().count(x) > 0);
        assert(order.remove(d1).to_multiset() == order.to_multiset().remove(x));
        assert(order.to_multiset().remove(x).count(x) > 0);
        assert(order.to_multiset().count(x) >= 2);
        assert(ix.to_multiset().count(x) <= 1);
    }
}

} // verus!
