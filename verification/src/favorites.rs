use vstd::prelude::*;
use crate::counter::{distinct_entries, GuessCounter};
use crate::order::{
    lemma_text_le_antisymmetric, lemma_text_le_total, lemma_text_le_transitive, text_less_eq,
    text_lt,
};

verus! {

/// `a` is listed before `b`: guessed more often, or as often and earlier in
/// dictionary order.
pub open spec fn ranks_before(a: (String, i32), b: (String, i32)) -> bool {
    a.1 > b.1 || (a.1 == b.1 && text_lt(a.0@, b.0@))
}

/// Every entry is listed before every later one.
pub open spec fn strictly_ranked(s: Seq<(String, i32)>) -> bool {
    forall|i: int, j: int| 0 <= i < j < s.len() ==> ranks_before(#[trigger] s[i], #[trigger] s[j])
}

/// The entries after the first five that were guessed fewer times than
/// `c`, in order.
pub open spec fn fewer_than(s: Seq<(String, i32)>, c: i32) -> Seq<(String, i32)>
    decreases s.len(),
{
    if s.len() == 0 {
        Seq::empty()
    } else {
        let rest = fewer_than(s.drop_last(), c);
        if s.last().1 < c {
            rest.push(s.last())
        } else {
            rest
        }
    }
}

/// What the favourite-word list shows of the ranked entries: the first
/// five, then, skipping the rest of the fifth one's count, every entry
/// guessed fewer times than the fifth.
pub open spec fn favorites_of(sorted: Seq<(String, i32)>) -> Seq<(String, i32)> {
    if sorted.len() <= 5 {
        sorted
    } else {
        sorted.take(5) + fewer_than(sorted.skip(5), sorted[4].1)
    }
}

proof fn lemma_ranks_total(a: (String, i32), b: (String, i32))
    requires
        a.0@ != b.0@,
    ensures
        ranks_before(a, b) || ranks_before(b, a),
{
    lemma_text_le_total(a.0@, b.0@);
}

proof fn lemma_ranks_transitive(a: (String, i32), b: (String, i32), c: (String, i32))
    requires
        ranks_before(a, b),
        ranks_before(b, c),
    ensures
        ranks_before(a, c),
{
    if a.1 == b.1 && b.1 == c.1 {
        lemma_text_le_transitive(a.0@, b.0@, c.0@);
        if a.0@ == c.0@ {
            lemma_text_le_antisymmetric(a.0@, b.0@);
        }
    }
}

proof fn lemma_ranks_irreflexive(a: (String, i32), b: (String, i32))
    requires
        ranks_before(a, b),
    ensures
        !ranks_before(b, a),
{
    if a.1 == b.1 && ranks_before(b, a) {
        lemma_text_le_antisymmetric(a.0@, b.0@);
    }
}

/// Whether `a` is listed before `b`.
fn ranked_before(a: &(String, i32), b: &(String, i32)) -> (r: bool)
    ensures
        r == ranks_before(*a, *b),
{
    if a.1 != b.1 {
        a.1 > b.1
    } else {
        text_less_eq(a.0.as_str(), b.0.as_str()) && !(a.0 == b.0)
    }
}

/// The entries of the counter, most guessed first and alphabetically among
/// equals.
pub fn rank_entries(entries: &Vec<(String, i32)>) -> (sorted: Vec<(String, i32)>)
    requires
        distinct_entries(entries@),
    ensures
        sorted@.to_multiset() == entries@.to_multiset(),
        strictly_ranked(sorted@),
{
    let mut sorted: Vec<(String, i32)> = Vec::new();
    assert(sorted@ =~= entries@.take(0));
    let mut i: usize = 0;
    while i < entries.len()
        invariant
            0 <= i <= entries@.len(),
            distinct_entries(entries@),
            strictly_ranked(sorted@),
            sorted@.to_multiset() == entries@.take(i as int).to_multiset(),
            forall|q: int|
                0 <= q < sorted@.len() ==> exists|k: int|
                    0 <= k < i && #[trigger] sorted@[q] == entries@[k],
        decreases entries@.len() - i,
    {
        let e = (entries[i].0.clone(), entries[i].1);
        assert(e == entries@[i as int]);
        let mut p: usize = 0;
        while p < sorted.len() && !ranked_before(&e, &sorted[p])
            invariant
                0 <= p <= sorted@.len(),
                forall|q: int| 0 <= q < p ==> !ranks_before(e, #[trigger] sorted@[q]),
            decreases sorted@.len() - p,
        {
            p = p + 1;
        }
        let ghost before = sorted@;
        proof {
            assert forall|q: int| 0 <= q < before.len() implies before[q].0@ != e.0@ by {
                let k = choose|k: int| 0 <= k < i && #[trigger] before[q] == entries@[k];
                assert(entries@[k].0@ != entries@[i as int].0@);
            }
        }
        sorted.insert(p, e);
        proof {
            assert forall|a: int, b: int| 0 <= a < b < sorted@.len() implies ranks_before(
                #[trigger] sorted@[a],
                #[trigger] sorted@[b],
            ) by {
                if a < p && b == p {
                    lemma_ranks_total(before[a], e);
                } else if a < p && b > p {
                    lemma_ranks_total(before[a], e);
                    assert(ranks_before(before[a], before[b - 1]));
                } else if a == p && b > p {
                    assert(ranks_before(e, before[p as int]));
                    if b - 1 > p {
                        assert(ranks_before(before[p as int], before[b - 1]));
                        lemma_ranks_transitive(e, before[p as int], before[b - 1]);
                    }
                } else if a > p {
                    assert(ranks_before(before[a - 1], before[b - 1]));
                } else {
                    assert(ranks_before(before[a], before[b]));
                }
            }
            let t = sorted@;
            t.to_multiset_ensures();
            before.to_multiset_ensures();
            assert(t.remove(p as int) =~= before);
            assert(t.to_multiset().count(e) > 0) by {
                assert(t.contains(e));
            }
            assert(t.to_multiset() =~= before.to_multiset().insert(e));
            let taken = entries@.take(i as int);
            taken.to_multiset_ensures();
            assert(entries@.take(i + 1) =~= taken.push(e));
            assert forall|q: int| 0 <= q < t.len() implies exists|k: int|
                0 <= k < i + 1 && #[trigger] t[q] == entries@[k] by {
                if q < p {
                    assert(t[q] == before[q]);
                } else if q == p {
                    assert(t[q] == entries@[i as int]);
                } else {
                    assert(t[q] == before[q - 1]);
                }
            }
        }
        i = i + 1;
    }
    assert(entries@.take(entries@.len() as int) =~= entries@);
    sorted
}

/// The favourite guesses as the game lists them, with their counts.
pub fn favorite_words(counter: &GuessCounter) -> (list: Vec<(String, i32)>)
    requires
        counter.wf(),
    ensures
        counter.entries@.len() <= 5 ==> list@.len() == counter.entries@.len(),
        counter.entries@.len() > 5 ==> list@.len() >= 5,
        forall|k: int| 5 <= k < list@.len() ==> #[trigger] list@[k].1 < list@[4].1,
        exists|sorted: Seq<(String, i32)>|
            sorted.to_multiset() == counter.entries@.to_multiset() && strictly_ranked(sorted)
                && list@ == favorites_of(sorted),
{
    let sorted = rank_entries(&counter.entries);
    proof {
        counter.entries@.to_multiset_ensures();
        sorted@.to_multiset_ensures();
        lemma_favorites_shape(sorted@);
    }
    let n = sorted.len();
    if n <= 5 {
        return sorted;
    }
    let mut list: Vec<(String, i32)> = Vec::new();
    let mut i: usize = 0;
    while i < 5
        invariant
            0 <= i <= 5,
            n == sorted@.len(),
            n > 5,
            list@ == sorted@.take(i as int),
        decreases 5 - i,
    {
        list.push((sorted[i].0.clone(), sorted[i].1));
        assert(sorted@.take(i + 1) =~= sorted@.take(i as int).push(sorted@[i as int]));
        i = i + 1;
    }
    let cut = sorted[4].1;
    let ghost tail = sorted@.skip(5);
    let mut j: usize = 5;
    while j < n
        invariant
            5 <= j <= n,
            n == sorted@.len(),
            cut == sorted@[4].1,
            tail == sorted@.skip(5),
            list@ == sorted@.take(5) + fewer_than(tail.take(j - 5), cut),
        decreases n - j,
    {
        assert(tail.take(j + 1 - 5).drop_last() =~= tail.take(j - 5));
        assert(tail.take(j + 1 - 5).last() == sorted@[j as int]);
        if sorted[j].1 < cut {
            list.push((sorted[j].0.clone(), sorted[j].1));
        }
        j = j + 1;
    }
    assert(tail.take(n - 5) =~= tail);
    list
}

/// Two rankings of the same entries are the same list: the order in which
/// the favourites are listed is determined by the counts alone.
pub proof fn lemma_ranking_unique(a: Seq<(String, i32)>, b: Seq<(String, i32)>)
    requires
        strictly_ranked(a),
        strictly_ranked(b),
        a.to_multiset() == b.to_multiset(),
    ensures
        a == b,
    decreases a.len(),
{
    a.to_multiset_ensures();
    b.to_multiset_ensures();
    if a.len() == 0 {
        assert(b.len() == 0);
        assert(a =~= b);
    } else {
        assert(b.len() == a.len());
        assert(a.to_multiset().count(a[0]) > 0);
        assert(b.contains(a[0]));
        let j = choose|j: int| 0 <= j < b.len() && b[j] == a[0];
        assert(b.to_multiset().count(b[0]) > 0);
        assert(a.contains(b[0]));
        let i = choose|i: int| 0 <= i < a.len() && a[i] == b[0];
        if i > 0 && j > 0 {
            assert(ranks_before(a[0], a[i]));
            assert(ranks_before(b[0], b[j]));
            lemma_ranks_irreflexive(a[0], b[0]);
        } else if i > 0 {
            assert(b[0] == a[0]);
        }
        assert(a[0] == b[0]);
        let a1 = a.remove(0);
        let b1 = b.remove(0);
        assert(a1 =~= a.drop_first());
        assert(b1 =~= b.drop_first());
        assert(a1.to_multiset() == a.to_multiset().remove(a[0]));
        assert(b1.to_multiset() == b.to_multiset().remove(b[0]));
        assert forall|x: int, y: int| 0 <= x < y < a1.len() implies ranks_before(#[trigger] a1[x], #[trigger] a1[y]) by {
            assert(a1[x] == a[x + 1] && a1[y] == a[y + 1]);
        }
        assert forall|x: int, y: int| 0 <= x < y < b1.len() implies ranks_before(#[trigger] b1[x], #[trigger] b1[y]) by {
            assert(b1[x] == b[x + 1] && b1[y] == b[y + 1]);
        }
        lemma_ranking_unique(a1, b1);
        assert(a =~= b) by {
            assert forall|k: int| 0 <= k < a.len() implies a[k] == b[k] by {
                if k > 0 {
                    assert(a[k] == a1[k - 1]);
                    assert(b[k] == b1[k - 1]);
                }
            }
        }
    }
}

proof fn lemma_fewer_than_below(s: Seq<(String, i32)>, c: i32)
    ensures
        forall|k: int| 0 <= k < fewer_than(s, c).len() ==> #[trigger] fewer_than(s, c)[k].1 < c,
    decreases s.len(),
{
    if s.len() > 0 {
        lemma_fewer_than_below(s.drop_last(), c);
        let rest = fewer_than(s.drop_last(), c);
        assert forall|k: int| 0 <= k < fewer_than(s, c).len() implies #[trigger] fewer_than(s, c)[k].1 < c by {
            if k < rest.len() {
                assert(fewer_than(s, c)[k] == rest[k]);
            }
        }
    }
}

/// The favourite list shows the first five ranked entries (all of them when
/// there are no more), and after the fifth only entries guessed fewer times
/// than the fifth: no entry that ties the fifth comes after it.
pub proof fn lemma_favorites_shape(sorted: Seq<(String, i32)>)
    ensures
        sorted.len() <= 5 ==> favorites_of(sorted) == sorted,
        sorted.len() > 5 ==> favorites_of(sorted).len() >= 5 && favorites_of(sorted).take(5)
            == sorted.take(5),
        forall|k: int|
            5 <= k < favorites_of(sorted).len() ==> #[trigger] favorites_of(sorted)[k].1
                < favorites_of(sorted)[4].1,
{
    if sorted.len() > 5 {
        let c = sorted[4].1;
        let t = fewer_than(sorted.skip(5), c);
        lemma_fewer_than_below(sorted.skip(5), c);
        let f = favorites_of(sorted);
        assert(f.take(5) =~= sorted.take(5));
        assert(f[4] == sorted[4]);
        assert forall|k: int| 5 <= k < f.len() implies #[trigger] f[k].1 < f[4].1 by {
            assert(f[k] == t[k - 5]);
        }
    }
}

} // verus!
