use vstd::prelude::*;

verus! {

/// How many times `w` was guessed, by the last entry that names it.
pub open spec fn tally(entries: Seq<(String, i32)>, w: Seq<char>) -> int
    decreases entries.len(),
{
    if entries.len() == 0 {
        0
    } else if entries.last().0@ == w {
        entries.last().1 as int
    } else {
        tally(entries.drop_last(), w)
    }
}

/// No word has two entries, and every entry was guessed at least once.
pub open spec fn distinct_entries(entries: Seq<(String, i32)>) -> bool {
    &&& forall|i: int, j: int|
        0 <= i < j < entries.len() ==> #[trigger] entries[i].0@ != #[trigger] entries[j].0@
    &&& forall|i: int| 0 <= i < entries.len() ==> #[trigger] entries[i].1 >= 1
}

/// How often each word has been guessed.
pub struct GuessCounter {
    pub entries: Vec<(String, i32)>,
}

proof fn lemma_tally_at(entries: Seq<(String, i32)>, k: int)
    requires
        distinct_entries(entries),
        0 <= k < entries.len(),
    ensures
        tally(entries, entries[k].0@) == entries[k].1,
    decreases entries.len(),
{
    if k < entries.len() - 1 {
        lemma_tally_at(entries.drop_last(), k);
    }
}

proof fn lemma_tally_absent(entries: Seq<(String, i32)>, w: Seq<char>)
    requires
        forall|i: int| 0 <= i < entries.len() ==> #[trigger] entries[i].0@ != w,
    ensures
        tally(entries, w) == 0,
    decreases entries.len(),
{
    if entries.len() > 0 {
        lemma_tally_absent(entries.drop_last(), w);
    }
}

proof fn lemma_tally_update_other(entries: Seq<(String, i32)>, k: int, v: i32, x: Seq<char>)
    requires
        0 <= k < entries.len(),
        entries[k].0@ != x,
    ensures
        tally(entries.update(k, (entries[k].0, v)), x) == tally(entries, x),
    decreases entries.len(),
{
    let u = entries.update(k, (entries[k].0, v));
    if k < entries.len() - 1 {
        assert(u.drop_last() =~= entries.drop_last().update(k, (entries[k].0, v)));
        lemma_tally_update_other(entries.drop_last(), k, v, x);
    } else {
        assert(u.drop_last() =~= entries.drop_last());
    }
}

proof fn lemma_tally_update_same(entries: Seq<(String, i32)>, k: int, v: i32)
    requires
        distinct_entries(entries),
        0 <= k < entries.len(),
        v >= 1,
    ensures
        distinct_entries(entries.update(k, (entries[k].0, v))),
        tally(entries.update(k, (entries[k].0, v)), entries[k].0@) == v,
{
    let u = entries.update(k, (entries[k].0, v));
    assert forall|i: int, j: int| 0 <= i < j < u.len() implies #[trigger] u[i].0@ != #[trigger] u[j].0@ by {
        assert(u[i].0 == entries[i].0);
        assert(u[j].0 == entries[j].0);
    }
    lemma_tally_at(u, k);
}

impl GuessCounter {
    /// What the counter says of each word.
    pub open spec fn count_of(&self, w: Seq<char>) -> int {
        tally(self.entries@, w)
    }

    pub open spec fn wf(&self) -> bool {
        distinct_entries(self.entries@)
    }

    /// A counter of no guesses.
    pub fn new() -> (c: GuessCounter)
        ensures
            c.wf(),
            forall|w: Seq<char>| #[trigger] c.count_of(w) == 0,
    {
        GuessCounter { entries: Vec::new() }
    }

    /// Counts one more guess of `guess_str`.
    pub fn update_guess_arr(&mut self, guess_str: &String)
        requires
            old(self).wf(),
            old(self).count_of(guess_str@) < i32::MAX,
        ensures
            final(self).wf(),
            final(self).count_of(guess_str@) == old(self).count_of(guess_str@) + 1,
            forall|x: Seq<char>|
                x != guess_str@ ==> #[trigger] final(self).count_of(x) == old(self).count_of(x),
    {
        let ghost orig = self.entries@;
        let mut k: usize = 0;
        while k < self.entries.len()
            invariant
                0 <= k <= self.entries@.len(),
                self.entries@ == orig,
                orig == old(self).entries@,
                self.wf(),
                self.count_of(guess_str@) < i32::MAX,
                forall|j: int| 0 <= j < k ==> #[trigger] self.entries@[j].0@ != guess_str@,
            decreases self.entries@.len() - k,
        {
            if self.entries[k].0 == *guess_str {
                let ghost old_entries = self.entries@;
                proof {
                    lemma_tally_at(old_entries, k as int);
                }
                let key = self.entries[k].0.clone();
                let v = self.entries[k].1;
                let nv: i32 = v + 1;
                self.entries.set(k, (key, nv));
                proof {
                    assert(self.entries@ =~= old_entries.update(k as int, (old_entries[k as int].0, nv)));
                    lemma_tally_update_same(old_entries, k as int, nv);
                    assert forall|x: Seq<char>| x != guess_str@ implies #[trigger] tally(self.entries@, x) == tally(old_entries, x) by {
                        lemma_tally_update_other(old_entries, k as int, nv, x);
                    }
                }
                return ;
            }
            k = k + 1;
        }
        proof {
            lemma_tally_absent(self.entries@, guess_str@);
        }
        let ghost old_entries = self.entries@;
        self.entries.push((guess_str.clone(), 1));
        proof {
            assert(self.entries@.drop_last() =~= old_entries);
            assert forall|i: int, j: int| 0 <= i < j < self.entries@.len() implies #[trigger] self.entries@[i].0@ != #[trigger] self.entries@[j].0@ by {
                if j == self.entries@.len() - 1 {
                    assert(old_entries[i].0@ != guess_str@);
                }
            }
        }
    }
}

} // verus!
