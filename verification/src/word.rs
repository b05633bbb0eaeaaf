use vstd::prelude::*;
use vstd::string::StrSliceExecFns;

verus! {

/// A lowercase ASCII letter.
pub open spec fn is_lower(c: char) -> bool {
    'a' <= c && c <= 'z'
}

/// A word the game accepts as a shape: five lowercase ASCII letters.
pub open spec fn is_five_lower(s: Seq<char>) -> bool {
    s.len() == 5 && forall|i: int| 0 <= i < 5 ==> is_lower(#[trigger] s[i])
}

/// The position of a lowercase letter in the alphabet, `a` being 0.
pub open spec fn letter_index(c: char) -> int {
    c as int - 'a' as int
}

/// The letters of a word as alphabet positions.
pub open spec fn letters(s: Seq<char>) -> Seq<usize> {
    Seq::new(s.len(), |i: int| letter_index(s[i]) as usize)
}

/// Five alphabet positions.
pub open spec fn is_letter_seq(w: Seq<usize>) -> bool {
    w.len() == 5 && forall|i: int| 0 <= i < 5 ==> #[trigger] w[i] < 26
}

/// How many of the first `n` entries of `w` are `c`.
pub open spec fn occ(w: Seq<usize>, c: usize, n: int) -> nat
    decreases n,
{
    if n <= 0 {
        0
    } else {
        occ(w, c, n - 1) + if w[n - 1] == c {
            1nat
        } else {
            0nat
        }
    }
}

/// How many times each letter occurs in a word of five letters.
pub open spec fn letter_counts(w: Seq<usize>) -> Seq<i32> {
    Seq::new(26, |c: int| occ(w, c as usize, 5) as i32)
}

pub proof fn lemma_occ_bounds(w: Seq<usize>, c: usize, n: int)
    requires
        0 <= n,
    ensures
        occ(w, c, n) <= n,
    decreases n,
{
    if n > 0 {
        lemma_occ_bounds(w, c, n - 1);
    }
}

/// The alphabet position of a lowercase letter.
pub fn cha2num(cha: char) -> (num: usize)
    requires
        is_lower(cha),
    ensures
        num as int == letter_index(cha),
        num < 26,
{
    (cha as u32 - 'a' as u32) as usize
}

/// The letters of a five-letter lowercase word as alphabet positions.
pub fn str2arr(str: &String) -> (arr: [usize; 5])
    requires
        is_five_lower(str@),
    ensures
        arr@ == letters(str@),
        is_letter_seq(arr@),
{
    let s = str.as_str();
    let mut arr = [0usize; 5];
    let mut i: usize = 0;
    while i < 5
        invariant
            0 <= i <= 5,
            s@ == str@,
            is_five_lower(str@),
            forall|k: int| 0 <= k < i ==> arr@[k] as int == letter_index(str@[k]),
        decreases 5 - i,
    {
        let ch = s.get_char(i);
        arr[i] = cha2num(ch);
        i = i + 1;
    }
    assert(arr@ =~= letters(str@));
    arr
}

/// How many times each letter occurs in a five-letter word.
pub fn count_times(arr: &[usize; 5]) -> (res: [i32; 26])
    requires
        is_letter_seq(arr@),
    ensures
        res@ == letter_counts(arr@),
{
    let mut res = [0i32; 26];
    let mut i: usize = 0;
    while i < 5
        invariant
            0 <= i <= 5,
            is_letter_seq(arr@),
            res@.len() == 26,
            forall|c: int| 0 <= c < 26 ==> res@[c] as int == occ(arr@, c as usize, i as int),
        decreases 5 - i,
    {
        let a = arr[i];
        proof {
            lemma_occ_bounds(arr@, a, i as int);
        }
        let v = res[a];
        res[a] = v + 1;
        i = i + 1;
    }
    assert(res@ =~= letter_counts(arr@)) by {
        assert forall|c: int| 0 <= c < 26 implies res@[c] == letter_counts(arr@)[c] by {
            lemma_occ_bounds(arr@, c as usize, 5);
        }
    }
    res
}

/// The letters of a five-letter lowercase word are alphabet positions.
pub proof fn lemma_letters_in_range(w: Seq<char>)
    requires
        is_five_lower(w),
    ensures
        is_letter_seq(letters(w)),
{
    assert forall|i: int| 0 <= i < 5 implies #[trigger] letters(w)[i] < 26 by {
        assert(is_lower(w[i]));
    }
}

} // verus!
