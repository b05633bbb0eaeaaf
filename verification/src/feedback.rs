use vstd::prelude::*;
use crate::status::{rank, upgraded, Status};
use crate::word::{
    count_times, is_letter_seq, is_five_lower, letter_counts, letters, lemma_occ_bounds, occ, str2arr,
};

verus! {

/// Positions among the first `n` where the guess has letter `c` and the
/// answer has it too.
pub open spec fn greens(answer: Seq<usize>, guess: Seq<usize>, c: usize, n: int) -> nat
    decreases n,
{
    if n <= 0 {
        0
    } else {
        greens(answer, guess, c, n - 1) + if guess[n - 1] == c && answer[n - 1] == c {
            1nat
        } else {
            0nat
        }
    }
}

/// Positions among the first `n` where the guess has letter `c` and the
/// answer has another letter.
pub open spec fn misses(answer: Seq<usize>, guess: Seq<usize>, c: usize, n: int) -> nat
    decreases n,
{
    if n <= 0 {
        0
    } else {
        misses(answer, guess, c, n - 1) + if guess[n - 1] == c && answer[n - 1] != c {
            1nat
        } else {
            0nat
        }
    }
}

/// The colour of position `i` of the guess, counting the greens among the
/// first `n` positions. `budget[c]` is how many times `c` may be coloured:
/// a misplaced letter is yellow while the earlier misplaced copies and all
/// greens of it stay within the budget, and red after that.
pub open spec fn color(
    answer: Seq<usize>,
    guess: Seq<usize>,
    budget: Seq<i32>,
    n: int,
    i: int,
) -> Status {
    let c = guess[i];
    if c == answer[i] {
        Status::G
    } else if misses(answer, guess, c, i) < budget[c as int] - greens(answer, guess, c, n) {
        Status::Y
    } else {
        Status::R
    }
}

/// The colours of all five positions for a given budget.
pub open spec fn coloring(answer: Seq<usize>, guess: Seq<usize>, budget: Seq<i32>) -> Seq<Status> {
    Seq::new(5, |i: int| color(answer, guess, budget, 5, i))
}

/// The colours Wordle shows for `guess` when the answer is `answer`.
pub open spec fn feedback(answer: Seq<usize>, guess: Seq<usize>) -> Seq<Status> {
    coloring(answer, guess, letter_counts(answer))
}

/// The base-4 number of a colouring, position 0 the lowest digit:
/// G = 0, Y = 1, R = 2, X = 3.
pub open spec fn pattern_code(r: Seq<Status>, n: int) -> int
    decreases n,
{
    if n <= 0 {
        0
    } else {
        pattern_code(r, n - 1) + match r[n - 1] {
            Status::G => 0,
            Status::Y => pow4(n - 1),
            Status::R => 2 * pow4(n - 1),
            Status::X => 3 * pow4(n - 1),
        }
    }
}

pub open spec fn pow4(n: int) -> int
    decreases n,
{
    if n <= 0 {
        1
    } else {
        4 * pow4(n - 1)
    }
}

proof fn lemma_counts_bounded(answer: Seq<usize>, guess: Seq<usize>, c: usize, n: int)
    requires
        0 <= n,
    ensures
        greens(answer, guess, c, n) + misses(answer, guess, c, n) <= n,
    decreases n,
{
    if n > 0 {
        lemma_counts_bounded(answer, guess, c, n - 1);
    }
}

pub proof fn lemma_misses_monotone(answer: Seq<usize>, guess: Seq<usize>, c: usize, m: int, n: int)
    requires
        0 <= m <= n,
    ensures
        misses(answer, guess, c, m) <= misses(answer, guess, c, n),
    decreases n - m,
{
    if m < n {
        lemma_misses_monotone(answer, guess, c, m, n - 1);
    }
}

/// Colours a guess against an answer whose letters may be coloured
/// `ans_times[c]` times each.
pub fn evaluate(answer: &[usize; 5], guess: &[usize; 5], ans_times: &[i32; 26]) -> (result: Vec<
    Status,
>)
    requires
        is_letter_seq(answer@),
        is_letter_seq(guess@),
    ensures
        result@ == coloring(answer@, guess@, ans_times@),
{
    let ghost a = answer@;
    let ghost g = guess@;
    let ghost b = ans_times@;
    let mut result: Vec<Status> = vec![Status::X, Status::X, Status::X, Status::X, Status::X];
    let mut guess_times = [0i32; 26];
    let mut i: usize = 0;
    while i < 5
        invariant
            0 <= i <= 5,
            a == answer@,
            g == guess@,
            b == ans_times@,
            is_letter_seq(a),
            is_letter_seq(g),
            result@.len() == 5,
            guess_times@.len() == 26,
            forall|c: int|
                0 <= c < 26 ==> #[trigger] guess_times@[c] as int == greens(a, g, c as usize, i as int)
                    + misses(a, g, c as usize, i as int),
            forall|k: int| 0 <= k < i ==> #[trigger] result@[k] == color(a, g, b, i as int, k),
        decreases 5 - i,
    {
        let cha = guess[i];
        proof {
            lemma_counts_bounded(a, g, cha, i as int);
        }
        let t = guess_times[cha];
        guess_times[cha] = t + 1;
        if cha == answer[i] {
            result.set(i, Status::G);
            let mut cu = guess_times[cha];
            let ghost s: int = greens(a, g, cha, i + 1) as int + misses(a, g, cha, i as int);
            let ghost bc: int = b[cha as int] as int;
            let mut j: usize = i;
            while j > 0
                invariant
                    0 <= j <= i < 5,
                    a == answer@,
                    g == guess@,
                    b == ans_times@,
                    is_letter_seq(a),
                    is_letter_seq(g),
                    cha == g[i as int],
                    cha == a[i as int],
                    result@.len() == 5,
                    result@[i as int] == Status::G,
                    bc == b[cha as int],
                    s == greens(a, g, cha, i + 1) as int + misses(a, g, cha, i as int),
                    cu as int == if s <= bc {
                        s
                    } else if greens(a, g, cha, i + 1) + misses(a, g, cha, j as int) >= bc {
                        greens(a, g, cha, i + 1) as int + misses(a, g, cha, j as int)
                    } else {
                        bc
                    },
                    forall|k: int|
                        j <= k < i ==> #[trigger] result@[k] == color(a, g, b, i + 1, k),
                    forall|k: int| 0 <= k < j ==> #[trigger] result@[k] == color(a, g, b, i as int, k),
                decreases j,
            {
                j = j - 1;
                proof {
                    lemma_misses_monotone(a, g, cha, j + 1, i as int);
                }
                if guess[j] == cha {
                    if result[j] == Status::G {
                        continue ;
                    } else if cu > ans_times[cha] {
                        result.set(j, Status::R);
                        cu = cu - 1;
                    }
                }
            }
            assert forall|k: int| 0 <= k < i + 1 implies #[trigger] result@[k] == color(
                a,
                g,
                b,
                i + 1,
                k,
            ) by {}
        } else {
            if guess_times[cha] <= ans_times[cha] {
                result.set(i, Status::Y);
            } else {
                result.set(i, Status::R);
            }
            assert forall|k: int| 0 <= k < i + 1 implies #[trigger] result@[k] == color(
                a,
                g,
                b,
                i + 1,
                k,
            ) by {}
        }
        assert forall|c: int|
            0 <= c < 26 implies #[trigger] guess_times@[c] as int == greens(a, g, c as usize, i + 1)
            + misses(a, g, c as usize, i + 1) by {}
        i = i + 1;
    }
    assert(result@ =~= coloring(a, g, b));
    result
}

/// Positions among the first `n` where the guess has letter `c` and the
/// colouring shows it green or yellow.
pub open spec fn colored(r: Seq<Status>, guess: Seq<usize>, c: usize, n: int) -> nat
    decreases n,
{
    if n <= 0 {
        0
    } else {
        colored(r, guess, c, n - 1) + if guess[n - 1] == c && (r[n - 1] == Status::G || r[n
            - 1] == Status::Y) {
            1nat
        } else {
            0nat
        }
    }
}

pub proof fn lemma_occ_splits(answer: Seq<usize>, guess: Seq<usize>, c: usize, n: int)
    requires
        0 <= n,
    ensures
        occ(guess, c, n) == greens(answer, guess, c, n) + misses(answer, guess, c, n),
        occ(answer, c, n) >= greens(answer, guess, c, n),
    decreases n,
{
    if n > 0 {
        lemma_occ_splits(answer, guess, c, n - 1);
    }
}

proof fn lemma_colored_prefix(answer: Seq<usize>, guess: Seq<usize>, c: usize, n: int)
    requires
        0 <= n <= 5,
        is_letter_seq(answer),
        is_letter_seq(guess),
        c < 26,
        occ(answer, c, 5) >= greens(answer, guess, c, 5),
    ensures
        ({
            let k = occ(answer, c, 5) - greens(answer, guess, c, 5);
            let m = misses(answer, guess, c, n) as int;
            colored(feedback(answer, guess), guess, c, n) == greens(answer, guess, c, n) + if m
                < k {
                m
            } else {
                k
            }
        }),
    decreases n,
{
    if n > 0 {
        lemma_colored_prefix(answer, guess, c, n - 1);
        lemma_occ_bounds(answer, c, 5);
        let i = n - 1;
        if guess[i] == c && answer[i] != c {
            assert(letter_counts(answer)[c as int] == occ(answer, c, 5));
            assert(feedback(answer, guess)[i] == color(answer, guess, letter_counts(answer), 5, i));
        }
    }
}

/// A guess is all green exactly when it is the answer.
pub proof fn lemma_all_green_iff_answer(answer: Seq<usize>, guess: Seq<usize>)
    requires
        is_letter_seq(answer),
        is_letter_seq(guess),
    ensures
        (forall|i: int| 0 <= i < 5 ==> #[trigger] feedback(answer, guess)[i] == Status::G) <==> answer
            == guess,
{
    if forall|i: int| 0 <= i < 5 ==> #[trigger] feedback(answer, guess)[i] == Status::G {
        assert forall|i: int| 0 <= i < 5 implies answer[i] == guess[i] by {
            assert(feedback(answer, guess)[i] == Status::G);
        }
        assert(answer =~= guess);
    }
}

/// Every position of a colouring is green, yellow or red: nothing stays
/// unknown.
pub proof fn lemma_feedback_known(answer: Seq<usize>, guess: Seq<usize>, i: int)
    requires
        is_letter_seq(answer),
        is_letter_seq(guess),
        0 <= i < 5,
    ensures
        feedback(answer, guess)[i] != Status::X,
        feedback(answer, guess)[i] == Status::G <==> guess[i] == answer[i],
{
}

/// A letter is shown green or yellow as many times as it occurs in both the
/// guess and the answer.
pub proof fn lemma_colored_count(answer: Seq<usize>, guess: Seq<usize>, c: usize)
    requires
        is_letter_seq(answer),
        is_letter_seq(guess),
        c < 26,
    ensures
        colored(feedback(answer, guess), guess, c, 5) == if occ(guess, c, 5) < occ(answer, c, 5) {
            occ(guess, c, 5)
        } else {
            occ(answer, c, 5)
        },
{
    lemma_occ_splits(answer, guess, c, 5);
    lemma_colored_prefix(answer, guess, c, 5);
}

proof fn lemma_pow4_positive(n: int)
    ensures
        pow4(n) >= 1,
    decreases n,
{
    if n > 0 {
        lemma_pow4_positive(n - 1);
    }
}

proof fn lemma_code_bound(r: Seq<Status>, n: int)
    requires
        0 <= n,
    ensures
        0 <= pattern_code(r, n) < pow4(n),
    decreases n,
{
    if n > 0 {
        lemma_code_bound(r, n - 1);
        lemma_pow4_positive(n - 1);
    }
}

proof fn lemma_code_prefix_injective(r: Seq<Status>, t: Seq<Status>, n: int)
    requires
        0 <= n,
        pattern_code(r, n) == pattern_code(t, n),
    ensures
        forall|k: int| 0 <= k < n ==> r[k] == t[k],
    decreases n,
{
    if n > 0 {
        lemma_code_bound(r, n - 1);
        lemma_code_bound(t, n - 1);
        lemma_pow4_positive(n - 1);
        assert(r[n - 1] == t[n - 1]);
        lemma_code_prefix_injective(r, t, n - 1);
    }
}

/// Each of the 4^5 colourings of five positions has its own number below
/// 1024, so counting numbers counts colourings.
pub proof fn lemma_pattern_code_injective(r: Seq<Status>, t: Seq<Status>)
    requires
        r.len() == 5,
        t.len() == 5,
    ensures
        0 <= pattern_code(r, 5) < 1024,
        pattern_code(r, 5) == pattern_code(t, 5) <==> r == t,
{
    lemma_code_bound(r, 5);
    reveal_with_fuel(pow4, 6);
    if pattern_code(r, 5) == pattern_code(t, 5) {
        lemma_code_prefix_injective(r, t, 5);
        assert(r =~= t);
    }
}

/// The number of the colouring that `s` gets as a guess against `answer`,
/// whose letters may be coloured `ans_times[c]` times each.
pub fn get_index(answer: &[usize; 5], s: &String, ans_times: &[i32; 26]) -> (index: usize)
    requires
        is_letter_seq(answer@),
        is_five_lower(s@),
    ensures
        index == pattern_code(coloring(answer@, letters(s@), ans_times@), 5),
        index < 1024,
{
    let guess = str2arr(s);
    let result = evaluate(answer, &guess, ans_times);
    let mut index: usize = 0;
    let mut p: usize = 1;
    let mut i: usize = 0;
    while i < 5
        invariant
            0 <= i <= 5,
            result@.len() == 5,
            index == pattern_code(result@, i as int),
            p == pow4(i as int),
            index < p,
            i < 5 ==> p <= 256,
            i == 5 ==> p == 1024,
        decreases 5 - i,
    {
        proof {
            reveal_with_fuel(pow4, 6);
            lemma_code_bound(result@, i + 1);
        }
        match result[i] {
            Status::G => {},
            Status::Y => index = index + p,
            Status::R => index = index + 2 * p,
            Status::X => index = index + 3 * p,
        }
        p = p * 4;
        i = i + 1;
    }
    proof {
        reveal_with_fuel(pow4, 6);
    }
    index
}

/// How many of the first `n` words, taken as the answer, colour `guess`
/// with colouring number `p`.
pub open spec fn histogram_count(guess: Seq<usize>, words: Seq<String>, p: int, n: int) -> nat
    decreases n,
{
    if n <= 0 {
        0
    } else {
        histogram_count(guess, words, p, n - 1) + if pattern_code(
            feedback(letters(words[n - 1]@), guess),
            5,
        ) == p {
            1nat
        } else {
            0nat
        }
    }
}

proof fn lemma_histogram_bound(guess: Seq<usize>, words: Seq<String>, p: int, n: int)
    requires
        0 <= n,
    ensures
        histogram_count(guess, words, p, n) <= n,
    decreases n,
{
    if n > 0 {
        lemma_histogram_bound(guess, words, p, n - 1);
    }
}

/// For each colouring number, how many words of `pos`, each taken as the
/// answer, colour the guess `w` that way: the distribution from which the
/// information a guess gives is computed.
pub fn pattern_histogram(w: &String, pos: &Vec<String>) -> (all_times: [i32; 1024])
    requires
        is_five_lower(w@),
        forall|k: int| 0 <= k < pos.len() ==> is_five_lower(#[trigger] pos@[k]@),
        pos.len() <= i32::MAX,
    ensures
        forall|p: int|
            0 <= p < 1024 ==> #[trigger] all_times@[p] as int == histogram_count(
                letters(w@),
                pos@,
                p,
                pos.len() as int,
            ),
{
    let mut all_times = [0i32; 1024];
    let mut k: usize = 0;
    while k < pos.len()
        invariant
            0 <= k <= pos.len() <= i32::MAX,
            is_five_lower(w@),
            forall|q: int| 0 <= q < pos.len() ==> is_five_lower(#[trigger] pos@[q]@),
            all_times@.len() == 1024,
            forall|p: int|
                0 <= p < 1024 ==> #[trigger] all_times@[p] as int == histogram_count(
                    letters(w@),
                    pos@,
                    p,
                    k as int,
                ),
        decreases pos.len() - k,
    {
        let answer = str2arr(&pos[k]);
        let ans_times = count_times(&answer);
        let index = get_index(&answer, w, &ans_times);
        proof {
            lemma_histogram_bound(letters(w@), pos@, index as int, k as int);
        }
        let v = all_times[index];
        all_times[index] = v + 1;
        k = k + 1;
    }
    all_times
}

/// The colour key `c` shows after the first `n` positions of a coloured
/// guess have been reported.
pub open spec fn key_after(
    old: Status,
    c: usize,
    guess: Seq<usize>,
    result: Seq<Status>,
    n: int,
) -> Status
    decreases n,
{
    if n <= 0 {
        old
    } else {
        let prev = key_after(old, c, guess, result, n - 1);
        if guess[n - 1] == c {
            upgraded(prev, result[n - 1])
        } else {
            prev
        }
    }
}

/// The keyboard after a coloured guess has been reported on it.
pub open spec fn keyboard_after(kb: Seq<Status>, guess: Seq<usize>, result: Seq<Status>) -> Seq<
    Status,
> {
    Seq::new(kb.len(), |c: int| key_after(kb[c], c as usize, guess, result, 5))
}

/// Reports each coloured letter of a guess on the keyboard.
pub fn update_keyboard(status: &mut Vec<Status>, guess: &[usize; 5], result: &Vec<Status>)
    requires
        old(status)@.len() == 26,
        result@.len() == 5,
        is_letter_seq(guess@),
    ensures
        final(status)@ == keyboard_after(old(status)@, guess@, result@),
{
    let ghost kb = status@;
    let mut i: usize = 0;
    while i < 5
        invariant
            0 <= i <= 5,
            result@.len() == 5,
            is_letter_seq(guess@),
            kb.len() == 26,
            status@.len() == 26,
            forall|c: int|
                0 <= c < 26 ==> #[trigger] status@[c] == key_after(
                    kb[c],
                    c as usize,
                    guess@,
                    result@,
                    i as int,
                ),
        decreases 5 - i,
    {
        let g = guess[i];
        let mut key = status[g];
        key.update(result[i]);
        status.set(g, key);
        i = i + 1;
    }
    assert(status@ =~= keyboard_after(kb, guess@, result@));
}

proof fn lemma_key_after_monotone(
    old: Status,
    c: usize,
    guess: Seq<usize>,
    result: Seq<Status>,
    n: int,
)
    ensures
        rank(key_after(old, c, guess, result, n)) >= rank(old),
        (forall|k: int| 0 <= k < n ==> #[trigger] guess[k] != c) ==> key_after(old, c, guess, result, n) == old,
    decreases n,
{
    if n > 0 {
        lemma_key_after_monotone(old, c, guess, result, n - 1);
    }
}

/// Reporting a guess never makes a key tell less, and leaves the keys of
/// letters the guess does not use as they were.
pub proof fn lemma_keyboard_monotone(kb: Seq<Status>, guess: Seq<usize>, result: Seq<Status>, c: int)
    requires
        0 <= c < kb.len(),
    ensures
        rank(keyboard_after(kb, guess, result)[c]) >= rank(kb[c]),
        (forall|k: int| 0 <= k < 5 ==> #[trigger] guess[k] != c as usize) ==> keyboard_after(kb, guess, result)[c] == kb[c],
{
    lemma_key_after_monotone(kb[c], c as usize, guess, result, 5);
}

/// After a guess that is all green, the keys of its letters are green.
pub proof fn lemma_keyboard_shows_win(kb: Seq<Status>, guess: Seq<usize>, k: int)
    requires
        kb.len() == 26,
        is_letter_seq(guess),
        0 <= k < 5,
    ensures
        keyboard_after(kb, guess, feedback(guess, guess))[guess[k] as int] == Status::G,
{
    let c = guess[k];
    let r = feedback(guess, guess);
    assert forall|n: int| k < n <= 5 implies #[trigger] key_after(kb[c as int], c, guess, r, n) == Status::G by {
        lemma_key_stays_green(kb[c as int], c, guess, r, k + 1, n);
    }
}

proof fn lemma_key_stays_green(old: Status, c: usize, guess: Seq<usize>, result: Seq<Status>, m: int, n: int)
    requires
        0 < m <= n,
        guess[m - 1] == c,
        result[m - 1] == Status::G,
    ensures
        key_after(old, c, guess, result, n) == Status::G,
    decreases n - m,
{
    if m < n {
        lemma_key_stays_green(old, c, guess, result, m, n - 1);
    }
}

/// The colour a base-4 digit stands for: 0 = G, 1 = Y, 2 = R, 3 = X.
pub open spec fn digit_status(d: int) -> Status {
    if d == 0 {
        Status::G
    } else if d == 1 {
        Status::Y
    } else if d == 2 {
        Status::R
    } else {
        Status::X
    }
}

/// The digit a colour is written with.
pub open spec fn status_digit(s: Status) -> int {
    match s {
        Status::G => 0,
        Status::Y => 1,
        Status::R => 2,
        Status::X => 3,
    }
}

/// The colouring a number below 1024 writes, digit `i` for position `i`.
pub open spec fn decode_pattern(code: int) -> Seq<Status> {
    Seq::new(5, |i: int| digit_status((code / pow4(i)) % 4))
}

proof fn lemma_digits(d0: int, d1: int, d2: int, d3: int, d4: int)
    by (nonlinear_arith)
    requires
        0 <= d0 < 4,
        0 <= d1 < 4,
        0 <= d2 < 4,
        0 <= d3 < 4,
        0 <= d4 < 4,
    ensures
        ({
            let c = d0 + 4 * d1 + 16 * d2 + 64 * d3 + 256 * d4;
            &&& c % 4 == d0
            &&& (c / 4) % 4 == d1
            &&& (c / 16) % 4 == d2
            &&& (c / 64) % 4 == d3
            &&& (c / 256) % 4 == d4
        }),
{
}

/// Reading the digits of a colouring's number gives the colouring back.
pub proof fn lemma_pattern_decodes(r: Seq<Status>)
    requires
        r.len() == 5,
    ensures
        decode_pattern(pattern_code(r, 5)) == r,
{
    reveal_with_fuel(pow4, 6);
    reveal_with_fuel(pattern_code, 6);
    let d = |i: int| status_digit(r[i]);
    assert(pattern_code(r, 5) == d(0) + 4 * d(1) + 16 * d(2) + 64 * d(3) + 256 * d(4));
    lemma_digits(d(0), d(1), d(2), d(3), d(4));
    assert(decode_pattern(pattern_code(r, 5)) =~= r);
}

} // verus!
