use vstd::prelude::*;
use crate::feedback::{
    coloring, decode_pattern, lemma_pattern_decodes, pattern_code,
    color, colored, feedback, lemma_colored_count, lemma_misses_monotone,
};
use crate::status::Status;
use crate::word::{count_times, is_letter_seq, is_five_lower, letter_counts, letters, occ, str2arr};

verus! {

/// Positions among the first `n` where the shown word has letter `c` and the
/// colouring shows `s` there.
pub open spec fn marked(shown: Seq<usize>, r: Seq<Status>, c: usize, s: Status, n: int) -> nat
    decreases n,
{
    if n <= 0 {
        0
    } else {
        marked(shown, r, c, s, n - 1) + if shown[n - 1] == c && r[n - 1] == s {
            1nat
        } else {
            0nat
        }
    }
}

/// Hard mode: a new guess keeps every green letter of the last guess in
/// place and holds each letter at least as often as the last colouring
/// showed it green or yellow.
pub open spec fn hard_mode_ok(last: Seq<usize>, guess: Seq<usize>, result: Seq<Status>) -> bool {
    &&& forall|i: int| 0 <= i < 5 && result[i] == Status::G ==> #[trigger] guess[i] == last[i]
    &&& forall|c: int| 0 <= c < 26 ==> #[trigger] colored(result, last, c as usize, 5) <= occ(guess, c as usize, 5)
}

/// A word is still possible after `guess` was coloured `result`: greens in
/// place, yellows not in place, every green or yellow letter at least as
/// often as shown, and a letter that was also shown red exactly as often as
/// it was shown green or yellow.
pub open spec fn possible(word: Seq<usize>, guess: Seq<usize>, result: Seq<Status>) -> bool {
    &&& forall|i: int| 0 <= i < 5 && result[i] == Status::G ==> #[trigger] word[i] == guess[i]
    &&& forall|i: int| 0 <= i < 5 && result[i] == Status::Y ==> #[trigger] word[i] != guess[i]
    &&& forall|c: int| 0 <= c < 26 ==> #[trigger] colored(result, guess, c as usize, 5) <= occ(word, c as usize, 5)
    &&& forall|i: int|
        0 <= i < 5 && result[i] == Status::R ==> #[trigger] occ(word, guess[i], 5) == colored(
            result,
            guess,
            guess[i],
            5,
        )
}

/// The words of `words`, in order, that are still possible.
pub open spec fn filter_possible(words: Seq<String>, guess: Seq<usize>, result: Seq<Status>) -> Seq<
    String,
>
    decreases words.len(),
{
    if words.len() == 0 {
        Seq::empty()
    } else {
        let rest = filter_possible(words.drop_last(), guess, result);
        if possible(letters(words.last()@), guess, result) {
            rest.push(words.last())
        } else {
            rest
        }
    }
}

proof fn lemma_colored_splits(shown: Seq<usize>, r: Seq<Status>, c: usize, n: int)
    requires
        0 <= n,
    ensures
        colored(r, shown, c, n) == marked(shown, r, c, Status::G, n) + marked(
            shown,
            r,
            c,
            Status::Y,
            n,
        ),
    decreases n,
{
    if n > 0 {
        lemma_colored_splits(shown, r, c, n - 1);
    }
}

proof fn lemma_marked_monotone(shown: Seq<usize>, r: Seq<Status>, c: usize, s: Status, m: int, n: int)
    requires
        0 <= m <= n,
    ensures
        marked(shown, r, c, s, m) <= marked(shown, r, c, s, n),
    decreases n - m,
{
    if m < n {
        lemma_marked_monotone(shown, r, c, s, m, n - 1);
    }
}

/// Greens that sit where the other word has the same letter are no more
/// than that letter's occurrences there.
proof fn lemma_greens_within(shown: Seq<usize>, other: Seq<usize>, r: Seq<Status>, c: usize, n: int)
    requires
        0 <= n <= 5,
        shown.len() == 5,
        other.len() == 5,
        forall|k: int| 0 <= k < n && r[k] == Status::G ==> #[trigger] other[k] == shown[k],
    ensures
        marked(shown, r, c, Status::G, n) <= occ(other, c, n),
    decreases n,
{
    if n > 0 {
        lemma_greens_within(shown, other, r, c, n - 1);
    }
}

proof fn lemma_occ_monotone(w: Seq<usize>, c: usize, m: int, n: int)
    requires
        0 <= m <= n,
    ensures
        occ(w, c, m) <= occ(w, c, n),
    decreases n - m,
{
    if m < n {
        lemma_occ_monotone(w, c, m, n - 1);
    }
}

/// Whether `guess` obeys hard mode after `last_guess` was coloured `result`.
pub fn difficult_valid(last_guess: &[usize; 5], guess: &[usize; 5], result: &Vec<Status>) -> (ok:
    bool)
    requires
        is_letter_seq(last_guess@),
        is_letter_seq(guess@),
        result@.len() >= 5,
    ensures
        ok == hard_mode_ok(last_guess@, guess@, result@),
        ok ==> forall|i: int|
            0 <= i < 5 && result@[i] == Status::G ==> #[trigger] guess@[i] == last_guess@[i],
        ok ==> forall|c: int|
            0 <= c < 26 ==> #[trigger] colored(result@, last_guess@, c as usize, 5) <= occ(
                guess@,
                c as usize,
                5,
            ),
        (forall|i: int|
            0 <= i < 5 && result@[i] == Status::G ==> #[trigger] guess@[i] == last_guess@[i])
            && (forall|c: int|
            0 <= c < 26 ==> #[trigger] colored(result@, last_guess@, c as usize, 5) <= occ(
                guess@,
                c as usize,
                5,
            )) ==> ok,
{
    let ghost l = last_guess@;
    let ghost g = guess@;
    let ghost r = result@;
    let mut guess_times = count_times(guess);
    assert forall|c: int| 0 <= c < 26 implies #[trigger] guess_times@[c] as int == occ(
        g,
        c as usize,
        5,
    ) by {
        crate::word::lemma_occ_bounds(g, c as usize, 5);
    }
    let mut i: usize = 0;
    while i < 5
        invariant
            0 <= i <= 5,
            l == last_guess@,
            g == guess@,
            r == result@,
            r.len() >= 5,
            is_letter_seq(l),
            is_letter_seq(g),
            guess_times@.len() == 26,
            forall|k: int| 0 <= k < i && r[k] == Status::G ==> #[trigger] g[k] == l[k],
            forall|c: int|
                0 <= c < 26 ==> #[trigger] guess_times@[c] as int == occ(g, c as usize, 5) - marked(
                    l,
                    r,
                    c as usize,
                    Status::G,
                    i as int,
                ),
        decreases 5 - i,
    {
        if result[i] == Status::G {
            if guess[i] != last_guess[i] {
                return false;
            }
            let c = last_guess[i];
            proof {
                lemma_greens_within(l, g, r, c, i as int);
                lemma_occ_monotone(g, c, i as int, 5);
                crate::word::lemma_occ_bounds(g, c, 5);
            }
            let v = guess_times[c];
            guess_times[c] = v - 1;
        }
        i = i + 1;
    }
    assert forall|c: int| 0 <= c < 26 implies #[trigger] guess_times@[c] >= 0 by {
        lemma_greens_within(l, g, r, c as usize, 5);
    }
    let mut i: usize = 0;
    while i < 5
        invariant
            0 <= i <= 5,
            l == last_guess@,
            g == guess@,
            r == result@,
            r.len() >= 5,
            is_letter_seq(l),
            is_letter_seq(g),
            guess_times@.len() == 26,
            forall|k: int| 0 <= k < 5 && r[k] == Status::G ==> #[trigger] g[k] == l[k],
            forall|c: int|
                0 <= c < 26 ==> #[trigger] guess_times@[c] as int == occ(g, c as usize, 5) - marked(
                    l,
                    r,
                    c as usize,
                    Status::G,
                    5,
                ) - marked(l, r, c as usize, Status::Y, i as int),
            forall|c: int| 0 <= c < 26 ==> #[trigger] guess_times@[c] >= 0,
        decreases 5 - i,
    {
        if result[i] == Status::Y {
            let c = last_guess[i];
            if guess_times[c] == 0 {
                proof {
                    lemma_marked_monotone(l, r, c, Status::Y, i + 1, 5);
                    lemma_colored_splits(l, r, c, 5);
                    assert(colored(r, l, c, 5) > occ(g, c, 5));
                }
                return false;
            }
            let v = guess_times[c];
            guess_times[c] = v - 1;
        }
        i = i + 1;
    }
    assert forall|c: int| 0 <= c < 26 implies #[trigger] colored(r, l, c as usize, 5) <= occ(
        g,
        c as usize,
        5,
    ) by {
        assert(guess_times@[c] >= 0);
        lemma_colored_splits(l, r, c as usize, 5);
    }
    true
}

/// Whether the five-letter word `w` is still possible after `guess` was
/// coloured `result`.
pub fn is_pos_word(w: &String, guess: &[usize; 5], result: &Vec<Status>) -> (ok: bool)
    requires
        is_five_lower(w@),
        is_letter_seq(guess@),
        result@.len() >= 5,
    ensures
        ok == possible(letters(w@), guess@, result@),
        ok ==> forall|i: int|
            0 <= i < 5 && result@[i] == Status::G ==> #[trigger] letters(w@)[i] == guess@[i],
        ok ==> forall|i: int|
            0 <= i < 5 && result@[i] == Status::Y ==> #[trigger] letters(w@)[i] != guess@[i],
        ok ==> forall|c: int|
            0 <= c < 26 ==> #[trigger] colored(result@, guess@, c as usize, 5) <= occ(
                letters(w@),
                c as usize,
                5,
            ),
        ok ==> forall|i: int|
            0 <= i < 5 && result@[i] == Status::R ==> #[trigger] occ(letters(w@), guess@[i], 5)
                == colored(result@, guess@, guess@[i], 5),
        (forall|i: int|
            0 <= i < 5 && result@[i] == Status::G ==> #[trigger] letters(w@)[i] == guess@[i])
            && (forall|i: int|
            0 <= i < 5 && result@[i] == Status::Y ==> #[trigger] letters(w@)[i] != guess@[i])
            && (forall|c: int|
            0 <= c < 26 ==> #[trigger] colored(result@, guess@, c as usize, 5) <= occ(
                letters(w@),
                c as usize,
                5,
            )) && (forall|i: int|
            0 <= i < 5 && result@[i] == Status::R ==> #[trigger] occ(letters(w@), guess@[i], 5)
                == colored(result@, guess@, guess@[i], 5)) ==> ok,
{
    let word = str2arr(w);
    let ghost wd = word@;
    let ghost g = guess@;
    let ghost r = result@;
    let mut word_times = count_times(&word);
    assert forall|c: int| 0 <= c < 26 implies #[trigger] word_times@[c] as int == occ(
        wd,
        c as usize,
        5,
    ) by {
        crate::word::lemma_occ_bounds(wd, c as usize, 5);
    }
    let mut i: usize = 0;
    while i < 5
        invariant
            0 <= i <= 5,
            wd == word@,
            wd == letters(w@),
            g == guess@,
            r == result@,
            r.len() >= 5,
            is_letter_seq(wd),
            is_letter_seq(g),
            word_times@.len() == 26,
            forall|k: int| 0 <= k < i && r[k] == Status::G ==> #[trigger] wd[k] == g[k],
            forall|c: int|
                0 <= c < 26 ==> #[trigger] word_times@[c] as int == occ(wd, c as usize, 5) - marked(
                    g,
                    r,
                    c as usize,
                    Status::G,
                    i as int,
                ),
        decreases 5 - i,
    {
        if result[i] == Status::G {
            if word[i] != guess[i] {
                return false;
            }
            let c = guess[i];
            proof {
                lemma_greens_within(g, wd, r, c, i as int);
                lemma_occ_monotone(wd, c, i as int, 5);
                crate::word::lemma_occ_bounds(wd, c, 5);
            }
            let v = word_times[c];
            word_times[c] = v - 1;
        }
        i = i + 1;
    }
    assert forall|c: int| 0 <= c < 26 implies #[trigger] word_times@[c] >= 0 by {
        lemma_greens_within(g, wd, r, c as usize, 5);
    }
    let mut i: usize = 0;
    while i < 5
        invariant
            0 <= i <= 5,
            wd == word@,
            wd == letters(w@),
            g == guess@,
            r == result@,
            r.len() >= 5,
            is_letter_seq(wd),
            is_letter_seq(g),
            word_times@.len() == 26,
            forall|k: int| 0 <= k < 5 && r[k] == Status::G ==> #[trigger] wd[k] == g[k],
            forall|k: int| 0 <= k < i && r[k] == Status::Y ==> #[trigger] wd[k] != g[k],
            forall|c: int|
                0 <= c < 26 ==> #[trigger] word_times@[c] as int == occ(wd, c as usize, 5) - marked(
                    g,
                    r,
                    c as usize,
                    Status::G,
                    5,
                ) - marked(g, r, c as usize, Status::Y, i as int),
            forall|c: int| 0 <= c < 26 ==> #[trigger] word_times@[c] >= 0,
        decreases 5 - i,
    {
        if result[i] == Status::Y {
            let c = guess[i];
            if word_times[c] == 0 {
                proof {
                    lemma_marked_monotone(g, r, c, Status::Y, i + 1, 5);
                    lemma_colored_splits(g, r, c, 5);
                    assert(colored(r, g, c, 5) > occ(wd, c, 5));
                }
                return false;
            }
            if word[i] == guess[i] {
                return false;
            }
            let v = word_times[c];
            word_times[c] = v - 1;
        }
        i = i + 1;
    }
    assert forall|c: int| 0 <= c < 26 implies #[trigger] colored(r, g, c as usize, 5) <= occ(
        wd,
        c as usize,
        5,
    ) by {
        assert(word_times@[c] >= 0);
        lemma_colored_splits(g, r, c as usize, 5);
    }
    assert forall|c: int| 0 <= c < 26 implies #[trigger] word_times@[c] as int == occ(
        wd,
        c as usize,
        5,
    ) - colored(r, g, c as usize, 5) by {
        lemma_colored_splits(g, r, c as usize, 5);
    }
    let mut i: usize = 0;
    while i < 5
        invariant
            0 <= i <= 5,
            wd == letters(w@),
            g == guess@,
            r == result@,
            r.len() >= 5,
            is_letter_seq(wd),
            is_letter_seq(g),
            word_times@.len() == 26,
            forall|c: int|
                0 <= c < 26 ==> #[trigger] word_times@[c] as int == occ(wd, c as usize, 5)
                    - colored(r, g, c as usize, 5),
            forall|c: int| 0 <= c < 26 ==> #[trigger] word_times@[c] >= 0,
            forall|k: int|
                0 <= k < i && r[k] == Status::R ==> #[trigger] occ(wd, g[k], 5) == colored(
                    r,
                    g,
                    g[k],
                    5,
                ),
        decreases 5 - i,
    {
        if result[i] == Status::R {
            if word_times[guess[i]] > 0 {
                return false;
            }
        }
        i = i + 1;
    }
    true
}

/// Narrows the possible words by a coloured guess. An empty list stands for
/// "not narrowed yet" and starts from the acceptable words.
pub fn update_pos(
    pos: &mut Vec<String>,
    acceptable: &Vec<String>,
    guess: &[usize; 5],
    result: &Vec<Status>,
)
    requires
        forall|k: int| 0 <= k < old(pos)@.len() ==> is_five_lower(#[trigger] old(pos)@[k]@),
        old(pos)@.len() == 0 ==> forall|k: int|
            0 <= k < acceptable@.len() ==> is_five_lower(#[trigger] acceptable@[k]@),
        is_letter_seq(guess@),
        result@.len() >= 5,
    ensures
        final(pos)@ == filter_possible(
            if old(pos)@.len() == 0 {
                acceptable@
            } else {
                old(pos)@
            },
            guess@,
            result@,
        ),
        forall|k: int| 0 <= k < final(pos)@.len() ==> is_five_lower(#[trigger] final(pos)@[k]@),
{
    let ghost base = if pos.len() == 0 {
        acceptable@
    } else {
        pos@
    };
    let mut kept: Vec<String> = Vec::new();
    {
        let words: &Vec<String> = if pos.len() == 0 {
            acceptable
        } else {
            pos
        };
        let mut i: usize = 0;
        while i < words.len()
            invariant
                0 <= i <= words@.len(),
                words@ == base,
                forall|k: int| 0 <= k < base.len() ==> is_five_lower(#[trigger] base[k]@),
                is_letter_seq(guess@),
                result@.len() >= 5,
                kept@ == filter_possible(base.take(i as int), guess@, result@),
                forall|k: int| 0 <= k < kept@.len() ==> is_five_lower(#[trigger] kept@[k]@),
            decreases words@.len() - i,
        {
            assert(base.take(i + 1).drop_last() =~= base.take(i as int));
            if is_pos_word(&words[i], guess, result) {
                kept.push(words[i].clone());
            }
            i = i + 1;
        }
        assert(base.take(words@.len() as int) =~= base);
    }
    *pos = kept;
}

/// The answer always stays possible after any guess coloured against it.
pub proof fn lemma_answer_stays_possible(answer: Seq<usize>, guess: Seq<usize>)
    requires
        is_letter_seq(answer),
        is_letter_seq(guess),
    ensures
        possible(answer, guess, feedback(answer, guess)),
{
    let r = feedback(answer, guess);
    assert forall|c: int| 0 <= c < 26 implies #[trigger] colored(r, guess, c as usize, 5) <= occ(
        answer,
        c as usize,
        5,
    ) by {
        lemma_colored_count(answer, guess, c as usize);
    }
    assert forall|i: int| 0 <= i < 5 && r[i] == Status::R implies #[trigger] occ(
        answer,
        guess[i],
        5,
    ) == colored(r, guess, guess[i], 5) by {
        let c = guess[i];
        lemma_colored_count(answer, guess, c);
        crate::feedback::lemma_occ_splits(answer, guess, c, 5);
        lemma_misses_monotone(answer, guess, c, i + 1, 5);
        crate::word::lemma_occ_bounds(answer, c, 5);
        assert(letter_counts(answer)[c as int] == occ(answer, c, 5));
        assert(r[i] == color(answer, guess, letter_counts(answer), 5, i));
    }
}

/// A word the filter keeps is always a legal hard-mode guess: the filter
/// is at least as strict as hard mode.
pub proof fn lemma_possible_passes_hard_mode(word: Seq<usize>, guess: Seq<usize>, result: Seq<Status>)
    requires
        possible(word, guess, result),
    ensures
        hard_mode_ok(guess, word, result),
{
}

/// The answer itself is always a legal hard-mode guess.
pub proof fn lemma_answer_passes_hard_mode(answer: Seq<usize>, guess: Seq<usize>)
    requires
        is_letter_seq(answer),
        is_letter_seq(guess),
    ensures
        hard_mode_ok(guess, answer, feedback(answer, guess)),
{
    lemma_answer_stays_possible(answer, guess);
}

/// Narrowing the possible words by a guess coloured against the answer
/// never drops the answer.
pub proof fn lemma_filter_keeps_answer(words: Seq<String>, answer: String, guess: Seq<usize>)
    requires
        words.contains(answer),
        is_five_lower(answer@),
        is_letter_seq(guess),
    ensures
        filter_possible(words, guess, feedback(letters(answer@), guess)).contains(answer),
    decreases words.len(),
{
    let a = letters(answer@);
    assert(is_letter_seq(a)) by {
        assert forall|i: int| 0 <= i < 5 implies #[trigger] a[i] < 26 by {
            assert(crate::word::is_lower(answer@[i]));
        }
    }
    lemma_answer_stays_possible(a, guess);
    let r = feedback(a, guess);
    let rest = filter_possible(words.drop_last(), guess, r);
    if words.last() == answer {
        assert(filter_possible(words, guess, r) == rest.push(answer));
        assert(rest.push(answer)[rest.len() as int] == answer);
    } else {
        let k = choose|k: int| 0 <= k < words.len() && words[k] == answer;
        assert(words.drop_last()[k] == answer);
        lemma_filter_keeps_answer(words.drop_last(), answer, guess);
        let kept = filter_possible(words, guess, r);
        let j = choose|j: int| 0 <= j < rest.len() && rest[j] == answer;
        if possible(letters(words.last()@), guess, r) {
            assert(kept == rest.push(words.last()));
            assert(kept[j] == answer);
        } else {
            assert(kept == rest);
        }
    }
}

/// The possible words after the guesses `guesses` are each coloured against
/// `answer` and narrowed in turn, as `update_pos` narrows them.
pub open spec fn narrowed(
    pos: Seq<String>,
    acceptable: Seq<String>,
    answer: Seq<usize>,
    guesses: Seq<Seq<usize>>,
) -> Seq<String>
    decreases guesses.len(),
{
    if guesses.len() == 0 {
        pos
    } else {
        let prev = narrowed(pos, acceptable, answer, guesses.drop_last());
        filter_possible(
            if prev.len() == 0 {
                acceptable
            } else {
                prev
            },
            guesses.last(),
            feedback(answer, guesses.last()),
        )
    }
}

/// Over any number of rounds the answer is never narrowed away: if it is
/// among the possible words (among the acceptable ones while none are
/// narrowed yet), it stays there after every guess coloured against it.
pub proof fn lemma_answer_never_filtered(
    pos: Seq<String>,
    acceptable: Seq<String>,
    answer: String,
    guesses: Seq<Seq<usize>>,
)
    requires
        is_five_lower(answer@),
        pos.len() == 0 ==> acceptable.contains(answer),
        pos.len() > 0 ==> pos.contains(answer),
        forall|k: int| 0 <= k < guesses.len() ==> is_letter_seq(#[trigger] guesses[k]),
    ensures
        guesses.len() > 0 ==> narrowed(pos, acceptable, letters(answer@), guesses).contains(answer),
        guesses.len() == 0 ==> narrowed(pos, acceptable, letters(answer@), guesses) == pos,
    decreases guesses.len(),
{
    if guesses.len() > 0 {
        let g = guesses.last();
        assert(is_letter_seq(guesses[guesses.len() - 1]));
        let front = guesses.drop_last();
        assert forall|k: int| 0 <= k < front.len() implies is_letter_seq(#[trigger] front[k]) by {
            assert(front[k] == guesses[k]);
        }
        lemma_answer_never_filtered(pos, acceptable, answer, front);
        let prev = narrowed(pos, acceptable, letters(answer@), front);
        let base = if prev.len() == 0 {
            acceptable
        } else {
            prev
        };
        assert(base.contains(answer));
        lemma_filter_keeps_answer(base, answer, g);
    }
}

/// Read back from `get_index`'s number (digit 0 = G, 1 = Y, 2 = R), the
/// colouring of any guess against the answer keeps the answer possible and
/// lets it pass hard mode.
pub proof fn lemma_answer_kept_by_index(answer: Seq<char>, guess_word: Seq<char>)
    requires
        is_five_lower(answer),
        is_five_lower(guess_word),
    ensures
        ({
            let a = letters(answer);
            let g = letters(guess_word);
            let r = decode_pattern(pattern_code(coloring(a, g, letter_counts(a)), 5));
            &&& r == feedback(a, g)
            &&& possible(a, g, r)
            &&& hard_mode_ok(g, a, r)
        }),
{
    let a = letters(answer);
    let g = letters(guess_word);
    crate::word::lemma_letters_in_range(answer);
    crate::word::lemma_letters_in_range(guess_word);
    lemma_pattern_decodes(feedback(a, g));
    lemma_answer_stays_possible(a, g);
}

/// Hard mode after a guess coloured against the answer: the next guess
/// keeps every letter the last guess had in place, and holds each letter at
/// least as often as it occurs in both the last guess and the answer.
pub proof fn lemma_hard_mode_keeps_what_was_found(
    answer: Seq<usize>,
    last: Seq<usize>,
    next: Seq<usize>,
)
    requires
        is_letter_seq(answer),
        is_letter_seq(last),
        is_letter_seq(next),
        hard_mode_ok(last, next, feedback(answer, last)),
    ensures
        forall|i: int| 0 <= i < 5 && last[i] == answer[i] ==> #[trigger] next[i] == answer[i],
        forall|c: usize|
            c < 26 ==> #[trigger] occ(next, c, 5) >= if occ(last, c, 5) < occ(answer, c, 5) {
                occ(last, c, 5)
            } else {
                occ(answer, c, 5)
            },
{
    assert forall|i: int| 0 <= i < 5 && last[i] == answer[i] implies #[trigger] next[i] == answer[i] by {
        crate::feedback::lemma_feedback_known(answer, last, i);
    }
    assert forall|c: usize| c < 26 implies #[trigger] occ(next, c, 5) >= if occ(last, c, 5) < occ(answer, c, 5) {
        occ(last, c, 5)
    } else {
        occ(answer, c, 5)
    } by {
        lemma_colored_count(answer, last, c);
        assert(colored(feedback(answer, last), last, c as int as usize, 5) <= occ(next, c as int as usize, 5));
    }
}

/// A word still possible after a guess coloured against the answer agrees
/// with the answer on everything the colours showed: the answer's letter
/// wherever a green was shown, not the guess's letter where a yellow was,
/// each letter at least as often as it occurs in both guess and answer, and
/// a letter shown red exactly as often as the answer has it.
pub proof fn lemma_possible_agrees_with_answer(answer: Seq<usize>, guess: Seq<usize>, word: Seq<usize>)
    requires
        is_letter_seq(answer),
        is_letter_seq(guess),
        is_letter_seq(word),
        possible(word, guess, feedback(answer, guess)),
    ensures
        forall|i: int| 0 <= i < 5 && guess[i] == answer[i] ==> #[trigger] word[i] == answer[i],
        forall|i: int|
            0 <= i < 5 && feedback(answer, guess)[i] == Status::Y ==> #[trigger] word[i] != guess[i],
        forall|c: usize|
            c < 26 ==> #[trigger] occ(word, c, 5) >= if occ(guess, c, 5) < occ(answer, c, 5) {
                occ(guess, c, 5)
            } else {
                occ(answer, c, 5)
            },
        forall|i: int|
            0 <= i < 5 && feedback(answer, guess)[i] == Status::R ==> #[trigger] occ(word, guess[i], 5)
                == occ(answer, guess[i], 5),
{
    let r = feedback(answer, guess);
    assert forall|i: int| 0 <= i < 5 && guess[i] == answer[i] implies #[trigger] word[i] == answer[i] by {
        crate::feedback::lemma_feedback_known(answer, guess, i);
    }
    assert forall|c: usize| c < 26 implies #[trigger] occ(word, c, 5) >= if occ(guess, c, 5) < occ(answer, c, 5) {
        occ(guess, c, 5)
    } else {
        occ(answer, c, 5)
    } by {
        lemma_colored_count(answer, guess, c);
        assert(colored(r, guess, c as int as usize, 5) <= occ(word, c as int as usize, 5));
    }
    assert forall|i: int|
        0 <= i < 5 && r[i] == Status::R implies #[trigger] occ(word, guess[i], 5) == occ(answer, guess[i], 5) by {
        let c = guess[i];
        lemma_colored_count(answer, guess, c);
        crate::feedback::lemma_occ_splits(answer, guess, c, 5);
        lemma_misses_monotone(answer, guess, c, i + 1, 5);
        crate::word::lemma_occ_bounds(answer, c, 5);
        assert(letter_counts(answer)[c as int] == occ(answer, c, 5));
        assert(r[i] == color(answer, guess, letter_counts(answer), 5, i));
    }
}

/// Narrowing keeps exactly the possible words: every kept word is one of
/// the given words and possible, and every possible given word is kept.
pub proof fn lemma_filter_exact(words: Seq<String>, guess: Seq<usize>, result: Seq<Status>)
    ensures
        forall|k: int|
            0 <= k < filter_possible(words, guess, result).len() ==> words.contains(
                #[trigger] filter_possible(words, guess, result)[k],
            ) && possible(letters(filter_possible(words, guess, result)[k]@), guess, result),
        forall|k: int|
            0 <= k < words.len() && possible(letters(words[k]@), guess, result) ==> filter_possible(
                words,
                guess,
                result,
            ).contains(#[trigger] words[k]),
    decreases words.len(),
{
    if words.len() > 0 {
        let front = words.drop_last();
        lemma_filter_exact(front, guess, result);
        let rest = filter_possible(front, guess, result);
        let f = filter_possible(words, guess, result);
        assert forall|k: int| 0 <= k < f.len() implies words.contains(#[trigger] f[k]) && possible(
            letters(f[k]@),
            guess,
            result,
        ) by {
            if k < rest.len() {
                assert(f[k] == rest[k]);
                let j = choose|j: int| 0 <= j < front.len() && front[j] == rest[k];
                assert(words[j] == front[j]);
            } else {
                assert(f[k] == words.last());
                assert(words[words.len() - 1] == words.last());
            }
        }
        assert forall|k: int| 0 <= k < words.len() && possible(letters(words[k]@), guess, result) implies f.contains(
            #[trigger] words[k],
        ) by {
            if k < words.len() - 1 {
                assert(front[k] == words[k]);
                let j = choose|j: int| 0 <= j < rest.len() && rest[j] == front[k];
                if possible(letters(words.last()@), guess, result) {
                    assert(f[j] == rest[j]);
                }
            } else {
                assert(f[f.len() - 1] == words[k]);
            }
        }
    }
}

} // verus!
