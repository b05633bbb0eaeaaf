use vstd::prelude::*;
use crate::answers::{get_final_random, indices, seeded_answer};
use crate::args::Options;
use crate::rng::seeded_shuffle;
use crate::counter::GuessCounter;
use crate::game::{Game, State};
use crate::text::{ascii_lower, ascii_upper, contains_word, listed, str_eq, to_lower};
use crate::word::{is_five_lower, letters};
use crate::wordlist::all_distinct;

verus! {

/// A saved game counts as won when its last guess is its answer, letter
/// case aside.
pub open spec fn game_won(g: Game) -> bool {
    g.guesses@.len() > 0 && ascii_lower(g.guesses@.last()@) == ascii_lower(g.answer@)
}

/// A saved game counts as lost when it has guesses and the last one is not
/// its answer. A game without guesses counts as neither.
pub open spec fn game_lost(g: Game) -> bool {
    g.guesses@.len() > 0 && ascii_lower(g.guesses@.last()@) != ascii_lower(g.answer@)
}

/// Won games among the first `n`.
pub open spec fn wins(games: Seq<Game>, n: int) -> int
    decreases n,
{
    if n <= 0 {
        0
    } else {
        wins(games, n - 1) + if game_won(games[n - 1]) {
            1int
        } else {
            0int
        }
    }
}

/// Lost games among the first `n`.
pub open spec fn losses(games: Seq<Game>, n: int) -> int
    decreases n,
{
    if n <= 0 {
        0
    } else {
        losses(games, n - 1) + if game_lost(games[n - 1]) {
            1int
        } else {
            0int
        }
    }
}

/// Guesses used in the won games among the first `n`.
pub open spec fn won_guesses(games: Seq<Game>, n: int) -> int
    decreases n,
{
    if n <= 0 {
        0
    } else {
        won_guesses(games, n - 1) + if game_won(games[n - 1]) {
            games[n - 1].guesses@.len() as int
        } else {
            0int
        }
    }
}

/// Among the first `m` guesses, those that read `w` in lowercase.
pub open spec fn mentions_in(guesses: Seq<String>, m: int, w: Seq<char>) -> int
    decreases m,
{
    if m <= 0 {
        0
    } else {
        mentions_in(guesses, m - 1, w) + if ascii_lower(guesses[m - 1]@) == w {
            1int
        } else {
            0int
        }
    }
}

/// Among all guesses of the first `n` games, those that read `w` in
/// lowercase.
pub open spec fn mentions(games: Seq<Game>, n: int, w: Seq<char>) -> int
    decreases n,
{
    if n <= 0 {
        0
    } else {
        mentions(games, n - 1, w) + mentions_in(
            games[n - 1].guesses@,
            games[n - 1].guesses@.len() as int,
            w,
        )
    }
}

/// The lowercase answers of the first `n` games.
pub open spec fn lowered_answers(games: Seq<Game>, n: int) -> Seq<Seq<char>> {
    Seq::new(n as nat, |i: int| ascii_lower(games[i].answer@))
}

proof fn lemma_mentions_in_monotone(guesses: Seq<String>, a: int, b: int, w: Seq<char>)
    requires
        0 <= a <= b,
    ensures
        0 <= mentions_in(guesses, a, w) <= mentions_in(guesses, b, w),
    decreases b - a,
{
    if a < b {
        lemma_mentions_in_monotone(guesses, a, b - 1, w);
    } else {
        lemma_mentions_in_nonneg(guesses, a, w);
    }
}

proof fn lemma_mentions_in_nonneg(guesses: Seq<String>, a: int, w: Seq<char>)
    ensures
        0 <= mentions_in(guesses, a, w),
    decreases a,
{
    if a > 0 {
        lemma_mentions_in_nonneg(guesses, a - 1, w);
    }
}

proof fn lemma_mentions_monotone(games: Seq<Game>, a: int, b: int, w: Seq<char>)
    requires
        0 <= a <= b,
    ensures
        0 <= mentions(games, a, w) <= mentions(games, b, w),
    decreases b - a,
{
    if a < b {
        lemma_mentions_monotone(games, a, b - 1, w);
        lemma_mentions_in_nonneg(games[b - 1].guesses@, games[b - 1].guesses@.len() as int, w);
    } else {
        lemma_mentions_nonneg(games, a, w);
    }
}

proof fn lemma_mentions_nonneg(games: Seq<Game>, a: int, w: Seq<char>)
    ensures
        0 <= mentions(games, a, w),
    decreases a,
{
    if a > 0 {
        lemma_mentions_nonneg(games, a - 1, w);
        lemma_mentions_in_nonneg(games[a - 1].guesses@, games[a - 1].guesses@.len() as int, w);
    }
}

proof fn lemma_totals_monotone(games: Seq<Game>, a: int, b: int)
    requires
        0 <= a <= b,
    ensures
        0 <= wins(games, a) <= wins(games, b),
        0 <= losses(games, a) <= losses(games, b),
        0 <= won_guesses(games, a) <= won_guesses(games, b),
    decreases b - a,
{
    if a < b {
        lemma_totals_monotone(games, a, b - 1);
    } else {
        lemma_totals_nonneg(games, a);
    }
}

proof fn lemma_totals_nonneg(games: Seq<Game>, a: int)
    ensures
        0 <= wins(games, a),
        0 <= losses(games, a),
        0 <= won_guesses(games, a),
    decreases a,
{
    if a > 0 {
        lemma_totals_nonneg(games, a - 1);
    }
}

/// Everything the program keeps across the games of one run.
pub struct Session {
    /// The answers already dealt at random, so none comes twice.
    pub answers: Vec<String>,
    /// How often each word was guessed.
    pub counter: GuessCounter,
    pub total_success: i32,
    pub total_failure: i32,
    /// Guesses used in all won games.
    pub total_success_guess_times: i32,
    /// What is saved at the end of the run.
    pub state: State,
}

impl Session {
    pub open spec fn wf(&self) -> bool {
        self.counter.wf()
    }

    /// A run with nothing played yet.
    pub fn new() -> (s: Session)
        ensures
            s.wf(),
            s.answers@.len() == 0,
            forall|w: Seq<char>| #[trigger] s.counter.count_of(w) == 0,
            s.total_success == 0,
            s.total_failure == 0,
            s.total_success_guess_times == 0,
            s.state.total_rounds == 0,
            s.state.games@.len() == 0,
    {
        Session {
            answers: Vec::new(),
            counter: GuessCounter::new(),
            total_success: 0,
            total_failure: 0,
            total_success_guess_times: 0,
            state: State { total_rounds: 0, games: Vec::new() },
        }
    }

    /// Counts a finished game: a win and the guesses it took, or a loss.
    pub fn update_stats(&mut self, success: bool, times: i32)
        requires
            success ==> old(self).total_success < i32::MAX && i32::MIN <= old(
                self,
            ).total_success_guess_times + times <= i32::MAX,
            !success ==> old(self).total_failure < i32::MAX,
        ensures
            final(self).answers == old(self).answers,
            final(self).counter == old(self).counter,
            final(self).state == old(self).state,
            success ==> final(self).total_success == old(self).total_success + 1
                && final(self).total_success_guess_times == old(self).total_success_guess_times
                + times && final(self).total_failure == old(self).total_failure,
            !success ==> final(self).total_failure == old(self).total_failure + 1
                && final(self).total_success == old(self).total_success
                && final(self).total_success_guess_times == old(self).total_success_guess_times,
    {
        if success {
            self.total_success = self.total_success + 1;
            self.total_success_guess_times = self.total_success_guess_times + times;
        } else {
            self.total_failure = self.total_failure + 1;
        }
    }

    /// Records a finished game in what is saved.
    pub fn update_state(&mut self, game: Game)
        requires
            old(self).state.total_rounds < i32::MAX,
        ensures
            final(self).state.total_rounds == old(self).state.total_rounds + 1,
            final(self).state.games@ == old(self).state.games@.push(game),
            final(self).answers == old(self).answers,
            final(self).counter == old(self).counter,
            final(self).total_success == old(self).total_success,
            final(self).total_failure == old(self).total_failure,
            final(self).total_success_guess_times == old(self).total_success_guess_times,
    {
        self.state.total_rounds = self.state.total_rounds + 1;
        self.state.games.push(game);
    }

    /// Takes a randomly dealt answer unless it was dealt before in this run.
    pub fn register_answer(&mut self, ans: &String) -> (fresh: bool)
        ensures
            fresh == !listed(old(self).answers@, ans@),
            fresh ==> final(self).answers@ == old(self).answers@.push(*ans),
            !fresh ==> final(self).answers == old(self).answers,
            all_distinct(old(self).answers@) ==> all_distinct(final(self).answers@),
            final(self).counter == old(self).counter,
            final(self).state == old(self).state,
            final(self).total_success == old(self).total_success,
            final(self).total_failure == old(self).total_failure,
            final(self).total_success_guess_times == old(self).total_success_guess_times,
    {
        if contains_word(&self.answers, ans) {
            false
        } else {
            let ghost before = self.answers@;
            self.answers.push(ans.clone());
            proof {
                if all_distinct(before) {
                    assert forall|i: int, j: int| 0 <= i < j < self.answers@.len() implies #[trigger] self.answers@[i]@ != #[trigger] self.answers@[j]@ by {
                        if j == before.len() {
                            assert(before[i]@ != ans@);
                        } else {
                            assert(before[i]@ != before[j]@);
                        }
                    }
                }
            }
            true
        }
    }

    /// Deals a random answer word that this run has not dealt before and
    /// records it. The pick is made among exactly the undealt words, each
    /// equally likely, as when words are drawn from the whole list until an
    /// undealt one comes.
    pub fn deal_fresh_answer(&mut self, final_set: &Vec<String>) -> (w: String)
        requires
            exists|k: int|
                0 <= k < final_set@.len() && !listed(old(self).answers@, #[trigger] final_set@[k]@),
        ensures
            listed(undealt(final_set@, old(self).answers@), w@),
            listed(final_set@, w@),
            !listed(old(self).answers@, w@),
            final(self).answers@ == old(self).answers@.push(w),
            all_distinct(old(self).answers@) ==> all_distinct(final(self).answers@),
            final(self).counter == old(self).counter,
            final(self).state == old(self).state,
            final(self).total_success == old(self).total_success,
            final(self).total_failure == old(self).total_failure,
            final(self).total_success_guess_times == old(self).total_success_guess_times,
    {
        let fresh = undealt_words(final_set, &self.answers);
        proof {
            let k = choose|k: int|
                0 <= k < final_set@.len() && !listed(self.answers@, #[trigger] final_set@[k]@);
            lemma_undealt_holds(final_set@, self.answers@, k);
        }
        let w = get_final_random(&fresh);
        proof {
            lemma_undealt_members(final_set@, self.answers@, w@);
        }
        let _ = self.register_answer(&w);
        w
    }

    /// The answer of the next game: the given word, the seeded word of the
    /// day, or a fresh random word (recorded as dealt); nothing when the
    /// answer is to be typed in.
    pub fn deal_answer(&mut self, o: &Options, final_set: &Vec<String>) -> (r: Option<String>)
        requires
            o.word ==> o.word_value is Some,
            !o.word && o.random && o.seed_flag ==> 1 <= o.day && o.day - 1 < final_set@.len(),
            !o.word && o.random && !o.seed_flag ==> exists|k: int|
                0 <= k < final_set@.len() && !listed(old(self).answers@, #[trigger] final_set@[k]@),
        ensures
            o.word ==> r == o.word_value && *final(self) == *old(self),
            !o.word && o.random && o.seed_flag ==> ({
                let order = seeded_shuffle(o.seed, indices(final_set@.len()));
                &&& order[o.day - 1] < final_set@.len()
                &&& r matches Some(w) && w@ == final_set@[order[o.day - 1] as int]@
                &&& *final(self) == *old(self)
            }),
            !o.word && o.random && !o.seed_flag ==> ({
                &&& r matches Some(w) && listed(undealt(final_set@, old(self).answers@), w@)
                    && final(self).answers@ == old(self).answers@.push(w)
                &&& final(self).counter == old(self).counter
                &&& final(self).state == old(self).state
                &&& final(self).total_success == old(self).total_success
                &&& final(self).total_failure == old(self).total_failure
                &&& final(self).total_success_guess_times == old(self).total_success_guess_times
            }),
            !o.word && !o.random ==> r is None && *final(self) == *old(self),
    {
        if o.word {
            o.word_value.clone()
        } else if o.random {
            if o.seed_flag {
                Some(seeded_answer(final_set, o.seed, o.day - 1))
            } else {
                Some(self.deal_fresh_answer(final_set))
            }
        } else {
            None
        }
    }

    /// Replays saved games: their answers count as dealt, their guesses as
    /// guessed, and each game with guesses as won or lost by its last guess.
    pub fn parse_state(&mut self, state: &State)
        requires
            old(self).wf(),
            0 <= state.total_rounds <= state.games@.len(),
            forall|k: int|
                0 <= k < state.games@.len() ==> #[trigger] state.games@[k].guesses@.len()
                    <= i32::MAX,
            old(self).total_success + wins(state.games@, state.total_rounds as int) <= i32::MAX,
            old(self).total_failure + losses(state.games@, state.total_rounds as int) <= i32::MAX,
            old(self).total_success_guess_times + won_guesses(
                state.games@,
                state.total_rounds as int,
            ) <= i32::MAX,
            forall|w: Seq<char>|
                #[trigger] old(self).counter.count_of(w) + mentions(
                    state.games@,
                    state.total_rounds as int,
                    w,
                ) <= i32::MAX,
        ensures
            final(self).wf(),
            final(self).answers.deep_view() == old(self).answers.deep_view() + lowered_answers(
                state.games@,
                state.total_rounds as int,
            ),
            forall|w: Seq<char>|
                #[trigger] final(self).counter.count_of(w) == old(self).counter.count_of(w)
                    + mentions(state.games@, state.total_rounds as int, w),
            final(self).total_success == old(self).total_success + wins(
                state.games@,
                state.total_rounds as int,
            ),
            final(self).total_failure == old(self).total_failure + losses(
                state.games@,
                state.total_rounds as int,
            ),
            final(self).total_success_guess_times == old(self).total_success_guess_times
                + won_guesses(state.games@, state.total_rounds as int),
            final(self).state == old(self).state,
    {
        let ghost games = state.games@;
        let ghost rounds = state.total_rounds as int;
        let ghost s0 = *self;
        let total_rounds = state.total_rounds as usize;
        let mut i: usize = 0;
        while i < total_rounds
            invariant
                0 <= i <= total_rounds,
                total_rounds == rounds,
                rounds <= games.len(),
                games == state.games@,
                forall|k: int|
                    0 <= k < games.len() ==> #[trigger] games[k].guesses@.len() <= i32::MAX,
                self.wf(),
                s0.total_success + wins(games, rounds) <= i32::MAX,
                s0.total_failure + losses(games, rounds) <= i32::MAX,
                s0.total_success_guess_times + won_guesses(games, rounds) <= i32::MAX,
                forall|w: Seq<char>|
                    #[trigger] s0.counter.count_of(w) + mentions(games, rounds, w) <= i32::MAX,
                self.answers.deep_view() == s0.answers.deep_view() + lowered_answers(games, i as int),
                forall|w: Seq<char>|
                    #[trigger] self.counter.count_of(w) == s0.counter.count_of(w) + mentions(
                        games,
                        i as int,
                        w,
                    ),
                self.total_success == s0.total_success + wins(games, i as int),
                self.total_failure == s0.total_failure + losses(games, i as int),
                self.total_success_guess_times == s0.total_success_guess_times + won_guesses(
                    games,
                    i as int,
                ),
                self.state == s0.state,
            decreases total_rounds - i,
        {
            proof {
                lemma_totals_monotone(games, i + 1, rounds);
            }
            let game = &state.games[i];
            let answer = to_lower(game.answer.as_str());
            let ghost answers_before = self.answers.deep_view();
            self.answers.push(answer.clone());
            assert(self.answers.deep_view() =~= s0.answers.deep_view() + lowered_answers(
                games,
                i + 1,
            )) by {
                assert(self.answers.deep_view() =~= answers_before.push(answer@));
            }
            let len = game.guesses.len();
            assert(games[i as int].guesses@.len() <= i32::MAX);
            let ghost counts_before = self.counter;
            let mut j: usize = 0;
            while j < len
                invariant
                    0 <= j <= len,
                    len == games[i as int].guesses@.len(),
                    0 <= i < total_rounds,
                    total_rounds == rounds,
                    len <= i32::MAX,
                    rounds <= games.len(),
                    games == state.games@,
                    game == &state.games@[i as int],
                    answer@ == ascii_lower(game.answer@),
                    self.wf(),
                    forall|w: Seq<char>|
                        #[trigger] s0.counter.count_of(w) + mentions(games, rounds, w) <= i32::MAX,
                    forall|w: Seq<char>|
                        #[trigger] counts_before.count_of(w) == s0.counter.count_of(w) + mentions(
                            games,
                            i as int,
                            w,
                        ),
                    forall|w: Seq<char>|
                        #[trigger] self.counter.count_of(w) == counts_before.count_of(w)
                            + mentions_in(game.guesses@, j as int, w),
                    s0.total_success + wins(games, rounds) <= i32::MAX,
                    s0.total_failure + losses(games, rounds) <= i32::MAX,
                    s0.total_success_guess_times + won_guesses(games, rounds) <= i32::MAX,
                    0 <= wins(games, i + 1) <= wins(games, rounds),
                    0 <= losses(games, i + 1) <= losses(games, rounds),
                    0 <= won_guesses(games, i + 1) <= won_guesses(games, rounds),
                    self.answers.deep_view() == s0.answers.deep_view() + lowered_answers(
                        games,
                        i + 1,
                    ),
                    (j < len || len == 0) ==> self.total_success == s0.total_success + wins(games, i as int),
                    (j < len || len == 0) ==> self.total_failure == s0.total_failure + losses(games, i as int),
                    (j < len || len == 0) ==> self.total_success_guess_times == s0.total_success_guess_times
                        + won_guesses(games, i as int),
                    j == len && len > 0 ==> self.total_success == s0.total_success + wins(
                        games,
                        i + 1,
                    ),
                    j == len && len > 0 ==> self.total_failure == s0.total_failure + losses(
                        games,
                        i + 1,
                    ),
                    j == len && len > 0 ==> self.total_success_guess_times
                        == s0.total_success_guess_times + won_guesses(games, i + 1),
                    self.state == s0.state,
                decreases len - j,
            {
                let guess = to_lower(game.guesses[j].as_str());
                proof {
                    lemma_mentions_in_monotone(game.guesses@, j + 1, len as int, guess@);
                    lemma_mentions_monotone(games, i + 1, rounds, guess@);
                    lemma_mentions_in_nonneg(game.guesses@, j as int, guess@);
                }
                self.counter.update_guess_arr(&guess);
                if j == len - 1 {
                    proof {
                        assert(game.guesses@.last() == game.guesses@[j as int]);
                        assert(game_won(games[i as int]) == (guess@ == answer@));
                        assert(game_lost(games[i as int]) == (guess@ != answer@));
                    }
                    if guess == answer {
                        assert(won_guesses(games, i + 1) == won_guesses(games, i as int) + len);
                        self.total_success = self.total_success + 1;
                        self.total_success_guess_times = self.total_success_guess_times
                            + len as i32;
                    } else {
                        self.total_failure = self.total_failure + 1;
                    }
                }
                j = j + 1;
            }
            i = i + 1;
        }
    }
}

/// A saved-state file holding only `{}` stands for no saved games.
pub fn is_empty_state(contents: &str) -> (empty: bool)
    ensures
        empty == (contents@ == "{}"@),
{
    str_eq(contents, "{}")
}

proof fn lemma_lower_upper(w: Seq<char>)
    requires
        is_five_lower(w),
    ensures
        ascii_lower(ascii_upper(w)) == w,
{
    assert(ascii_lower(ascii_upper(w)) =~= w);
}

/// A game recorded in capitals, whose answer and last guess are five
/// lowercase letters, is replayed as won exactly when that guess was the
/// answer: saved games count as they ended.
pub proof fn lemma_recorded_game_replays(answer: Seq<char>, last_guess: Seq<char>, g: Game)
    requires
        is_five_lower(answer),
        is_five_lower(last_guess),
        g.answer@ == ascii_upper(answer),
        g.guesses@.len() > 0,
        g.guesses@.last()@ == ascii_upper(last_guess),
    ensures
        game_won(g) <==> letters(last_guess) == letters(answer),
        game_lost(g) <==> letters(last_guess) != letters(answer),
{
    lemma_lower_upper(answer);
    lemma_lower_upper(last_guess);
    if letters(last_guess) == letters(answer) {
        assert forall|i: int| 0 <= i < 5 implies last_guess[i] == answer[i] by {
            assert(letters(last_guess)[i] == letters(answer)[i]);
        }
        assert(last_guess =~= answer);
    }
}

/// The words of `final_set`, in order, that are not among `dealt`.
pub open spec fn undealt(final_set: Seq<String>, dealt: Seq<String>) -> Seq<String>
    decreases final_set.len(),
{
    if final_set.len() == 0 {
        Seq::empty()
    } else {
        let rest = undealt(final_set.drop_last(), dealt);
        if listed(dealt, final_set.last()@) {
            rest
        } else {
            rest.push(final_set.last())
        }
    }
}

/// Every answer word not yet dealt is among the undealt words.
pub proof fn lemma_undealt_holds(final_set: Seq<String>, dealt: Seq<String>, k: int)
    requires
        0 <= k < final_set.len(),
        !listed(dealt, final_set[k]@),
    ensures
        listed(undealt(final_set, dealt), final_set[k]@),
    decreases final_set.len(),
{
    let u = undealt(final_set, dealt);
    let rest = undealt(final_set.drop_last(), dealt);
    if k == final_set.len() - 1 {
        assert(u[u.len() - 1] == final_set[k]);
    } else {
        assert(final_set.drop_last()[k] == final_set[k]);
        lemma_undealt_holds(final_set.drop_last(), dealt, k);
        let j = choose|j: int| 0 <= j < rest.len() && #[trigger] rest[j]@ == final_set[k]@;
        if !listed(dealt, final_set.last()@) {
            assert(u[j] == rest[j]);
        }
    }
}

/// Every undealt word is an answer word not yet dealt.
pub proof fn lemma_undealt_members(final_set: Seq<String>, dealt: Seq<String>, w: Seq<char>)
    requires
        listed(undealt(final_set, dealt), w),
    ensures
        listed(final_set, w),
        !listed(dealt, w),
    decreases final_set.len(),
{
    let u = undealt(final_set, dealt);
    let rest = undealt(final_set.drop_last(), dealt);
    let j = choose|j: int| 0 <= j < u.len() && #[trigger] u[j]@ == w;
    if j < rest.len() {
        assert(u[j] == rest[j]);
        lemma_undealt_members(final_set.drop_last(), dealt, w);
        let k = choose|k: int| 0 <= k < final_set.len() - 1 && #[trigger] final_set.drop_last()[k]@ == w;
        assert(final_set[k] == final_set.drop_last()[k]);
    } else {
        assert(u[j] == final_set.last());
        assert(final_set[final_set.len() - 1]@ == w);
    }
}

/// The words of `final_set`, in order, that are not among `dealt`.
pub fn undealt_words(final_set: &Vec<String>, dealt: &Vec<String>) -> (v: Vec<String>)
    ensures
        v@ == undealt(final_set@, dealt@),
{
    let mut v: Vec<String> = Vec::new();
    let mut i: usize = 0;
    while i < final_set.len()
        invariant
            0 <= i <= final_set@.len(),
            v@ == undealt(final_set@.take(i as int), dealt@),
        decreases final_set@.len() - i,
    {
        assert(final_set@.take(i + 1).drop_last() =~= final_set@.take(i as int));
        if !contains_word(dealt, &final_set[i]) {
            v.push(final_set[i].clone());
        }
        i = i + 1;
    }
    assert(final_set@.take(final_set@.len() as int) =~= final_set@);
    v
}

} // verus!
