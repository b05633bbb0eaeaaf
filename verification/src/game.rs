use vstd::prelude::*;
use crate::counter::GuessCounter;
use crate::feedback::{evaluate, feedback, keyboard_after, update_keyboard};
use crate::filter::{difficult_valid, hard_mode_ok};
use crate::input::{check_input, input_verdict, InputCheck};
use crate::status::Status;
use crate::text::{ascii_upper, listed, to_upper};
use crate::word::{count_times, is_five_lower, is_letter_seq, letter_counts, letters, str2arr};

verus! {

/// One finished game as it is saved: the answer and the accepted guesses,
/// in capitals.
pub struct Game {
    pub answer: String,
    pub guesses: Vec<String>,
}

/// Everything saved between runs: the number of games played and the games.
pub struct State {
    pub total_rounds: i32,
    pub games: Vec<Game>,
}

/// What became of a typed guess.
#[derive(Clone, Copy, Debug, PartialEq, Eq, Structural)]
pub enum Outcome {
    /// Not five lowercase letters; nothing changes.
    InvalidShape,
    /// Not an acceptable word; nothing changes.
    NotAcceptable,
    /// Breaks hard mode; nothing changes.
    HardModeViolation,
    /// Accepted and coloured; the next round starts.
    Continue,
    /// Accepted and all green: the game is won in the current round.
    Win,
    /// Accepted, not all green, and it was the sixth round: the game is lost.
    Lose,
}

/// The colours known before any guess: all unknown.
pub open spec fn unknown(n: nat) -> Seq<Status> {
    Seq::new(n, |i: int| Status::X)
}

/// One game in progress.
pub struct Round {
    /// The answer, five lowercase letters.
    pub ans_str: String,
    pub answer: [usize; 5],
    pub ans_times: [i32; 26],
    /// The keyboard: the colour of each letter so far.
    pub status: Vec<Status>,
    /// The colours of the last accepted guess.
    pub result: Vec<Status>,
    pub last_guess: [usize; 5],
    /// The current round, from 1 to 6.
    pub times: i32,
    /// The record of the game.
    pub game: Game,
    /// Won or lost.
    pub finished: bool,
}

impl Round {
    pub open spec fn wf(&self) -> bool {
        &&& is_five_lower(self.ans_str@)
        &&& self.answer@ == letters(self.ans_str@)
        &&& is_letter_seq(self.answer@)
        &&& self.ans_times@ == letter_counts(self.answer@)
        &&& self.status@.len() == 26
        &&& self.result@.len() == 5
        &&& is_letter_seq(self.last_guess@)
        &&& 1 <= self.times <= 6
        &&& self.game.answer@ == ascii_upper(self.ans_str@)
    }

    /// A game with the answer `ans_str`, nothing known yet, in round 1.
    pub fn new(ans_str: &String) -> (r: Round)
        requires
            is_five_lower(ans_str@),
        ensures
            r.wf(),
            r.ans_str@ == ans_str@,
            r.status@ == unknown(26),
            r.result@ == unknown(5),
            r.last_guess@ == seq![0usize, 0, 0, 0, 0],
            r.times == 1,
            r.game.guesses@.len() == 0,
            !r.finished,
    {
        let answer = str2arr(ans_str);
        let ans_times = count_times(&answer);
        let mut status: Vec<Status> = Vec::new();
        let mut i: usize = 0;
        while i < 26
            invariant
                0 <= i <= 26,
                status@ == unknown(i as nat),
            decreases 26 - i,
        {
            status.push(Status::X);
            assert(status@ =~= unknown((i + 1) as nat));
            i = i + 1;
        }
        let result = vec![Status::X, Status::X, Status::X, Status::X, Status::X];
        assert(result@ =~= unknown(5));
        let last_guess = [0usize; 5];
        assert(last_guess@ =~= seq![0usize, 0, 0, 0, 0]);
        Round {
            ans_str: ans_str.clone(),
            answer,
            ans_times,
            status,
            result,
            last_guess,
            times: 1,
            game: Game { answer: to_upper(ans_str.as_str()), guesses: Vec::new() },
            finished: false,
        }
    }

    /// Plays a typed guess. A guess that is turned down changes nothing;
    /// an accepted one is coloured, reported on the keyboard, recorded in
    /// capitals and counted, and ends the game when it is all green or the
    /// sixth.
    pub fn guess(
        &mut self,
        guess_str: &String,
        acceptable: &Vec<String>,
        difficult: bool,
        counter: &mut GuessCounter,
    ) -> (out: Outcome)
        requires
            old(self).wf(),
            !old(self).finished,
            old(counter).wf(),
            old(counter).count_of(guess_str@) < i32::MAX,
        ensures
            final(self).wf(),
            final(counter).wf(),
            input_verdict(guess_str@, acceptable@) == InputCheck::BadShape ==> out
                == Outcome::InvalidShape,
            input_verdict(guess_str@, acceptable@) == InputCheck::NotAcceptable ==> out
                == Outcome::NotAcceptable,
            input_verdict(guess_str@, acceptable@) == InputCheck::Accepted && difficult
                && !hard_mode_ok(old(self).last_guess@, letters(guess_str@), old(self).result@)
                ==> out == Outcome::HardModeViolation,
            input_verdict(guess_str@, acceptable@) == InputCheck::Accepted && (!difficult
                || hard_mode_ok(old(self).last_guess@, letters(guess_str@), old(self).result@))
                ==> !(out == Outcome::InvalidShape || out == Outcome::NotAcceptable || out
                == Outcome::HardModeViolation),
            out == Outcome::InvalidShape || out == Outcome::NotAcceptable || out
                == Outcome::HardModeViolation ==> *final(self) == *old(self) && *final(counter)
                == *old(counter),
            !(out == Outcome::InvalidShape || out == Outcome::NotAcceptable || out
                == Outcome::HardModeViolation) ==> ({
                let g = letters(guess_str@);
                let fb = feedback(old(self).answer@, g);
                &&& is_five_lower(guess_str@)
                &&& listed(acceptable@, guess_str@)
                &&& (difficult ==> hard_mode_ok(old(self).last_guess@, g, old(self).result@))
                &&& final(self).ans_str == old(self).ans_str
                &&& final(self).result@ == fb
                &&& final(self).status@ == keyboard_after(old(self).status@, g, fb)
                &&& final(self).game.answer == old(self).game.answer
                &&& final(self).game.guesses@.len() == old(self).game.guesses@.len() + 1
                &&& final(self).game.guesses@.drop_last() == old(self).game.guesses@
                &&& final(self).game.guesses@.last()@ == ascii_upper(guess_str@)
                &&& final(counter).count_of(guess_str@) == old(counter).count_of(guess_str@) + 1
                &&& forall|x: Seq<char>|
                    x != guess_str@ ==> #[trigger] final(counter).count_of(x) == old(
                        counter,
                    ).count_of(x)
                &&& (g == old(self).answer@ ==> out == Outcome::Win && final(self).finished
                    && final(self).times == old(self).times && final(self).last_guess
                    == old(self).last_guess)
                &&& (g != old(self).answer@ && old(self).times == 6 ==> out == Outcome::Lose
                    && final(self).finished && final(self).times == old(self).times
                    && final(self).last_guess == old(self).last_guess)
                &&& (g != old(self).answer@ && old(self).times < 6 ==> out == Outcome::Continue
                    && !final(self).finished && final(self).times == old(self).times + 1
                    && final(self).last_guess@ == g)
            }),
    {
        match check_input(guess_str, acceptable) {
            InputCheck::BadShape => {
                return Outcome::InvalidShape;
            },
            InputCheck::NotAcceptable => {
                return Outcome::NotAcceptable;
            },
            InputCheck::Accepted => {},
        }
        let guess = str2arr(guess_str);
        if difficult && !difficult_valid(&self.last_guess, &guess, &self.result) {
            return Outcome::HardModeViolation;
        }
        counter.update_guess_arr(guess_str);
        self.game.guesses.push(to_upper(guess_str.as_str()));
        let result = evaluate(&self.answer, &guess, &self.ans_times);
        update_keyboard(&mut self.status, &guess, &result);
        let mut success = true;
        let mut i: usize = 0;
        while i < 5
            invariant
                0 <= i <= 5,
                result@ == feedback(self.answer@, guess@),
                is_letter_seq(self.answer@),
                is_letter_seq(guess@),
                success == forall|k: int| 0 <= k < i ==> #[trigger] guess@[k] == self.answer@[k],
            decreases 5 - i,
        {
            if result[i] != Status::G {
                success = false;
            }
            i = i + 1;
        }
        assert(success == (guess@ == self.answer@)) by {
            if success {
                assert(guess@ =~= self.answer@);
            }
        }
        self.result = result;
        if success {
            self.finished = true;
            return Outcome::Win;
        }
        if self.times == 6 {
            self.finished = true;
            return Outcome::Lose;
        }
        self.times = self.times + 1;
        self.last_guess = guess;
        Outcome::Continue
    }
}

} // verus!
