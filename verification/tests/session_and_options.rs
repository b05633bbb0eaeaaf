use wordle::args::{
    advance_day, args_parse, default_options, get_day, get_seed, is_config, is_day, is_difficult,
    is_pos, is_random, is_rec, is_seed, is_state, is_stats, is_tty, is_word, modes_conflict,
};
use wordle::config::{apply_config, finish_options, Config};
use wordle::counter::GuessCounter;
use wordle::favorites::{favorite_words, rank_entries};
use wordle::game::{Game, Outcome, Round, State};
use wordle::input::{check_input, ends_run, valid, InputCheck};
use wordle::number::parse_decimal;
use wordle::session::{is_empty_state, undealt_words, Session};
use wordle::status::Status;
use wordle::text::{contains_word, str_eq, to_lower, to_upper};
use wordle::wordlist::{all_listed, load_word_lists, prepare_words, split_lines};

fn s(x: &str) -> String {
    x.to_string()
}

fn words(xs: &[&str]) -> Vec<String> {
    xs.iter().map(|w| s(w)).collect()
}

fn args(xs: &[&str]) -> Vec<String> {
    words(xs)
}

fn acceptable() -> Vec<String> {
    words(&["crane", "react", "trace", "speed", "eerie", "steed", "spend", "hello", "llama", "zzzzz"])
}

#[test]
fn input_checks() {
    let acc = acceptable();
    assert_eq!(check_input(&s("crane"), &acc), InputCheck::Accepted);
    assert_eq!(check_input(&s("cran"), &acc), InputCheck::BadShape);
    assert_eq!(check_input(&s("cranes"), &acc), InputCheck::BadShape);
    assert_eq!(check_input(&s("CRANE"), &acc), InputCheck::BadShape);
    assert_eq!(check_input(&s("crané"), &acc), InputCheck::BadShape);
    assert_eq!(check_input(&s("abcde"), &acc), InputCheck::NotAcceptable);
    assert!(valid(&s("speed"), &acc));
    assert!(!valid(&s("abcde"), &acc));
    assert!(!valid(&s(""), &acc));
}

#[test]
fn round_won_on_third_guess() {
    let acc = acceptable();
    let mut counter = GuessCounter::new();
    let mut round = Round::new(&s("speed"));
    assert_eq!(round.game.answer, s("SPEED"));
    assert_eq!(round.guess(&s("xyz"), &acc, false, &mut counter), Outcome::InvalidShape);
    assert_eq!(round.guess(&s("abcde"), &acc, false, &mut counter), Outcome::NotAcceptable);
    assert_eq!(round.times, 1);
    assert_eq!(round.guess(&s("eerie"), &acc, false, &mut counter), Outcome::Continue);
    assert_eq!(round.times, 2);
    let shown: String = round.result.iter().map(|c| c.letter()).collect();
    assert_eq!(shown, "YYRRR");
    assert_eq!(round.status[4], Status::Y);
    assert_eq!(round.guess(&s("steed"), &acc, false, &mut counter), Outcome::Continue);
    assert_eq!(round.guess(&s("speed"), &acc, false, &mut counter), Outcome::Win);
    assert!(round.finished);
    assert_eq!(round.times, 3);
    assert_eq!(round.game.guesses, words(&["EERIE", "STEED", "SPEED"]));
    assert_eq!(round.status[4], Status::G);
    assert_eq!(counter.entries.len(), 3);
}

#[test]
fn round_lost_after_six() {
    let acc = acceptable();
    let mut counter = GuessCounter::new();
    let mut round = Round::new(&s("hello"));
    for _ in 0..5 {
        assert_eq!(round.guess(&s("zzzzz"), &acc, false, &mut counter), Outcome::Continue);
    }
    assert_eq!(round.times, 6);
    assert_eq!(round.guess(&s("crane"), &acc, false, &mut counter), Outcome::Lose);
    assert!(round.finished);
    assert_eq!(round.game.guesses.len(), 6);
    assert_eq!(counter.entries, vec![(s("zzzzz"), 5), (s("crane"), 1)]);
}

#[test]
fn hard_mode_refuses_and_changes_nothing() {
    let acc = acceptable();
    let mut counter = GuessCounter::new();
    let mut round = Round::new(&s("speed"));
    assert_eq!(round.guess(&s("eerie"), &acc, true, &mut counter), Outcome::Continue);
    assert_eq!(round.guess(&s("spend"), &acc, true, &mut counter), Outcome::HardModeViolation);
    assert_eq!(round.times, 2);
    assert_eq!(round.game.guesses.len(), 1);
    assert_eq!(round.guess(&s("spend"), &acc, false, &mut counter), Outcome::Continue);
}

#[test]
fn guess_counter() {
    let mut c = GuessCounter::new();
    c.update_guess_arr(&s("crane"));
    c.update_guess_arr(&s("speed"));
    c.update_guess_arr(&s("crane"));
    assert_eq!(c.entries, vec![(s("crane"), 2), (s("speed"), 1)]);
}

#[test]
fn favourites_rank_by_count_then_word() {
    let mut c = GuessCounter::new();
    for (w, n) in [("bbbbb", 1), ("aaaaa", 3), ("ccccc", 3), ("ddddd", 2)] {
        for _ in 0..n {
            c.update_guess_arr(&s(w));
        }
    }
    assert_eq!(
        rank_entries(&c.entries),
        vec![(s("aaaaa"), 3), (s("ccccc"), 3), (s("ddddd"), 2), (s("bbbbb"), 1)]
    );
    assert_eq!(favorite_words(&c).len(), 4);
}

#[test]
fn favourites_skip_rest_of_fifth_count_then_list_lower_counts() {
    let mut c = GuessCounter::new();
    let plan = [("aaaaa", 5), ("bbbbb", 4), ("ccccc", 3), ("ddddd", 3), ("eeeee", 2), ("fffff", 2), ("ggggg", 2), ("hhhhh", 1)];
    for (w, n) in plan {
        for _ in 0..n {
            c.update_guess_arr(&s(w));
        }
    }
    assert_eq!(
        favorite_words(&c),
        vec![
            (s("aaaaa"), 5),
            (s("bbbbb"), 4),
            (s("ccccc"), 3),
            (s("ddddd"), 3),
            (s("eeeee"), 2),
            (s("hhhhh"), 1),
        ]
    );
}

#[test]
fn undealt_words_keep_order() {
    let finals = words(&["crane", "speed", "hello", "llama"]);
    assert_eq!(undealt_words(&finals, &words(&["hello", "zzzzz"])), words(&["crane", "speed", "llama"]));
    assert_eq!(undealt_words(&finals, &finals), Vec::<String>::new());
}

#[test]
fn fresh_answers_are_dealt_until_none_is_left() {
    let finals = words(&["crane", "speed", "hello"]);
    let mut session = Session::new();
    assert!(session.register_answer(&s("speed")));
    let a = session.deal_fresh_answer(&finals);
    let b = session.deal_fresh_answer(&finals);
    assert!(a != b && a != "speed" && b != "speed");
    let mut dealt = session.answers.clone();
    dealt.sort();
    assert_eq!(dealt, words(&["crane", "hello", "speed"]));
}

#[test]
fn options_settled_with_configuration() {
    let o = args_parse(&args(&["wordle", "-r", "-w", "crane"]), false).unwrap();
    assert!(finish_options(o, None).is_none());
    let o = args_parse(&args(&["wordle", "-d", "2"]), false).unwrap();
    assert!(finish_options(o, None).is_none());
    let o = args_parse(&args(&["wordle", "-s", "7"]), false).unwrap();
    assert!(finish_options(o, None).is_none());
    let cfg = || Config { random: Some(true), difficult: None, stats: None, day: None, seed: None, final_set: None, acceptable_set: None, state: None, word: None };
    // the file's random mode settles the conflict only when the file is named
    let o = args_parse(&args(&["wordle", "-d", "2", "-c", "c.json"]), false).unwrap();
    let done = finish_options(o, Some(cfg())).unwrap();
    assert!(done.random && done.day == 2);
    let o = args_parse(&args(&["wordle", "-d", "2"]), false).unwrap();
    assert!(finish_options(o, Some(cfg())).is_none());
    let o = args_parse(&args(&["wordle", "-w", "crane"]), false).unwrap();
    assert!(finish_options(o, None).is_some());
}

#[test]
fn word_lists_together() {
    let (f, a) = load_word_lists("Speed\ncrane\n", "apple\nSPEED\ncrane\n").unwrap();
    assert_eq!(f, words(&["crane", "speed"]));
    assert_eq!(a, words(&["apple", "crane", "speed"]));
    assert!(load_word_lists("crane\ncrane\n", "crane\n").is_none());
    assert!(load_word_lists("crane\n", "crane\nCrane\n").is_none());
    assert!(load_word_lists("crane\nhello\n", "crane\n").is_none());
}

#[test]
fn session_statistics() {
    let mut session = Session::new();
    session.update_stats(true, 3);
    session.update_stats(true, 5);
    session.update_stats(false, 0);
    assert_eq!(session.total_success, 2);
    assert_eq!(session.total_failure, 1);
    assert_eq!(session.total_success_guess_times, 8);
    session.update_state(Game { answer: s("SPEED"), guesses: words(&["SPEED"]) });
    assert_eq!(session.state.total_rounds, 1);
    assert_eq!(session.state.games.len(), 1);
}

#[test]
fn random_answers_are_not_repeated() {
    let mut session = Session::new();
    assert!(session.register_answer(&s("crane")));
    assert!(session.register_answer(&s("speed")));
    assert!(!session.register_answer(&s("crane")));
    assert_eq!(session.answers, words(&["crane", "speed"]));
}

#[test]
fn replaying_saved_games() {
    let state = State {
        total_rounds: 3,
        games: vec![
            Game { answer: s("SPEED"), guesses: words(&["EERIE", "STEED", "SPEED"]) },
            Game { answer: s("HELLO"), guesses: words(&["ZZZZZ", "CRANE"]) },
            Game { answer: s("CRANE"), guesses: vec![] },
            Game { answer: s("LLAMA"), guesses: words(&["LLAMA"]) },
        ],
    };
    let mut session = Session::new();
    session.parse_state(&state);
    assert_eq!(session.answers, words(&["speed", "hello", "crane"]));
    assert_eq!(session.total_success, 1);
    assert_eq!(session.total_failure, 1);
    assert_eq!(session.total_success_guess_times, 3);
    assert_eq!(session.counter.entries.len(), 5);
    assert!(session.counter.entries.contains(&(s("zzzzz"), 1)));
    assert!(!session.counter.entries.iter().any(|(w, _)| w == "llama"));
    assert_eq!(session.state.total_rounds, 0);
}

#[test]
fn played_game_replays_as_played() {
    let acc = acceptable();
    let mut live = Session::new();
    let mut round = Round::new(&s("speed"));
    round.guess(&s("eerie"), &acc, false, &mut live.counter);
    let out = round.guess(&s("speed"), &acc, false, &mut live.counter);
    assert_eq!(out, Outcome::Win);
    live.update_stats(true, round.times);
    live.update_state(round.game);
    let saved = State { total_rounds: live.state.total_rounds, games: vec![Game {
        answer: live.state.games[0].answer.clone(),
        guesses: live.state.games[0].guesses.clone(),
    }] };
    let mut replay = Session::new();
    replay.parse_state(&saved);
    assert_eq!(replay.total_success, live.total_success);
    assert_eq!(replay.total_failure, live.total_failure);
    assert_eq!(replay.total_success_guess_times, live.total_success_guess_times);
    assert_eq!(replay.counter.entries, live.counter.entries);
}

#[test]
fn empty_state_text() {
    assert!(is_empty_state("{}"));
    assert!(!is_empty_state("{ }"));
    assert!(!is_empty_state(""));
}

#[test]
fn command_line() {
    let o = args_parse(&args(&["wordle", "-w", "crane", "-D", "--stats", "-p", "-R"]), true).unwrap();
    assert!(is_tty(&o) && is_word(&o) && is_difficult(&o) && is_stats(&o) && is_pos(&o) && is_rec(&o));
    assert!(!is_random(&o) && !is_day(&o) && !is_seed(&o) && !is_state(&o) && !is_config(&o));
    assert_eq!(o.word_value, Some(s("crane")));
    assert!(!modes_conflict(&o));

    let o = args_parse(&args(&["wordle", "--random", "--day", "3", "-s", "+42", "-S", "st.json", "-c", "cfg.json"]), false).unwrap();
    assert!(is_random(&o) && is_day(&o) && is_seed(&o) && is_state(&o) && is_config(&o));
    assert_eq!(get_day(&o), 2);
    assert_eq!(get_seed(&o), 42);
    assert_eq!(o.state_path, s("st.json"));
    assert_eq!(o.config_path, s("cfg.json"));
    assert!(!modes_conflict(&o));

    // a value right after its switch is not read as a switch
    let o = args_parse(&args(&["wordle", "-w", "-r"]), false).unwrap();
    assert!(is_word(&o) && !is_random(&o));
    assert_eq!(o.word_value, Some(s("-r")));

    assert!(args_parse(&args(&["wordle", "-r", "-d", "x"]), false).is_none());
    assert!(args_parse(&args(&["wordle", "-r", "-s", "-1"]), false).is_none());

    let o = args_parse(&args(&["wordle", "-d", "2"]), false).unwrap();
    assert!(modes_conflict(&o));
    let o = args_parse(&args(&["wordle", "-w", "crane", "-r"]), false).unwrap();
    assert!(modes_conflict(&o));
}

#[test]
fn days_advance_only_when_counted() {
    let mut o = args_parse(&args(&["wordle", "-r", "-d", "5"]), false).unwrap();
    advance_day(&mut o);
    assert_eq!(o.day, 6);
    let mut p = default_options(false);
    advance_day(&mut p);
    assert_eq!(p.day, 1);
}

#[test]
fn configuration_fills_what_the_command_line_left() {
    let mut o = args_parse(&args(&["wordle", "-t"]), false).unwrap();
    let cfg = Config {
        random: Some(true),
        difficult: Some(false),
        stats: Some(false),
        day: Some(4),
        seed: Some(7),
        final_set: Some(s("f.txt")),
        acceptable_set: None,
        state: Some(s("s.json")),
        word: None,
    };
    apply_config(&mut o, &cfg);
    assert!(o.random && !o.difficult && o.stats);
    assert!(o.day_flag && o.day == 4 && o.seed_flag && o.seed == 7);
    assert!(o.final_flag && o.final_path == s("f.txt"));
    assert!(!o.acceptable_flag);
    assert!(o.state_flag && o.state_path == s("s.json"));
    assert!(!o.word && o.word_value.is_none());

    let mut q = args_parse(&args(&["wordle", "-w", "hello"]), false).unwrap();
    let cfg2 = Config { random: None, difficult: None, stats: None, day: None, seed: None, final_set: None, acceptable_set: None, state: None, word: Some(s("crane")) };
    apply_config(&mut q, &cfg2);
    assert_eq!(q.word_value, Some(s("hello")));
}

#[test]
fn numbers() {
    assert_eq!(parse_decimal("42", u64::MAX), Some(42));
    assert_eq!(parse_decimal("+7", u64::MAX), Some(7));
    assert_eq!(parse_decimal("007", 10), Some(7));
    assert_eq!(parse_decimal("", u64::MAX), None);
    assert_eq!(parse_decimal("+", u64::MAX), None);
    assert_eq!(parse_decimal("-1", u64::MAX), None);
    assert_eq!(parse_decimal("1 ", u64::MAX), None);
    assert_eq!(parse_decimal("11", 10), None);
    assert_eq!(parse_decimal("18446744073709551615", u64::MAX), Some(u64::MAX));
    assert_eq!(parse_decimal("18446744073709551616", u64::MAX), None);
    assert_eq!(parse_decimal("99999999999999999999999", u64::MAX), None);
}

#[test]
fn texts() {
    assert_eq!(to_upper("crane"), "CRANE");
    assert_eq!(to_lower("CrAnE-1é"), "crane-1é");
    assert!(str_eq("abc", "abc"));
    assert!(!str_eq("abc", "abd"));
    assert!(contains_word(&words(&["a", "b"]), &s("b")));
    assert!(!contains_word(&words(&["a", "b"]), &s("c")));
}

#[test]
fn word_files() {
    assert_eq!(split_lines("a\r\nb\n\nc"), words(&["a", "b", "", "c"]));
    assert_eq!(split_lines("a\n"), words(&["a"]));
    assert_eq!(split_lines(""), Vec::<String>::new());
    assert_eq!(split_lines("x\ry"), words(&["x\ry"]));
    assert_eq!(prepare_words("Speed\ncrane\nAPPLE\n"), Some(words(&["apple", "crane", "speed"])));
    assert_eq!(prepare_words("crane\nCRANE\n"), None);
    let finals = words(&["crane", "speed"]);
    assert!(all_listed(&finals, &words(&["apple", "crane", "speed"])));
    assert!(!all_listed(&finals, &words(&["apple", "crane"])));
}

#[test]
fn ranking_does_not_depend_on_guess_order() {
    let mut c1 = GuessCounter::new();
    let mut c2 = GuessCounter::new();
    let first = ["speed", "crane", "crane", "hello", "abbey", "speed", "zzzzz"];
    for w in first {
        c1.update_guess_arr(&s(w));
    }
    for w in first.iter().rev() {
        c2.update_guess_arr(&s(w));
    }
    assert_ne!(c1.entries, c2.entries);
    assert_eq!(rank_entries(&c1.entries), rank_entries(&c2.entries));
    assert_eq!(favorite_words(&c1), favorite_words(&c2));
}

#[test]
fn another_game_reply() {
    assert!(ends_run("N\n"));
    assert!(ends_run("N"));
    assert!(!ends_run("n\n"));
    assert!(!ends_run("Y\n"));
    assert!(!ends_run("\n"));
    assert!(!ends_run("NN\n"));
    assert!(ends_run("Nx"));
}

#[test]
fn answers_by_mode() {
    let finals = words(&["crane", "speed", "hello"]);
    let mut session = Session::new();
    let o = args_parse(&args(&["wordle", "-w", "llama"]), false).unwrap();
    assert_eq!(session.deal_answer(&o, &finals), Some(s("llama")));
    let o = args_parse(&args(&["wordle"]), false).unwrap();
    assert_eq!(session.deal_answer(&o, &finals), None);
    let o = args_parse(&args(&["wordle", "-r", "-s", "9", "-d", "2"]), false).unwrap();
    let w = session.deal_answer(&o, &finals).unwrap();
    assert_eq!(w, wordle::answers::seeded_answer(&finals, 9, 1));
    assert!(session.answers.is_empty());
    let o = args_parse(&args(&["wordle", "-r"]), false).unwrap();
    let w = session.deal_answer(&o, &finals).unwrap();
    assert!(finals.contains(&w));
    assert_eq!(session.answers, vec![w]);
}
