use wordle::answers::{answer_from_order, final_len, get_final_index, get_final_random, seeded_answer};
use wordle::feedback::{evaluate, get_index, pattern_histogram, update_keyboard};
use wordle::filter::{difficult_valid, is_pos_word, update_pos};
use wordle::status::{key_letter, Status};
use wordle::word::{cha2num, count_times, str2arr};

fn s(x: &str) -> String {
    x.to_string()
}

fn colours(answer: &str, guess: &str) -> String {
    let a = str2arr(&s(answer));
    let g = str2arr(&s(guess));
    let t = count_times(&a);
    evaluate(&a, &g, &t).iter().map(|x| x.letter()).collect()
}

fn parse_colours(x: &str) -> Vec<Status> {
    x.chars()
        .map(|c| match c {
            'G' => Status::G,
            'Y' => Status::Y,
            'R' => Status::R,
            _ => Status::X,
        })
        .collect()
}

#[test]
fn update_raises_only() {
    let mut k = Status::X;
    k.update(Status::R);
    assert_eq!(k, Status::R);
    k.update(Status::Y);
    assert_eq!(k, Status::Y);
    k.update(Status::R);
    assert_eq!(k, Status::Y);
    k.update(Status::G);
    assert_eq!(k, Status::G);
    k.update(Status::Y);
    assert_eq!(k, Status::G);
    k.update(Status::X);
    assert_eq!(k, Status::G);
}

#[test]
fn update_order_does_not_matter() {
    let all = [Status::G, Status::Y, Status::R, Status::X];
    for s0 in all {
        for a in all {
            for b in all {
                let mut p = s0;
                p.update(a);
                p.update(b);
                let mut q = s0;
                q.update(b);
                q.update(a);
                assert_eq!(p, q);
            }
        }
    }
}

#[test]
fn letters_and_counts() {
    assert_eq!(cha2num('a'), 0);
    assert_eq!(cha2num('z'), 25);
    assert_eq!(str2arr(&s("crane")), [2, 17, 0, 13, 4]);
    let t = count_times(&str2arr(&s("speed")));
    assert_eq!(t[4], 2);
    assert_eq!(t[18], 1);
    assert_eq!(t[0], 0);
    assert_eq!(t.iter().sum::<i32>(), 5);
    assert_eq!(key_letter(0), 'A');
    assert_eq!(key_letter(25), 'Z');
    assert_eq!(Status::Y.letter(), 'Y');
}

#[test]
fn colours_of_guesses() {
    assert_eq!(colours("crane", "react"), "YYGYR");
    assert_eq!(colours("abbey", "babes"), "YYGGR");
    assert_eq!(colours("apple", "paper"), "YYGYR");
    assert_eq!(colours("speed", "eerie"), "YYRRR");
    assert_eq!(colours("crane", "crane"), "GGGGG");
    assert_eq!(colours("aabbb", "bbaaa"), "YYYYR");
    assert_eq!(colours("llama", "hello"), "RRYYR");
}

#[test]
fn later_green_turns_earlier_copy_red() {
    // The first `e` of the guess would be yellow, but the answer's only `e`
    // is matched in place later on.
    assert_eq!(colours("crane", "eagle"), "RYRRG");
}

#[test]
fn coloured_count_is_common_count() {
    let words = ["crane", "speed", "eerie", "llama", "hello", "abbey", "babes", "aabbb", "bbaaa"];
    for a in words {
        for g in words {
            let c = colours(a, g);
            for letter in 'a'..='z' {
                let shown = g
                    .chars()
                    .zip(c.chars())
                    .filter(|(x, col)| *x == letter && (*col == 'G' || *col == 'Y'))
                    .count();
                let in_guess = g.chars().filter(|x| *x == letter).count();
                let in_answer = a.chars().filter(|x| *x == letter).count();
                assert_eq!(shown, in_guess.min(in_answer));
            }
            assert_eq!(c == "GGGGG", a == g);
        }
    }
}

#[test]
fn pattern_numbers() {
    let a = str2arr(&s("crane"));
    let t = count_times(&a);
    assert_eq!(get_index(&a, &s("crane"), &t), 0);
    assert_eq!(get_index(&a, &s("react"), &t), 581);
    let l = str2arr(&s("llama"));
    assert_eq!(get_index(&l, &s("hello"), &count_times(&l)), 602);
    // a budget of zero for every letter makes every misplaced letter red
    let zero = [0i32; 26];
    assert_eq!(get_index(&a, &s("react"), &zero), 2 + 2 * 4 + 0 + 2 * 64 + 2 * 256);
}

#[test]
fn histogram_counts_every_word() {
    let pos = vec![s("crane"), s("react"), s("trace"), s("crate"), s("caret")];
    let h = pattern_histogram(&s("crane"), &pos);
    assert_eq!(h.iter().sum::<i32>(), 5);
    assert_eq!(h[0], 1);
    for w in &pos {
        let a = str2arr(w);
        assert!(h[get_index(&a, &s("crane"), &count_times(&a))] >= 1);
    }
}

#[test]
fn histogram_scores_the_word_as_a_guess() {
    let pos = vec![s("abcde"), s("bzzzz"), s("zzbzz")];
    let h = pattern_histogram(&s("abcde"), &pos);
    assert_eq!(h.iter().filter(|c| **c > 0).count(), 2);
    assert_eq!(h[0], 1);
    assert_eq!(h.iter().max(), Some(&2));
}

#[test]
fn keyboard_takes_best_colour() {
    let mut kb = vec![Status::X; 26];
    let g = str2arr(&s("eerie"));
    let r = parse_colours("YYRRR");
    update_keyboard(&mut kb, &g, &r);
    assert_eq!(kb[4], Status::Y);
    assert_eq!(kb[17], Status::R);
    assert_eq!(kb[8], Status::R);
    assert_eq!(kb[0], Status::X);
    let g2 = str2arr(&s("speed"));
    update_keyboard(&mut kb, &g2, &parse_colours("GGGGG"));
    assert_eq!(kb[4], Status::G);
    assert_eq!(kb[17], Status::R);
}

#[test]
fn hard_mode_checks() {
    let last = str2arr(&s("crane"));
    let r = parse_colours("GRYRR");
    assert!(difficult_valid(&last, &str2arr(&s("chain")), &r));
    assert!(!difficult_valid(&last, &str2arr(&s("chimp")), &r));
    assert!(!difficult_valid(&last, &str2arr(&s("shaft")), &r));
    // before any guess everything is allowed
    let none = vec![Status::X; 5];
    assert!(difficult_valid(&[0; 5], &str2arr(&s("zzzzz")), &none));
    // a letter shown twice must be used twice
    let last2 = str2arr(&s("eerie"));
    let r2 = parse_colours("YYRRR");
    assert!(difficult_valid(&last2, &str2arr(&s("speed")), &r2));
    assert!(!difficult_valid(&last2, &str2arr(&s("spend")), &r2));
}

#[test]
fn answer_passes_hard_mode_and_filter() {
    let words = ["crane", "speed", "eerie", "llama", "hello", "abbey", "babes"];
    for a in words {
        for g in words {
            let ga = str2arr(&s(g));
            let aa = str2arr(&s(a));
            let r = evaluate(&aa, &ga, &count_times(&aa));
            assert!(is_pos_word(&s(a), &ga, &r));
            assert!(difficult_valid(&ga, &aa, &r));
        }
    }
}

#[test]
fn possible_words() {
    let g = str2arr(&s("eerie"));
    let r = parse_colours("YYRRR");
    assert!(is_pos_word(&s("speed"), &g, &r));
    assert!(!is_pos_word(&s("spend"), &g, &r));
    assert!(!is_pos_word(&s("sheer"), &g, &r));
    let g2 = str2arr(&s("crane"));
    let r2 = parse_colours("GRYRR");
    assert!(is_pos_word(&s("cloak"), &g2, &r2));
    assert!(!is_pos_word(&s("clamp"), &g2, &r2));
    assert!(!is_pos_word(&s("coast"), &g2, &parse_colours("GRRRR")));
}

#[test]
fn narrowing_possible_words() {
    let acceptable = vec![s("speed"), s("spend"), s("sheer"), s("steed"), s("crane")];
    let mut pos: Vec<String> = Vec::new();
    update_pos(&mut pos, &acceptable, &str2arr(&s("eerie")), &parse_colours("YYRRR"));
    assert_eq!(pos, vec![s("speed"), s("steed")]);
    update_pos(&mut pos, &acceptable, &str2arr(&s("steed")), &parse_colours("GRGGG"));
    assert_eq!(pos, vec![s("speed")]);
    // an empty list starts over from the acceptable words
    let mut fresh: Vec<String> = Vec::new();
    update_pos(&mut fresh, &acceptable, &[0; 5], &vec![Status::X; 5]);
    assert_eq!(fresh, acceptable);
}

#[test]
fn answer_words() {
    let finals = vec![s("apple"), s("crane"), s("speed"), s("llama")];
    assert_eq!(final_len(&finals), 4);
    assert_eq!(get_final_index(&finals, 2), s("speed"));
    for _ in 0..20 {
        assert!(finals.contains(&get_final_random(&finals)));
    }
    assert_eq!(answer_from_order(&finals, &vec![3, 1, 0, 2], 1), s("crane"));
}

#[test]
fn seeded_answers_repeat_per_seed_and_differ_per_day() {
    let finals: Vec<String> = ["apple", "crane", "speed", "llama", "hello", "eerie", "abbey"]
        .iter()
        .map(|w| s(w))
        .collect();
    let days: Vec<String> = (0..finals.len()).map(|d| seeded_answer(&finals, 42, d)).collect();
    let again: Vec<String> = (0..finals.len()).map(|d| seeded_answer(&finals, 42, d)).collect();
    assert_eq!(days, again);
    let mut sorted = days.clone();
    sorted.sort();
    let mut expected = finals.clone();
    expected.sort();
    assert_eq!(sorted, expected);
}

#[test]
fn different_colourings_get_different_numbers() {
    let words = ["crane", "speed", "eerie", "llama", "hello", "abbey", "babes", "react", "trace"];
    let mut seen: Vec<(String, usize)> = Vec::new();
    for a in words {
        let aa = str2arr(&s(a));
        let t = count_times(&aa);
        for g in words {
            let c = colours(a, g);
            let idx = get_index(&aa, &s(g), &t);
            assert!(idx < 1024);
            for (c2, i2) in &seen {
                assert_eq!(*c2 == c, *i2 == idx);
            }
            seen.push((c, idx));
        }
    }
}

#[test]
fn seeded_order_is_shuffled() {
    let finals: Vec<String> = ["apple", "crane", "speed", "llama", "hello", "eerie", "abbey", "react"]
        .iter()
        .map(|w| s(w))
        .collect();
    let mut moved = false;
    for seed in [1u64, 2, 3, 42] {
        for d in 0..finals.len() {
            if seeded_answer(&finals, seed, d) != finals[d] {
                moved = true;
            }
        }
    }
    assert!(moved);
}

#[test]
fn any_order_of_reports_gives_the_best_colour() {
    let reports = [Status::R, Status::X, Status::Y, Status::R, Status::G, Status::Y];
    let orders: [[usize; 6]; 3] = [[0, 1, 2, 3, 4, 5], [5, 4, 3, 2, 1, 0], [2, 4, 0, 5, 1, 3]];
    for o in orders {
        let mut k = Status::X;
        for i in o {
            k.update(reports[i]);
        }
        assert_eq!(k, Status::G);
        for i in o {
            k.update(reports[i]);
        }
        assert_eq!(k, Status::G);
    }
    let mut k = Status::R;
    for r in [Status::X, Status::R, Status::Y] {
        k.update(r);
    }
    assert_eq!(k, Status::Y);
}

#[test]
fn answer_survives_every_round() {
    let acceptable = vec![s("speed"), s("spend"), s("sheer"), s("steed"), s("crane"), s("eerie"), s("hello")];
    let answer = s("steed");
    let a = str2arr(&answer);
    let t = count_times(&a);
    let mut pos: Vec<String> = Vec::new();
    for g in ["crane", "eerie", "speed", "hello"] {
        let ga = str2arr(&s(g));
        let r = evaluate(&a, &ga, &t);
        update_pos(&mut pos, &acceptable, &ga, &r);
        assert!(pos.contains(&answer));
    }
    assert_eq!(pos, vec![s("steed")]);
}

#[test]
fn key_letters_past_z() {
    assert_eq!(key_letter(26), '[');
    assert_eq!(key_letter(256), 'A');
}

#[test]
fn colours_read_back_from_index_keep_the_answer() {
    let words = ["crane", "speed", "eerie", "llama", "hello", "abbey", "babes"];
    for a in words {
        for g in words {
            let aa = str2arr(&s(a));
            let idx = get_index(&aa, &s(g), &count_times(&aa));
            let r: Vec<Status> = (0..5)
                .map(|i| match (idx / 4usize.pow(i)) % 4 {
                    0 => Status::G,
                    1 => Status::Y,
                    2 => Status::R,
                    _ => Status::X,
                })
                .collect();
            let ga = str2arr(&s(g));
            assert!(is_pos_word(&s(a), &ga, &r));
            assert!(difficult_valid(&ga, &aa, &r));
        }
    }
}
