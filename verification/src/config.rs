use vstd::prelude::*;
use crate::args::{modes_conflict, Options};

verus! {

/// Settings read from a configuration file; each is optional.
pub struct Config {
    pub random: Option<bool>,
    pub difficult: Option<bool>,
    pub stats: Option<bool>,
    pub day: Option<i32>,
    pub seed: Option<u64>,
    pub final_set: Option<String>,
    pub acceptable_set: Option<String>,
    pub state: Option<String>,
    pub word: Option<String>,
}

/// The settings after a configuration is taken in: a setting of the file
/// counts only where the command line did not switch it on. A day is taken
/// with `as usize`, so a negative one wraps.
pub open spec fn config_applied(m: Options, c: Config) -> Options {
    let take_random = c.random is Some && !m.random;
    let take_difficult = c.difficult is Some && !m.difficult;
    let take_stats = c.stats is Some && !m.stats;
    let take_day = c.day is Some && !m.day_flag;
    let take_seed = c.seed is Some && !m.seed_flag;
    let take_final = c.final_set is Some && !m.final_flag;
    let take_acceptable = c.acceptable_set is Some && !m.acceptable_flag;
    let take_state = c.state is Some && !m.state_flag;
    let take_word = c.word is Some && !m.word;
    Options {
        random: if take_random {
            c.random->0
        } else {
            m.random
        },
        difficult: if take_difficult {
            c.difficult->0
        } else {
            m.difficult
        },
        stats: if take_stats {
            c.stats->0
        } else {
            m.stats
        },
        day_flag: m.day_flag || take_day,
        day: if take_day {
            c.day->0 as usize
        } else {
            m.day
        },
        seed_flag: m.seed_flag || take_seed,
        seed: if take_seed {
            c.seed->0
        } else {
            m.seed
        },
        final_flag: m.final_flag || take_final,
        final_path: if take_final {
            c.final_set->0
        } else {
            m.final_path
        },
        acceptable_flag: m.acceptable_flag || take_acceptable,
        acceptable_path: if take_acceptable {
            c.acceptable_set->0
        } else {
            m.acceptable_path
        },
        state_flag: m.state_flag || take_state,
        state_path: if take_state {
            c.state->0
        } else {
            m.state_path
        },
        word: m.word || take_word,
        word_value: if take_word {
            c.word
        } else {
            m.word_value
        },
        ..m
    }
}

/// Takes in the settings of a configuration file.
pub fn apply_config(o: &mut Options, config: &Config)
    ensures
        *final(o) == config_applied(*old(o), *config),
        config.word is Some && !old(o).word ==> final(o).word && final(o).word_value
            == config.word,
        config.word is None || old(o).word ==> final(o).word == old(o).word
            && final(o).word_value == old(o).word_value,
{
    take_switches(o, config);
    take_numbers(o, config);
    take_paths(o, config);
    take_word(o, config);
}

#[verifier::rlimit(100)]
fn take_switches(o: &mut Options, config: &Config)
    ensures
        *final(o) == (Options {
            random: if config.random is Some && !old(o).random {
                config.random->0
            } else {
                old(o).random
            },
            difficult: if config.difficult is Some && !old(o).difficult {
                config.difficult->0
            } else {
                old(o).difficult
            },
            stats: if config.stats is Some && !old(o).stats {
                config.stats->0
            } else {
                old(o).stats
            },
            ..*old(o)
        }),
{
    match config.random {
        Some(v) => {
            if !o.random {
                o.random = v;
            }
        },
        None => {},
    }
    match config.difficult {
        Some(v) => {
            if !o.difficult {
                o.difficult = v;
            }
        },
        None => {},
    }
    match config.stats {
        Some(v) => {
            if !o.stats {
                o.stats = v;
            }
        },
        None => {},
    }
}

#[verifier::rlimit(100)]
fn take_word(o: &mut Options, config: &Config)
    ensures
        *final(o) == (Options {
            word: old(o).word || (config.word is Some && !old(o).word),
            word_value: if config.word is Some && !old(o).word {
                config.word
            } else {
                old(o).word_value
            },
            ..*old(o)
        }),
{
    match &config.word {
        Some(v) => {
            if !o.word {
                o.word = true;
                o.word_value = Some(v.clone());
            }
        },
        None => {},
    }
}

#[verifier::rlimit(100)]
fn take_numbers(o: &mut Options, config: &Config)
    ensures
        *final(o) == (Options {
            day_flag: old(o).day_flag || (config.day is Some && !old(o).day_flag),
            day: if config.day is Some && !old(o).day_flag {
                config.day->0 as usize
            } else {
                old(o).day
            },
            seed_flag: old(o).seed_flag || (config.seed is Some && !old(o).seed_flag),
            seed: if config.seed is Some && !old(o).seed_flag {
                config.seed->0
            } else {
                old(o).seed
            },
            ..*old(o)
        }),
{
    if let Some(v) = config.day {
        if !o.day_flag {
            o.day_flag = true;
            o.day = v as usize;
        }
    }
    if let Some(v) = config.seed {
        if !o.seed_flag {
            o.seed_flag = true;
            o.seed = v;
        }
    }
}

#[verifier::rlimit(100)]
fn take_paths(o: &mut Options, config: &Config)
    ensures
        *final(o) == (Options {
            final_flag: old(o).final_flag || (config.final_set is Some && !old(o).final_flag),
            final_path: if config.final_set is Some && !old(o).final_flag {
                config.final_set->0
            } else {
                old(o).final_path
            },
            acceptable_flag: old(o).acceptable_flag || (config.acceptable_set is Some
                && !old(o).acceptable_flag),
            acceptable_path: if config.acceptable_set is Some && !old(o).acceptable_flag {
                config.acceptable_set->0
            } else {
                old(o).acceptable_path
            },
            state_flag: old(o).state_flag || (config.state is Some && !old(o).state_flag),
            state_path: if config.state is Some && !old(o).state_flag {
                config.state->0
            } else {
                old(o).state_path
            },
            ..*old(o)
        }),
{
    if let Some(v) = &config.final_set {
        if !o.final_flag {
            o.final_flag = true;
            o.final_path = v.clone();
        }
    }
    if let Some(v) = &config.acceptable_set {
        if !o.acceptable_flag {
            o.acceptable_flag = true;
            o.acceptable_path = v.clone();
        }
    }
    if let Some(v) = &config.state {
        if !o.state_flag {
            o.state_flag = true;
            o.state_path = v.clone();
        }
    }
}

/// Settings that cannot go together: a given answer with random answers,
/// or a day or seed without random answers.
pub open spec fn conflicting(o: Options) -> bool {
    (o.random && o.word) || (!o.random && o.day_flag) || (!o.random && o.seed_flag)
}

/// The settings of a run once the configuration file is taken in: the file
/// counts only when the command line named one.
pub open spec fn settled(o: Options, config: Option<Config>) -> Options {
    match config {
        Some(c) => if o.config_flag {
            config_applied(o, c)
        } else {
            o
        },
        None => o,
    }
}

/// Completes the command-line settings with the configuration file's (when
/// the command line named one) and turns down conflicting modes.
pub fn finish_options(o: Options, config: Option<Config>) -> (r: Option<Options>)
    ensures
        conflicting(settled(o, config)) ==> r is None,
        !conflicting(settled(o, config)) ==> r == Some(settled(o, config)),
{
    let mut o = o;
    if o.config_flag {
        if let Some(c) = &config {
            apply_config(&mut o, c);
        }
    }
    if modes_conflict(&o) {
        None
    } else {
        Some(o)
    }
}

/// A configuration setting fills only what the command line left unset, and
/// then takes the file's value; everything else stays.
pub proof fn lemma_config_fills_unset(m: Options, c: Config)
    ensures
        ({
            let r = config_applied(m, c);
            &&& (c.word is Some && !m.word ==> r.word && r.word_value == c.word)
            &&& (c.word is None || m.word ==> r.word == m.word && r.word_value == m.word_value)
            &&& (c.random is Some && !m.random ==> r.random == c.random->0)
            &&& (c.random is None || m.random ==> r.random == m.random)
            &&& (c.difficult is Some && !m.difficult ==> r.difficult == c.difficult->0)
            &&& (c.difficult is None || m.difficult ==> r.difficult == m.difficult)
            &&& (c.stats is Some && !m.stats ==> r.stats == c.stats->0)
            &&& (c.stats is None || m.stats ==> r.stats == m.stats)
            &&& (c.day is Some && !m.day_flag ==> r.day_flag && r.day == c.day->0 as usize)
            &&& (c.day is None || m.day_flag ==> r.day_flag == m.day_flag && r.day == m.day)
            &&& (c.seed is Some && !m.seed_flag ==> r.seed_flag && r.seed == c.seed->0)
            &&& (c.seed is None || m.seed_flag ==> r.seed_flag == m.seed_flag && r.seed == m.seed)
            &&& (c.final_set is Some && !m.final_flag ==> r.final_flag && r.final_path
                == c.final_set->0)
            &&& (c.final_set is None || m.final_flag ==> r.final_flag == m.final_flag
                && r.final_path == m.final_path)
            &&& (c.acceptable_set is Some && !m.acceptable_flag ==> r.acceptable_flag
                && r.acceptable_path == c.acceptable_set->0)
            &&& (c.acceptable_set is None || m.acceptable_flag ==> r.acceptable_flag
                == m.acceptable_flag && r.acceptable_path == m.acceptable_path)
            &&& (c.state is Some && !m.state_flag ==> r.state_flag && r.state_path == c.state->0)
            &&& (c.state is None || m.state_flag ==> r.state_flag == m.state_flag && r.state_path
                == m.state_path)
            &&& r.tty == m.tty && r.config_flag == m.config_flag && r.config_path == m.config_path
            &&& r.possible == m.possible && r.recommend == m.recommend && r.tui == m.tui
        }),
{
}

/// Settling the command line with a configuration file named on it: a
/// given answer in the file is played when the command line gave none.
pub proof fn lemma_settled_word(o: Options, c: Config)
    requires
        o.config_flag,
        c.word is Some,
        !o.word,
    ensures
        settled(o, Some(c)).word,
        settled(o, Some(c)).word_value == c.word,
{
    lemma_config_fills_unset(o, c);
}

} // verus!
