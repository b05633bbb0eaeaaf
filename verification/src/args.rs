use vstd::prelude::*;
use crate::number::{decimal, parse_decimal};
use crate::text::str_eq;

verus! {

/// A command-line switch.
#[derive(Clone, Copy, Debug, PartialEq, Eq, Structural)]
pub enum Flag {
    Word,
    Random,
    Difficult,
    Stats,
    Day,
    Seed,
    FinalSet,
    AcceptableSet,
    State,
    Config,
    Possible,
    Recommend,
    Tui,
}

/// Which value the next argument gives, if any.
#[derive(Clone, Copy, Debug, PartialEq, Eq, Structural)]
pub enum Pending {
    Nothing,
    Word,
    Day,
    Seed,
    FinalSet,
    AcceptableSet,
    State,
    Config,
}

/// The settings of a run.
pub struct Options {
    pub tty: bool,
    pub word: bool,
    pub random: bool,
    pub difficult: bool,
    pub stats: bool,
    pub day_flag: bool,
    pub seed_flag: bool,
    pub final_flag: bool,
    pub acceptable_flag: bool,
    pub state_flag: bool,
    pub config_flag: bool,
    pub possible: bool,
    pub recommend: bool,
    pub tui: bool,
    pub word_value: Option<String>,
    /// The day of a seeded game, counted from 1.
    pub day: usize,
    pub seed: u64,
    pub final_path: String,
    pub acceptable_path: String,
    pub state_path: String,
    pub config_path: String,
}

/// The settings before any argument: nothing switched on, day 1, seed 0.
pub open spec fn default_model(tty: bool, empty: String) -> Options {
    Options {
        tty: tty,
        word: false,
        random: false,
        difficult: false,
        stats: false,
        day_flag: false,
        seed_flag: false,
        final_flag: false,
        acceptable_flag: false,
        state_flag: false,
        config_flag: false,
        possible: false,
        recommend: false,
        tui: false,
        word_value: None,
        day: 1,
        seed: 0,
        final_path: empty,
        acceptable_path: empty,
        state_path: empty,
        config_path: empty,
    }
}

/// The switch an argument names, in its short or long form.
pub open spec fn flag_named(a: Seq<char>) -> Option<Flag> {
    if a == "-w"@ || a == "--word"@ {
        Some(Flag::Word)
    } else if a == "-r"@ || a == "--random"@ {
        Some(Flag::Random)
    } else if a == "-D"@ || a == "--difficult"@ {
        Some(Flag::Difficult)
    } else if a == "-t"@ || a == "--stats"@ {
        Some(Flag::Stats)
    } else if a == "-d"@ || a == "--day"@ {
        Some(Flag::Day)
    } else if a == "-s"@ || a == "--seed"@ {
        Some(Flag::Seed)
    } else if a == "-f"@ || a == "--final-set"@ {
        Some(Flag::FinalSet)
    } else if a == "-a"@ || a == "--acceptable-set"@ {
        Some(Flag::AcceptableSet)
    } else if a == "-S"@ || a == "--state"@ {
        Some(Flag::State)
    } else if a == "-c"@ || a == "--config"@ {
        Some(Flag::Config)
    } else if a == "-p"@ || a == "--possible"@ {
        Some(Flag::Possible)
    } else if a == "-R"@ || a == "--recommend"@ {
        Some(Flag::Recommend)
    } else if a == "-T"@ || a == "--tui"@ {
        Some(Flag::Tui)
    } else {
        None
    }
}

/// What a switch turns on, and which value it waits for.
pub open spec fn apply_flag(m: Options, f: Flag) -> (Options, Pending) {
    match f {
        Flag::Word => (Options { word: true, ..m }, Pending::Word),
        Flag::Random => (Options { random: true, ..m }, Pending::Nothing),
        Flag::Difficult => (Options { difficult: true, ..m }, Pending::Nothing),
        Flag::Stats => (Options { stats: true, ..m }, Pending::Nothing),
        Flag::Day => (Options { day_flag: true, ..m }, Pending::Day),
        Flag::Seed => (Options { seed_flag: true, ..m }, Pending::Seed),
        Flag::FinalSet => (Options { final_flag: true, ..m }, Pending::FinalSet),
        Flag::AcceptableSet => (Options { acceptable_flag: true, ..m }, Pending::AcceptableSet),
        Flag::State => (Options { state_flag: true, ..m }, Pending::State),
        Flag::Config => (Options { config_flag: true, ..m }, Pending::Config),
        Flag::Possible => (Options { possible: true, ..m }, Pending::Nothing),
        Flag::Recommend => (Options { recommend: true, ..m }, Pending::Nothing),
        Flag::Tui => (Options { tui: true, ..m }, Pending::Nothing),
    }
}

/// One argument read: the value a switch waited for, or else a switch; a
/// day or seed that is not a number fails the whole reading.
pub open spec fn parse_step(st: (Options, Pending), a: String) -> Option<
    (Options, Pending),
> {
    let m = st.0;
    match st.1 {
        Pending::Word => Some((Options { word_value: Some(a), ..m }, Pending::Nothing)),
        Pending::Day => match decimal(a@, usize::MAX as int) {
            Some(v) => Some((Options { day: v as usize, ..m }, Pending::Nothing)),
            None => None,
        },
        Pending::Seed => match decimal(a@, u64::MAX as int) {
            Some(v) => Some((Options { seed: v as u64, ..m }, Pending::Nothing)),
            None => None,
        },
        Pending::FinalSet => Some((Options { final_path: a, ..m }, Pending::Nothing)),
        Pending::AcceptableSet => Some(
            (Options { acceptable_path: a, ..m }, Pending::Nothing),
        ),
        Pending::State => Some((Options { state_path: a, ..m }, Pending::Nothing)),
        Pending::Config => Some((Options { config_path: a, ..m }, Pending::Nothing)),
        Pending::Nothing => match flag_named(a@) {
            Some(f) => Some(apply_flag(m, f)),
            None => Some(st),
        },
    }
}

/// The settings after the first `n` arguments.
pub open spec fn parse_prefix(args: Seq<String>, init: Options, n: int) -> Option<
    (Options, Pending),
>
    decreases n,
{
    if n <= 0 {
        Some((init, Pending::Nothing))
    } else {
        match parse_prefix(args, init, n - 1) {
            Some(st) => parse_step(st, args[n - 1]),
            None => None,
        }
    }
}

/// Each switch name, short or long, names its own switch.
pub proof fn lemma_flag_names()
    ensures
        flag_named("-w"@) == Some(Flag::Word),
        flag_named("--word"@) == Some(Flag::Word),
        flag_named("-r"@) == Some(Flag::Random),
        flag_named("--random"@) == Some(Flag::Random),
        flag_named("-D"@) == Some(Flag::Difficult),
        flag_named("--difficult"@) == Some(Flag::Difficult),
        flag_named("-t"@) == Some(Flag::Stats),
        flag_named("--stats"@) == Some(Flag::Stats),
        flag_named("-d"@) == Some(Flag::Day),
        flag_named("--day"@) == Some(Flag::Day),
        flag_named("-s"@) == Some(Flag::Seed),
        flag_named("--seed"@) == Some(Flag::Seed),
        flag_named("-f"@) == Some(Flag::FinalSet),
        flag_named("--final-set"@) == Some(Flag::FinalSet),
        flag_named("-a"@) == Some(Flag::AcceptableSet),
        flag_named("--acceptable-set"@) == Some(Flag::AcceptableSet),
        flag_named("-S"@) == Some(Flag::State),
        flag_named("--state"@) == Some(Flag::State),
        flag_named("-c"@) == Some(Flag::Config),
        flag_named("--config"@) == Some(Flag::Config),
        flag_named("-p"@) == Some(Flag::Possible),
        flag_named("--possible"@) == Some(Flag::Possible),
        flag_named("-R"@) == Some(Flag::Recommend),
        flag_named("--recommend"@) == Some(Flag::Recommend),
        flag_named("-T"@) == Some(Flag::Tui),
        flag_named("--tui"@) == Some(Flag::Tui),
{
    reveal_strlit("-w");
    reveal_strlit("--word");
    reveal_strlit("-r");
    reveal_strlit("--random");
    reveal_strlit("-D");
    reveal_strlit("--difficult");
    reveal_strlit("-t");
    reveal_strlit("--stats");
    reveal_strlit("-d");
    reveal_strlit("--day");
    reveal_strlit("-s");
    reveal_strlit("--seed");
    reveal_strlit("-f");
    reveal_strlit("--final-set");
    reveal_strlit("-a");
    reveal_strlit("--acceptable-set");
    reveal_strlit("-S");
    reveal_strlit("--state");
    reveal_strlit("-c");
    reveal_strlit("--config");
    reveal_strlit("-p");
    reveal_strlit("--possible");
    reveal_strlit("-R");
    reveal_strlit("--recommend");
    reveal_strlit("-T");
    reveal_strlit("--tui");
    assert("-r"@[1] != "-w"@[1]);
    assert("-r"@.len() != "--word"@.len());
    assert("--random"@.len() != "-w"@.len());
    assert("--random"@.len() != "--word"@.len());
    assert("-D"@[1] != "-w"@[1]);
    assert("-D"@.len() != "--word"@.len());
    assert("-D"@[1] != "-r"@[1]);
    assert("-D"@.len() != "--random"@.len());
    assert("--difficult"@.len() != "-w"@.len());
    assert("--difficult"@.len() != "--word"@.len());
    assert("--difficult"@.len() != "-r"@.len());
    assert("--difficult"@.len() != "--random"@.len());
    assert("-t"@[1] != "-w"@[1]);
    assert("-t"@.len() != "--word"@.len());
    assert("-t"@[1] != "-r"@[1]);
    assert("-t"@.len() != "--random"@.len());
    assert("-t"@[1] != "-D"@[1]);
    assert("-t"@.len() != "--difficult"@.len());
    assert("--stats"@.len() != "-w"@.len());
    assert("--stats"@.len() != "--word"@.len());
    assert("--stats"@.len() != "-r"@.len());
    assert("--stats"@.len() != "--random"@.len());
    assert("--stats"@.len() != "-D"@.len());
    assert("--stats"@.len() != "--difficult"@.len());
    assert("-d"@[1] != "-w"@[1]);
    assert("-d"@.len() != "--word"@.len());
    assert("-d"@[1] != "-r"@[1]);
    assert("-d"@.len() != "--random"@.len());
    assert("-d"@[1] != "-D"@[1]);
    assert("-d"@.len() != "--difficult"@.len());
    assert("-d"@[1] != "-t"@[1]);
    assert("-d"@.len() != "--stats"@.len());
    assert("--day"@.len() != "-w"@.len());
    assert("--day"@.len() != "--word"@.len());
    assert("--day"@.len() != "-r"@.len());
    assert("--day"@.len() != "--random"@.len());
    assert("--day"@.len() != "-D"@.len());
    assert("--day"@.len() != "--difficult"@.len());
    assert("--day"@.len() != "-t"@.len());
    assert("--day"@.len() != "--stats"@.len());
    assert("-s"@[1] != "-w"@[1]);
    assert("-s"@.len() != "--word"@.len());
    assert("-s"@[1] != "-r"@[1]);
    assert("-s"@.len() != "--random"@.len());
    assert("-s"@[1] != "-D"@[1]);
    assert("-s"@.len() != "--difficult"@.len());
    assert("-s"@[1] != "-t"@[1]);
    assert("-s"@.len() != "--stats"@.len());
    assert("-s"@[1] != "-d"@[1]);
    assert("-s"@.len() != "--day"@.len());
    assert("--seed"@.len() != "-w"@.len());
    assert("--seed"@[2] != "--word"@[2]);
    assert("--seed"@.len() != "-r"@.len());
    assert("--seed"@.len() != "--random"@.len());
    assert("--seed"@.len() != "-D"@.len());
    assert("--seed"@.len() != "--difficult"@.len());
    assert("--seed"@.len() != "-t"@.len());
    assert("--seed"@.len() != "--stats"@.len());
    assert("--seed"@.len() != "-d"@.len());
    assert("--seed"@.len() != "--day"@.len());
    assert("-f"@[1] != "-w"@[1]);
    assert("-f"@.len() != "--word"@.len());
    assert("-f"@[1] != "-r"@[1]);
    assert("-f"@.len() != "--random"@.len());
    assert("-f"@[1] != "-D"@[1]);
    assert("-f"@.len() != "--difficult"@.len());
    assert("-f"@[1] != "-t"@[1]);
    assert("-f"@.len() != "--stats"@.len());
    assert("-f"@[1] != "-d"@[1]);
    assert("-f"@.len() != "--day"@.len());
    assert("-f"@[1] != "-s"@[1]);
    assert("-f"@.len() != "--seed"@.len());
    assert("--final-set"@.len() != "-w"@.len());
    assert("--final-set"@.len() != "--word"@.len());
    assert("--final-set"@.len() != "-r"@.len());
    assert("--final-set"@.len() != "--random"@.len());
    assert("--final-set"@.len() != "-D"@.len());
    assert("--final-set"@[2] != "--difficult"@[2]);
    assert("--final-set"@.len() != "-t"@.len());
    assert("--final-set"@.len() != "--stats"@.len());
    assert("--final-set"@.len() != "-d"@.len());
    assert("--final-set"@.len() != "--day"@.len());
    assert("--final-set"@.len() != "-s"@.len());
    assert("--final-set"@.len() != "--seed"@.len());
    assert("-a"@[1] != "-w"@[1]);
    assert("-a"@.len() != "--word"@.len());
    assert("-a"@[1] != "-r"@[1]);
    assert("-a"@.len() != "--random"@.len());
    assert("-a"@[1] != "-D"@[1]);
    assert("-a"@.len() != "--difficult"@.len());
    assert("-a"@[1] != "-t"@[1]);
    assert("-a"@.len() != "--stats"@.len());
    assert("-a"@[1] != "-d"@[1]);
    assert("-a"@.len() != "--day"@.len());
    assert("-a"@[1] != "-s"@[1]);
    assert("-a"@.len() != "--seed"@.len());
    assert("-a"@[1] != "-f"@[1]);
    assert("-a"@.len() != "--final-set"@.len());
    assert("--acceptable-set"@.len() != "-w"@.len());
    assert("--acceptable-set"@.len() != "--word"@.len());
    assert("--acceptable-set"@.len() != "-r"@.len());
    assert("--acceptable-set"@.len() != "--random"@.len());
    assert("--acceptable-set"@.len() != "-D"@.len());
    assert("--acceptable-set"@.len() != "--difficult"@.len());
    assert("--acceptable-set"@.len() != "-t"@.len());
    assert("--acceptable-set"@.len() != "--stats"@.len());
    assert("--acceptable-set"@.len() != "-d"@.len());
    assert("--acceptable-set"@.len() != "--day"@.len());
    assert("--acceptable-set"@.len() != "-s"@.len());
    assert("--acceptable-set"@.len() != "--seed"@.len());
    assert("--acceptable-set"@.len() != "-f"@.len());
    assert("--acceptable-set"@.len() != "--final-set"@.len());
    assert("-S"@[1] != "-w"@[1]);
    assert("-S"@.len() != "--word"@.len());
    assert("-S"@[1] != "-r"@[1]);
    assert("-S"@.len() != "--random"@.len());
    assert("-S"@[1] != "-D"@[1]);
    assert("-S"@.len() != "--difficult"@.len());
    assert("-S"@[1] != "-t"@[1]);
    assert("-S"@.len() != "--stats"@.len());
    assert("-S"@[1] != "-d"@[1]);
    assert("-S"@.len() != "--day"@.len());
    assert("-S"@[1] != "-s"@[1]);
    assert("-S"@.len() != "--seed"@.len());
    assert("-S"@[1] != "-f"@[1]);
    assert("-S"@.len() != "--final-set"@.len());
    assert("-S"@[1] != "-a"@[1]);
    assert("-S"@.len() != "--acceptable-set"@.len());
    assert("--state"@.len() != "-w"@.len());
    assert("--state"@.len() != "--word"@.len());
    assert("--state"@.len() != "-r"@.len());
    assert("--state"@.len() != "--random"@.len());
    assert("--state"@.len() != "-D"@.len());
    assert("--state"@.len() != "--difficult"@.len());
    assert("--state"@.len() != "-t"@.len());
    assert("--state"@[6] != "--stats"@[6]);
    assert("--state"@.len() != "-d"@.len());
    assert("--state"@.len() != "--day"@.len());
    assert("--state"@.len() != "-s"@.len());
    assert("--state"@.len() != "--seed"@.len());
    assert("--state"@.len() != "-f"@.len());
    assert("--state"@.len() != "--final-set"@.len());
    assert("--state"@.len() != "-a"@.len());
    assert("--state"@.len() != "--acceptable-set"@.len());
    assert("-c"@[1] != "-w"@[1]);
    assert("-c"@.len() != "--word"@.len());
    assert("-c"@[1] != "-r"@[1]);
    assert("-c"@.len() != "--random"@.len());
    assert("-c"@[1] != "-D"@[1]);
    assert("-c"@.len() != "--difficult"@.len());
    assert("-c"@[1] != "-t"@[1]);
    assert("-c"@.len() != "--stats"@.len());
    assert("-c"@[1] != "-d"@[1]);
    assert("-c"@.len() != "--day"@.len());
    assert("-c"@[1] != "-s"@[1]);
    assert("-c"@.len() != "--seed"@.len());
    assert("-c"@[1] != "-f"@[1]);
    assert("-c"@.len() != "--final-set"@.len());
    assert("-c"@[1] != "-a"@[1]);
    assert("-c"@.len() != "--acceptable-set"@.len());
    assert("-c"@[1] != "-S"@[1]);
    assert("-c"@.len() != "--state"@.len());
    assert("--config"@.len() != "-w"@.len());
    assert("--config"@.len() != "--word"@.len());
    assert("--config"@.len() != "-r"@.len());
    assert("--config"@[2] != "--random"@[2]);
    assert("--config"@.len() != "-D"@.len());
    assert("--config"@.len() != "--difficult"@.len());
    assert("--config"@.len() != "-t"@.len());
    assert("--config"@.len() != "--stats"@.len());
    assert("--config"@.len() != "-d"@.len());
    assert("--config"@.len() != "--day"@.len());
    assert("--config"@.len() != "-s"@.len());
    assert("--config"@.len() != "--seed"@.len());
    assert("--config"@.len() != "-f"@.len());
    assert("--config"@.len() != "--final-set"@.len());
    assert("--config"@.len() != "-a"@.len());
    assert("--config"@.len() != "--acceptable-set"@.len());
    assert("--config"@.len() != "-S"@.len());
    assert("--config"@.len() != "--state"@.len());
    assert("-p"@[1] != "-w"@[1]);
    assert("-p"@.len() != "--word"@.len());
    assert("-p"@[1] != "-r"@[1]);
    assert("-p"@.len() != "--random"@.len());
    assert("-p"@[1] != "-D"@[1]);
    assert("-p"@.len() != "--difficult"@.len());
    assert("-p"@[1] != "-t"@[1]);
    assert("-p"@.len() != "--stats"@.len());
    assert("-p"@[1] != "-d"@[1]);
    assert("-p"@.len() != "--day"@.len());
    assert("-p"@[1] != "-s"@[1]);
    assert("-p"@.len() != "--seed"@.len());
    assert("-p"@[1] != "-f"@[1]);
    assert("-p"@.len() != "--final-set"@.len());
    assert("-p"@[1] != "-a"@[1]);
    assert("-p"@.len() != "--acceptable-set"@.len());
    assert("-p"@[1] != "-S"@[1]);
    assert("-p"@.len() != "--state"@.len());
    assert("-p"@[1] != "-c"@[1]);
    assert("-p"@.len() != "--config"@.len());
    assert("--possible"@.len() != "-w"@.len());
    assert("--possible"@.len() != "--word"@.len());
    assert("--possible"@.len() != "-r"@.len());
    assert("--possible"@.len() != "--random"@.len());
    assert("--possible"@.len() != "-D"@.len());
    assert("--possible"@.len() != "--difficult"@.len());
    assert("--possible"@.len() != "-t"@.len());
    assert("--possible"@.len() != "--stats"@.len());
    assert("--possible"@.len() != "-d"@.len());
    assert("--possible"@.len() != "--day"@.len());
    assert("--possible"@.len() != "-s"@.len());
    assert("--possible"@.len() != "--seed"@.len());
    assert("--possible"@.len() != "-f"@.len());
    assert("--possible"@.len() != "--final-set"@.len());
    assert("--possible"@.len() != "-a"@.len());
    assert("--possible"@.len() != "--acceptable-set"@.len());
    assert("--possible"@.len() != "-S"@.len());
    assert("--possible"@.len() != "--state"@.len());
    assert("--possible"@.len() != "-c"@.len());
    assert("--possible"@.len() != "--config"@.len());
    assert("-R"@[1] != "-w"@[1]);
    assert("-R"@.len() != "--word"@.len());
    assert("-R"@[1] != "-r"@[1]);
    assert("-R"@.len() != "--random"@.len());
    assert("-R"@[1] != "-D"@[1]);
    assert("-R"@.len() != "--difficult"@.len());
    assert("-R"@[1] != "-t"@[1]);
    assert("-R"@.len() != "--stats"@.len());
    assert("-R"@[1] != "-d"@[1]);
    assert("-R"@.len() != "--day"@.len());
    assert("-R"@[1] != "-s"@[1]);
    assert("-R"@.len() != "--seed"@.len());
    assert("-R"@[1] != "-f"@[1]);
    assert("-R"@.len() != "--final-set"@.len());
    assert("-R"@[1] != "-a"@[1]);
    assert("-R"@.len() != "--acceptable-set"@.len());
    assert("-R"@[1] != "-S"@[1]);
    assert("-R"@.len() != "--state"@.len());
    assert("-R"@[1] != "-c"@[1]);
    assert("-R"@.len() != "--config"@.len());
    assert("-R"@[1] != "-p"@[1]);
    assert("-R"@.len() != "--possible"@.len());
    assert("--recommend"@.len() != "-w"@.len());
    assert("--recommend"@.len() != "--word"@.len());
    assert("--recommend"@.len() != "-r"@.len());
    assert("--recommend"@.len() != "--random"@.len());
    assert("--recommend"@.len() != "-D"@.len());
    assert("--recommend"@[2] != "--difficult"@[2]);
    assert("--recommend"@.len() != "-t"@.len());
    assert("--recommend"@.len() != "--stats"@.len());
    assert("--recommend"@.len() != "-d"@.len());
    assert("--recommend"@.len() != "--day"@.len());
    assert("--recommend"@.len() != "-s"@.len());
    assert("--recommend"@.len() != "--seed"@.len());
    assert("--recommend"@.len() != "-f"@.len());
    assert("--recommend"@[2] != "--final-set"@[2]);
    assert("--recommend"@.len() != "-a"@.len());
    assert("--recommend"@.len() != "--acceptable-set"@.len());
    assert("--recommend"@.len() != "-S"@.len());
    assert("--recommend"@.len() != "--state"@.len());
    assert("--recommend"@.len() != "-c"@.len());
    assert("--recommend"@.len() != "--config"@.len());
    assert("--recommend"@.len() != "-p"@.len());
    assert("--recommend"@.len() != "--possible"@.len());
    assert("-T"@[1] != "-w"@[1]);
    assert("-T"@.len() != "--word"@.len());
    assert("-T"@[1] != "-r"@[1]);
    assert("-T"@.len() != "--random"@.len());
    assert("-T"@[1] != "-D"@[1]);
    assert("-T"@.len() != "--difficult"@.len());
    assert("-T"@[1] != "-t"@[1]);
    assert("-T"@.len() != "--stats"@.len());
    assert("-T"@[1] != "-d"@[1]);
    assert("-T"@.len() != "--day"@.len());
    assert("-T"@[1] != "-s"@[1]);
    assert("-T"@.len() != "--seed"@.len());
    assert("-T"@[1] != "-f"@[1]);
    assert("-T"@.len() != "--final-set"@.len());
    assert("-T"@[1] != "-a"@[1]);
    assert("-T"@.len() != "--acceptable-set"@.len());
    assert("-T"@[1] != "-S"@[1]);
    assert("-T"@.len() != "--state"@.len());
    assert("-T"@[1] != "-c"@[1]);
    assert("-T"@.len() != "--config"@.len());
    assert("-T"@[1] != "-p"@[1]);
    assert("-T"@.len() != "--possible"@.len());
    assert("-T"@[1] != "-R"@[1]);
    assert("-T"@.len() != "--recommend"@.len());
    assert("--tui"@.len() != "-w"@.len());
    assert("--tui"@.len() != "--word"@.len());
    assert("--tui"@.len() != "-r"@.len());
    assert("--tui"@.len() != "--random"@.len());
    assert("--tui"@.len() != "-D"@.len());
    assert("--tui"@.len() != "--difficult"@.len());
    assert("--tui"@.len() != "-t"@.len());
    assert("--tui"@.len() != "--stats"@.len());
    assert("--tui"@.len() != "-d"@.len());
    assert("--tui"@[2] != "--day"@[2]);
    assert("--tui"@.len() != "-s"@.len());
    assert("--tui"@.len() != "--seed"@.len());
    assert("--tui"@.len() != "-f"@.len());
    assert("--tui"@.len() != "--final-set"@.len());
    assert("--tui"@.len() != "-a"@.len());
    assert("--tui"@.len() != "--acceptable-set"@.len());
    assert("--tui"@.len() != "-S"@.len());
    assert("--tui"@.len() != "--state"@.len());
    assert("--tui"@.len() != "-c"@.len());
    assert("--tui"@.len() != "--config"@.len());
    assert("--tui"@.len() != "-p"@.len());
    assert("--tui"@.len() != "--possible"@.len());
    assert("--tui"@.len() != "-R"@.len());
    assert("--tui"@.len() != "--recommend"@.len());
}

/// `--word` (or `-w`) turns on its setting, and the next argument becomes
/// its value.
pub proof fn lemma_switch_word(m: Options, a: String, p: String)
    requires
        a@ == "-w"@ || a@ == "--word"@,
    ensures
        parse_step((m, Pending::Nothing), a) == Some(
            (Options { word: true, ..m }, Pending::Word),
        ),
        parse_step((Options { word: true, ..m }, Pending::Word), p) == Some(
            (Options { word: true, word_value: Some(p), ..m }, Pending::Nothing),
        ),
{
    lemma_flag_names();
}

/// `--final-set` (or `-f`) turns on its setting, and the next argument becomes
/// its value.
pub proof fn lemma_switch_final_set(m: Options, a: String, p: String)
    requires
        a@ == "-f"@ || a@ == "--final-set"@,
    ensures
        parse_step((m, Pending::Nothing), a) == Some(
            (Options { final_flag: true, ..m }, Pending::FinalSet),
        ),
        parse_step((Options { final_flag: true, ..m }, Pending::FinalSet), p) == Some(
            (Options { final_flag: true, final_path: p, ..m }, Pending::Nothing),
        ),
{
    lemma_flag_names();
}

/// `--acceptable-set` (or `-a`) turns on its setting, and the next argument becomes
/// its value.
pub proof fn lemma_switch_acceptable_set(m: Options, a: String, p: String)
    requires
        a@ == "-a"@ || a@ == "--acceptable-set"@,
    ensures
        parse_step((m, Pending::Nothing), a) == Some(
            (Options { acceptable_flag: true, ..m }, Pending::AcceptableSet),
        ),
        parse_step((Options { acceptable_flag: true, ..m }, Pending::AcceptableSet), p) == Some(
            (Options { acceptable_flag: true, acceptable_path: p, ..m }, Pending::Nothing),
        ),
{
    lemma_flag_names();
}

/// `--state` (or `-S`) turns on its setting, and the next argument becomes
/// its value.
pub proof fn lemma_switch_state(m: Options, a: String, p: String)
    requires
        a@ == "-S"@ || a@ == "--state"@,
    ensures
        parse_step((m, Pending::Nothing), a) == Some(
            (Options { state_flag: true, ..m }, Pending::State),
        ),
        parse_step((Options { state_flag: true, ..m }, Pending::State), p) == Some(
            (Options { state_flag: true, state_path: p, ..m }, Pending::Nothing),
        ),
{
    lemma_flag_names();
}

/// `--config` (or `-c`) turns on its setting, and the next argument becomes
/// its value.
pub proof fn lemma_switch_config(m: Options, a: String, p: String)
    requires
        a@ == "-c"@ || a@ == "--config"@,
    ensures
        parse_step((m, Pending::Nothing), a) == Some(
            (Options { config_flag: true, ..m }, Pending::Config),
        ),
        parse_step((Options { config_flag: true, ..m }, Pending::Config), p) == Some(
            (Options { config_flag: true, config_path: p, ..m }, Pending::Nothing),
        ),
{
    lemma_flag_names();
}

/// `--random` (or `-r`) turns on its setting and takes no value.
pub proof fn lemma_switch_random(m: Options, a: String)
    requires
        a@ == "-r"@ || a@ == "--random"@,
    ensures
        parse_step((m, Pending::Nothing), a) == Some((Options { random: true, ..m }, Pending::Nothing)),
{
    lemma_flag_names();
}

/// `--difficult` (or `-D`) turns on its setting and takes no value.
pub proof fn lemma_switch_difficult(m: Options, a: String)
    requires
        a@ == "-D"@ || a@ == "--difficult"@,
    ensures
        parse_step((m, Pending::Nothing), a) == Some((Options { difficult: true, ..m }, Pending::Nothing)),
{
    lemma_flag_names();
}

/// `--stats` (or `-t`) turns on its setting and takes no value.
pub proof fn lemma_switch_stats(m: Options, a: String)
    requires
        a@ == "-t"@ || a@ == "--stats"@,
    ensures
        parse_step((m, Pending::Nothing), a) == Some((Options { stats: true, ..m }, Pending::Nothing)),
{
    lemma_flag_names();
}

/// `--possible` (or `-p`) turns on its setting and takes no value.
pub proof fn lemma_switch_possible(m: Options, a: String)
    requires
        a@ == "-p"@ || a@ == "--possible"@,
    ensures
        parse_step((m, Pending::Nothing), a) == Some((Options { possible: true, ..m }, Pending::Nothing)),
{
    lemma_flag_names();
}

/// `--recommend` (or `-R`) turns on its setting and takes no value.
pub proof fn lemma_switch_recommend(m: Options, a: String)
    requires
        a@ == "-R"@ || a@ == "--recommend"@,
    ensures
        parse_step((m, Pending::Nothing), a) == Some((Options { recommend: true, ..m }, Pending::Nothing)),
{
    lemma_flag_names();
}

/// `--tui` (or `-T`) turns on its setting and takes no value.
pub proof fn lemma_switch_tui(m: Options, a: String)
    requires
        a@ == "-T"@ || a@ == "--tui"@,
    ensures
        parse_step((m, Pending::Nothing), a) == Some((Options { tui: true, ..m }, Pending::Nothing)),
{
    lemma_flag_names();
}

/// `--day` (or `-d`) turns on its setting, and a number after it becomes
/// its value.
pub proof fn lemma_switch_day(m: Options, a: String, p: String)
    requires
        a@ == "-d"@ || a@ == "--day"@,
    ensures
        parse_step((m, Pending::Nothing), a) == Some(
            (Options { day_flag: true, ..m }, Pending::Day),
        ),
        decimal(p@, usize::MAX as int) matches Some(v) ==> parse_step(
            (Options { day_flag: true, ..m }, Pending::Day),
            p,
        ) == Some((Options { day_flag: true, day: v as usize, ..m }, Pending::Nothing)),
        decimal(p@, usize::MAX as int) is None ==> parse_step(
            (Options { day_flag: true, ..m }, Pending::Day),
            p,
        ) is None,
{
    lemma_flag_names();
}

/// `--seed` (or `-s`) turns on its setting, and a number after it becomes
/// its value.
pub proof fn lemma_switch_seed(m: Options, a: String, p: String)
    requires
        a@ == "-s"@ || a@ == "--seed"@,
    ensures
        parse_step((m, Pending::Nothing), a) == Some(
            (Options { seed_flag: true, ..m }, Pending::Seed),
        ),
        decimal(p@, u64::MAX as int) matches Some(v) ==> parse_step(
            (Options { seed_flag: true, ..m }, Pending::Seed),
            p,
        ) == Some((Options { seed_flag: true, seed: v as u64, ..m }, Pending::Nothing)),
        decimal(p@, u64::MAX as int) is None ==> parse_step(
            (Options { seed_flag: true, ..m }, Pending::Seed),
            p,
        ) is None,
{
    lemma_flag_names();
}

/// The switch an argument names.
pub fn flag_of(a: &String) -> (f: Option<Flag>)
    ensures
        f == flag_named(a@),
        a@ == "-w"@ || a@ == "--word"@ ==> f == Some(Flag::Word),
        a@ == "-r"@ || a@ == "--random"@ ==> f == Some(Flag::Random),
        a@ == "-D"@ || a@ == "--difficult"@ ==> f == Some(Flag::Difficult),
        a@ == "-t"@ || a@ == "--stats"@ ==> f == Some(Flag::Stats),
        a@ == "-d"@ || a@ == "--day"@ ==> f == Some(Flag::Day),
        a@ == "-s"@ || a@ == "--seed"@ ==> f == Some(Flag::Seed),
        a@ == "-f"@ || a@ == "--final-set"@ ==> f == Some(Flag::FinalSet),
        a@ == "-a"@ || a@ == "--acceptable-set"@ ==> f == Some(Flag::AcceptableSet),
        a@ == "-S"@ || a@ == "--state"@ ==> f == Some(Flag::State),
        a@ == "-c"@ || a@ == "--config"@ ==> f == Some(Flag::Config),
        a@ == "-p"@ || a@ == "--possible"@ ==> f == Some(Flag::Possible),
        a@ == "-R"@ || a@ == "--recommend"@ ==> f == Some(Flag::Recommend),
        a@ == "-T"@ || a@ == "--tui"@ ==> f == Some(Flag::Tui),
{
    proof {
        lemma_flag_names();
    }
    let s = a.as_str();
    if str_eq(s, "-w") || str_eq(s, "--word") {
        Some(Flag::Word)
    } else if str_eq(s, "-r") || str_eq(s, "--random") {
        Some(Flag::Random)
    } else if str_eq(s, "-D") || str_eq(s, "--difficult") {
        Some(Flag::Difficult)
    } else if str_eq(s, "-t") || str_eq(s, "--stats") {
        Some(Flag::Stats)
    } else if str_eq(s, "-d") || str_eq(s, "--day") {
        Some(Flag::Day)
    } else if str_eq(s, "-s") || str_eq(s, "--seed") {
        Some(Flag::Seed)
    } else if str_eq(s, "-f") || str_eq(s, "--final-set") {
        Some(Flag::FinalSet)
    } else if str_eq(s, "-a") || str_eq(s, "--acceptable-set") {
        Some(Flag::AcceptableSet)
    } else if str_eq(s, "-S") || str_eq(s, "--state") {
        Some(Flag::State)
    } else if str_eq(s, "-c") || str_eq(s, "--config") {
        Some(Flag::Config)
    } else if str_eq(s, "-p") || str_eq(s, "--possible") {
        Some(Flag::Possible)
    } else if str_eq(s, "-R") || str_eq(s, "--recommend") {
        Some(Flag::Recommend)
    } else if str_eq(s, "-T") || str_eq(s, "--tui") {
        Some(Flag::Tui)
    } else {
        None
    }
}

/// The settings before any argument.
pub fn default_options(tty: bool) -> (o: Options)
    ensures
        o == default_model(tty, o.final_path),
        o.final_path@ == Seq::<char>::empty(),
{
    let empty = String::new();
    Options {
        tty,
        word: false,
        random: false,
        difficult: false,
        stats: false,
        day_flag: false,
        seed_flag: false,
        final_flag: false,
        acceptable_flag: false,
        state_flag: false,
        config_flag: false,
        possible: false,
        recommend: false,
        tui: false,
        word_value: None,
        day: 1,
        seed: 0,
        final_path: empty.clone(),
        acceptable_path: empty.clone(),
        state_path: empty.clone(),
        config_path: empty,
    }
}

/// Switches on what `f` names and says which value comes next.
#[verifier::rlimit(60)]
fn take_flag(o: &mut Options, f: Flag) -> (p: Pending)
    ensures
        (*final(o), p) == apply_flag(*old(o), f),
{
    match f {
        Flag::Word => {
            o.word = true;
            Pending::Word
        },
        Flag::Random => {
            o.random = true;
            Pending::Nothing
        },
        Flag::Difficult => {
            o.difficult = true;
            Pending::Nothing
        },
        Flag::Stats => {
            o.stats = true;
            Pending::Nothing
        },
        Flag::Day => {
            o.day_flag = true;
            Pending::Day
        },
        Flag::Seed => {
            o.seed_flag = true;
            Pending::Seed
        },
        Flag::FinalSet => {
            o.final_flag = true;
            Pending::FinalSet
        },
        Flag::AcceptableSet => {
            o.acceptable_flag = true;
            Pending::AcceptableSet
        },
        Flag::State => {
            o.state_flag = true;
            Pending::State
        },
        Flag::Config => {
            o.config_flag = true;
            Pending::Config
        },
        Flag::Possible => {
            o.possible = true;
            Pending::Nothing
        },
        Flag::Recommend => {
            o.recommend = true;
            Pending::Nothing
        },
        Flag::Tui => {
            o.tui = true;
            Pending::Nothing
        },
    }
}

/// Takes the value a switch waited for.
#[verifier::rlimit(60)]
fn take_value(o: &mut Options, pending: Pending, a: &String) -> (r: Option<Pending>)
    requires
        pending != Pending::Nothing,
    ensures
        match parse_step((*old(o), pending), *a) {
            Some(st) => r == Some(st.1) && *final(o) == st.0,
            None => r is None,
        },
{
    match pending {
        Pending::Word => {
            o.word_value = Some(a.clone());
        },
        Pending::Day => {
            match parse_decimal(a.as_str(), usize::MAX as u64) {
                Some(v) => {
                    o.day = v as usize;
                },
                None => {
                    return None;
                },
            }
        },
        Pending::Seed => {
            match parse_decimal(a.as_str(), u64::MAX) {
                Some(v) => {
                    o.seed = v;
                },
                None => {
                    return None;
                },
            }
        },
        Pending::FinalSet => {
            o.final_path = a.clone();
        },
        Pending::AcceptableSet => {
            o.acceptable_path = a.clone();
        },
        Pending::State => {
            o.state_path = a.clone();
        },
        Pending::Config => {
            o.config_path = a.clone();
        },
        Pending::Nothing => {},
    }
    Some(Pending::Nothing)
}

/// Reads one argument.
fn parse_arg(o: &mut Options, pending: Pending, a: &String) -> (r: Option<Pending>)
    ensures
        match parse_step((*old(o), pending), *a) {
            Some(st) => r == Some(st.1) && *final(o) == st.0,
            None => r is None,
        },
{
    if pending == Pending::Nothing {
        match flag_of(a) {
            Some(f) => Some(take_flag(o, f)),
            None => Some(Pending::Nothing),
        }
    } else {
        take_value(o, pending, a)
    }
}

/// Reads the command line (the program name included): switches in short
/// or long form, each value right after its switch, anything else skipped.
/// Fails when a day or seed is not a number of its type. The reading starts
/// from `default_model` with empty paths. This only reads: the
/// configuration file and the rule against conflicting modes are applied by
/// `config::finish_options`, and the word files are read by
/// `wordlist::load_word_lists`.
pub fn args_parse(args: &Vec<String>, tty: bool) -> (r: Option<Options>)
    ensures
        exists|empty: String|
            empty@ == Seq::<char>::empty() && match #[trigger] parse_prefix(
                args@,
                default_model(tty, empty),
                args@.len() as int,
            ) {
                Some(st) => r == Some(st.0),
                None => r is None,
            },
{
    let mut o = default_options(tty);
    let ghost init = o;
    let mut pending = Pending::Nothing;
    let mut i: usize = 0;
    while i < args.len()
        invariant
            0 <= i <= args@.len(),
            init == default_model(tty, init.final_path),
            init.final_path@ == Seq::<char>::empty(),
            parse_prefix(args@, init, i as int) == Some((o, pending)),
        decreases args@.len() - i,
    {
        match parse_arg(&mut o, pending, &args[i]) {
            Some(p) => {
                pending = p;
            },
            None => {
                proof {
                    lemma_parse_stays_failed(args@, init, i + 1, args@.len() as int);
                }
                return None;
            },
        }
        i = i + 1;
    }
    Some(o)
}

proof fn lemma_parse_stays_failed(args: Seq<String>, init: Options, m: int, n: int)
    requires
        0 <= m <= n,
        parse_prefix(args, init, m) is None,
    ensures
        parse_prefix(args, init, n) is None,
    decreases n - m,
{
    if m < n {
        lemma_parse_stays_failed(args, init, m, n - 1);
    }
}

/// Whether output goes to a terminal.
pub fn is_tty(o: &Options) -> (b: bool)
    ensures
        b == o.tty,
{
    o.tty
}

/// Whether the answer is given on the command line.
pub fn is_word(o: &Options) -> (b: bool)
    ensures
        b == o.word,
{
    o.word
}

/// Whether answers are dealt at random.
pub fn is_random(o: &Options) -> (b: bool)
    ensures
        b == o.random,
{
    o.random
}

/// Whether hard mode is on.
pub fn is_difficult(o: &Options) -> (b: bool)
    ensures
        b == o.difficult,
{
    o.difficult
}

/// Whether statistics are shown after each game.
pub fn is_stats(o: &Options) -> (b: bool)
    ensures
        b == o.stats,
{
    o.stats
}

/// Whether a starting day was given.
pub fn is_day(o: &Options) -> (b: bool)
    ensures
        b == o.day_flag,
{
    o.day_flag
}

/// Whether a seed was given.
pub fn is_seed(o: &Options) -> (b: bool)
    ensures
        b == o.seed_flag,
{
    o.seed_flag
}

/// Whether an answer-word file was given.
pub fn is_final(o: &Options) -> (b: bool)
    ensures
        b == o.final_flag,
{
    o.final_flag
}

/// Whether an acceptable-word file was given.
pub fn is_acceptable(o: &Options) -> (b: bool)
    ensures
        b == o.acceptable_flag,
{
    o.acceptable_flag
}

/// Whether games are loaded from and saved to a file.
pub fn is_state(o: &Options) -> (b: bool)
    ensures
        b == o.state_flag,
{
    o.state_flag
}

/// Whether a configuration file was given.
pub fn is_config(o: &Options) -> (b: bool)
    ensures
        b == o.config_flag,
{
    o.config_flag
}

/// Whether the still-possible words are shown.
pub fn is_pos(o: &Options) -> (b: bool)
    ensures
        b == o.possible,
{
    o.possible
}

/// Whether recommended guesses are shown.
pub fn is_rec(o: &Options) -> (b: bool)
    ensures
        b == o.recommend,
{
    o.recommend
}

/// Whether the game runs in the full-screen terminal interface.
pub fn is_tui(o: &Options) -> (b: bool)
    ensures
        b == o.tui,
{
    o.tui
}

/// The day of a seeded game counted from 0.
pub fn get_day(o: &Options) -> (d: usize)
    requires
        o.day >= 1,
    ensures
        d == o.day - 1,
{
    o.day - 1
}

/// The seed of the answer order.
pub fn get_seed(o: &Options) -> (s: u64)
    ensures
        s == o.seed,
{
    o.seed
}

/// Settings that cannot go together: a given answer with random answers,
/// or a day or seed without random answers.
pub fn modes_conflict(o: &Options) -> (bad: bool)
    ensures
        bad == ((o.random && o.word) || (!o.random && o.day_flag) || (!o.random && o.seed_flag)),
{
    (o.random && o.word) || (!o.random && o.day_flag) || (!o.random && o.seed_flag)
}

/// Moves to the next day after a game, when days are counted.
pub fn advance_day(o: &mut Options)
    requires
        old(o).day_flag ==> old(o).day < usize::MAX,
    ensures
        *final(o) == (Options {
            day: if old(o).day_flag {
                (old(o).day + 1) as usize
            } else {
                old(o).day
            },
            ..*old(o)
        }),
{
    if o.day_flag {
        o.day = o.day + 1;
    }
}

} // verus!
