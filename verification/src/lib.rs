//! A verified core for a terminal Wordle game: letter feedback, keyboard
//! colouring, hard-mode checks, the possible-word filter, round and session
//! bookkeeping and command-line option handling.

pub mod status;
pub mod word;
pub mod feedback;
pub mod filter;
pub mod text;
pub mod rng;
pub mod answers;
pub mod input;
pub mod counter;
pub mod game;
pub mod session;
pub mod number;
pub mod args;
pub mod config;
pub mod order;
pub mod favorites;
pub mod wordlist;
