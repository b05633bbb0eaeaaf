use vstd::prelude::*;
use vstd::string::StrSliceExecFns;
use crate::text::{contains_word, listed};
use crate::word::{is_five_lower, is_lower};

verus! {

/// Why a typed word is turned down, if it is.
#[derive(Clone, Copy, Debug, PartialEq, Eq, Structural)]
pub enum InputCheck {
    /// Five lowercase letters, and an acceptable word.
    Accepted,
    /// Not five lowercase letters.
    BadShape,
    /// Five lowercase letters, but not in the acceptable list.
    NotAcceptable,
}

/// The verdict on a typed word.
pub open spec fn input_verdict(input: Seq<char>, acceptable: Seq<String>) -> InputCheck {
    if !is_five_lower(input) {
        InputCheck::BadShape
    } else if !listed(acceptable, input) {
        InputCheck::NotAcceptable
    } else {
        InputCheck::Accepted
    }
}

/// Whether the text is five lowercase letters.
pub fn is_five_lowercase(input: &String) -> (ok: bool)
    ensures
        ok == is_five_lower(input@),
{
    let s = input.as_str();
    if s.unicode_len() != 5 {
        return false;
    }
    let mut i: usize = 0;
    while i < 5
        invariant
            0 <= i <= 5,
            s@ == input@,
            s@.len() == 5,
            forall|k: int| 0 <= k < i ==> is_lower(#[trigger] s@[k]),
        decreases 5 - i,
    {
        let ch = s.get_char(i);
        if !('a' <= ch && ch <= 'z') {
            return false;
        }
        i = i + 1;
    }
    true
}

/// Checks a typed word: five lowercase letters first, then membership of
/// the acceptable list.
pub fn check_input(input: &String, acceptable: &Vec<String>) -> (r: InputCheck)
    ensures
        r == input_verdict(input@, acceptable@),
{
    if !is_five_lowercase(input) {
        InputCheck::BadShape
    } else if !contains_word(acceptable, input) {
        InputCheck::NotAcceptable
    } else {
        InputCheck::Accepted
    }
}

/// Whether a typed word is a guess the game takes.
pub fn valid(input: &String, acceptable: &Vec<String>) -> (ok: bool)
    ensures
        ok == (is_five_lower(input@) && listed(acceptable@, input@)),
{
    match check_input(input, acceptable) {
        InputCheck::Accepted => true,
        _ => false,
    }
}

/// The reply to "another game?" without its last character when it has
/// more than one.
pub open spec fn trimmed_reply(reply: Seq<char>) -> Seq<char> {
    if reply.len() > 1 {
        reply.drop_last()
    } else {
        reply
    }
}

/// Whether the reply to "another game?" ends the run: it reads `N` once its
/// line ending is taken off.
pub fn ends_run(reply: &str) -> (stop: bool)
    ensures
        stop == (trimmed_reply(reply@) == "N"@),
{
    let n = reply.unicode_len();
    if n > 1 {
        crate::text::str_eq(reply.substring_char(0, n - 1), "N")
    } else {
        crate::text::str_eq(reply, "N")
    }
}

} // verus!
