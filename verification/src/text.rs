use vstd::prelude::*;
use vstd::string::StrSliceExecFns;
use crate::word::is_lower;

verus! {

/// A capital ASCII letter.
pub open spec fn is_upper(c: char) -> bool {
    'A' <= c && c <= 'Z'
}

/// `c` with a lowercase ASCII letter made capital.
pub open spec fn upper_char(c: char) -> char {
    if is_lower(c) {
        (c as int - 32) as char
    } else {
        c
    }
}

/// `c` with a capital ASCII letter made lowercase.
pub open spec fn lower_char(c: char) -> char {
    if is_upper(c) {
        (c as int + 32) as char
    } else {
        c
    }
}

/// The text with its ASCII letters made capital.
pub open spec fn ascii_upper(s: Seq<char>) -> Seq<char> {
    Seq::new(s.len(), |i: int| upper_char(s[i]))
}

/// The text with its ASCII letters made lowercase.
pub open spec fn ascii_lower(s: Seq<char>) -> Seq<char> {
    Seq::new(s.len(), |i: int| lower_char(s[i]))
}

/// Whether some entry of `words` reads `w`.
pub open spec fn listed(words: Seq<String>, w: Seq<char>) -> bool {
    exists|k: int| 0 <= k < words.len() && #[trigger] words[k]@ == w
}

/// Appends a character (std's `String::push`).
#[verifier::external_body]
pub(crate) fn push_char(s: &mut String, c: char)
    ensures
        final(s)@ == old(s)@.push(c),
{
    s.push(c)
}

/// The capital form of an ASCII character.
pub fn upper_of(c: char) -> (u: char)
    ensures
        u == upper_char(c),
{
    if 'a' <= c && c <= 'z' {
        ((c as u8) - 32) as char
    } else {
        c
    }
}

/// The lowercase form of an ASCII character.
pub fn lower_of(c: char) -> (l: char)
    ensures
        l == lower_char(c),
{
    if 'A' <= c && c <= 'Z' {
        ((c as u8) + 32) as char
    } else {
        c
    }
}

/// The text with its ASCII letters made capital.
pub fn to_upper(s: &str) -> (u: String)
    ensures
        u@ == ascii_upper(s@),
{
    let n = s.unicode_len();
    let mut u = String::new();
    let mut i: usize = 0;
    while i < n
        invariant
            0 <= i <= n,
            n == s@.len(),
            u@ == ascii_upper(s@).take(i as int),
        decreases n - i,
    {
        let c = s.get_char(i);
        push_char(&mut u, upper_of(c));
        assert(ascii_upper(s@).take(i + 1) =~= ascii_upper(s@).take(i as int).push(upper_char(c)));
        i = i + 1;
    }
    assert(ascii_upper(s@).take(n as int) =~= ascii_upper(s@));
    u
}

/// The text with its ASCII letters made lowercase.
pub fn to_lower(s: &str) -> (l: String)
    ensures
        l@ == ascii_lower(s@),
{
    let n = s.unicode_len();
    let mut l = String::new();
    let mut i: usize = 0;
    while i < n
        invariant
            0 <= i <= n,
            n == s@.len(),
            l@ == ascii_lower(s@).take(i as int),
        decreases n - i,
    {
        let c = s.get_char(i);
        push_char(&mut l, lower_of(c));
        assert(ascii_lower(s@).take(i + 1) =~= ascii_lower(s@).take(i as int).push(lower_char(c)));
        i = i + 1;
    }
    assert(ascii_lower(s@).take(n as int) =~= ascii_lower(s@));
    l
}

/// Whether two texts read the same.
pub fn str_eq(a: &str, b: &str) -> (eq: bool)
    ensures
        eq == (a@ == b@),
{
    let n = a.unicode_len();
    if n != b.unicode_len() {
        return false;
    }
    let mut i: usize = 0;
    while i < n
        invariant
            0 <= i <= n,
            n == a@.len(),
            n == b@.len(),
            forall|k: int| 0 <= k < i ==> a@[k] == b@[k],
        decreases n - i,
    {
        if a.get_char(i) != b.get_char(i) {
            return false;
        }
        i = i + 1;
    }
    assert(a@ =~= b@);
    true
}

/// Whether some entry of `words` reads `w`.
pub fn contains_word(words: &Vec<String>, w: &String) -> (found: bool)
    ensures
        found == listed(words@, w@),
{
    let mut k: usize = 0;
    while k < words.len()
        invariant
            0 <= k <= words@.len(),
            forall|j: int| 0 <= j < k ==> words@[j]@ != w@,
        decreases words@.len() - k,
    {
        if words[k] == *w {
            return true;
        }
        k = k + 1;
    }
    false
}

/// Capitals and back: a lowercase text made capital and then lowercase is
/// itself again, and its capital form holds only capitals where it held
/// lowercase letters.
pub proof fn lemma_case_round_trip(s: Seq<char>)
    requires
        forall|i: int| 0 <= i < s.len() ==> is_lower(#[trigger] s[i]),
    ensures
        ascii_lower(ascii_upper(s)) == s,
        ascii_upper(s).len() == s.len(),
        forall|i: int| 0 <= i < s.len() ==> is_upper(#[trigger] ascii_upper(s)[i]),
        forall|i: int| 0 <= i < s.len() ==> ascii_upper(s)[i] as int == #[trigger] s[i] as int - 32,
{
    assert(ascii_lower(ascii_upper(s)) =~= s);
}

} // verus!
