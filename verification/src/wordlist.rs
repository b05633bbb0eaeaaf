use vstd::prelude::*;
use crate::order::{lemma_text_le_antisymmetric, text_le};
use vstd::string::StrSliceExecFns;
use crate::text::{ascii_lower, contains_word, listed, push_char, to_lower};

verus! {

/// A line without the carriage return of a `\r\n` ending.
pub open spec fn strip_cr(l: Seq<char>) -> Seq<char> {
    if l.len() > 0 && l.last() == '\r' {
        l.drop_last()
    } else {
        l
    }
}

/// After the first `n` characters: the finished lines and the line being
/// read.
pub open spec fn lines_after(s: Seq<char>, n: int) -> (Seq<Seq<char>>, Seq<char>)
    decreases n,
{
    if n <= 0 {
        (Seq::empty(), Seq::empty())
    } else {
        let (done, cur) = lines_after(s, n - 1);
        if s[n - 1] == '\n' {
            (done.push(strip_cr(cur)), Seq::empty())
        } else {
            (done, cur.push(s[n - 1]))
        }
    }
}

/// The lines of a text, as std's `str::lines` gives them: split at `\n`
/// or `\r\n`, with no empty line after a final line ending.
pub open spec fn text_lines(s: Seq<char>) -> Seq<Seq<char>> {
    let (done, cur) = lines_after(s, s.len() as int);
    if cur.len() > 0 {
        done.push(cur)
    } else {
        done
    }
}

/// The lines of a text.
pub fn split_lines(text: &str) -> (lines: Vec<String>)
    ensures
        lines.deep_view() == text_lines(text@),
{
    broadcast use vstd::string::group_string_axioms;

    let mut lines: Vec<String> = Vec::new();
    let mut cur = String::new();
    for c in it: text.chars()
        invariant
            it.seq() == text@,
            lines.deep_view() == lines_after(text@, it.index() as int).0,
            cur@ == lines_after(text@, it.index() as int).1,
    {
        if c == '\n' {
            let l = if cur.unicode_len() > 0 && cur.as_str().get_char(cur.unicode_len() - 1) == '\r' {
                cur.as_str().substring_char(0, cur.unicode_len() - 1).to_string()
            } else {
                cur.clone()
            };
            lines.push(l);
            cur = String::new();
        } else {
            push_char(&mut cur, c);
        }
    }
    if cur.unicode_len() > 0 {
        lines.push(cur);
    }
    lines
}

/// Each line of the text in lowercase.
pub open spec fn lowered_lines(s: Seq<char>) -> Seq<Seq<char>> {
    text_lines(s).map_values(|l: Seq<char>| ascii_lower(l))
}

/// No two entries read the same.
pub open spec fn all_distinct(words: Seq<String>) -> bool {
    forall|i: int, j: int| 0 <= i < j < words.len() ==> #[trigger] words[i]@ != #[trigger] words[j]@
}

/// Every entry comes no later than the next ones in dictionary order.
pub open spec fn in_text_order(words: Seq<String>) -> bool {
    forall|i: int, j: int| 0 <= i < j < words.len() ==> text_le(#[trigger] words[i]@, #[trigger] words[j]@)
}

/// Sorts words with std's `slice::sort`. `String` is ordered by its bytes,
/// which for UTF-8 is the dictionary order of code points. Claimed: the
/// same words come out, in that order.
#[verifier::external_body]
fn sort_words(words: &mut Vec<String>)
    ensures
        final(words)@.to_multiset() == old(words)@.to_multiset(),
        in_text_order(final(words)@),
{
    words.sort()
}

/// The lowercase lines of a word file, sorted; nothing when a word occurs
/// twice.
pub fn prepare_words(text: &str) -> (r: Option<Vec<String>>)
    ensures
        r matches Some(v) ==> sorted_words_of(text@, v@),
        r is None ==> repeats_a_word(text@),
{
    let lines = split_lines(text);
    let mut words: Vec<String> = Vec::new();
    let mut i: usize = 0;
    while i < lines.len()
        invariant
            0 <= i <= lines@.len(),
            lines.deep_view() == text_lines(text@),
            words@.len() == i,
            forall|j: int| 0 <= j < i ==> #[trigger] words@[j]@ == ascii_lower(text_lines(text@)[j]),
        decreases lines@.len() - i,
    {
        let w = to_lower(lines[i].as_str());
        assert(lines.deep_view()[i as int] == lines@[i as int]@);
        words.push(w);
        i = i + 1;
    }
    let ghost lowered = words@;
    assert(lowered.map_values(|w: String| w@) =~= lowered_lines(text@));
    sort_words(&mut words);
    let n = words.len();
    let mut k: usize = 1;
    while k < n
        invariant
            1 <= k || n == 0,
            k <= n || n == 0,
            n == words@.len(),
            in_text_order(words@),
            words@.to_multiset() == lowered.to_multiset(),
            lowered.map_values(|w: String| w@) == lowered_lines(text@),
            forall|j: int| 0 <= j && j + 1 < k && j + 1 < n ==> #[trigger] words@[j]@ != words@[j + 1]@,
        decreases n - k,
    {
        if words[k - 1] == words[k] {
            proof {
                assert(!all_distinct(words@));
                assert(words@.to_multiset() == lowered.to_multiset());
            }
            return None;
        }
        k = k + 1;
    }
    proof {
        assert forall|a: int, b: int| 0 <= a < b < words@.len() implies #[trigger] words@[a]@
            != #[trigger] words@[b]@ by {
            if words@[a]@ == words@[b]@ {
                assert(words@[a]@ != words@[a + 1]@);
                if a + 1 < b {
                    assert(text_le(words@[a]@, words@[a + 1]@));
                    assert(text_le(words@[a + 1]@, words@[b]@));
                    lemma_text_le_antisymmetric(words@[a]@, words@[a + 1]@);
                }
            }
        }
    }
    assert(words@.to_multiset() == lowered.to_multiset());
    Some(words)
}

/// Whether every answer word is also an acceptable word.
pub fn all_listed(final_set: &Vec<String>, acceptable: &Vec<String>) -> (ok: bool)
    ensures
        ok == forall|k: int| 0 <= k < final_set@.len() ==> listed(acceptable@, #[trigger] final_set@[k]@),
{
    let mut k: usize = 0;
    while k < final_set.len()
        invariant
            0 <= k <= final_set@.len(),
            forall|j: int| 0 <= j < k ==> listed(acceptable@, #[trigger] final_set@[j]@),
        decreases final_set@.len() - k,
    {
        if !contains_word(acceptable, &final_set[k]) {
            return false;
        }
        k = k + 1;
    }
    true
}

/// `v` is the text's lines in lowercase, sorted, none twice.
pub open spec fn sorted_words_of(text: Seq<char>, v: Seq<String>) -> bool {
    exists|lowered: Seq<String>|
        #![trigger lowered.to_multiset()]
        lowered.map_values(|w: String| w@) == lowered_lines(text) && v.to_multiset()
            == lowered.to_multiset() && in_text_order(v) && all_distinct(v)
}

/// Some word occurs twice among the text's lines in lowercase.
pub open spec fn repeats_a_word(text: Seq<char>) -> bool {
    exists|lowered: Seq<String>, v: Seq<String>|
        #![trigger lowered.to_multiset(), v.to_multiset()]
        lowered.map_values(|w: String| w@) == lowered_lines(text) && v.to_multiset()
            == lowered.to_multiset() && !all_distinct(v)
}

/// Every word of `f` is also a word of `a`.
pub open spec fn within(f: Seq<String>, a: Seq<String>) -> bool {
    forall|k: int| 0 <= k < f.len() ==> listed(a, #[trigger] f[k]@)
}

/// Reads the answer-word and acceptable-word files: each in lowercase and
/// sorted; nothing when either repeats a word or an answer word is not
/// acceptable.
pub fn load_word_lists(final_text: &str, acceptable_text: &str) -> (r: Option<
    (Vec<String>, Vec<String>),
>)
    ensures
        r matches Some((f, a)) ==> sorted_words_of(final_text@, f@) && sorted_words_of(
            acceptable_text@,
            a@,
        ) && within(f@, a@),
        r is None ==> repeats_a_word(final_text@) || repeats_a_word(acceptable_text@) || exists|
            f: Seq<String>,
            a: Seq<String>,
        |
            #![trigger sorted_words_of(final_text@, f), sorted_words_of(acceptable_text@, a)]
            sorted_words_of(final_text@, f) && sorted_words_of(acceptable_text@, a) && !within(
                f,
                a,
            ),
{
    let finals = match prepare_words(final_text) {
        Some(f) => f,
        None => {
            return None;
        },
    };
    let acceptable = match prepare_words(acceptable_text) {
        Some(a) => a,
        None => {
            return None;
        },
    };
    if !all_listed(&finals, &acceptable) {
        assert(sorted_words_of(final_text@, finals@));
        assert(sorted_words_of(acceptable_text@, acceptable@));
        return None;
    }
    Some((finals, acceptable))
}

} // verus!
