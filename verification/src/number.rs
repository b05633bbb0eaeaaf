use vstd::prelude::*;
use vstd::string::StrSliceExecFns;

verus! {

pub open spec fn is_digit(c: char) -> bool {
    '0' <= c && c <= '9'
}

/// The value of a run of decimal digits.
pub open spec fn digits_value(s: Seq<char>) -> int
    decreases s.len(),
{
    if s.len() == 0 {
        0
    } else {
        digits_value(s.drop_last()) * 10 + (s.last() as int - '0' as int)
    }
}

/// The digits of an unsigned decimal number: the text without one leading
/// `+`.
pub open spec fn unsigned_body(s: Seq<char>) -> Seq<char> {
    if s.len() > 0 && s[0] == '+' {
        s.drop_first()
    } else {
        s
    }
}

/// The unsigned number that `s` writes, when it is one of at most `max`:
/// an optional `+` and then at least one decimal digit, nothing else (the
/// rule of std's `from_str` for unsigned integers).
pub open spec fn decimal(s: Seq<char>, max: int) -> Option<int> {
    let body = unsigned_body(s);
    if body.len() > 0 && (forall|i: int| 0 <= i < body.len() ==> is_digit(#[trigger] body[i]))
        && digits_value(body) <= max {
        Some(digits_value(body))
    } else {
        None
    }
}

proof fn lemma_digits_grow(s: Seq<char>, k: int)
    requires
        0 <= k <= s.len(),
        forall|i: int| 0 <= i < s.len() ==> is_digit(#[trigger] s[i]),
    ensures
        0 <= digits_value(s.take(k)) <= digits_value(s),
    decreases s.len() - k,
{
    if k < s.len() {
        lemma_digits_grow(s.drop_last(), k);
        assert(s.drop_last().take(k) =~= s.take(k));
        lemma_digits_nonneg(s.drop_last());
    } else {
        assert(s.take(k) =~= s);
        lemma_digits_nonneg(s);
    }
}

proof fn lemma_digits_nonneg(s: Seq<char>)
    requires
        forall|i: int| 0 <= i < s.len() ==> is_digit(#[trigger] s[i]),
    ensures
        0 <= digits_value(s),
    decreases s.len(),
{
    if s.len() > 0 {
        lemma_digits_nonneg(s.drop_last());
    }
}

/// Reads an unsigned decimal number of at most `max`.
pub fn parse_decimal(s: &str, max: u64) -> (r: Option<u64>)
    ensures
        r matches Some(v) ==> decimal(s@, max as int) == Some(v as int),
        r is None ==> decimal(s@, max as int) is None,
{
    let n = s.unicode_len();
    let ghost body = unsigned_body(s@);
    let mut start: usize = 0;
    if n > 0 && s.get_char(0) == '+' {
        start = 1;
    }
    assert(body =~= s@.subrange(start as int, n as int));
    if start >= n {
        return None;
    }
    let mut value: u64 = 0;
    let mut i: usize = start;
    while i < n
        invariant
            start <= i <= n,
            n == s@.len(),
            start < n,
            body == unsigned_body(s@),
            body == s@.subrange(start as int, n as int),
            forall|k: int| start <= k < i ==> is_digit(#[trigger] s@[k]),
            value as int == digits_value(body.take(i - start)),
            value <= max,
        decreases n - i,
    {
        let c = s.get_char(i);
        if !('0' <= c && c <= '9') {
            assert(!is_digit(body[i - start]));
            return None;
        }
        let d = (c as u32 - '0' as u32) as u64;
        assert(body.take(i + 1 - start).drop_last() =~= body.take(i - start));
        match value.checked_mul(10) {
            None => {
                proof {
                    assert(digits_value(body.take(i + 1 - start)) > max);
                    lemma_prefix_too_big(s@, body, start as int, i as int, n as int, max as int);
                }
                return None;
            },
            Some(t) => match t.checked_add(d) {
                None => {
                    proof {
                        assert(digits_value(body.take(i + 1 - start)) > max);
                        lemma_prefix_too_big(s@, body, start as int, i as int, n as int, max as int);
                    }
                    return None;
                },
                Some(v) => {
                    if v > max {
                        proof {
                            lemma_prefix_too_big(s@, body, start as int, i as int, n as int, max as int);
                        }
                        return None;
                    }
                    value = v;
                },
            },
        }
        i = i + 1;
    }
    assert(body.take(n - start) =~= body);
    Some(value)
}

/// A digit prefix above `max` puts the whole number above `max`, or some
/// later character is not a digit.
proof fn lemma_prefix_too_big(s: Seq<char>, body: Seq<char>, start: int, i: int, n: int, max: int)
    requires
        0 <= start <= i < n,
        n == s.len(),
        body == s.subrange(start, n),
        forall|k: int| start <= k <= i ==> is_digit(#[trigger] s[k]),
        digits_value(body.take(i + 1 - start)) > max,
    ensures
        decimal(s, max) is None || body != unsigned_body(s),
{
    if body.len() > 0 && (forall|k: int| 0 <= k < body.len() ==> is_digit(#[trigger] body[k])) {
        lemma_digits_grow(body, i + 1 - start);
    }
}

} // verus!
