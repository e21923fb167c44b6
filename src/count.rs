//! Positive counts given on a command line, read as base-10 integers.
use vstd::prelude::*;

verus! {

/// A decimal digit character.
pub open spec fn is_digit(c: char) -> bool {
    '0' <= c && c <= '9'
}

/// The value of a decimal digit character.
pub open spec fn digit_value(c: char) -> nat {
    (c as int - '0' as int) as nat
}

/// The value of a sequence of decimal digits, most significant first.
pub open spec fn decimal_value(s: Seq<char>) -> nat
    decreases s.len(),
{
    if s.len() == 0 {
        0
    } else {
        decimal_value(s.drop_last()) * 10 + digit_value(s.last())
    }
}

/// What follows an optional leading `+` sign.
pub open spec fn unsigned_digits(s: Seq<char>) -> Seq<char> {
    if s.len() > 0 && s[0] == '+' {
        s.drop_first()
    } else {
        s
    }
}

/// `s` is an optional `+` followed by one or more decimal digits, and nothing else.
pub open spec fn is_numeral(s: Seq<char>) -> bool {
    let d = unsigned_digits(s);
    &&& d.len() > 0
    &&& forall|i: int| 0 <= i < d.len() ==> is_digit(#[trigger] d[i])
}

/// The number that a numeral denotes.
pub open spec fn numeral_value(s: Seq<char>) -> nat {
    decimal_value(unsigned_digits(s))
}

/// `s` denotes a count greater than zero that fits in a `usize`.
pub open spec fn is_positive_count(s: Seq<char>) -> bool {
    &&& is_numeral(s)
    &&& 0 < numeral_value(s)
    &&& numeral_value(s) <= usize::MAX
}

proof fn lemma_decimal_value_push(s: Seq<char>, c: char)
    ensures
        decimal_value(s.push(c)) == decimal_value(s) * 10 + digit_value(c),
{
    assert(s.push(c).drop_last() =~= s);
}

proof fn lemma_decimal_value_grows(d: Seq<char>, i: int, j: int)
    requires
        0 <= i <= j <= d.len(),
    ensures
        decimal_value(d.take(i)) <= decimal_value(d.take(j)),
    decreases j - i,
{
    if i < j {
        lemma_decimal_value_grows(d, i, j - 1);
        assert(d.take(j) =~= d.take(j - 1).push(d[j - 1]));
        lemma_decimal_value_push(d.take(j - 1), d[j - 1]);
    }
}

/// Reads `val` as a count greater than zero.
///
/// Accepts what `usize`'s own parsing accepts (an optional `+`, then decimal
/// digits, no spaces) when the value is at least one; any other text is
/// refused, and the error is that text itself.
pub fn parse_positive_int(val: &str) -> (r: Result<usize, String>)
    ensures
        match r {
            Ok(n) => is_positive_count(val@) && n as nat == numeral_value(val@),
            Err(e) => !is_positive_count(val@) && e@ == val@,
        },
{
    let len = val.unicode_len();
    let mut start: usize = 0;
    if len > 0 && val.get_char(0) == '+' {
        start = 1;
    }
    let ghost d = unsigned_digits(val@);
    assert(d =~= val@.subrange(start as int, len as int));
    if start >= len {
        return Err(val.to_owned());
    }
    let mut acc: usize = 0;
    let mut i: usize = start;
    while i < len
        invariant
            start <= i <= len,
            len == val@.len(),
            start < len,
            d =~= val@.subrange(start as int, len as int),
            d == unsigned_digits(val@),
            acc as nat == decimal_value(d.take(i - start)),
            forall|k: int| 0 <= k < i - start ==> is_digit(#[trigger] d[k]),
        decreases len - i,
    {
        let c = val.get_char(i);
        assert(c == d[i - start]);
        assert(d.take(i - start + 1) =~= d.take(i - start).push(c));
        proof {
            lemma_decimal_value_push(d.take(i - start), c);
        }
        if !('0' <= c && c <= '9') {
            assert(!is_digit(d[i - start]));
            return Err(val.to_owned());
        }
        let digit = (c as u32 - '0' as u32) as usize;
        if acc > (usize::MAX - digit) / 10 {
            proof {
                assert(acc * 10 + digit > usize::MAX) by (nonlinear_arith)
                    requires
                        acc > (usize::MAX - digit) / 10,
                        digit <= 9,
                ;
                lemma_decimal_value_grows(d, i - start + 1, d.len() as int);
                assert(d.take(d.len() as int) =~= d);
                assert(numeral_value(val@) == decimal_value(d));
                assert(numeral_value(val@) > usize::MAX);
            }
            return Err(val.to_owned());
        }
        assert(acc * 10 + digit <= usize::MAX) by (nonlinear_arith)
            requires
                acc <= (usize::MAX - digit) / 10,
                digit <= 9,
        ;
        acc = acc * 10 + digit;
        i = i + 1;
    }
    assert(d.take(i - start) =~= d);
    if acc == 0 {
        return Err(val.to_owned());
    }
    Ok(acc)
}

} // verus!
