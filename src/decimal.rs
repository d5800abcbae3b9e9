use vstd::prelude::*;

verus! {

/// `b` is the ASCII code of a decimal digit.
pub open spec fn is_digit(b: u8) -> bool {
    48 <= b <= 57
}

pub open spec fn all_digits(s: Seq<u8>) -> bool {
    forall|k: int| 0 <= k < s.len() ==> is_digit(#[trigger] s[k])
}

/// The number that the decimal digits `s` write, most significant first.
pub open spec fn digits_value(s: Seq<u8>) -> int
    decreases s.len(),
{
    if s.len() == 0 {
        0
    } else {
        digits_value(s.drop_last()) * 10 + (s.last() - 48)
    }
}

/// `s` is one or more decimal digits that write a number no larger than `max`.
pub open spec fn digits_within(s: Seq<u8>, max: int) -> bool {
    s.len() > 0 && all_digits(s) && digits_value(s) <= max
}

/// What parsing `s` as an unsigned number no larger than `max` gives: an
/// optional `+` followed by one or more decimal digits, and nothing else.
pub open spec fn unsigned_value(s: Seq<u8>, max: int) -> Option<int> {
    let body = if s.len() > 0 && s[0] == 43 { s.drop_first() } else { s };
    if digits_within(body, max) {
        Some(digits_value(body))
    } else {
        None
    }
}

/// What parsing `s` as an `i64` gives: an optional `+` or `-` followed by one
/// or more decimal digits, and nothing else, within the range of `i64`.
pub open spec fn i64_value(s: Seq<u8>) -> Option<int> {
    if s.len() > 0 && s[0] == 45 {
        if digits_within(s.drop_first(), 9_223_372_036_854_775_808) {
            Some(-digits_value(s.drop_first()))
        } else {
            None
        }
    } else {
        unsigned_value(s, 9_223_372_036_854_775_807)
    }
}

proof fn lemma_digits_value_grows(s: Seq<u8>, k: int)
    requires
        all_digits(s),
        0 <= k <= s.len(),
    ensures
        0 <= digits_value(s.take(k)) <= digits_value(s),
    decreases s.len(),
{
    if s.len() > 0 {
        if k == s.len() {
            assert(s.take(k) =~= s);
        } else {
            assert(s.drop_last().take(k) =~= s.take(k));
        }
        lemma_digits_value_grows(s.drop_last(), if k == s.len() { k - 1 } else { k });
        assert(s.drop_last().take(s.len() - 1) =~= s.drop_last());
    }
}

/// The digits of `b` from position `start` on, as a number no larger than
/// `max`; `None` unless there is at least one and all are digits.
fn parse_digits(b: &[u8], start: usize, max: u64) -> (r: Option<u64>)
    requires
        start <= b@.len(),
    ensures
        r == (if digits_within(b@.skip(start as int), max as int) {
            Some(digits_value(b@.skip(start as int)) as u64)
        } else {
            None
        }),
        r matches Some(v) ==> v <= max && v == digits_value(b@.skip(start as int)),
{
    let ghost body = b@.skip(start as int);
    if start == b.len() {
        return None;
    }
    let mut acc: u64 = 0;
    let mut i: usize = start;
    while i < b.len()
        invariant
            start <= i <= b@.len(),
            body == b@.skip(start as int),
            all_digits(body.take(i - start)),
            acc == digits_value(body.take(i - start)),
            acc <= max,
        decreases b@.len() - i,
    {
        let c = b[i];
        assert(body.take(i - start + 1).drop_last() =~= body.take(i - start));
        assert(body[i - start] == c);
        if c < 48 || c > 57 {
            return None;
        }
        let d = (c - 48) as u64;
        if d > max || acc > (max - d) / 10 {
            proof {
                assert(acc * 10 + d > max) by (nonlinear_arith)
                    requires d > max || acc > (max - d) / 10, acc >= 0;
                if all_digits(body) {
                    lemma_digits_value_grows(body, i - start + 1);
                }
            }
            return None;
        }
        assert(acc * 10 + d <= max) by (nonlinear_arith)
            requires acc <= (max - d) / 10, d <= max;
        acc = acc * 10 + d;
        i = i + 1;
    }
    assert(body.take(i - start) =~= body);
    proof {
        lemma_digits_value_grows(body, 0);
    }
    Some(acc)
}

/// Parses `s` as an unsigned number no larger than `max`.
pub fn parse_unsigned(s: &[u8], max: u64) -> (r: Option<u64>)
    ensures
        r matches Some(v) ==> v <= max && unsigned_value(s@, max as int) == Some(v as int),
        r == (match unsigned_value(s@, max as int) {
            Some(v) => Some(v as u64),
            None => None,
        }),
{
    if s.len() > 0 && s[0] == 43 {
        assert(s@.skip(1) =~= s@.drop_first());
        parse_digits(s, 1, max)
    } else {
        assert(s@.skip(0) =~= s@);
        parse_digits(s, 0, max)
    }
}

/// Parses `s` as an `i64`.
pub fn parse_i64(s: &[u8]) -> (r: Option<i64>)
    ensures
        r == (match i64_value(s@) {
            Some(v) => Some(v as i64),
            None => None,
        }),
        r matches Some(v) ==> i64_value(s@) == Some(v as int),
{
    if s.len() > 0 && s[0] == 45 {
        assert(s@.skip(1) =~= s@.drop_first());
        match parse_digits(s, 1, 9_223_372_036_854_775_808) {
            Some(v) => {
                assert(v <= 9_223_372_036_854_775_808);
                let w = 0 - (v as i128);
                assert(i64_value(s@) == Some(w as int));
                Some(w as i64)
            },
            None => None,
        }
    } else {
        match parse_unsigned(s, 9_223_372_036_854_775_807) {
            Some(v) => Some(v as i64),
            None => None,
        }
    }
}

/// The decimal digits of `n`, most significant first, without leading zeros.
pub open spec fn decimal(n: nat) -> Seq<char>
    decreases n,
{
    if n < 10 {
        seq![(n + 48) as char]
    } else {
        decimal(n / 10).push(((n % 10) + 48) as char)
    }
}

/// `n` in decimal, with a leading `-` when it is negative.
pub open spec fn signed_decimal(n: int) -> Seq<char> {
    if n < 0 {
        seq!['-'] + decimal((-n) as nat)
    } else {
        decimal(n as nat)
    }
}

/// Relies on `String::push`: appends one character.
#[verifier::external_body]
pub(crate) fn push_char(s: &mut String, c: char)
    ensures
        final(s)@ == old(s)@.push(c),
{
    s.push(c)
}

/// Appends the decimal digits of `n` to `s`.
pub fn push_decimal(s: &mut String, n: u64)
    ensures
        final(s)@ == old(s)@ + decimal(n as nat),
    decreases n,
{
    if n >= 10 {
        push_decimal(s, n / 10);
    }
    let d = (n % 10) as u8;
    push_char(s, (d + 48) as char);
    assert(final(s)@ =~= old(s)@ + decimal(n as nat));
}

/// Appends `n` in decimal to `s`.
pub fn push_signed_decimal(s: &mut String, n: i64)
    ensures
        final(s)@ == old(s)@ + signed_decimal(n as int),
{
    if n < 0 {
        push_char(s, '-');
        let m = (0 - (n as i128)) as u64;
        push_decimal(s, m);
        assert(final(s)@ =~= old(s)@ + signed_decimal(n as int));
    } else {
        push_decimal(s, n as u64);
    }
}

} // verus!
