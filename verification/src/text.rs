use vstd::prelude::*;

use crate::error::IntErrorKind;

verus! {

/// `s` without its last character; the empty string stays empty.
/// This is what `String::pop` leaves behind.
pub open spec fn drop_last_char(s: Seq<char>) -> Seq<char> {
    if s.len() == 0 {
        s
    } else {
        s.drop_last()
    }
}

/// Removes the last character of `s`, if any (sysfs files end in a newline).
pub fn without_last_char(s: String) -> (r: String)
    ensures
        r@ == drop_last_char(s@),
{
    let n = s.as_str().unicode_len();
    if n == 0 {
        s
    } else {
        s.as_str().substring_char(0, n - 1).to_owned()
    }
}

pub open spec fn is_decimal_digit(c: char) -> bool {
    '0' <= c && c <= '9'
}

pub open spec fn digit_value(c: char) -> int {
    c as int - '0' as int
}

/// The value of the digit run `d`, read from left to right and negated
/// when `negative`, or the first error met on the way: a character that
/// is not a digit, or a running value that leaves the range of `i32`.
pub open spec fn digits_value(d: Seq<char>, negative: bool) -> Result<int, IntErrorKind>
    decreases d.len(),
{
    if d.len() == 0 {
        Ok(0)
    } else {
        match digits_value(d.drop_last(), negative) {
            Err(e) => Err(e),
            Ok(v) => {
                let c = d.last();
                if !is_decimal_digit(c) {
                    Err(IntErrorKind::InvalidDigit)
                } else if negative {
                    let n = v * 10 - digit_value(c);
                    if n < i32::MIN {
                        Err(IntErrorKind::NegOverflow)
                    } else {
                        Ok(n)
                    }
                } else {
                    let n = v * 10 + digit_value(c);
                    if n > i32::MAX {
                        Err(IntErrorKind::PosOverflow)
                    } else {
                        Ok(n)
                    }
                }
            },
        }
    }
}

/// Decimal `i32` syntax as `str::parse::<i32>` accepts it: an optional
/// `+` or `-` followed by one or more ASCII digits, nothing else.
pub open spec fn spec_parse_i32(s: Seq<char>) -> Result<i32, IntErrorKind> {
    if s.len() == 0 {
        Err(IntErrorKind::Empty)
    } else if (s[0] == '+' || s[0] == '-') && s.len() == 1 {
        Err(IntErrorKind::InvalidDigit)
    } else {
        let negative = s[0] == '-';
        let digits = if s[0] == '+' || s[0] == '-' {
            s.drop_first()
        } else {
            s
        };
        match digits_value(digits, negative) {
            Ok(v) => Ok(v as i32),
            Err(e) => Err(e),
        }
    }
}

/// Parses `s` as a decimal `i32`, with the result of `i32::from_str`.
pub fn parse_i32(s: &str) -> (r: Result<i32, IntErrorKind>)
    ensures
        r == spec_parse_i32(s@),
{
    let n = s.unicode_len();
    if n == 0 {
        return Err(IntErrorKind::Empty);
    }
    let first = s.get_char(0);
    if (first == '+' || first == '-') && n == 1 {
        return Err(IntErrorKind::InvalidDigit);
    }
    let negative = first == '-';
    let start: usize = if first == '+' || first == '-' { 1 } else { 0 };
    let ghost digits = s@.subrange(start as int, n as int);
    assert(digits =~= (if first == '+' || first == '-' { s@.drop_first() } else { s@ }));
    let mut acc: i64 = 0;
    let mut i: usize = start;
    assert(digits.take(0) =~= Seq::<char>::empty());
    while i < n
        invariant
            n == s@.len(),
            start <= i <= n,
            start <= 1,
            digits == s@.subrange(start as int, n as int),
            digits_value(digits.take(i - start), negative) == Ok::<int, IntErrorKind>(acc as int),
            i32::MIN <= acc <= i32::MAX,
            negative ==> acc <= 0,
            !negative ==> acc >= 0,
            negative == (s@[0] == '-'),
            digits =~= (if s@[0] == '+' || s@[0] == '-' { s@.drop_first() } else { s@ }),
        decreases n - i,
    {
        let c = s.get_char(i);
        let ghost k = i - start;
        assert(digits.take(k + 1).drop_last() =~= digits.take(k));
        assert(digits.take(k + 1).last() == c);
        if !('0' <= c && c <= '9') {
            proof {
                lemma_digits_prefix_error(digits, k + 1, IntErrorKind::InvalidDigit, negative);
                assert(digits_value(digits, negative) == Err::<int, IntErrorKind>(IntErrorKind::InvalidDigit));
            }
            return Err(IntErrorKind::InvalidDigit);
        }
        let dv = (c as u32 - '0' as u32) as i64;
        assert(dv == digit_value(c));
        if negative {
            let next = acc * 10 - dv;
            if next < i32::MIN as i64 {
                proof {
                    lemma_digits_prefix_error(digits, k + 1, IntErrorKind::NegOverflow, negative);
                }
                return Err(IntErrorKind::NegOverflow);
            }
            acc = next;
        } else {
            let next = acc * 10 + dv;
            if next > i32::MAX as i64 {
                proof {
                    lemma_digits_prefix_error(digits, k + 1, IntErrorKind::PosOverflow, negative);
                }
                return Err(IntErrorKind::PosOverflow);
            }
            acc = next;
        }
        i = i + 1;
    }
    assert(digits.take(n - start) =~= digits);
    Ok(acc as i32)
}

/// An error met in a prefix of a digit run is the error of the whole run.
proof fn lemma_digits_prefix_error(d: Seq<char>, k: int, e: IntErrorKind, negative: bool)
    requires
        0 <= k <= d.len(),
        digits_value(d.take(k), negative) == Err::<int, IntErrorKind>(e),
    ensures
        digits_value(d, negative) == Err::<int, IntErrorKind>(e),
    decreases d.len() - k,
{
    if k < d.len() {
        assert(d.take(k + 1).drop_last() =~= d.take(k));
        lemma_digits_prefix_error(d, k + 1, e, negative);
    } else {
        assert(d.take(k) =~= d);
    }
}

/// Dropping the last character keeps every other character in place:
/// putting the dropped character back gives the string again.
pub proof fn lemma_drop_last_char(s: Seq<char>)
    ensures
        s.len() > 0 ==> drop_last_char(s).len() + 1 == s.len() && drop_last_char(s) + seq![
            s[s.len() - 1],
        ] == s,
        s.len() == 0 ==> drop_last_char(s) == s,
{
    if s.len() > 0 {
        assert(drop_last_char(s) + seq![s[s.len() - 1]] =~= s);
    }
}

/// The character of the decimal digit `d`, for `0 <= d < 10`.
pub open spec fn digit_char(d: int) -> char {
    if d == 0 {
        '0'
    } else if d == 1 {
        '1'
    } else if d == 2 {
        '2'
    } else if d == 3 {
        '3'
    } else if d == 4 {
        '4'
    } else if d == 5 {
        '5'
    } else if d == 6 {
        '6'
    } else if d == 7 {
        '7'
    } else if d == 8 {
        '8'
    } else {
        '9'
    }
}

/// The decimal digits of `m`, most significant first, with no leading zero.
pub open spec fn decimal_digits(m: nat) -> Seq<char>
    decreases m,
{
    if m < 10 {
        seq![digit_char(m as int)]
    } else {
        decimal_digits(m / 10).push(digit_char((m % 10) as int))
    }
}

proof fn lemma_digits_of_decimal(m: nat, negative: bool)
    requires
        negative ==> m <= 0x8000_0000,
        !negative ==> m <= 0x7fff_ffff,
    ensures
        digits_value(decimal_digits(m), negative) == Ok::<int, IntErrorKind>(
            if negative { -m } else { m as int },
        ),
    decreases m,
{
    if m < 10 {
        let d = decimal_digits(m);
        assert(d.drop_last() =~= Seq::<char>::empty());
        assert(digits_value(d.drop_last(), negative) == Ok::<int, IntErrorKind>(0));
        assert(digit_value(d.last()) == m);
        assert(is_decimal_digit(d.last()));
    } else {
        let q = m / 10;
        let r = m % 10;
        assert(q * 10 + r == m && q < m && r < 10) by (nonlinear_arith)
            requires
                q == m / 10,
                r == m % 10,
                m >= 10,
        ;
        lemma_digits_of_decimal(q, negative);
        let d = decimal_digits(m);
        assert(d.drop_last() =~= decimal_digits(q));
        assert(digit_value(d.last()) == r);
        assert(is_decimal_digit(d.last()));
        if negative {
            assert(-q * 10 - r == -m);
        }
    }
}

/// Parsing gives back every `i32` from its decimal form: the digits of
/// its magnitude, after a `-` when it is negative and after an optional
/// `+` when it is not.
pub proof fn lemma_parse_decimal(n: i32)
    ensures
        n >= 0 ==> spec_parse_i32(decimal_digits(n as nat)) == Ok::<i32, IntErrorKind>(n),
        n >= 0 ==> spec_parse_i32(seq!['+'] + decimal_digits(n as nat)) == Ok::<i32, IntErrorKind>(
            n,
        ),
        n < 0 ==> spec_parse_i32(seq!['-'] + decimal_digits((-n) as nat)) == Ok::<
            i32,
            IntErrorKind,
        >(n),
{
    if n >= 0 {
        let d = decimal_digits(n as nat);
        lemma_digits_of_decimal(n as nat, false);
        assert(d.len() > 0 && d[0] != '+' && d[0] != '-') by {
            lemma_decimal_digits_are_digits(n as nat);
        }
        let p = seq!['+'] + d;
        assert(p.drop_first() =~= d);
    } else {
        let m = (-n) as nat;
        let d = decimal_digits(m);
        lemma_digits_of_decimal(m, true);
        lemma_decimal_digits_are_digits(m);
        let p = seq!['-'] + d;
        assert(p.drop_first() =~= d);
    }
}

proof fn lemma_decimal_digits_are_digits(m: nat)
    ensures
        decimal_digits(m).len() > 0,
        forall|i: int| 0 <= i < decimal_digits(m).len() ==> is_decimal_digit(#[trigger] decimal_digits(m)[i]),
    decreases m,
{
    if m >= 10 {
        assert(m % 10 < 10);
        lemma_decimal_digits_are_digits(m / 10);
    }
}

} // verus!
