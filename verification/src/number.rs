//! Numbers as decimal text.

use vstd::prelude::*;
use crate::text::{append_repeated, to_chars};

verus! {

/// Whether `c` is one of the characters `0` to `9`.
pub open spec fn is_digit(c: char) -> bool {
    '0' <= c <= '9'
}

/// The value of a digit.
pub open spec fn digit_value(c: char) -> int {
    c as int - '0' as int
}

/// The digit with the given value.
pub open spec fn digit_char(d: int) -> char {
    (d + '0' as int) as char
}

/// The number that a run of digits denotes.
pub open spec fn digits_value(s: Seq<char>) -> int
    decreases s.len(),
{
    if s.len() == 0 {
        0
    } else {
        10 * digits_value(s.drop_last()) + digit_value(s.last())
    }
}

/// Whether every character is a digit.
pub open spec fn all_digits(s: Seq<char>) -> bool {
    forall|i: int| 0 <= i < s.len() ==> is_digit(#[trigger] s[i])
}

/// What stands behind an optional plus sign.
pub open spec fn without_plus(s: Seq<char>) -> Seq<char> {
    if s.len() > 0 && s[0] == '+' {
        s.skip(1)
    } else {
        s
    }
}

/// The size that a text denotes: an optional plus sign and at least one digit,
/// within the range of `usize`.
pub open spec fn parsed_size(s: Seq<char>) -> Option<usize> {
    let d = without_plus(s);
    if d.len() > 0 && all_digits(d) && digits_value(d) <= usize::MAX {
        Some(digits_value(d) as usize)
    } else {
        None
    }
}

/// The decimal digits of a natural number, without leading zeros.
pub open spec fn decimal(n: nat) -> Seq<char>
    decreases n,
{
    if n < 10 {
        seq![digit_char(n as int)]
    } else {
        decimal(n / 10).push(digit_char((n % 10) as int))
    }
}

/// The decimal text of an integer.
pub open spec fn int_text(n: int) -> Seq<char> {
    if n < 0 {
        seq!['-'] + decimal((-n) as nat)
    } else {
        decimal(n as nat)
    }
}

/// The decimal text of an integer, filled with zeros behind the sign up to a width.
pub open spec fn padded_int(n: int, width: nat) -> Seq<char> {
    let sign = if n < 0 {
        seq!['-']
    } else {
        Seq::<char>::empty()
    };
    let digits = decimal(if n < 0 {
        (-n) as nat
    } else {
        n as nat
    });
    let used = sign.len() + digits.len();
    let zeros = if used < width {
        (width - used) as nat
    } else {
        0
    };
    sign + crate::text::repeated(seq!['0'], zeros) + digits
}

/// Division that rounds towards zero.
pub open spec fn quotient(a: int, b: int) -> int
    recommends
        b > 0,
{
    if a < 0 {
        -((-a) / b)
    } else {
        a / b
    }
}

/// The remainder that belongs to `quotient`; it has the sign of `a`.
pub open spec fn remainder(a: int, b: int) -> int
    recommends
        b > 0,
{
    if a < 0 {
        -((-a) % b)
    } else {
        a % b
    }
}

/// Divides by a positive number, rounding towards zero.
pub fn divide(a: i128, b: i128) -> (r: (i128, i128))
    requires
        i128::MIN < a,
        b > 0,
    ensures
        r.0 == quotient(a as int, b as int),
        r.1 == remainder(a as int, b as int),
        -b < r.1 < b,
{
    let magnitude: i128 = if a < 0 { -a } else { a };
    let q: i128 = (magnitude as u128 / b as u128) as i128;
    let m: i128 = (magnitude as u128 % b as u128) as i128;
    if a < 0 {
        (-q, -m)
    } else {
        (q, m)
    }
}

/// A run of digits denotes at least what its beginning denotes.
proof fn lemma_value_grows(s: Seq<char>, k: int)
    requires
        0 <= k <= s.len(),
        all_digits(s),
    ensures
        0 <= digits_value(s.take(k)) <= digits_value(s),
    decreases s.len(),
{
    if k < s.len() {
        assert(is_digit(s.last()));
        assert(all_digits(s.drop_last()));
        lemma_value_grows(s.drop_last(), k);
        assert(s.drop_last().take(k) == s.take(k));
    } else if s.len() > 0 {
        assert(is_digit(s.last()));
        assert(all_digits(s.drop_last()));
        lemma_value_grows(s.drop_last(), s.len() - 1);
        assert(s.drop_last().take(s.len() - 1) == s.drop_last());
        assert(s.take(k) == s);
    } else {
        assert(s.take(k) == s);
    }
}

/// Reads a size; `None` where the text denotes none.
pub fn parse_size(s: &str) -> (r: Option<usize>)
    ensures
        r == parsed_size(s@),
{
    let v = to_chars(s);
    let start: usize = if v.len() > 0 && v[0] == '+' { 1 } else { 0 };
    if start == v.len() {
        return None;
    }
    let ghost d = without_plus(s@);
    assert(d == v@.skip(start as int));
    let mut n: usize = 0;
    let mut i: usize = start;
    while i < v.len()
        invariant
            start <= i <= v.len(),
            d == v@.skip(start as int),
            d == without_plus(s@),
            forall|j: int| start <= j < i ==> is_digit(#[trigger] v@[j]),
            n == digits_value(d.take(i - start)),
        decreases v.len() - i,
    {
        let c = v[i];
        assert(d[i - start] == c);
        if c < '0' || c > '9' {
            return None;
        }
        let ghost head = d.take(i - start + 1);
        assert(head.drop_last() == d.take(i - start));
        assert(digits_value(head) == 10 * n + digit_value(c));
        let digit: usize = c as usize - '0' as usize;
        let next: Option<usize> = match n.checked_mul(10) {
            Some(m) => m.checked_add(digit),
            None => None,
        };
        match next {
            Some(m) => {
                n = m;
            },
            None => {
                proof {
                    assert(digits_value(head) > usize::MAX);
                    if all_digits(d) {
                        lemma_value_grows(d, i - start + 1);
                    }
                }
                return None;
            },
        }
        i += 1;
    }
    proof {
        assert(d.take(i - start) == d);
        assert forall|j: int| 0 <= j < d.len() implies is_digit(#[trigger] d[j]) by {
            assert(is_digit(v@[start + j]));
        }
    }
    Some(n)
}

/// The digit with the given value.
fn digit(d: u128) -> (c: char)
    requires
        d < 10,
    ensures
        c == digit_char(d as int),
{
    (d as u8 + '0' as u8) as char
}

/// Appends the decimal digits of `n`.
fn append_decimal(s: &mut String, n: u128)
    ensures
        final(s)@ == old(s)@ + decimal(n as nat),
    decreases n,
{
    if n >= 10 {
        append_decimal(s, n / 10);
    }
    s.push(digit(n % 10));
}

/// The decimal text of an unsigned number.
pub fn natural_to_text(n: u128) -> (s: String)
    ensures
        s@ == decimal(n as nat),
{
    let mut s = String::new();
    append_decimal(&mut s, n);
    s
}

/// The decimal text of a signed number.
pub fn integer_to_text(n: i64) -> (s: String)
    ensures
        s@ == int_text(n as int),
{
    padded(n as i128, 0)
}

/// The decimal text of a signed number, filled with zeros behind the sign up to a width.
pub fn padded(n: i128, width: usize) -> (s: String)
    requires
        i128::MIN < n,
    ensures
        s@ == padded_int(n as int, width as nat),
        width == 0 ==> s@ == int_text(n as int),
{
    let magnitude: u128 = if n < 0 { (-n) as u128 } else { n as u128 };
    let digits = natural_to_text(magnitude);
    let count: usize = to_chars(digits.as_str()).len();
    let sign: usize = if n < 0 { 1 } else { 0 };
    let mut s = String::new();
    if n < 0 {
        s.push('-');
    }
    let ghost zeros = if count + sign < width { (width - count - sign) as nat } else { 0 };
    proof {
        reveal_strlit("0");
        assert("0"@ == seq!['0']);
    }
    if sign < width && count < width - sign {
        append_repeated(&mut s, "0", (width - sign - count) as u128);
    }
    s.append(digits.as_str());
    proof {
        assert(seq!['-'].len() == 1);
        assert(s@ == padded_int(n as int, width as nat));
        assert(width == 0 ==> s@ == int_text(n as int));
    }
    s
}

/// The decimal digits of a number denote the number.
pub proof fn law_decimal_value(n: nat)
    ensures
        decimal(n).len() > 0,
        all_digits(decimal(n)),
        digits_value(decimal(n)) == n,
    decreases n,
{
    if n < 10 {
        assert(decimal(n).drop_last() == Seq::<char>::empty());
        assert(digits_value(Seq::<char>::empty()) == 0);
    } else {
        law_decimal_value(n / 10);
        assert(decimal(n).drop_last() == decimal(n / 10));
    }
}

/// Reading the decimal text of a size gives the size back.
pub proof fn law_parse_decimal(n: usize)
    ensures
        parsed_size(decimal(n as nat)) == Some(n),
{
    law_decimal_value(n as nat);
    assert(is_digit(decimal(n as nat)[0]));
}

/// Decimal text is written digit by digit, from the most significant on, without leading
/// zeros.
pub proof fn law_decimal_digits(n: nat, d: nat)
    requires
        d < 10,
    ensures
        decimal(d) == seq![(d + 48) as char],
        n > 0 ==> decimal(10 * n + d) == decimal(n).push((d + 48) as char),
        n > 0 ==> decimal(n)[0] != '0',
    decreases n,
{
    if n > 0 {
        assert((10 * n + d) / 10 == n && (10 * n + d) % 10 == d);
        if n >= 10 {
            law_decimal_digits(n / 10, (n % 10) as nat);
        }
    }
}

/// A run of digits denotes a number in base ten.
pub proof fn law_digits_value(s: Seq<char>, c: char)
    ensures
        digits_value(Seq::empty()) == 0,
        digits_value(s.push(c)) == 10 * digits_value(s) + (c as int - 48),
{
    assert(s.push(c).drop_last() == s);
}

/// A size is a run of digits, at least one, whose number fits; one plus sign may stand
/// before it, and makes no difference.
pub proof fn law_parsed_size(d: Seq<char>, n: usize)
    ensures
        d.len() == 0 || d[0] != '+' ==> (parsed_size(d) == Some(n) <==> d.len() > 0
            && digits_value(d) == n && forall|i: int|
            0 <= i < d.len() ==> '0' <= #[trigger] d[i] <= '9'),
        d.len() == 0 || d[0] != '+' ==> parsed_size(seq!['+'] + d) == parsed_size(d),
        d.len() > 0 && d[0] == '+' ==> parsed_size(seq!['+'] + d) is None,
{
    assert((seq!['+'] + d).skip(1) == d);
    if d.len() > 0 && d[0] == '+' {
        assert(!is_digit(d[0]));
    }
    if forall|i: int| 0 <= i < d.len() ==> '0' <= #[trigger] d[i] <= '9' {
        assert(all_digits(d));
    }
    if all_digits(d) {
        assert forall|i: int| 0 <= i < d.len() implies '0' <= #[trigger] d[i] <= '9' by {
            assert(is_digit(d[i]));
        }
        lemma_value_grows(d, 0);
    }
}

/// The text of a negative number is a minus sign and the text of its magnitude.
pub proof fn law_int_text(n: nat)
    ensures
        int_text(n as int) == decimal(n),
        n > 0 ==> int_text(-(n as int)) == seq!['-'] + decimal(n),
{
}

/// Leading zeros do not change what a run of digits denotes.
proof fn lemma_leading_zeros(k: nat, s: Seq<char>)
    requires
        all_digits(s),
    ensures
        all_digits(crate::text::repeated(seq!['0'], k) + s),
        digits_value(crate::text::repeated(seq!['0'], k) + s) == digits_value(s),
        crate::text::repeated(seq!['0'], k).len() == k,
    decreases k, s.len(),
{
    let zeros = crate::text::repeated(seq!['0'], k);
    if s.len() > 0 {
        assert(all_digits(s.drop_last())) by {
            assert forall|i: int| 0 <= i < s.drop_last().len() implies is_digit(
                #[trigger] s.drop_last()[i],
            ) by {
                assert(is_digit(s[i]));
            }
        }
        lemma_leading_zeros(k, s.drop_last());
        assert((zeros + s).drop_last() == zeros + s.drop_last());
        assert((zeros + s).last() == s.last());
        assert(is_digit(s.last()));
        assert forall|i: int| 0 <= i < (zeros + s).len() implies is_digit(
            #[trigger] (zeros + s)[i],
        ) by {
            if i < zeros.len() + s.len() - 1 {
                assert((zeros + s)[i] == (zeros + s.drop_last())[i]);
            }
        }
    } else if k > 0 {
        let fewer = crate::text::repeated(seq!['0'], (k - 1) as nat);
        lemma_leading_zeros((k - 1) as nat, s);
        assert(fewer + s == fewer);
        assert(zeros + s == fewer.push('0'));
        assert(zeros == fewer.push('0'));
        law_digits_value(fewer, '0');
        assert forall|i: int| 0 <= i < (zeros + s).len() implies is_digit(
            #[trigger] (zeros + s)[i],
        ) by {
            if i < fewer.len() {
                assert((zeros + s)[i] == (fewer + s)[i]);
            }
        }
    } else {
        assert(zeros + s == s);
    }
}

/// A padded number is at least as wide as asked for and no wider than that or its text;
/// a number that is not negative is written in digits that denote it, and a negative one
/// as a minus sign before its padded magnitude.
pub proof fn law_padded(n: nat, width: nat)
    ensures
        forall|i: int|
            0 <= i < padded_int(n as int, width).len() ==> '0' <= #[trigger] padded_int(
                n as int,
                width,
            )[i] <= '9',
        digits_value(padded_int(n as int, width)) == n,
        padded_int(n as int, width).len() == if decimal(n).len() < width {
            width
        } else {
            decimal(n).len()
        },
        n > 0 ==> padded_int(-(n as int), width + 1) == seq!['-'] + padded_int(n as int, width),
{
    law_decimal_value(n);
    let digits = decimal(n);
    let k = if digits.len() < width {
        (width - digits.len()) as nat
    } else {
        0
    };
    lemma_leading_zeros(k, digits);
    let zeros = crate::text::repeated(seq!['0'], k);
    assert(padded_int(n as int, width) == zeros + digits);
    assert forall|i: int| 0 <= i < padded_int(n as int, width).len() implies '0'
        <= #[trigger] padded_int(n as int, width)[i] <= '9' by {
        assert(is_digit((zeros + digits)[i]));
    }
    if n > 0 {
        assert(seq!['-'].len() == 1);
        assert(padded_int(-(n as int), width + 1) == seq!['-'] + zeros + digits);
        assert(seq!['-'] + zeros + digits == seq!['-'] + (zeros + digits));
    }
}

/// Quotient and remainder make up the number; the remainder is smaller than the divisor
/// and has the sign of the number.
pub proof fn law_division(a: int, b: int)
    requires
        b > 0,
    ensures
        a == quotient(a, b) * b + remainder(a, b),
        -b < remainder(a, b) < b,
        a >= 0 ==> remainder(a, b) >= 0,
        a <= 0 ==> remainder(a, b) <= 0,
{
    let m = if a < 0 {
        -a
    } else {
        a
    };
    assert(m == b * (m / b) + m % b && 0 <= m % b < b) by (nonlinear_arith)
        requires
            b > 0,
    ;
    assert((m / b) * b == b * (m / b)) by (nonlinear_arith);
    assert((-(m / b)) * b == -(b * (m / b))) by (nonlinear_arith);
}

}
