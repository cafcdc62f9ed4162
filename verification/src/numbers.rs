//! Decimal numbers as text.

use crate::text::chars_of;
use vstd::prelude::*;

verus! {

/// The digit for `d`.
pub open spec fn digit(d: nat) -> char {
    ((48 + d) as u32) as char
}

/// `c` is one of the ten decimal digits.
pub open spec fn is_digit(c: char) -> bool {
    '0' <= c && c <= '9'
}

/// `n` written in decimal, without leading zeros.
pub open spec fn decimal(n: nat) -> Seq<char>
    decreases n,
{
    if n < 10 {
        seq![digit(n)]
    } else {
        decimal(n / 10).push(digit(n % 10))
    }
}

/// The number that a run of digits stands for.
pub open spec fn digits_value(s: Seq<char>) -> nat
    decreases s.len(),
{
    if s.len() == 0 {
        0
    } else {
        digits_value(s.drop_last()) * 10 + (s.last() as u32 - 48) as nat
    }
}

/// Every character is a decimal digit.
pub open spec fn all_digits(s: Seq<char>) -> bool {
    forall|i: int| 0 <= i < s.len() ==> is_digit(#[trigger] s[i])
}

/// A text without the `+` that it may start with.
pub open spec fn unsigned(s: Seq<char>) -> Seq<char> {
    if s.len() > 0 && s[0] == '+' {
        s.drop_first()
    } else {
        s
    }
}

/// A text is a number if it consists of digits alone, at least one, with at
/// most one `+` in front of them.
pub open spec fn number_value(s: Seq<char>) -> Option<nat> {
    if unsigned(s).len() > 0 && all_digits(unsigned(s)) {
        Some(digits_value(unsigned(s)))
    } else {
        None
    }
}

/// The number in `s`, unless it is greater than `max`.
pub open spec fn bounded_value(s: Seq<char>, max: nat) -> Option<nat> {
    match number_value(s) {
        Some(v) => if v <= max {
            Some(v)
        } else {
            None
        },
        None => None,
    }
}

/// A number in front of which more digits are read is at least as great.
proof fn lemma_prefix_value(s: Seq<char>, i: int)
    requires
        0 <= i <= s.len(),
    ensures
        digits_value(s.take(i)) <= digits_value(s),
    decreases s.len() - i,
{
    if i == s.len() {
        assert(s.take(i) =~= s);
    } else {
        lemma_prefix_value(s, i + 1);
        assert(s.take(i + 1).drop_last() =~= s.take(i));
    }
}

/// Reads a number no greater than `max`.
pub fn parse_bounded(s: &str, max: u64) -> (r: Option<u64>)
    ensures
        bounded_value(s@, max as nat) == match r {
            Some(v) => Some(v as nat),
            None => None,
        },
{
    let chars = chars_of(s);
    let start: usize = if chars.len() > 0 && chars[0] == '+' {
        1
    } else {
        0
    };
    let ghost digits = s@.subrange(start as int, s@.len() as int);
    assert(digits =~= unsigned(s@));
    if start == chars.len() {
        return None;
    }
    let mut value: u64 = 0;
    let mut i: usize = start;
    assert(digits.take(0) =~= Seq::<char>::empty());
    while i < chars.len()
        invariant
            chars@ == s@,
            start <= i <= chars@.len(),
            digits == s@.subrange(start as int, s@.len() as int),
            digits == unsigned(s@),
            forall|k: int| 0 <= k < i - start ==> is_digit(#[trigger] digits[k]),
            value == digits_value(digits.take(i - start)),
            value <= max,
        decreases chars@.len() - i,
    {
        let c = chars[i];
        assert(digits[i - start] == c);
        if !('0' <= c && c <= '9') {
            return None;
        }
        let d: u64 = c as u64 - 48;
        assert(digits.take(i - start + 1).drop_last() =~= digits.take(i - start));
        let next: u128 = value as u128 * 10 + d as u128;
        assert(next == digits_value(digits.take(i - start + 1)));
        if next > max as u128 {
            proof {
                lemma_prefix_value(digits, i - start + 1);
            }
            return None;
        }
        value = next as u64;
        i += 1;
    }
    assert(digits.take(digits.len() as int) =~= digits);
    Some(value)
}

/// Reads a `usize`.
pub fn parse_usize(s: &str) -> (r: Option<usize>)
    ensures
        bounded_value(s@, usize::MAX as nat) == match r {
            Some(v) => Some(v as nat),
            None => None,
        },
{
    match parse_bounded(s, usize::MAX as u64) {
        Some(v) => Some(v as usize),
        None => None,
    }
}

/// Reads a `u32`.
pub fn parse_u32(s: &str) -> (r: Option<u32>)
    ensures
        bounded_value(s@, u32::MAX as nat) == match r {
            Some(v) => Some(v as nat),
            None => None,
        },
{
    match parse_bounded(s, u32::MAX as u64) {
        Some(v) => Some(v as u32),
        None => None,
    }
}

/// Writes a number in decimal.
pub fn to_decimal(n: u64) -> (r: String)
    ensures
        r@ == decimal(n as nat),
    decreases n,
{
    let last: char = (48u8 + (n % 10) as u8) as char;
    let mut r = if n < 10 {
        String::new()
    } else {
        to_decimal(n / 10)
    };
    r.push(last);
    assert(r@ =~= decimal(n as nat));
    r
}

/// `s`, filled up on the left with `fill` to a length of at least `width`.
pub open spec fn padded(s: Seq<char>, width: nat, fill: char) -> Seq<char> {
    if s.len() < width {
        Seq::new((width - s.len()) as nat, |i: int| fill) + s
    } else {
        s
    }
}

/// Writes a number in decimal, filled up on the left to at least `width`.
pub fn to_padded_decimal(n: u64, width: usize, fill: char) -> (r: String)
    ensures
        r@ == padded(decimal(n as nat), width as nat, fill),
{
    let digits = to_decimal(n);
    let chars = chars_of(digits.as_str());
    let mut r = String::new();
    let mut k: usize = chars.len();
    let ghost m = chars@.len();
    while k < width
        invariant
            m == chars@.len(),
            m <= k,
            k <= width || k == m,
            r@ =~= Seq::new((k - m) as nat, |i: int| fill),
        decreases width - k,
    {
        r.push(fill);
        k += 1;
    }
    r.append(digits.as_str());
    assert(r@ =~= padded(decimal(n as nat), width as nat, fill));
    r
}

pub(crate) proof fn lemma_decimal(n: nat)
    ensures
        decimal(n).len() > 0,
        all_digits(decimal(n)),
        digits_value(decimal(n)) == n,
    decreases n,
{
    reveal_with_fuel(digits_value, 2);
    assert(decimal(n).last() == digit(n % 10));
    if n >= 10 {
        lemma_decimal(n / 10);
        assert(decimal(n).drop_last() =~= decimal(n / 10));
    } else {
        assert(decimal(n).drop_last() =~= Seq::<char>::empty());
    }
}

/// Reading a number that was written in decimal gives the number back, up to
/// the greatest number that is read at all.
pub proof fn lemma_decimal_reads_back(n: nat, max: nat)
    requires
        n <= max,
    ensures
        bounded_value(decimal(n), max) == Some(n),
{
    lemma_decimal(n);
    assert(is_digit(decimal(n)[0]));
}

/// Ten to the power of `n`.
pub open spec fn power_of_ten(n: nat) -> nat
    decreases n,
{
    if n == 0 {
        1
    } else {
        10 * power_of_ten((n - 1) as nat)
    }
}

/// Digits have the value of their places: those before others count as many times
/// ten as there are others, and a digit by itself is what it says.
pub proof fn law_digits_have_places(a: Seq<char>, b: Seq<char>, d: nat)
    requires
        d < 10,
    ensures
        digits_value(Seq::empty()) == 0,
        digits_value(seq![digit(d)]) == d,
        is_digit(digit(d)),
        digits_value(a + b) == digits_value(a) * power_of_ten(b.len()) + digits_value(b),
    decreases b.len(),
{
    reveal_with_fuel(digits_value, 2);
    assert(seq![digit(d)].drop_last() =~= Seq::empty());
    if b.len() == 0 {
        assert(a + b =~= a);
    } else {
        let rest = b.drop_last();
        law_digits_have_places(a, rest, d);
        assert((a + b).drop_last() =~= a + rest);
        assert((a + b).last() == b.last());
        let x = digits_value(a);
        let p = power_of_ten(rest.len());
        assert(power_of_ten(b.len()) == 10 * p);
        assert((x * p + digits_value(rest)) * 10 == x * (10 * p) + digits_value(rest) * 10)
            by (nonlinear_arith);
    }
}

/// A number is written with the digits of its places and without a zero in front
/// of others, and reading it gives it back.
pub proof fn law_decimal(n: nat)
    ensures
        decimal(n).len() > 0,
        all_digits(decimal(n)),
        digits_value(decimal(n)) == n,
        decimal(n).len() > 1 ==> decimal(n)[0] != '0',
    decreases n,
{
    lemma_decimal(n);
    if n >= 10 {
        law_decimal(n / 10);
        lemma_decimal(n / 10);
        assert(decimal(n)[0] == decimal(n / 10)[0]);
        if n / 10 < 10 {
            assert(decimal(n / 10)[0] == digit(n / 10));
            assert(digit(n / 10) != digit(0));
        } else {
            lemma_decimal(n / 10 / 10);
            assert(decimal(n / 10) == decimal(n / 10 / 10).push(digit(n / 10 % 10)));
        }
    }
}

/// What is read as a number: digits, with or without a plus before them, for
/// their value if that is not too great; and nothing else.
pub proof fn law_what_is_a_number(s: Seq<char>, max: nat)
    ensures
        ({
            let numeral = s.len() > 0 && forall|i: int|
                0 <= i < s.len() ==> '0' <= (#[trigger] s[i]) && s[i] <= '9';
            let plus = seq!['+'] + s;
            &&& numeral && digits_value(s) <= max ==> bounded_value(s, max) == Some(
                digits_value(s),
            ) && bounded_value(plus, max) == Some(digits_value(s))
            &&& numeral && digits_value(s) > max ==> bounded_value(s, max) is None
                && bounded_value(plus, max) is None
            &&& !numeral ==> bounded_value(plus, max) is None
            &&& !numeral && (s.len() == 0 || s[0] != '+') ==> bounded_value(s, max) is None
        }),
{
    let plus = seq!['+'] + s;
    assert(plus.drop_first() =~= s);
    assert(unsigned(plus) == s);
    if all_digits(s) {
        assert forall|i: int| 0 <= i < s.len() implies '0' <= (#[trigger] s[i]) && s[i] <= '9' by {
            assert(is_digit(s[i]));
        }
        if s.len() > 0 {
            assert(s[0] <= '9');
        }
    }
    if s.len() > 0 && (forall|i: int|
        0 <= i < s.len() ==> '0' <= (#[trigger] s[i]) && s[i] <= '9') {
        assert(s[0] != '+');
        assert(all_digits(s));
    }
}

/// Filling up a text keeps it at the end, puts nothing but the filling before it,
/// and makes it just as long as asked, if it was not longer.
pub proof fn law_padded(s: Seq<char>, width: nat, fill: char)
    ensures
        padded(s, width, fill).len() == if s.len() < width {
            width
        } else {
            s.len()
        },
        padded(s, width, fill).skip(padded(s, width, fill).len() - s.len()) == s,
        forall|i: int|
            0 <= i < padded(s, width, fill).len() - s.len() ==> (#[trigger] padded(
                s,
                width,
                fill,
            )[i]) == fill,
{
    let r = padded(s, width, fill);
    assert(r.skip(r.len() - s.len()) =~= s);
}

} // verus!
