//! Decimal numbers: how they are written and which texts are read as numbers.

use vstd::prelude::*;
use crate::text::chars_of;

verus! {

/// Whether a character is one of the ten ASCII digits.
pub open spec fn is_digit(c: char) -> bool {
    '0' <= c <= '9'
}

/// Whether `s` is made of ASCII digits alone.
pub open spec fn all_digits(s: Seq<char>) -> bool {
    forall|i: int| 0 <= i < s.len() ==> is_digit(#[trigger] s[i])
}

/// The digit that stands for `d`.
pub open spec fn digit_char(d: nat) -> char {
    (48 + d) as char
}

/// The number that `s`, a sequence of digits, stands for.
pub open spec fn digits_value(s: Seq<char>) -> nat
    decreases s.len(),
{
    if s.len() == 0 {
        0
    } else {
        digits_value(s.drop_last()) * 10 + (s.last() as nat - 48) as nat
    }
}

/// The decimal digits of `n`, without leading zeros.
pub open spec fn decimal_nat(n: nat) -> Seq<char>
    decreases n,
{
    if n < 10 {
        seq![digit_char(n)]
    } else {
        decimal_nat(n / 10).push(digit_char(n % 10))
    }
}

/// `i` in decimal, with a minus sign where it is negative.
pub open spec fn decimal(i: int) -> Seq<char> {
    if i < 0 {
        seq!['-'] + decimal_nat((-i) as nat)
    } else {
        decimal_nat(i as nat)
    }
}

/// Whether a text begins with a sign that the integers from `lo` on may carry:
/// a plus sign always, a minus sign where there are negative ones.
pub open spec fn has_sign(s: Seq<char>, lo: int) -> bool {
    s.len() > 0 && (s[0] == '+' || (lo < 0 && s[0] == '-'))
}

/// The integer between `lo` and `hi` that `s` is read as: an optional sign, then
/// one or more digits. No white space is skipped.
pub open spec fn parse_int(s: Seq<char>, lo: int, hi: int) -> Option<int> {
    let digits = if has_sign(s, lo) { s.skip(1) } else { s };
    let size = digits_value(digits) as int;
    let value = if has_sign(s, lo) && s[0] == '-' { -size } else { size };
    if digits.len() > 0 && all_digits(digits) && lo <= value <= hi {
        Some(value)
    } else {
        None
    }
}

/// The `i64` that `s` is read as.
pub open spec fn parse_i64_spec(s: Seq<char>) -> Option<int> {
    parse_int(s, i64::MIN as int, i64::MAX as int)
}

/// Why a text is no number of a type.
#[derive(Debug, Clone, Copy, PartialEq, Eq, Structural)]
pub enum NumberError {
    /// It is empty.
    Empty,
    /// Something other than a digit stands in it, or nothing behind its sign.
    InvalidDigit,
    /// The number is above the largest of the type.
    PosOverflow,
    /// The number is below the smallest of the type.
    NegOverflow,
}

impl NumberError {
    /// What is said about it.
    pub fn message(&self) -> (r: String)
        ensures
            r@ == (match *self {
                NumberError::Empty => "cannot parse integer from empty string"@,
                NumberError::InvalidDigit => "invalid digit found in string"@,
                NumberError::PosOverflow => "number too large to fit in target type"@,
                NumberError::NegOverflow => "number too small to fit in target type"@,
            }),
    {
        match self {
            NumberError::Empty => "cannot parse integer from empty string".to_owned(),
            NumberError::InvalidDigit => "invalid digit found in string".to_owned(),
            NumberError::PosOverflow => "number too large to fit in target type".to_owned(),
            NumberError::NegOverflow => "number too small to fit in target type".to_owned(),
        }
    }
}

/// How many digits a text begins with.
pub open spec fn digit_prefix(s: Seq<char>) -> nat
    decreases s.len(),
{
    if s.len() > 0 && is_digit(s[0]) {
        1 + digit_prefix(s.skip(1))
    } else {
        0
    }
}

/// Why `s`, which is no integer between `lo` and `hi`, is none. It is read from
/// left to right: digits that leave the range count before anything that stands
/// behind them.
pub open spec fn number_fault(s: Seq<char>, lo: int, hi: int) -> NumberError {
    let digits = if has_sign(s, lo) { s.skip(1) } else { s };
    let size = digits_value(digits.take(digit_prefix(digits) as int)) as int;
    if s.len() == 0 {
        NumberError::Empty
    } else if has_sign(s, lo) && s[0] == '-' {
        if -size < lo {
            NumberError::NegOverflow
        } else {
            NumberError::InvalidDigit
        }
    } else if size > hi {
        NumberError::PosOverflow
    } else {
        NumberError::InvalidDigit
    }
}

/// The integer between `lo` and `hi` that `s` is read as, or why there is none.
pub open spec fn read_int(s: Seq<char>, lo: int, hi: int) -> Result<int, NumberError> {
    match parse_int(s, lo, hi) {
        Some(value) => Ok(value),
        None => Err(number_fault(s, lo, hi)),
    }
}

/// The `i64` that `s` is read as, or why there is none.
pub open spec fn read_i64_spec(s: Seq<char>) -> Result<int, NumberError> {
    read_int(s, i64::MIN as int, i64::MAX as int)
}

/// The digit for a number below ten.
fn digit_str(d: u64) -> (r: &'static str)
    requires
        d < 10,
    ensures
        r@ == seq![digit_char(d as nat)],
{
    proof {
        reveal_strlit("0");
        reveal_strlit("1");
        reveal_strlit("2");
        reveal_strlit("3");
        reveal_strlit("4");
        reveal_strlit("5");
        reveal_strlit("6");
        reveal_strlit("7");
        reveal_strlit("8");
        reveal_strlit("9");
    }
    if d == 0 {
        "0"
    } else if d == 1 {
        "1"
    } else if d == 2 {
        "2"
    } else if d == 3 {
        "3"
    } else if d == 4 {
        "4"
    } else if d == 5 {
        "5"
    } else if d == 6 {
        "6"
    } else if d == 7 {
        "7"
    } else if d == 8 {
        "8"
    } else {
        "9"
    }
}

/// Appends `n` in decimal.
pub fn push_u64(out: &mut String, n: u64)
    ensures
        final(out)@ == old(out)@ + decimal_nat(n as nat),
    decreases n,
{
    if n >= 10 {
        push_u64(out, n / 10);
    }
    out.append(digit_str(n % 10));
    proof {
        if n < 10 {
            assert(out@ =~= old(out)@ + decimal_nat(n as nat));
        } else {
            assert(out@ =~= old(out)@ + decimal_nat(n as nat / 10).push(digit_char(n as nat % 10)));
        }
    }
}

/// The size of an `i64`, which is its distance from zero.
fn magnitude(i: i64) -> (r: u64)
    ensures
        r == (if i < 0 { -i } else { i as int }),
{
    if i >= 0 {
        i as u64
    } else {
        (-(i + 1)) as u64 + 1
    }
}

/// Appends `i` in decimal.
pub fn push_i64(out: &mut String, i: i64)
    ensures
        final(out)@ == old(out)@ + decimal(i as int),
{
    if i < 0 {
        proof {
            reveal_strlit("-");
        }
        out.append("-");
        assert(out@ =~= old(out)@.push('-'));
    }
    push_u64(out, magnitude(i));
    assert(out@ =~= old(out)@ + decimal(i as int));
}

/// `i` in decimal.
pub fn i64_text(i: i64) -> (r: String)
    ensures
        r@ == decimal(i as int),
{
    let mut out = String::new();
    push_i64(&mut out, i);
    assert(out@ =~= decimal(i as int));
    out
}

/// `n` in decimal.
pub fn u64_text(n: u64) -> (r: String)
    ensures
        r@ == decimal_nat(n as nat),
{
    let mut out = String::new();
    push_u64(&mut out, n);
    assert(out@ =~= decimal_nat(n as nat));
    out
}

/// A `u64` as an `i64` of the same 64 bits: those from 2^63 on become negative.
pub open spec fn wrapped(n: int) -> int {
    if n <= i64::MAX {
        n
    } else {
        n - 0x1_0000_0000_0000_0000
    }
}

/// The `i64` of the same 64 bits.
pub fn wrap_i64(n: u64) -> (r: i64)
    ensures
        r == wrapped(n as int),
{
    let r: i64 = n as i64;
    assert(n <= 0x7fff_ffff_ffff_ffff ==> r == n) by (bit_vector)
        requires
            r == n as i64,
    ;
    assert(n > 0x7fff_ffff_ffff_ffff ==> r == n - 0x1_0000_0000_0000_0000) by (bit_vector)
        requires
            r == n as i64,
    ;
    r
}

/// A longer run of digits stands for a number at least as large.
proof fn lemma_value_grows(s: Seq<char>, i: int)
    requires
        0 <= i <= s.len(),
        all_digits(s),
    ensures
        digits_value(s.take(i)) <= digits_value(s),
    decreases s.len() - i,
{
    if i == s.len() {
        assert(s.take(i) =~= s);
    } else {
        lemma_value_grows(s, i + 1);
        assert(s.take(i + 1).drop_last() =~= s.take(i));
        assert(is_digit(s[i]));
    }
}

/// The digits that a text begins with are digits, and end with it or with
/// something else.
proof fn lemma_digit_prefix(s: Seq<char>)
    ensures
        digit_prefix(s) <= s.len(),
        all_digits(s.take(digit_prefix(s) as int)),
        digit_prefix(s) < s.len() ==> !is_digit(s[digit_prefix(s) as int]),
    decreases s.len(),
{
    if s.len() > 0 && is_digit(s[0]) {
        let rest = s.skip(1);
        lemma_digit_prefix(rest);
        let head = s.take(digit_prefix(s) as int);
        assert forall|i: int| 0 <= i < head.len() implies is_digit(#[trigger] head[i]) by {
            if i > 0 {
                assert(rest.take(digit_prefix(rest) as int)[i - 1] == head[i]);
            }
        }
    }
}

/// A text that begins with `n` digits begins with no fewer, and with no more
/// where something else follows them.
proof fn lemma_prefix_is(s: Seq<char>, n: int)
    requires
        0 <= n <= s.len(),
        all_digits(s.take(n)),
    ensures
        n <= digit_prefix(s),
        n == s.len() || !is_digit(s[n]) ==> digit_prefix(s) == n,
{
    lemma_digit_prefix(s);
    let m = digit_prefix(s) as int;
    if m < n {
        assert(s.take(n)[m] == s[m]);
    }
    if n < m {
        assert(s.take(m)[n] == s[n]);
    }
}

/// Why digits stand for no number up to a largest one.
#[derive(Clone, Copy, PartialEq, Eq, Structural)]
enum DigitsFault {
    /// The number is larger.
    Overflow,
    /// There are none, or something else follows.
    Invalid,
}

/// The number up to `max` that the digits from `from` on stand for.
fn digits_at(chars: &Vec<char>, from: usize, max: u64) -> (r: Result<u64, DigitsFault>)
    requires
        from <= chars@.len(),
    ensures
        ({
            let digits = chars@.skip(from as int);
            let size = digits_value(digits.take(digit_prefix(digits) as int));
            if size > max {
                r == Err::<u64, DigitsFault>(DigitsFault::Overflow)
            } else if digits.len() == 0 || !all_digits(digits) {
                r == Err::<u64, DigitsFault>(DigitsFault::Invalid)
            } else {
                r is Ok && r->Ok_0 == size && size == digits_value(digits)
            }
        }),
{
    let n: usize = chars.len();
    let ghost digits = chars@.skip(from as int);
    let mut i: usize = from;
    let mut value: u64 = 0;
    assert(digits.take(0) =~= Seq::<char>::empty());
    while i < n
        invariant
            from <= i <= n,
            n == chars@.len(),
            digits == chars@.skip(from as int),
            all_digits(digits.take(i - from)),
            value == digits_value(digits.take(i - from)),
            value <= max,
        decreases n - i,
    {
        let c: char = chars[i];
        assert(digits[i - from] == c);
        if !('0' <= c && c <= '9') {
            proof {
                lemma_prefix_is(digits, i - from);
                assert(!is_digit(digits[i - from]));
            }
            return Err(DigitsFault::Invalid);
        }
        let d: u64 = (c as u32 - 48) as u64;
        proof {
            let next = digits.take(i + 1 - from);
            assert(next.drop_last() =~= digits.take(i - from));
            assert(next.last() == c);
            assert forall|k: int| 0 <= k < next.len() implies is_digit(#[trigger] next[k]) by {
                if k < i - from {
                    assert(digits.take(i - from)[k] == next[k]);
                }
            }
            assert(digits_value(next) == value * 10 + d);
            lemma_prefix_is(digits, i + 1 - from);
            lemma_digit_prefix(digits);
            let all = digits.take(digit_prefix(digits) as int);
            lemma_value_grows(all, i + 1 - from);
            assert(all.take(i + 1 - from) =~= next);
        }
        let larger: u128 = value as u128 * 10 + d as u128;
        if larger > max as u128 {
            return Err(DigitsFault::Overflow);
        }
        value = larger as u64;
        i += 1;
    }
    proof {
        assert(digits.take(n - from) =~= digits);
        lemma_prefix_is(digits, n - from);
    }
    if from == n {
        return Err(DigitsFault::Invalid);
    }
    Ok(value)
}

/// The number from zero to `max` that `s` is read as, or why there is none.
fn read_unsigned(s: &str, max: u64) -> (r: Result<u64, NumberError>)
    ensures
        read_int(s@, 0, max as int) == (match r {
            Ok(n) => Ok::<int, NumberError>(n as int),
            Err(e) => Err::<int, NumberError>(e),
        }),
{
    let chars = chars_of(s);
    if chars.len() == 0 {
        return Err(NumberError::Empty);
    }
    assert(chars@.skip(0) =~= s@);
    let from: usize = if chars[0] == '+' {
        1
    } else {
        0
    };
    match digits_at(&chars, from, max) {
        Ok(n) => Ok(n),
        Err(DigitsFault::Overflow) => {
            proof {
                lemma_overflow_is_no_number(s@, 0, max as int);
            }
            Err(NumberError::PosOverflow)
        },
        Err(DigitsFault::Invalid) => Err(NumberError::InvalidDigit),
    }
}

/// A text whose first digits leave the range is no number.
proof fn lemma_overflow_is_no_number(s: Seq<char>, lo: int, hi: int)
    requires
        s.len() > 0,
        ({
            let digits = if has_sign(s, lo) { s.skip(1) } else { s };
            let size = digits_value(digits.take(digit_prefix(digits) as int)) as int;
            if has_sign(s, lo) && s[0] == '-' {
                -size < lo
            } else {
                size > hi
            }
        }),
    ensures
        parse_int(s, lo, hi) is None,
{
    let digits = if has_sign(s, lo) { s.skip(1) } else { s };
    if all_digits(digits) {
        assert(digits.take(digits.len() as int) =~= digits);
        lemma_prefix_is(digits, digits.len() as int);
    }
}

/// The `u64` that `s` is read as, or why there is none.
pub fn parse_u64(s: &str) -> (r: Result<u64, NumberError>)
    ensures
        read_int(s@, 0, u64::MAX as int) == (match r {
            Ok(n) => Ok::<int, NumberError>(n as int),
            Err(e) => Err::<int, NumberError>(e),
        }),
{
    read_unsigned(s, u64::MAX)
}

/// The `u32` that `s` is read as, or why there is none.
pub fn parse_u32(s: &str) -> (r: Result<u32, NumberError>)
    ensures
        read_int(s@, 0, u32::MAX as int) == (match r {
            Ok(n) => Ok::<int, NumberError>(n as int),
            Err(e) => Err::<int, NumberError>(e),
        }),
{
    match read_unsigned(s, u32::MAX as u64) {
        Ok(n) => Ok(n as u32),
        Err(e) => Err(e),
    }
}

/// The `i64` that `s` is read as, or why there is none.
pub fn parse_i64(s: &str) -> (r: Result<i64, NumberError>)
    ensures
        read_i64_spec(s@) == (match r {
            Ok(n) => Ok::<int, NumberError>(n as int),
            Err(e) => Err::<int, NumberError>(e),
        }),
{
    let chars = chars_of(s);
    if chars.len() == 0 {
        return Err(NumberError::Empty);
    }
    assert(chars@.skip(0) =~= s@);
    let negative = chars[0] == '-';
    let from: usize = if negative || chars[0] == '+' {
        1
    } else {
        0
    };
    let max: u64 = if negative {
        0x8000_0000_0000_0000
    } else {
        0x7fff_ffff_ffff_ffff
    };
    match digits_at(&chars, from, max) {
        Ok(size) => {
            if !negative {
                Ok(size as i64)
            } else if size == 0 {
                Ok(0)
            } else {
                Ok(-((size - 1) as i64) - 1)
            }
        },
        Err(DigitsFault::Overflow) => {
            proof {
                lemma_overflow_is_no_number(s@, i64::MIN as int, i64::MAX as int);
            }
            if negative {
                Err(NumberError::NegOverflow)
            } else {
                Err(NumberError::PosOverflow)
            }
        },
        Err(DigitsFault::Invalid) => Err(NumberError::InvalidDigit),
    }
}

/// The decimal digits of a number are digits, there is at least one, and they
/// stand for that number.
pub proof fn lemma_decimal_nat(n: nat)
    ensures
        decimal_nat(n).len() > 0,
        all_digits(decimal_nat(n)),
        digits_value(decimal_nat(n)) == n,
    decreases n,
{
    if n < 10 {
        let s = decimal_nat(n);
        assert(s.drop_last() =~= Seq::<char>::empty());
        assert(digits_value(s.drop_last()) == 0);
    } else {
        lemma_decimal_nat(n / 10);
        let s = decimal_nat(n);
        assert(s.drop_last() =~= decimal_nat(n / 10));
        assert forall|k: int| 0 <= k < s.len() implies is_digit(#[trigger] s[k]) by {
            if k < s.len() - 1 {
                assert(decimal_nat(n / 10)[k] == s[k]);
            }
        }
    }
}

/// A number written in decimal is read as that number.
pub proof fn law_decimal_reads_back(i: int, lo: int, hi: int)
    requires
        lo <= i <= hi,
    ensures
        parse_int(decimal(i), lo, hi) == Some(i),
{
    if i < 0 {
        lemma_decimal_nat((-i) as nat);
        assert(decimal(i).skip(1) =~= decimal_nat((-i) as nat));
    } else {
        lemma_decimal_nat(i as nat);
        assert(is_digit(decimal(i)[0]));
    }
}

/// The digits of a number are read as that number up to the largest one, and above
/// it as too large.
pub proof fn law_decimal_is_read(n: nat, hi: int)
    requires
        hi >= 0,
    ensures
        n <= hi ==> read_int(decimal_nat(n), 0, hi) == Ok::<int, NumberError>(n as int),
        n > hi ==> read_int(decimal_nat(n), 0, hi) == Err::<int, NumberError>(
            NumberError::PosOverflow,
        ),
        decimal_nat(n).len() > 0,
{
    let s = decimal_nat(n);
    lemma_decimal_nat(n);
    assert(is_digit(s[0]));
    assert(s.take(s.len() as int) =~= s);
    lemma_prefix_is(s, s.len() as int);
}

/// A number of 64 bits read as signed is that number, or that number less two to
/// the sixty-fourth, whichever is in the range.
pub proof fn law_wrapped(n: u64)
    ensures
        n <= i64::MAX ==> wrapped(n as int) == n,
        n > i64::MAX ==> wrapped(n as int) == n - 0x1_0000_0000_0000_0000,
        i64::MIN <= wrapped(n as int) <= i64::MAX,
{
}

} // verus!
