//! Time spans such as `21h` and `30d`.

use vstd::prelude::*;
use crate::number::{
    all_digits, decimal_nat, digit_char, digits_value, is_digit, lemma_decimal_nat, parse_i64,
};
use crate::pattern::{
    captures, class_matches, class_supported, class_text, classes_match, classes_text, holds_groups,
    in_class, lemma_single_class, part_text, parts_text, pattern_text, regex_captures, supported,
    Class, Part, Repeat,
};
use crate::text::str_eq;

verus! {

/// Why a text is no time span.
#[derive(Debug, Clone, Copy, PartialEq, Eq, Structural)]
pub enum IntervalError {
    /// It is not a number without leading zeros, followed by `h` or `d`.
    Format,
    /// Its number does not fit.
    TooLarge,
}

impl IntervalError {
    /// What to tell the user.
    pub fn message(&self) -> (r: String)
        ensures
            r@ == (match *self {
                IntervalError::Format => "更新时间必须类似 21h 或 30d"@,
                IntervalError::TooLarge => "number too large to fit in target type"@,
            }),
    {
        match self {
            IntervalError::Format => "更新时间必须类似 21h 或 30d".to_string(),
            IntervalError::TooLarge => "number too large to fit in target type".to_string(),
        }
    }
}

/// Digits that do not begin with a zero.
pub open spec fn is_count(s: Seq<char>) -> bool {
    s.len() > 0 && all_digits(s) && s[0] != '0'
}

/// A number followed by `h`, for hours, or `d`, for days.
pub open spec fn is_interval(s: Seq<char>) -> bool {
    s.len() > 0 && (s.last() == 'h' || s.last() == 'd') && is_count(s.drop_last())
}

/// The number in a time span.
pub open spec fn interval_count(s: Seq<char>) -> int {
    digits_value(s.drop_last()) as int
}

/// The seconds in the unit of a time span.
pub open spec fn interval_unit(s: Seq<char>) -> int {
    if s.last() == 'h' {
        3_600
    } else {
        86_400
    }
}

/// The length of a time span in seconds, or why there is none.
pub open spec fn interval_spec(s: Seq<char>) -> Result<int, IntervalError> {
    if !is_interval(s) {
        Err(IntervalError::Format)
    } else if interval_count(s) > i64::MAX {
        Err(IntervalError::TooLarge)
    } else {
        Ok(interval_count(s) * interval_unit(s))
    }
}

/// Whether the length in seconds, where there is one, fits an `i64`.
pub open spec fn interval_in_range(s: Seq<char>) -> bool {
    interval_spec(s) matches Ok(seconds) ==> seconds <= i64::MAX
}

spec fn interval_parts() -> Seq<Part> {
    seq![
        Part::Group(
            seq![
                Class { members: "1-9"@, repeat: Repeat::Once },
                Class { members: "0-9"@, repeat: Repeat::Star },
            ],
        ),
        Part::Group(seq![Class { members: "hd"@, repeat: Repeat::Once }]),
    ]
}

proof fn lemma_interval_classes(c: char)
    ensures
        in_class("1-9"@, c) == ('1' <= c <= '9'),
        in_class("0-9"@, c) == is_digit(c),
        in_class("hd"@, c) == (c == 'h' || c == 'd'),
        class_supported("1-9"@),
        class_supported("0-9"@),
        class_supported("hd"@),
        "1-9"@.len() == 3,
        "0-9"@.len() == 3,
        "hd"@.len() == 2,
{
    reveal_strlit("1-9");
    reveal_strlit("0-9");
    reveal_strlit("hd");
    reveal_with_fuel(in_class, 3);
    reveal_with_fuel(class_supported, 3);
}

/// The group of the number matches a count.
proof fn lemma_count_group(s: Seq<char>)
    ensures
        classes_match(
            seq![
                Class { members: "1-9"@, repeat: Repeat::Once },
                Class { members: "0-9"@, repeat: Repeat::Star },
            ],
            s,
        ) == is_count(s),
{
    let first = Class { members: "1-9"@, repeat: Repeat::Once };
    let rest = Class { members: "0-9"@, repeat: Repeat::Star };
    let both = seq![first, rest];
    reveal_with_fuel(classes_match, 3);
    assert(both.skip(1) =~= seq![rest]);
    assert(seq![rest].skip(1).len() == 0);
    assert forall|c: char| in_class("1-9"@, c) == ('1' <= c <= '9') && in_class("0-9"@, c)
        == is_digit(c) by {
        lemma_interval_classes(c);
    }
    if is_count(s) {
        assert(class_matches(first, s.take(1))) by {
            assert(is_digit(s[0]));
        }
        let tail = s.skip(1);
        assert(class_matches(rest, tail.take(tail.len() as int)));
        assert(tail.skip(tail.len() as int).len() == 0);
        assert(classes_match(both.skip(1), tail));
    }
    if classes_match(both, s) {
        let k = choose|k: int|
            0 <= k <= s.len() && class_matches(both[0], #[trigger] s.take(k)) && classes_match(
                both.skip(1),
                s.skip(k),
            );
        let tail = s.skip(k);
        let j = choose|j: int|
            0 <= j <= tail.len() && class_matches(
                both.skip(1)[0],
                #[trigger] tail.take(j),
            ) && classes_match(both.skip(1).skip(1), tail.skip(j));
        assert(tail.skip(j).len() == 0);
        assert(tail.take(j) =~= tail);
        assert(s.take(k)[0] == s[0]);
        assert forall|i: int| 0 <= i < s.len() implies is_digit(#[trigger] s[i]) by {
            if i > 0 {
                assert(tail[i - 1] == s[i]);
            }
        }
    }
}

/// The group of the unit matches one of the two letters.
proof fn lemma_unit_group(s: Seq<char>)
    ensures
        classes_match(seq![Class { members: "hd"@, repeat: Repeat::Once }], s) == (s.len() == 1 && (
        s[0] == 'h' || s[0] == 'd')),
{
    let unit = Class { members: "hd"@, repeat: Repeat::Once };
    lemma_single_class(unit, s);
    assert forall|c: char| in_class("hd"@, c) == (c == 'h' || c == 'd') by {
        lemma_interval_classes(c);
    }
    if s.len() == 1 {
        assert(in_class(unit.members, s[0]) == (s[0] == 'h' || s[0] == 'd'));
    }
}

/// A text matches the pattern where it is a time span, and then the groups are
/// its number and its unit.
proof fn lemma_interval_captures(s: Seq<char>, groups: Seq<Seq<char>>)
    ensures
        captures(interval_parts(), s, groups) <==> {
            &&& is_interval(s)
            &&& groups.len() == 2
            &&& groups[0] == s.drop_last()
            &&& groups[1] == seq![s.last()]
        },
{
    let parts = interval_parts();
    reveal_with_fuel(captures, 3);
    assert(parts.skip(1)[0] == parts[1]);
    assert(parts.skip(1).skip(1).len() == 0);
    lemma_count_group(groups[0]);
    lemma_unit_group(groups[1]);
    let s1 = s.skip(groups[0].len() as int);
    if captures(parts, s, groups) {
        assert(groups.skip(1)[0] == groups[1]);
        assert(s1.skip(groups[1].len() as int).len() == 0);
        assert(s1.take(1) =~= s1);
        assert(s.drop_last() =~= groups[0]);
        assert(s.last() == s1[0]);
        assert(groups[1] =~= seq![s.last()]);
    }
    if is_interval(s) && groups.len() == 2 && groups[0] == s.drop_last() && groups[1]
        == seq![s.last()] {
        assert(groups.skip(1)[0] == groups[1]);
        assert(s.take(s.len() - 1) =~= groups[0]);
        assert(s1 =~= groups[1]);
        assert(s1.take(1) =~= groups[1]);
        assert(groups.skip(1).skip(1).len() == 0);
    }
}

proof fn lemma_interval_text()
    ensures
        pattern_text(interval_parts()) == "^([1-9][0-9]*)([hd])$"@,
        supported(interval_parts()),
{
    let parts = interval_parts();
    let first = Class { members: "1-9"@, repeat: Repeat::Once };
    let rest = Class { members: "0-9"@, repeat: Repeat::Star };
    let unit = Class { members: "hd"@, repeat: Repeat::Once };
    reveal_strlit("1-9");
    reveal_strlit("0-9");
    reveal_strlit("hd");
    reveal_strlit("^([1-9][0-9]*)([hd])$");
    reveal_with_fuel(parts_text, 3);
    reveal_with_fuel(classes_text, 3);
    assert(parts.skip(1)[0] == parts[1]);
    assert(parts.skip(1).skip(1).len() == 0);
    assert(class_text(first) =~= seq!['[', '1', '-', '9', ']']);
    assert(class_text(rest) =~= seq!['[', '0', '-', '9', ']', '*']);
    assert(class_text(unit) =~= seq!['[', 'h', 'd', ']']);
    assert(seq![first, rest].skip(1) =~= seq![rest]);
    assert(classes_text(seq![rest]) =~= class_text(rest));
    assert(classes_text(seq![first, rest]) =~= class_text(first) + class_text(rest));
    assert(classes_text(seq![unit]) =~= class_text(unit));
    assert(part_text(parts[0]) =~= seq![
        '(',
        '[',
        '1',
        '-',
        '9',
        ']',
        '[',
        '0',
        '-',
        '9',
        ']',
        '*',
        ')',
    ]);
    assert(part_text(parts[1]) =~= seq!['(', '[', 'h', 'd', ']', ')']);
    assert(pattern_text(parts) =~= "^([1-9][0-9]*)([hd])$"@);
    lemma_interval_classes('0');
}

/// The number of a time span and the seconds in its unit.
fn read_interval(value: &str) -> (r: Result<(i64, i64), IntervalError>)
    ensures
        match r {
            Ok((count, unit)) => {
                &&& is_interval(value@)
                &&& count == interval_count(value@)
                &&& unit == interval_unit(value@)
            },
            Err(e) => interval_spec(value@) == Err::<int, IntervalError>(e),
        },
{
    proof {
        lemma_interval_text();
    }
    let found = match regex_captures("^([1-9][0-9]*)([hd])$", value) {
        Ok(Some(found)) => found,
        Ok(None) => {
            proof {
                let groups = seq![value@.drop_last(), seq![value@.last()]];
                lemma_interval_captures(value@, groups);
            }
            return Err(IntervalError::Format);
        },
        Err(_) => {
            return Err(IntervalError::Format);
        },
    };
    proof {
        let groups = choose|groups: Seq<Seq<char>>|
            #[trigger] captures(interval_parts(), value@, groups) && holds_groups(
                found@,
                value@,
                groups,
            );
        lemma_interval_captures(value@, groups);
        assert(found@[1] is Some && found@[1]->0@ == groups[0]);
        assert(found@[2] is Some && found@[2]->0@ == groups[1]);
        reveal_strlit("h");
    }
    match (&found[1], &found[2]) {
        (Some(count), Some(unit)) => {
            proof {
                assert(is_digit(count@[0]));
            }
            let seconds: i64 = if str_eq(unit.as_str(), "h") {
                3_600
            } else {
                86_400
            };
            proof {
                assert((unit@ == "h"@) == (value@.last() == 'h')) by {
                    assert("h"@ =~= seq!['h']);
                    if unit@ == "h"@ {
                        assert(unit@[0] == 'h');
                    }
                }
            }
            match parse_i64(count.as_str()) {
                Ok(n) => Ok((n, seconds)),
                Err(_) => Err(IntervalError::TooLarge),
            }
        },
        _ => Err(IntervalError::Format),
    }
}

/// Whether the length of a time span in seconds can be computed: false where it
/// would exceed the range of `i64`.
pub fn interval_fits(value: &str) -> (r: bool)
    ensures
        r == interval_in_range(value@),
{
    match read_interval(value) {
        Ok((count, unit)) => {
            proof {
                assert(count as int * unit as int == interval_count(value@) * interval_unit(value@));
                assert(unit == 3_600 || unit == 86_400);
            }
            if unit == 3_600 {
                count <= i64::MAX / 3_600
            } else {
                count <= i64::MAX / 86_400
            }
        },
        Err(_) => true,
    }
}

/// The length of a time span in seconds.
pub fn interval_seconds(value: &str) -> (r: Result<i64, IntervalError>)
    requires
        interval_in_range(value@),
    ensures
        interval_spec(value@) == (match r {
            Ok(seconds) => Ok::<int, IntervalError>(seconds as int),
            Err(e) => Err::<int, IntervalError>(e),
        }),
{
    let (count, unit) = read_interval(value)?;
    proof {
        assert(count as int * unit as int == interval_count(value@) * interval_unit(value@));
        assert(unit == 3_600 || unit == 86_400);
        lemma_count_positive(value@.drop_last());
    }
    if unit == 3_600 {
        Ok(count * 3_600)
    } else {
        Ok(count * 86_400)
    }
}

/// A count stands for a positive number.
proof fn lemma_count_positive(s: Seq<char>)
    requires
        is_count(s),
    ensures
        digits_value(s) > 0,
    decreases s.len(),
{
    assert(is_digit(s[0]));
    if s.len() == 1 {
        assert(s.drop_last().len() == 0);
        assert(digits_value(s.drop_last()) == 0);
    } else {
        let head = s.drop_last();
        assert(head[0] == s[0]);
        assert forall|i: int| 0 <= i < head.len() implies is_digit(#[trigger] head[i]) by {
            assert(head[i] == s[i]);
        }
        lemma_count_positive(head);
    }
}

/// A time span lasts at least an hour, and a whole number of hours.
pub proof fn law_interval_is_hours(s: Seq<char>)
    ensures
        interval_spec(s) matches Ok(seconds) ==> seconds >= 3_600 && seconds % 3_600 == 0,
{
    if is_interval(s) {
        lemma_count_positive(s.drop_last());
    }
}

/// Digits without a leading zero are the decimal digits of the number that they
/// stand for.
proof fn lemma_count_is_decimal(s: Seq<char>)
    requires
        is_count(s),
    ensures
        s == decimal_nat(digits_value(s)),
    decreases s.len(),
{
    let head = s.drop_last();
    let n = digits_value(s);
    assert(is_digit(s.last()));
    let d = (s.last() as nat - 48) as nat;
    assert(digit_char(d) == s.last());
    if s.len() == 1 {
        assert(head.len() == 0);
        assert(s =~= seq![digit_char(d)]);
    } else {
        assert(head[0] == s[0]);
        assert forall|i: int| 0 <= i < head.len() implies is_digit(#[trigger] head[i]) by {
            assert(head[i] == s[i]);
        }
        lemma_count_positive(head);
        lemma_count_is_decimal(head);
        assert(n / 10 == digits_value(head) && n % 10 == d);
        assert(s =~= head.push(s.last()));
    }
}

/// A positive number of hours or days is a time span of so many hours or days,
/// counted in seconds.
pub proof fn law_spans_are_counted(n: nat)
    requires
        1 <= n <= i64::MAX,
    ensures
        interval_spec(decimal_nat(n) + "h"@) == Ok::<int, IntervalError>(n as int * 3_600),
        interval_spec(decimal_nat(n) + "d"@) == Ok::<int, IntervalError>(n as int * 86_400),
{
    reveal_strlit("h");
    reveal_strlit("d");
    lemma_decimal_nat(n);
    lemma_decimal_leads(n);
    let hours = decimal_nat(n) + "h"@;
    let days = decimal_nat(n) + "d"@;
    assert(hours.drop_last() =~= decimal_nat(n));
    assert(days.drop_last() =~= decimal_nat(n));
    assert(hours.last() == 'h' && days.last() == 'd');
}

/// The decimal digits of a positive number begin with no zero.
proof fn lemma_decimal_leads(n: nat)
    requires
        n >= 1,
    ensures
        decimal_nat(n).len() > 0,
        decimal_nat(n)[0] != '0',
    decreases n,
{
    if n >= 10 {
        lemma_decimal_leads(n / 10);
    }
}

/// Nothing else is a time span.
pub proof fn law_only_spans_are_counted(s: Seq<char>)
    ensures
        interval_spec(s) matches Ok(seconds) ==> exists|n: nat|
            1 <= n <= i64::MAX && ((s == (#[trigger] decimal_nat(n)) + "h"@ && seconds == n * 3_600)
                || (s == decimal_nat(n) + "d"@ && seconds == n * 86_400)),
        interval_spec(s) == Err::<int, IntervalError>(IntervalError::TooLarge) ==> exists|n: nat|
            n > i64::MAX && (s == (#[trigger] decimal_nat(n)) + "h"@ || s == decimal_nat(n) + "d"@),
{
    reveal_strlit("h");
    reveal_strlit("d");
    if is_interval(s) {
        let n = digits_value(s.drop_last());
        lemma_count_is_decimal(s.drop_last());
        lemma_count_positive(s.drop_last());
        if s.last() == 'h' {
            assert(s =~= decimal_nat(n) + "h"@);
        } else {
            assert(s =~= decimal_nat(n) + "d"@);
        }
    }
}

} // verus!
