//! Anchored text patterns with capture groups, matched by the `regex` crate.
//!
//! A pattern is a sequence of literal texts and capture groups; a group is a
//! sequence of bracketed character classes, each with a repetition. This module
//! says how such a pattern is written in the syntax of `regex` and which texts
//! it matches with which groups.

use vstd::prelude::*;
use crate::number::decimal_nat;
use crate::text::has_prefix;

verus! {

/// How often a character class repeats.
pub enum Repeat {
    /// One character.
    Once,
    /// At least the first number of characters and at most the second.
    Between(nat, nat),
    /// Any number of characters, none included.
    Star,
}

/// A character class such as `[0-9]`, with its repetition.
pub struct Class {
    /// What stands between the brackets.
    pub members: Seq<char>,
    pub repeat: Repeat,
}

/// A part of a pattern.
pub enum Part {
    /// A literal text.
    Text(Seq<char>),
    /// A capture group.
    Group(Seq<Class>),
}

pub open spec fn is_alphanumeric(c: char) -> bool {
    ('0' <= c <= '9') || ('A' <= c <= 'Z') || ('a' <= c <= 'z')
}

/// Whether the class whose brackets hold `members` has the character `c`:
/// `x-y` stands for the characters from `x` to `y`, any other character for
/// itself.
pub open spec fn in_class(members: Seq<char>, c: char) -> bool
    decreases members.len(),
{
    if members.len() == 0 {
        false
    } else if members.len() >= 3 && members[1] == '-' {
        members[0] <= c <= members[2] || in_class(members.skip(3), c)
    } else {
        c == members[0] || in_class(members.skip(1), c)
    }
}

/// Whether `members` consists of ASCII letters and digits, alone or as
/// ascending ranges, with an optional hyphen at its end.
pub open spec fn class_supported(members: Seq<char>) -> bool
    decreases members.len(),
{
    if members.len() == 0 {
        true
    } else if members.len() >= 3 && members[1] == '-' {
        &&& is_alphanumeric(members[0])
        &&& is_alphanumeric(members[2])
        &&& members[0] <= members[2]
        &&& class_supported(members.skip(3))
    } else {
        &&& is_alphanumeric(members[0]) || (members[0] == '-' && members.len() == 1)
        &&& class_supported(members.skip(1))
    }
}

pub open spec fn repeat_text(r: Repeat) -> Seq<char> {
    match r {
        Repeat::Once => Seq::empty(),
        Repeat::Between(lo, hi) => seq!['{'] + decimal_nat(lo) + seq![','] + decimal_nat(hi)
            + seq!['}'],
        Repeat::Star => seq!['*'],
    }
}

pub open spec fn class_text(c: Class) -> Seq<char> {
    seq!['['] + c.members + seq![']'] + repeat_text(c.repeat)
}

pub open spec fn classes_text(cs: Seq<Class>) -> Seq<char>
    decreases cs.len(),
{
    if cs.len() == 0 {
        Seq::empty()
    } else {
        class_text(cs[0]) + classes_text(cs.skip(1))
    }
}

pub open spec fn part_text(p: Part) -> Seq<char> {
    match p {
        Part::Text(t) => t,
        Part::Group(cs) => seq!['('] + classes_text(cs) + seq![')'],
    }
}

pub open spec fn parts_text(ps: Seq<Part>) -> Seq<char>
    decreases ps.len(),
{
    if ps.len() == 0 {
        Seq::empty()
    } else {
        part_text(ps[0]) + parts_text(ps.skip(1))
    }
}

/// The pattern that matches a whole text made of `parts`, in the syntax of the
/// `regex` crate.
pub open spec fn pattern_text(parts: Seq<Part>) -> Seq<char> {
    seq!['^'] + parts_text(parts) + seq!['$']
}

/// Whether a part stays within the syntax that this module describes: literal
/// texts without a character that `regex` reads as an operator, groups of one
/// or more classes, repetitions of at most a hundred.
pub open spec fn part_supported(p: Part) -> bool {
    match p {
        Part::Text(t) => forall|i: int|
            0 <= i < t.len() ==> is_alphanumeric(#[trigger] t[i]) || t[i] == ' ' || t[i] == '-'
                || t[i] == '=',
        Part::Group(cs) => cs.len() > 0 && forall|i: int|
            0 <= i < cs.len() ==> {
                &&& (#[trigger] cs[i]).members.len() > 0
                &&& class_supported(cs[i].members)
                &&& (cs[i].repeat matches Repeat::Between(lo, hi) ==> lo <= hi <= 100)
            },
    }
}

/// Whether every part is supported and the pattern is of a moderate length.
pub open spec fn supported(parts: Seq<Part>) -> bool {
    &&& forall|i: int| 0 <= i < parts.len() ==> part_supported(#[trigger] parts[i])
    &&& pattern_text(parts).len() <= 200
}

pub open spec fn repeat_allows(r: Repeat, n: nat) -> bool {
    match r {
        Repeat::Once => n == 1,
        Repeat::Between(lo, hi) => lo <= n <= hi,
        Repeat::Star => true,
    }
}

/// Whether a class with its repetition matches exactly `s`.
pub open spec fn class_matches(c: Class, s: Seq<char>) -> bool {
    repeat_allows(c.repeat, s.len()) && forall|i: int|
        0 <= i < s.len() ==> in_class(c.members, #[trigger] s[i])
}

/// Whether the classes, one after the other, match exactly `s`.
pub open spec fn classes_match(cs: Seq<Class>, s: Seq<char>) -> bool
    decreases cs.len(),
{
    if cs.len() == 0 {
        s.len() == 0
    } else {
        exists|k: int|
            0 <= k <= s.len() && class_matches(cs[0], #[trigger] s.take(k)) && classes_match(
                cs.skip(1),
                s.skip(k),
            )
    }
}

/// Whether the parts, one after the other, match exactly `s`, the groups among
/// them being `groups`.
pub open spec fn captures(parts: Seq<Part>, s: Seq<char>, groups: Seq<Seq<char>>) -> bool
    decreases parts.len(),
{
    if parts.len() == 0 {
        s.len() == 0 && groups.len() == 0
    } else {
        match parts[0] {
            Part::Text(t) => has_prefix(s, t) && captures(
                parts.skip(1),
                s.skip(t.len() as int),
                groups,
            ),
            Part::Group(cs) => {
                &&& groups.len() > 0
                &&& has_prefix(s, groups[0])
                &&& classes_match(cs, groups[0])
                &&& captures(parts.skip(1), s.skip(groups[0].len() as int), groups.skip(1))
            },
        }
    }
}

/// A group of a single class matches what the class matches.
pub(crate) proof fn lemma_single_class(c: Class, s: Seq<char>)
    ensures
        classes_match(seq![c], s) == class_matches(c, s),
{
    reveal_with_fuel(classes_match, 2);
    assert(seq![c].skip(1) =~= Seq::<Class>::empty());
    if class_matches(c, s) {
        assert(s.take(s.len() as int) =~= s);
        assert(s.skip(s.len() as int).len() == 0);
    }
    if classes_match(seq![c], s) {
        let k = choose|k: int|
            0 <= k <= s.len() && class_matches(c, #[trigger] s.take(k)) && classes_match(
                seq![c].skip(1),
                s.skip(k),
            );
        assert(s.skip(k).len() == 0);
        assert(s.take(k) =~= s);
    }
}

/// Whether `found` holds the matched text and behind it the groups, in order.
pub open spec fn holds_groups(
    found: Seq<Option<String>>,
    whole: Seq<char>,
    groups: Seq<Seq<char>>,
) -> bool {
    &&& found.len() == groups.len() + 1
    &&& found[0] is Some && found[0]->0@ == whole
    &&& forall|i: int|
        0 <= i < groups.len() ==> found[i + 1] is Some && found[i + 1]->0@ == #[trigger] groups[i]
}

/// The error of `regex::Regex::new`.
#[verifier::external_type_specification]
#[verifier::external_body]
pub struct ExRegexError(regex::Error);

/// Compiles `pattern` with `regex::Regex::new` and searches `text` with
/// `regex::Regex::captures`, handing out the overall match and the groups.
///
/// Nothing is claimed for a pattern outside the syntax described here. For one
/// inside it: it compiles, being valid and far below the size limit; there is
/// a match exactly where `text` as a whole can be cut into the pattern's parts;
/// and the groups are those of one way to cut it. Which way is taken where
/// there are several is not claimed.
#[verifier::external_body]
pub(crate) fn regex_captures(pattern: &str, text: &str) -> (r: Result<
    Option<Vec<Option<String>>>,
    regex::Error,
>)
    ensures
        forall|parts: Seq<Part>|
            #![trigger pattern_text(parts)]
            supported(parts) && pattern@ == pattern_text(parts) ==> match r {
                Ok(Some(found)) => exists|groups: Seq<Seq<char>>|
                    #[trigger] captures(parts, text@, groups) && holds_groups(
                        found@,
                        text@,
                        groups,
                    ),
                Ok(None) => forall|groups: Seq<Seq<char>>| !captures(parts, text@, groups),
                Err(_) => false,
            },
{
    let re = regex::Regex::new(pattern)?;
    Ok(
        re.captures(text).map(
            |found| found.iter().map(|group| group.map(|m| m.as_str().to_owned())).collect(),
        ),
    )
}

} // verus!
