//! Operations on text, stated over its sequence of characters.

use vstd::prelude::*;

verus! {

/// The characters of each text.
pub open spec fn texts(v: Seq<String>) -> Seq<Seq<char>> {
    Seq::new(v.len(), |i: int| v[i]@)
}

/// Whether a character has the Unicode property White_Space.
pub open spec fn is_space(c: char) -> bool {
    ||| '\u{9}' <= c <= '\u{d}'
    ||| c == ' ' || c == '\u{85}' || c == '\u{a0}' || c == '\u{1680}'
    ||| '\u{2000}' <= c <= '\u{200a}'
    ||| c == '\u{2028}' || c == '\u{2029}' || c == '\u{202f}' || c == '\u{205f}' || c == '\u{3000}'
}

/// `s` without the white space it begins with.
pub open spec fn trim_start_spec(s: Seq<char>) -> Seq<char>
    decreases s.len(),
{
    if s.len() > 0 && is_space(s[0]) {
        trim_start_spec(s.skip(1))
    } else {
        s
    }
}

/// `s` without the white space it ends with.
pub open spec fn trim_end_spec(s: Seq<char>) -> Seq<char>
    decreases s.len(),
{
    if s.len() > 0 && is_space(s.last()) {
        trim_end_spec(s.drop_last())
    } else {
        s
    }
}

/// `s` without the white space around it.
pub open spec fn trim_spec(s: Seq<char>) -> Seq<char> {
    trim_end_spec(trim_start_spec(s))
}

/// Whether `s` begins with `p`.
pub open spec fn has_prefix(s: Seq<char>, p: Seq<char>) -> bool {
    p.len() <= s.len() && s.take(p.len() as int) == p
}

/// Whether `s` ends with `p`.
pub open spec fn has_suffix(s: Seq<char>, p: Seq<char>) -> bool {
    p.len() <= s.len() && s.skip(s.len() - p.len()) == p
}

/// `s` with every occurrence of `from`, found from left to right and without
/// overlap, replaced by `to`.
pub open spec fn replace_spec(s: Seq<char>, from: Seq<char>, to: Seq<char>) -> Seq<char>
    decreases s.len(),
{
    if from.len() == 0 || s.len() == 0 {
        s
    } else if has_prefix(s, from) {
        to + replace_spec(s.skip(from.len() as int), from, to)
    } else {
        seq![s[0]] + replace_spec(s.skip(1), from, to)
    }
}

/// `s` without the copies of `suffix` it ends with.
pub open spec fn strip_suffix_spec(s: Seq<char>, suffix: Seq<char>) -> Seq<char>
    decreases s.len(),
{
    if suffix.len() > 0 && has_suffix(s, suffix) {
        strip_suffix_spec(s.take(s.len() - suffix.len()), suffix)
    } else {
        s
    }
}

/// Whether `p` occurs in `s`.
pub open spec fn occurs(s: Seq<char>, p: Seq<char>) -> bool {
    exists|i: int| 0 <= i <= s.len() && has_prefix(#[trigger] s.skip(i), p)
}

/// Whether two strings hold the same characters.
pub fn str_eq(a: &str, b: &str) -> (r: bool)
    ensures
        r == (a@ == b@),
{
    let x: String = a.to_owned();
    let y: String = b.to_owned();
    x == y
}

/// The characters of a string.
pub fn chars_of(s: &str) -> (r: Vec<char>)
    ensures
        r@ == s@,
{
    let mut out: Vec<char> = Vec::new();
    for c in it: s.chars()
        invariant
            out@ == it.seq().take(it.index()),
            it.seq() == s@,
    {
        out.push(c);
    }
    out
}

/// Whether `pat` stands in `chars` at position `i`.
fn stands_at(chars: &Vec<char>, i: usize, pat: &Vec<char>) -> (r: bool)
    requires
        i <= chars@.len(),
    ensures
        r == has_prefix(chars@.skip(i as int), pat@),
{
    let n: usize = chars.len();
    if pat.len() > n - i {
        return false;
    }
    let mut j: usize = 0;
    while j < pat.len()
        invariant
            j <= pat@.len(),
            n == chars@.len(),
            i + pat@.len() <= n,
            forall|k: int| 0 <= k < j ==> chars@[i + k] == pat@[k],
        decreases pat@.len() - j,
    {
        if chars[i + j] != pat[j] {
            proof {
                let head = chars@.skip(i as int).take(pat@.len() as int);
                assert(head[j as int] == chars@[i + j]);
            }
            return false;
        }
        j += 1;
    }
    assert(chars@.skip(i as int).take(pat@.len() as int) =~= pat@);
    true
}

/// Whether `s` begins with `prefix`.
pub fn starts_with(s: &str, prefix: &str) -> (r: bool)
    ensures
        r == has_prefix(s@, prefix@),
{
    let chars = chars_of(s);
    let pat = chars_of(prefix);
    assert(chars@.skip(0) =~= s@);
    stands_at(&chars, 0, &pat)
}

/// Whether a character is white space.
pub fn is_whitespace(c: char) -> (r: bool)
    ensures
        r == is_space(c),
{
    ('\u{9}' <= c && c <= '\u{d}') || c == ' ' || c == '\u{85}' || c == '\u{a0}' || c == '\u{1680}'
        || ('\u{2000}' <= c && c <= '\u{200a}') || c == '\u{2028}' || c == '\u{2029}'
        || c == '\u{202f}' || c == '\u{205f}' || c == '\u{3000}'
}

/// The part of `s` inside the white space around it.
pub fn trim(s: &str) -> (r: &str)
    ensures
        r@ == trim_spec(s@),
{
    let chars = chars_of(s);
    let n: usize = chars.len();
    let mut lo: usize = 0;
    assert(s@.skip(0) =~= s@);
    while lo < n && is_whitespace(chars[lo])
        invariant
            n == s@.len(),
            chars@ == s@,
            lo <= n,
            trim_start_spec(s@) == trim_start_spec(s@.skip(lo as int)),
        decreases n - lo,
    {
        assert(s@.skip(lo as int).skip(1) =~= s@.skip(lo + 1));
        lo += 1;
    }
    let ghost rest = s@.skip(lo as int);
    assert(trim_start_spec(s@) == rest);
    let mut hi: usize = n;
    assert(s@.subrange(lo as int, n as int) =~= rest);
    while hi > lo && is_whitespace(chars[hi - 1])
        invariant
            n == s@.len(),
            chars@ == s@,
            lo <= hi <= n,
            trim_end_spec(rest) == trim_end_spec(s@.subrange(lo as int, hi as int)),
        decreases hi - lo,
    {
        let ghost part = s@.subrange(lo as int, hi as int);
        assert(part.drop_last() =~= s@.subrange(lo as int, hi - 1));
        assert(part.last() == s@[hi - 1]);
        hi -= 1;
    }
    proof {
        let part = s@.subrange(lo as int, hi as int);
        if hi > lo {
            assert(part.last() == s@[hi - 1]);
        }
    }
    s.substring_char(lo, hi)
}

/// `s` with every occurrence of `from` replaced by `to`.
pub fn replace(s: &str, from: &str, to: &str) -> (r: String)
    requires
        from@.len() > 0,
    ensures
        r@ == replace_spec(s@, from@, to@),
{
    let chars = chars_of(s);
    let pat = chars_of(from);
    let n: usize = chars.len();
    let mut out = String::new();
    let mut start: usize = 0;
    let mut i: usize = 0;
    assert(s@.skip(0) =~= s@);
    assert(Seq::<char>::empty() + s@.subrange(0, 0) + replace_spec(s@.skip(0), from@, to@)
        =~= replace_spec(s@, from@, to@));
    while i < n
        invariant
            n == s@.len(),
            chars@ == s@,
            pat@ == from@,
            from@.len() > 0,
            start <= i <= n,
            out@ + s@.subrange(start as int, i as int) + replace_spec(
                s@.skip(i as int),
                from@,
                to@,
            ) == replace_spec(s@, from@, to@),
        decreases n - i,
    {
        let ghost rest = s@.skip(i as int);
        if stands_at(&chars, i, &pat) {
            let ghost before = out@;
            let ghost tail = replace_spec(rest.skip(from@.len() as int), from@, to@);
            out.append(s.substring_char(start, i));
            out.append(to);
            proof {
                assert(rest.skip(from@.len() as int) =~= s@.skip(i + from@.len()));
                assert(out@ + s@.subrange(i + from@.len(), i + from@.len()) + tail =~= before
                    + s@.subrange(start as int, i as int) + (to@ + tail));
            }
            i += pat.len();
            start = i;
        } else {
            proof {
                let tail = replace_spec(rest.skip(1), from@, to@);
                assert(rest.skip(1) =~= s@.skip(i + 1));
                assert(out@ + s@.subrange(start as int, i + 1) + tail =~= out@ + s@.subrange(
                    start as int,
                    i as int,
                ) + (seq![rest[0]] + tail));
            }
            i += 1;
        }
    }
    out.append(s.substring_char(start, n));
    proof {
        assert(s@.skip(n as int).len() == 0);
        assert(out@ =~= replace_spec(s@, from@, to@));
    }
    out
}

/// The first `n` characters of `s` end with `p` where `p` stands at `n - p.len()`.
proof fn lemma_suffix_of_take(s: Seq<char>, n: int, p: Seq<char>)
    requires
        p.len() <= n <= s.len(),
    ensures
        has_suffix(s.take(n), p) == has_prefix(s.skip(n - p.len()), p),
{
    assert(s.take(n).skip(n - p.len()) =~= s.skip(n - p.len()).take(p.len() as int));
}

/// `s` without the copies of `suffix` it ends with.
pub fn strip_suffix<'a>(s: &'a str, suffix: &str) -> (r: &'a str)
    requires
        suffix@.len() > 0,
    ensures
        r@ == strip_suffix_spec(s@, suffix@),
{
    let chars = chars_of(s);
    let pat = chars_of(suffix);
    let mut n: usize = chars.len();
    assert(s@.take(n as int) =~= s@);
    while n >= pat.len() && stands_at(&chars, n - pat.len(), &pat)
        invariant
            n <= s@.len(),
            chars@ == s@,
            pat@ == suffix@,
            suffix@.len() > 0,
            strip_suffix_spec(s@, suffix@) == strip_suffix_spec(s@.take(n as int), suffix@),
        decreases n,
    {
        proof {
            lemma_suffix_of_take(s@, n as int, suffix@);
            assert(s@.take(n as int).take(n - suffix@.len()) =~= s@.take(n - suffix@.len()));
        }
        n -= pat.len();
    }
    proof {
        if suffix@.len() <= n {
            lemma_suffix_of_take(s@, n as int, suffix@);
        }
        assert(s@.take(n as int) =~= s@.subrange(0, n as int));
    }
    s.substring_char(0, n)
}

/// A text in which `from` does not occur is unchanged by its replacement.
pub proof fn law_replace_absent(s: Seq<char>, from: Seq<char>, to: Seq<char>)
    requires
        from.len() > 0,
        !occurs(s, from),
    ensures
        replace_spec(s, from, to) == s,
    decreases s.len(),
{
    if s.len() > 0 {
        assert(s.skip(0) =~= s);
        assert(!has_prefix(s.skip(0), from));
        let t = s.skip(1);
        assert forall|i: int| 0 <= i <= t.len() implies !has_prefix(#[trigger] t.skip(i), from) by {
            assert(t.skip(i) =~= s.skip(i + 1));
        }
        law_replace_absent(t, from, to);
        assert(seq![s[0]] + t =~= s);
    }
}

/// Trimming takes white space off both ends, all of it and nothing else.
pub proof fn law_trim(s: Seq<char>)
    ensures
        exists|from: int, to: int|
            0 <= from <= to <= s.len() && trim_spec(s) == #[trigger] s.subrange(from, to) && (
            forall|i: int| 0 <= i < from || to <= i < s.len() ==> is_space(#[trigger] s[i])),
        trim_spec(s).len() > 0 ==> !is_space(trim_spec(s)[0]) && !is_space(trim_spec(s).last()),
{
    lemma_trim_start(s);
    let from = s.len() - trim_start_spec(s).len();
    let rest = trim_start_spec(s);
    lemma_trim_end(rest);
    let to = from + trim_end_spec(rest).len();
    assert(trim_spec(s) =~= s.subrange(from, to));
    assert forall|i: int| 0 <= i < from || to <= i < s.len() implies is_space(#[trigger] s[i]) by {
        if i >= to {
            assert(rest[i - from] == s[i]);
        }
    }
}

proof fn lemma_trim_start(s: Seq<char>)
    ensures
        trim_start_spec(s).len() <= s.len(),
        trim_start_spec(s) == s.skip(s.len() - trim_start_spec(s).len()),
        forall|i: int|
            0 <= i < s.len() - trim_start_spec(s).len() ==> is_space(#[trigger] s[i]),
        trim_start_spec(s).len() > 0 ==> !is_space(trim_start_spec(s)[0]),
    decreases s.len(),
{
    if s.len() > 0 && is_space(s[0]) {
        let rest = s.skip(1);
        lemma_trim_start(rest);
        let n = trim_start_spec(rest).len();
        assert(s.skip(s.len() - n) =~= rest.skip(rest.len() - n));
        assert forall|i: int| 0 <= i < s.len() - n implies is_space(#[trigger] s[i]) by {
            if i > 0 {
                assert(rest[i - 1] == s[i]);
            }
        }
    } else {
        assert(s.skip(0) =~= s);
    }
}

proof fn lemma_trim_end(s: Seq<char>)
    ensures
        trim_end_spec(s).len() <= s.len(),
        trim_end_spec(s) == s.take(trim_end_spec(s).len() as int),
        forall|i: int| trim_end_spec(s).len() <= i < s.len() ==> is_space(#[trigger] s[i]),
        trim_end_spec(s).len() > 0 ==> !is_space(trim_end_spec(s).last()),
    decreases s.len(),
{
    if s.len() > 0 && is_space(s.last()) {
        let rest = s.drop_last();
        lemma_trim_end(rest);
        let n = trim_end_spec(rest).len();
        assert(s.take(n as int) =~= rest.take(n as int));
        assert forall|i: int| n <= i < s.len() implies is_space(#[trigger] s[i]) by {
            if i < rest.len() {
                assert(rest[i] == s[i]);
            }
        }
    } else {
        assert(s.take(s.len() as int) =~= s);
    }
}

/// Replacing goes on behind the first occurrence: what stands before it stays, it
/// gives way to the new text, and what stands behind it is dealt with alike.
pub proof fn law_replace_first(
    before: Seq<char>,
    from: Seq<char>,
    after: Seq<char>,
    to: Seq<char>,
)
    requires
        from.len() > 0,
        forall|i: int|
            0 <= i < before.len() ==> !has_prefix(#[trigger] (before + from + after).skip(i), from),
    ensures
        replace_spec(before + from + after, from, to) == before + to + replace_spec(
            after,
            from,
            to,
        ),
    decreases before.len(),
{
    let s = before + from + after;
    if before.len() == 0 {
        assert(s.take(from.len() as int) =~= from);
        assert(s.skip(from.len() as int) =~= after);
        assert(before + to + replace_spec(after, from, to) =~= to + replace_spec(after, from, to));
    } else {
        assert(s.skip(0) =~= s);
        assert(!has_prefix(s.skip(0), from));
        let rest = before.skip(1);
        assert(s.skip(1) =~= rest + from + after);
        assert forall|i: int| 0 <= i < rest.len() implies !has_prefix(
            #[trigger] (rest + from + after).skip(i),
            from,
        ) by {
            assert((rest + from + after).skip(i) =~= s.skip(i + 1));
            assert(!has_prefix(s.skip(i + 1), from));
        }
        law_replace_first(rest, from, after, to);
        assert(seq![s[0]] + (rest + to + replace_spec(after, from, to)) =~= before + to
            + replace_spec(after, from, to));
    }
}

} // verus!
