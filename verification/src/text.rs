//! Text as sequences of characters: white space, pieces between separators
//! and decimal numbers.

use vstd::prelude::*;
use vstd::slice::slice_subrange;
use vstd::string::StrSliceExecFns;

verus! {

/// The characters of `text`.
pub fn chars_of(text: &str) -> (chars: Vec<char>)
    ensures
        chars@ == text@,
{
    let mut chars: Vec<char> = Vec::new();
    for c in iter: text.chars()
        invariant
            chars@ == iter.seq().subrange(0, iter.index() as int),
            iter.seq() == text@,
    {
        chars.push(c);
        assert(chars@ =~= iter.seq().subrange(0, iter.index() + 1));
    }
    assert(chars@ =~= text@);
    chars
}

/// The part of `text` from character `from` up to character `to`.
pub fn piece(text: &str, from: usize, to: usize) -> (part: String)
    requires
        from <= to <= text@.len(),
    ensures
        part@ == text@.subrange(from as int, to as int),
{
    text.substring_char(from, to).to_owned()
}

/// White space: the characters that Unicode gives the property White_Space.
pub open spec fn is_space(c: char) -> bool {
    let code = c as u32;
    ||| 0x09 <= code <= 0x0D
    ||| code == 0x20
    ||| code == 0x85
    ||| code == 0xA0
    ||| code == 0x1680
    ||| 0x2000 <= code <= 0x200A
    ||| code == 0x2028
    ||| code == 0x2029
    ||| code == 0x202F
    ||| code == 0x205F
    ||| code == 0x3000
}

/// Whether `c` is white space, see [`is_space`].
pub fn space(c: char) -> (yes: bool)
    ensures
        yes == is_space(c),
{
    let code = c as u32;
    (0x09 <= code && code <= 0x0D) || code == 0x20 || code == 0x85 || code == 0xA0 || code == 0x1680
        || (0x2000 <= code && code <= 0x200A) || code == 0x2028 || code == 0x2029 || code == 0x202F
        || code == 0x205F || code == 0x3000
}

/// Number of white-space characters at the start of `s`.
pub open spec fn lead(s: Seq<char>) -> nat
    decreases s.len(),
{
    if s.len() > 0 && is_space(s[0]) {
        1 + lead(s.drop_first())
    } else {
        0
    }
}

/// Number of white-space characters at the end of `s`.
pub open spec fn trail(s: Seq<char>) -> nat
    decreases s.len(),
{
    if s.len() > 0 && is_space(s.last()) {
        1 + trail(s.drop_last())
    } else {
        0
    }
}

/// `s` without the white space at its start.
pub open spec fn trim_start(s: Seq<char>) -> Seq<char> {
    s.subrange(lead(s) as int, s.len() as int)
}

/// `s` without the white space at its start and at its end.
pub open spec fn trim(s: Seq<char>) -> Seq<char> {
    let rest = trim_start(s);
    rest.subrange(0, rest.len() - trail(rest))
}

/// How many characters of white space `chars` starts with, see [`lead`].
pub fn count_lead(chars: &[char]) -> (n: usize)
    ensures
        n == lead(chars@),
        n <= chars@.len(),
{
    let mut n: usize = 0;
    assert(chars@.subrange(0, chars@.len() as int) =~= chars@);
    while n < chars.len() && space(chars[n])
        invariant
            n <= chars@.len(),
            lead(chars@) == n + lead(chars@.subrange(n as int, chars@.len() as int)),
        decreases chars@.len() - n,
    {
        assert(chars@.subrange(n as int, chars@.len() as int).drop_first() =~= chars@.subrange(
            n + 1,
            chars@.len() as int,
        ));
        n += 1;
    }
    assert(chars@.subrange(0, chars@.len() as int) =~= chars@);
    n
}

/// How many characters of white space `chars` ends with, see [`trail`].
pub fn count_trail(chars: &[char]) -> (n: usize)
    ensures
        n == trail(chars@),
        n <= chars@.len(),
{
    let mut n: usize = 0;
    assert(chars@.subrange(0, chars@.len() as int) =~= chars@);
    while n < chars.len() && space(chars[chars.len() - 1 - n])
        invariant
            n <= chars@.len(),
            trail(chars@) == n + trail(chars@.subrange(0, chars@.len() - n)),
        decreases chars@.len() - n,
    {
        assert(chars@.subrange(0, chars@.len() - n).drop_last() =~= chars@.subrange(
            0,
            chars@.len() - n - 1,
        ));
        n += 1;
    }
    assert(chars@.subrange(0, chars@.len() as int) =~= chars@);
    n
}

/// Index of the first `mark` in `s`, or the length of `s` if there is none.
pub open spec fn first_of(s: Seq<char>, mark: char) -> int
    decreases s.len(),
{
    if s.len() == 0 || s[0] == mark {
        0
    } else {
        1 + first_of(s.drop_first(), mark)
    }
}

/// The first `mark` lies within the text, and nothing before it is a `mark`.
pub proof fn lemma_first_of(s: Seq<char>, mark: char)
    ensures
        0 <= first_of(s, mark) <= s.len(),
        first_of(s, mark) < s.len() ==> s[first_of(s, mark)] == mark,
        forall|i: int| 0 <= i < first_of(s, mark) ==> s[i] != mark,
    decreases s.len(),
{
    if s.len() == 0 || s[0] == mark {
    } else {
        lemma_first_of(s.drop_first(), mark);
        assert forall|i: int| 0 <= i < first_of(s, mark) implies s[i] != mark by {
            if i > 0 {
                assert(s[i] == s.drop_first()[i - 1]);
            }
        }
    }
}

/// An index that holds `mark` and has none before it is the first.
pub proof fn lemma_first_of_found(s: Seq<char>, mark: char, at: int)
    requires
        0 <= at <= s.len(),
        at < s.len() ==> s[at] == mark,
        forall|i: int| 0 <= i < at ==> s[i] != mark,
    ensures
        first_of(s, mark) == at,
    decreases s.len(),
{
    if s.len() == 0 || s[0] == mark {
    } else {
        assert forall|i: int| 0 <= i < at - 1 implies s.drop_first()[i] != mark by {
            assert(s.drop_first()[i] == s[i + 1]);
        }
        lemma_first_of_found(s.drop_first(), mark, at - 1);
    }
}

/// Index of the first `mark` in `chars`, see [`first_of`].
pub fn find(chars: &[char], mark: char) -> (at: usize)
    ensures
        at == first_of(chars@, mark),
        at <= chars@.len(),
{
    let mut at: usize = 0;
    while at < chars.len() && chars[at] != mark
        invariant
            at <= chars@.len(),
            forall|i: int| 0 <= i < at ==> chars@[i] != mark,
        decreases chars@.len() - at,
    {
        at += 1;
    }
    proof {
        lemma_first_of_found(chars@, mark, at as int);
    }
    at
}

/// The pieces of `s` between the occurrences of `mark`: always at least
/// one piece, and an empty one wherever two marks meet or a mark stands
/// at an end.
pub open spec fn split(s: Seq<char>, mark: char) -> Seq<Seq<char>>
    decreases s.len(),
{
    let at = first_of(s, mark);
    if 0 <= at < s.len() {
        seq![s.subrange(0, at)] + split(s.subrange(at + 1, s.len() as int), mark)
    } else {
        seq![s]
    }
}

/// Where the pieces of `chars` between the occurrences of `mark` start and
/// end, see [`split`].
pub fn split_ranges(chars: &[char], mark: char) -> (ranges: Vec<(usize, usize)>)
    ensures
        ranges@.len() == split(chars@, mark).len(),
        forall|i: int|
            0 <= i < ranges@.len() ==> {
                &&& (#[trigger] ranges@[i]).0 <= ranges@[i].1 <= chars@.len()
                &&& chars@.subrange(ranges@[i].0 as int, ranges@[i].1 as int) == split(
                    chars@,
                    mark,
                )[i]
            },
{
    let mut ranges: Vec<(usize, usize)> = Vec::new();
    let mut start: usize = 0;
    let total = chars.len();
    proof {
        assert(chars@.subrange(0, total as int) =~= chars@);
        assert(Seq::new(
            ranges@.len(),
            |i: int| chars@.subrange(ranges@[i].0 as int, ranges@[i].1 as int),
        ) + split(chars@, mark) =~= split(chars@, mark));
    }
    loop
        invariant_except_break
            start <= total == chars@.len(),
            split(chars@, mark) == Seq::new(
                ranges@.len(),
                |i: int| chars@.subrange(ranges@[i].0 as int, ranges@[i].1 as int),
            ) + split(chars@.subrange(start as int, total as int), mark),
            forall|i: int|
                0 <= i < ranges@.len() ==> (#[trigger] ranges@[i]).0 <= ranges@[i].1 <= total,
        ensures
            total == chars@.len(),
            split(chars@, mark) == Seq::new(
                ranges@.len(),
                |i: int| chars@.subrange(ranges@[i].0 as int, ranges@[i].1 as int),
            ),
            forall|i: int|
                0 <= i < ranges@.len() ==> (#[trigger] ranges@[i]).0 <= ranges@[i].1 <= total,
        decreases total - start,
    {
        let rest = slice_subrange(chars, start, total);
        let at = find(rest, mark);
        let ghost before = ranges@;
        let ghost pieces = Seq::new(
            before.len(),
            |i: int| chars@.subrange(before[i].0 as int, before[i].1 as int),
        );
        ranges.push((start, start + at));
        proof {
            assert(rest@.subrange(0, at as int) =~= chars@.subrange(
                start as int,
                start + at,
            ));
            assert(Seq::new(
                ranges@.len(),
                |i: int| chars@.subrange(ranges@[i].0 as int, ranges@[i].1 as int),
            ) =~= pieces + seq![rest@.subrange(0, at as int)]);
        }
        if at < rest.len() {
            proof {
                assert(rest@.subrange(at + 1, rest@.len() as int) =~= chars@.subrange(
                    start + at + 1,
                    total as int,
                ));
                assert(pieces + (seq![rest@.subrange(0, at as int)] + split(
                    rest@.subrange(at + 1, rest@.len() as int),
                    mark,
                )) =~= (pieces + seq![rest@.subrange(0, at as int)]) + split(
                    rest@.subrange(at + 1, rest@.len() as int),
                    mark,
                ));
            }
            start = start + at + 1;
        } else {
            proof {
                assert(rest@.subrange(0, at as int) =~= rest@);
            }
            break ;
        }
    }
    ranges
}

/// Whether `c` is one of the ten digits.
pub open spec fn is_digit(c: char) -> bool {
    '0' <= c <= '9'
}

/// The number that a digit stands for.
pub open spec fn digit_value(c: char) -> nat {
    (c as u32 - '0' as u32) as nat
}

/// Whether `s` holds digits only.
pub open spec fn all_digits(s: Seq<char>) -> bool {
    forall|i: int| 0 <= i < s.len() ==> is_digit(#[trigger] s[i])
}

/// The number that the digits `s` spell in base ten; zero for no digits.
pub open spec fn digits_value(s: Seq<char>) -> nat
    decreases s.len(),
{
    if s.len() == 0 {
        0
    } else {
        10 * digits_value(s.drop_last()) + digit_value(s.last())
    }
}

/// The number that `s` spells: digits, at least one, after an optional
/// plus sign, or with `signed` an optional minus sign instead. `None`
/// for any other text.
pub open spec fn number(s: Seq<char>, signed: bool) -> Option<int> {
    let marked = s.len() > 0 && (s[0] == '+' || signed && s[0] == '-');
    let body = if marked {
        s.drop_first()
    } else {
        s
    };
    if body.len() > 0 && all_digits(body) {
        if marked && s[0] == '-' {
            Some(-(digits_value(body) as int))
        } else {
            Some(digits_value(body) as int)
        }
    } else {
        None
    }
}

/// The index or size that `s` spells in decimal, if it spells one that a
/// `usize` holds.
pub open spec fn usize_of(s: Seq<char>) -> Option<usize> {
    match number(s, false) {
        Some(value) if value <= usize::MAX => Some(value as usize),
        _ => None,
    }
}

/// The integer that `s` spells in decimal, if it spells one that an `i64` holds.
pub open spec fn i64_of(s: Seq<char>) -> Option<i64> {
    match number(s, true) {
        Some(value) if i64::MIN <= value <= i64::MAX => Some(value as i64),
        _ => None,
    }
}

/// More digits never spell a smaller number.
pub proof fn lemma_digits_grow(s: Seq<char>, shorter: int)
    requires
        0 <= shorter <= s.len(),
    ensures
        digits_value(s.subrange(0, shorter)) <= digits_value(s),
    decreases s.len() - shorter,
{
    if shorter < s.len() {
        assert(s.subrange(0, shorter + 1).drop_last() =~= s.subrange(0, shorter));
        lemma_digits_grow(s, shorter + 1);
    } else {
        assert(s.subrange(0, shorter) =~= s);
    }
}

/// The number that the digits `chars` spell, if they are digits, at least
/// one, and the number is at most `limit`.
fn magnitude(chars: &[char], limit: u64) -> (value: Option<u64>)
    ensures
        value matches Some(v) ==> chars@.len() > 0 && all_digits(chars@) && v == digits_value(
            chars@,
        ) && v <= limit,
        value is None ==> chars@.len() == 0 || !all_digits(chars@) || digits_value(chars@)
            > limit,
{
    if chars.len() == 0 {
        return None;
    }
    let mut value: u64 = 0;
    let mut i: usize = 0;
    while i < chars.len()
        invariant
            i <= chars@.len(),
            all_digits(chars@.subrange(0, i as int)),
            value == digits_value(chars@.subrange(0, i as int)),
            value <= limit,
        decreases chars@.len() - i,
    {
        let c = chars[i];
        if !('0' <= c && c <= '9') {
            assert(!is_digit(chars@[i as int]));
            return None;
        }
        let digit = (c as u32 - '0' as u32) as u64;
        proof {
            assert(chars@.subrange(0, i + 1).drop_last() =~= chars@.subrange(0, i as int));
            assert(all_digits(chars@.subrange(0, i + 1))) by {
                assert forall|k: int| 0 <= k < i + 1 implies is_digit(
                    #[trigger] chars@.subrange(0, i + 1)[k],
                ) by {
                    if k < i {
                        assert(chars@.subrange(0, i + 1)[k] == chars@.subrange(0, i as int)[k]);
                    }
                }
            }
        }
        if limit < digit || value > (limit - digit) / 10 {
            proof {
                lemma_digits_grow(chars@, i + 1);
            }
            return None;
        }
        value = value * 10 + digit;
        i += 1;
    }
    assert(chars@.subrange(0, i as int) =~= chars@);
    Some(value)
}

/// Reads an index or a size in decimal, see [`usize_of`].
pub fn parse_usize(chars: &[char]) -> (value: Option<usize>)
    ensures
        value == usize_of(chars@),
{
    let marked = chars.len() > 0 && chars[0] == '+';
    let body = if marked {
        slice_subrange(chars, 1, chars.len())
    } else {
        chars
    };
    assert(marked ==> body@ =~= chars@.drop_first());
    match magnitude(body, usize::MAX as u64) {
        Some(v) => Some(v as usize),
        None => None,
    }
}

/// Reads an integer in decimal, see [`i64_of`].
pub fn parse_i64(chars: &[char]) -> (value: Option<i64>)
    ensures
        value == i64_of(chars@),
{
    let negative = chars.len() > 0 && chars[0] == '-';
    let marked = negative || (chars.len() > 0 && chars[0] == '+');
    let body = if marked {
        slice_subrange(chars, 1, chars.len())
    } else {
        chars
    };
    assert(marked ==> body@ =~= chars@.drop_first());
    if negative {
        match magnitude(body, 0x8000_0000_0000_0000) {
            Some(v) => if v == 0x8000_0000_0000_0000 {
                Some(i64::MIN)
            } else {
                Some(-(v as i64))
            },
            None => None,
        }
    } else {
        match magnitude(body, 0x7FFF_FFFF_FFFF_FFFF) {
            Some(v) => Some(v as i64),
            None => None,
        }
    }
}

/// The digits of `n` in base ten, without leading zeros.
pub open spec fn digits(n: nat) -> Seq<char>
    decreases n,
{
    if n < 10 {
        seq![(n + '0' as u32) as char]
    } else {
        digits(n / 10) + seq![(n % 10 + '0' as u32) as char]
    }
}

/// Writes `n` in decimal, see [`digits`].
pub fn decimal(n: usize) -> (text: Vec<char>)
    ensures
        text@ == digits(n as nat),
{
    let mut reversed: Vec<char> = Vec::new();
    let mut rest = n;
    while rest >= 10
        invariant
            digits(n as nat) == digits(rest as nat) + reversed@.reverse(),
        decreases rest,
    {
        let ghost before = reversed@;
        reversed.push(digit_char((rest % 10) as u8));
        proof {
            assert(reversed@.reverse() =~= seq![reversed@.last()] + before.reverse());
            assert(digits(rest as nat) + before.reverse() =~= digits((rest / 10) as nat) + (
            seq![reversed@.last()] + before.reverse()));
        }
        rest = rest / 10;
    }
    let mut text: Vec<char> = Vec::new();
    text.push(digit_char(rest as u8));
    let mut i: usize = reversed.len();
    while i > 0
        invariant
            i <= reversed@.len(),
            text@ == digits(rest as nat) + reversed@.reverse().subrange(
                0,
                reversed@.len() - i,
            ),
        decreases i,
    {
        i -= 1;
        text.push(reversed[i]);
        assert(text@ =~= digits(rest as nat) + reversed@.reverse().subrange(
            0,
            reversed@.len() - i,
        ));
    }
    assert(reversed@.reverse().subrange(0, reversed@.len() as int) =~= reversed@.reverse());
    text
}

/// The character of a digit.
fn digit_char(value: u8) -> (c: char)
    requires
        value < 10,
    ensures
        c == (value + '0' as u32) as char,
{
    match value {
        0 => '0',
        1 => '1',
        2 => '2',
        3 => '3',
        4 => '4',
        5 => '5',
        6 => '6',
        7 => '7',
        8 => '8',
        _ => '9',
    }
}

/// Whether two texts are the same.
pub fn same(a: &[char], b: &[char]) -> (equal: bool)
    ensures
        equal == (a@ == b@),
{
    if a.len() != b.len() {
        return false;
    }
    let mut i: usize = 0;
    while i < a.len()
        invariant
            i <= a@.len() == b@.len(),
            forall|k: int| 0 <= k < i ==> a@[k] == b@[k],
        decreases a@.len() - i,
    {
        if a[i] != b[i] {
            return false;
        }
        i += 1;
    }
    assert(a@ =~= b@);
    true
}

/// `s` without a carriage return at its end.
pub open spec fn without_return(s: Seq<char>) -> Seq<char> {
    if s.len() > 0 && s.last() == '\r' {
        s.drop_last()
    } else {
        s
    }
}

/// The lines of `s`: a line ends at a line feed, which is not part of it,
/// nor is a carriage return just before the line feed. What follows the
/// last line feed is a line if it is not empty.
pub open spec fn lines(s: Seq<char>) -> Seq<Seq<char>>
    decreases s.len(),
{
    if s.len() == 0 {
        Seq::empty()
    } else {
        let at = first_of(s, '\n');
        if 0 <= at < s.len() {
            seq![without_return(s.subrange(0, at))] + lines(s.subrange(at + 1, s.len() as int))
        } else {
            seq![s]
        }
    }
}

/// Where the lines of `chars` start and end, see [`lines`].
pub fn line_ranges(chars: &[char]) -> (ranges: Vec<(usize, usize)>)
    ensures
        ranges@.len() == lines(chars@).len(),
        forall|i: int|
            0 <= i < ranges@.len() ==> {
                &&& (#[trigger] ranges@[i]).0 <= ranges@[i].1 <= chars@.len()
                &&& chars@.subrange(ranges@[i].0 as int, ranges@[i].1 as int) == lines(chars@)[i]
            },
{
    let mut ranges: Vec<(usize, usize)> = Vec::new();
    let mut start: usize = 0;
    let total = chars.len();
    proof {
        assert(chars@.subrange(0, total as int) =~= chars@);
        assert(Seq::new(
            ranges@.len(),
            |i: int| chars@.subrange(ranges@[i].0 as int, ranges@[i].1 as int),
        ) + lines(chars@) =~= lines(chars@));
    }
    while start < total
        invariant
            start <= total == chars@.len(),
            lines(chars@) == Seq::new(
                ranges@.len(),
                |i: int| chars@.subrange(ranges@[i].0 as int, ranges@[i].1 as int),
            ) + lines(chars@.subrange(start as int, total as int)),
            forall|i: int|
                0 <= i < ranges@.len() ==> (#[trigger] ranges@[i]).0 <= ranges@[i].1 <= total,
        decreases total - start,
    {
        let rest = slice_subrange(chars, start, total);
        let at = find(rest, '\n');
        let ghost before = ranges@;
        let ghost pieces = Seq::new(
            before.len(),
            |i: int| chars@.subrange(before[i].0 as int, before[i].1 as int),
        );
        if at < rest.len() {
            let end = if at > 0 && rest[at - 1] == '\r' {
                start + at - 1
            } else {
                start + at
            };
            ranges.push((start, end));
            proof {
                let line = without_return(rest@.subrange(0, at as int));
                assert(line =~= chars@.subrange(start as int, end as int));
                assert(rest@.subrange(at + 1, rest@.len() as int) =~= chars@.subrange(
                    start + at + 1,
                    total as int,
                ));
                assert(Seq::new(
                    ranges@.len(),
                    |i: int| chars@.subrange(ranges@[i].0 as int, ranges@[i].1 as int),
                ) =~= pieces + seq![line]);
                assert(pieces + (seq![line] + lines(rest@.subrange(at + 1, rest@.len() as int)))
                    =~= (pieces + seq![line]) + lines(rest@.subrange(at + 1, rest@.len() as int)));
            }
            start = start + at + 1;
        } else {
            ranges.push((start, total));
            proof {
                assert(Seq::new(
                    ranges@.len(),
                    |i: int| chars@.subrange(ranges@[i].0 as int, ranges@[i].1 as int),
                ) =~= pieces + seq![rest@]);
                assert(chars@.subrange(total as int, total as int) =~= Seq::<char>::empty());
                assert((pieces + seq![rest@]) + lines(Seq::<char>::empty()) =~= pieces + seq![
                    rest@,
                ]);
            }
            start = total;
        }
    }
    proof {
        assert(chars@.subrange(total as int, total as int) =~= Seq::<char>::empty());
        assert(lines(chars@) =~= Seq::new(
            ranges@.len(),
            |i: int| chars@.subrange(ranges@[i].0 as int, ranges@[i].1 as int),
        ));
    }
    ranges
}

/// The words of `s`: what stands between blanks, where anything does.
pub open spec fn words(s: Seq<char>) -> Seq<Seq<char>>
    decreases s.len(),
{
    let at = first_of(s, ' ');
    let rest = if 0 <= at < s.len() {
        words(s.subrange(at + 1, s.len() as int))
    } else {
        Seq::empty()
    };
    if 0 < at <= s.len() {
        seq![s.subrange(0, at)] + rest
    } else {
        rest
    }
}

/// Where the words of `chars` start and end, see [`words`].
pub fn word_ranges(chars: &[char]) -> (ranges: Vec<(usize, usize)>)
    ensures
        ranges@.len() == words(chars@).len(),
        forall|i: int|
            0 <= i < ranges@.len() ==> {
                &&& (#[trigger] ranges@[i]).0 <= ranges@[i].1 <= chars@.len()
                &&& chars@.subrange(ranges@[i].0 as int, ranges@[i].1 as int) == words(chars@)[i]
            },
{
    let mut ranges: Vec<(usize, usize)> = Vec::new();
    let mut start: usize = 0;
    let total = chars.len();
    proof {
        assert(chars@.subrange(0, total as int) =~= chars@);
        assert(Seq::new(
            ranges@.len(),
            |i: int| chars@.subrange(ranges@[i].0 as int, ranges@[i].1 as int),
        ) + words(chars@) =~= words(chars@));
    }
    loop
        invariant_except_break
            start <= total == chars@.len(),
            words(chars@) == Seq::new(
                ranges@.len(),
                |i: int| chars@.subrange(ranges@[i].0 as int, ranges@[i].1 as int),
            ) + words(chars@.subrange(start as int, total as int)),
            forall|i: int|
                0 <= i < ranges@.len() ==> (#[trigger] ranges@[i]).0 <= ranges@[i].1 <= total,
        ensures
            total == chars@.len(),
            words(chars@) == Seq::new(
                ranges@.len(),
                |i: int| chars@.subrange(ranges@[i].0 as int, ranges@[i].1 as int),
            ),
            forall|i: int|
                0 <= i < ranges@.len() ==> (#[trigger] ranges@[i]).0 <= ranges@[i].1 <= total,
        decreases total - start,
    {
        let rest = slice_subrange(chars, start, total);
        let at = find(rest, ' ');
        let ghost before = ranges@;
        let ghost pieces = Seq::new(
            before.len(),
            |i: int| chars@.subrange(before[i].0 as int, before[i].1 as int),
        );
        let ghost tail = if at < rest@.len() {
            words(rest@.subrange(at + 1, rest@.len() as int))
        } else {
            Seq::<Seq<char>>::empty()
        };
        if at > 0 {
            ranges.push((start, start + at));
            proof {
                let word = rest@.subrange(0, at as int);
                assert(word =~= chars@.subrange(start as int, start + at));
                assert(Seq::new(
                    ranges@.len(),
                    |i: int| chars@.subrange(ranges@[i].0 as int, ranges@[i].1 as int),
                ) =~= pieces + seq![word]);
                assert(pieces + (seq![word] + tail) =~= (pieces + seq![word]) + tail);
            }
        }
        if at < rest.len() {
            proof {
                assert(rest@.subrange(at + 1, rest@.len() as int) =~= chars@.subrange(
                    start + at + 1,
                    total as int,
                ));
            }
            start = start + at + 1;
        } else {
            proof {
                assert(Seq::new(
                    ranges@.len(),
                    |i: int| chars@.subrange(ranges@[i].0 as int, ranges@[i].1 as int),
                ) + tail =~= Seq::new(
                    ranges@.len(),
                    |i: int| chars@.subrange(ranges@[i].0 as int, ranges@[i].1 as int),
                ));
            }
            break ;
        }
    }
    ranges
}

} // verus!
