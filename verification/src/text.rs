//! Text as a list of characters: cutting it up, and the numbers in it.

use vstd::prelude::*;
use vstd::string::StringExecFns;

verus! {

/// The characters of `text`.
pub fn chars_of(text: &str) -> (chars: Vec<char>)
    ensures
        chars@ == text@,
{
    let mut chars: Vec<char> = Vec::new();
    for c in it: text.chars()
        invariant
            chars@ == it.seq().take(it.index() as int),
            it.seq() == text@,
    {
        chars.push(c);
    }
    chars
}

/// Whether `chars` spells `text`.
pub fn spells(chars: &Vec<char>, text: &str) -> (same: bool)
    ensures
        same == (chars@ == text@),
{
    let other = chars_of(text);
    if chars.len() != other.len() {
        return false;
    }
    let mut i: usize = 0;
    while i < chars.len()
        invariant
            i <= chars.len(),
            other@ == text@,
            chars@.len() == other@.len(),
            forall|k: int| 0 <= k < i ==> chars@[k] == other@[k],
        decreases chars.len() - i,
    {
        if chars[i] != other[i] {
            return false;
        }
        i += 1;
    }
    assert(chars@ =~= other@);
    true
}

/// Whether `c` is white space: a blank, a tab, an end of line, or one of the
/// other characters that Unicode counts as white space.
pub open spec fn spec_is_space(c: char) -> bool {
    let code = c as u32;
    ||| 0x09 <= code <= 0x0d
    ||| code == 0x20
    ||| code == 0x85
    ||| code == 0xa0
    ||| code == 0x1680
    ||| 0x2000 <= code <= 0x200a
    ||| code == 0x2028
    ||| code == 0x2029
    ||| code == 0x202f
    ||| code == 0x205f
    ||| code == 0x3000
}

/// Whether `c` is white space.
#[verifier::when_used_as_spec(spec_is_space)]
pub fn is_space(c: char) -> (space: bool)
    ensures
        space == spec_is_space(c),
{
    let code = c as u32;
    (0x09 <= code && code <= 0x0d) || code == 0x20 || code == 0x85 || code == 0xa0 || code
        == 0x1680 || (0x2000 <= code && code <= 0x200a) || code == 0x2028 || code == 0x2029
        || code == 0x202f || code == 0x205f || code == 0x3000
}

/// `text` without the white space at its start.
pub open spec fn trim_start(text: Seq<char>) -> Seq<char>
    decreases text.len(),
{
    if text.len() > 0 && is_space(text[0]) {
        trim_start(text.drop_first())
    } else {
        text
    }
}

/// `text` without the white space at its end.
pub open spec fn trim_end(text: Seq<char>) -> Seq<char>
    decreases text.len(),
{
    if text.len() > 0 && is_space(text.last()) {
        trim_end(text.drop_last())
    } else {
        text
    }
}

/// `text` without the white space at its start and at its end.
pub open spec fn spec_trim(text: Seq<char>) -> Seq<char> {
    trim_end(trim_start(text))
}

proof fn lemma_trim_start_skips(text: Seq<char>, start: int)
    requires
        0 <= start <= text.len(),
        forall|k: int| 0 <= k < start ==> is_space(text[k]),
        start < text.len() ==> !is_space(text[start]),
    ensures
        trim_start(text) == text.skip(start),
    decreases start,
{
    if start == 0 {
        assert(text.skip(0) =~= text);
    } else {
        lemma_trim_start_skips(text.drop_first(), start - 1);
        assert(text.drop_first().skip(start - 1) =~= text.skip(start));
    }
}

proof fn lemma_trim_end_takes(text: Seq<char>, end: int)
    requires
        0 <= end <= text.len(),
        forall|k: int| end <= k < text.len() ==> is_space(text[k]),
        end > 0 ==> !is_space(text[end - 1]),
    ensures
        trim_end(text) == text.take(end),
    decreases text.len() - end,
{
    if end == text.len() {
        assert(text.take(end) =~= text);
    } else {
        lemma_trim_end_takes(text.drop_last(), end);
        assert(text.drop_last().take(end) =~= text.take(end));
    }
}

/// The part of `text` from `start` up to `end`.
pub fn slice_of(text: &Vec<char>, start: usize, end: usize) -> (part: Vec<char>)
    requires
        start <= end <= text@.len(),
    ensures
        part@ == text@.subrange(start as int, end as int),
{
    let mut part: Vec<char> = Vec::new();
    let mut i: usize = start;
    while i < end
        invariant
            start <= i <= end,
            end <= text@.len(),
            part@ == text@.subrange(start as int, i as int),
        decreases end - i,
    {
        part.push(text[i]);
        assert(text@.subrange(start as int, i as int).push(text@[i as int]) =~= text@.subrange(
            start as int,
            i + 1,
        ));
        i += 1;
    }
    part
}

/// `text` without the white space at its start and at its end.
pub fn trim(text: &Vec<char>) -> (trimmed: Vec<char>)
    ensures
        trimmed@ == spec_trim(text@),
{
    let mut start: usize = 0;
    while start < text.len() && is_space(text[start])
        invariant
            start <= text.len(),
            forall|k: int| 0 <= k < start ==> is_space(text@[k]),
        decreases text.len() - start,
    {
        start += 1;
    }
    let mut end: usize = text.len();
    while end > start && is_space(text[end - 1])
        invariant
            start <= end <= text.len(),
            forall|k: int| end <= k < text@.len() ==> is_space(text@[k]),
        decreases end,
    {
        end -= 1;
    }
    proof {
        lemma_trim_start_skips(text@, start as int);
        let rest = text@.skip(start as int);
        assert forall|k: int| end - start <= k < rest.len() implies is_space(rest[k]) by {
            assert(rest[k] == text@[k + start]);
        }
        if end > start {
            assert(rest[end - start - 1] == text@[end - 1]);
        }
        lemma_trim_end_takes(rest, end - start);
        assert(rest.take(end - start) =~= text@.subrange(start as int, end as int));
    }
    slice_of(text, start, end)
}

/// The pieces of `text` between the characters `separator`: one more piece
/// than there are separators, some of them perhaps empty.
pub open spec fn spec_split(text: Seq<char>, separator: char) -> Seq<Seq<char>>
    decreases text.len(),
{
    if text.len() == 0 {
        seq![Seq::empty()]
    } else {
        let pieces = spec_split(text.drop_last(), separator);
        if text.last() == separator {
            pieces.push(Seq::empty())
        } else {
            pieces.drop_last().push(pieces.last().push(text.last()))
        }
    }
}

/// There is always a piece, and no piece holds a separator.
pub proof fn lemma_split_pieces(text: Seq<char>, separator: char)
    ensures
        spec_split(text, separator).len() >= 1,
        forall|k: int|
            0 <= k < spec_split(text, separator).len() ==> !(#[trigger] spec_split(
                text,
                separator,
            )[k]).contains(separator),
    decreases text.len(),
{
    if text.len() > 0 {
        lemma_split_pieces(text.drop_last(), separator);
        let pieces = spec_split(text.drop_last(), separator);
        if text.last() != separator {
            let grown = pieces.last().push(text.last());
            assert forall|i: int| 0 <= i < grown.len() implies grown[i] != separator by {
                if i < pieces.last().len() {
                    assert(pieces.last().contains(pieces.last()[i]));
                }
            }
        }
    }
}

/// The views of the pieces in `pieces`.
pub open spec fn views_of(pieces: Seq<Vec<char>>) -> Seq<Seq<char>> {
    Seq::new(pieces.len(), |k: int| pieces[k]@)
}

/// The pieces of `text` between the characters `separator`.
pub fn split(text: &Vec<char>, separator: char) -> (pieces: Vec<Vec<char>>)
    ensures
        views_of(pieces@) == spec_split(text@, separator),
{
    let mut pieces: Vec<Vec<char>> = Vec::new();
    let mut piece: Vec<char> = Vec::new();
    let mut i: usize = 0;
    while i < text.len()
        invariant
            i <= text.len(),
            views_of(pieces@).push(piece@) == spec_split(text@.take(i as int), separator),
        decreases text.len() - i,
    {
        let ghost earlier = spec_split(text@.take(i as int), separator);
        proof {
            assert(text@.take(i + 1).drop_last() =~= text@.take(i as int));
            assert(earlier.last() == piece@);
            assert(earlier.drop_last() =~= views_of(pieces@));
        }
        if text[i] == separator {
            let ghost before = pieces@;
            pieces.push(piece);
            piece = Vec::new();
            proof {
                assert(views_of(pieces@) =~= earlier);
            }
        } else {
            piece.push(text[i]);
        }
        i += 1;
    }
    let ghost before = pieces@;
    pieces.push(piece);
    proof {
        assert(text@.take(text@.len() as int) =~= text@);
        assert(views_of(pieces@) =~= views_of(before).push(piece@));
    }
    pieces
}

/// The place of the first `separator` in `text`, if there is one.
pub open spec fn first_index_of(text: Seq<char>, separator: char) -> Option<int> {
    if text.contains(separator) {
        Some(
            choose|i: int|
                0 <= i < text.len() && text[i] == separator && forall|k: int|
                    0 <= k < i ==> text[k] != separator,
        )
    } else {
        None
    }
}

/// `text` cut in two at its first `separator`: what stands before it and what
/// stands after it. Nothing where there is no separator.
pub open spec fn spec_split_once(text: Seq<char>, separator: char) -> Option<
    (Seq<char>, Seq<char>),
> {
    match first_index_of(text, separator) {
        Some(i) => Some((text.take(i), text.skip(i + 1))),
        None => None,
    }
}

/// `text` cut in two at its first `separator`.
pub fn split_once(text: &Vec<char>, separator: char) -> (halves: Option<(Vec<char>, Vec<char>)>)
    ensures
        match halves {
            Some((before, after)) => spec_split_once(text@, separator) == Some(
                (before@, after@),
            ),
            None => spec_split_once(text@, separator) is None,
        },
{
    let mut i: usize = 0;
    while i < text.len()
        invariant
            i <= text.len(),
            forall|k: int| 0 <= k < i ==> text@[k] != separator,
        decreases text.len() - i,
    {
        if text[i] == separator {
            proof {
                assert(text@.contains(separator));
                let first = choose|first: int|
                    0 <= first < text@.len() && text@[first] == separator && forall|k: int|
                        0 <= k < first ==> text@[k] != separator;
                assert(first == i);
                assert(text@.take(i as int) =~= text@.subrange(0, i as int));
                assert(text@.skip(i + 1) =~= text@.subrange(i + 1, text@.len() as int));
            }
            let before = slice_of(text, 0, i);
            let after = slice_of(text, i + 1, text.len());
            return Some((before, after));
        }
        i += 1;
    }
    None
}

/// Whether `c` is one of the digits 0 to 9.
pub open spec fn is_digit(c: char) -> bool {
    '0' <= c <= '9'
}

/// The number that the digits `digits` spell.
pub open spec fn digits_value(digits: Seq<char>) -> int
    decreases digits.len(),
{
    if digits.len() == 0 {
        0
    } else {
        10 * digits_value(digits.drop_last()) + (digits.last() as u32 - '0' as u32)
    }
}

/// Whether `text` is one digit or more and nothing else.
pub open spec fn is_digits(text: Seq<char>) -> bool {
    text.len() > 0 && forall|k: int| 0 <= k < text.len() ==> is_digit(#[trigger] text[k])
}

/// The whole number that `text` spells: digits, with or without a sign in
/// front of them. Nothing where `text` is anything else.
pub open spec fn number_of(text: Seq<char>) -> Option<int> {
    if text.len() > 0 && text[0] == '-' {
        if is_digits(text.skip(1)) {
            Some(-digits_value(text.skip(1)))
        } else {
            None
        }
    } else if text.len() > 0 && text[0] == '+' {
        if is_digits(text.skip(1)) {
            Some(digits_value(text.skip(1)))
        } else {
            None
        }
    } else if is_digits(text) {
        Some(digits_value(text))
    } else {
        None
    }
}

/// The number that `text` spells, if it spells one from `least` to `most`.
/// A text with a minus sign spells no number where none below 0 is asked for.
pub open spec fn number_within(text: Seq<char>, least: int, most: int) -> Option<int> {
    match number_of(text) {
        Some(number) => if least <= number <= most && !(least >= 0 && text[0] == '-') {
            Some(number)
        } else {
            None
        },
        None => None,
    }
}

proof fn lemma_digits_value_is_not_negative(digits: Seq<char>)
    requires
        forall|k: int| 0 <= k < digits.len() ==> is_digit(#[trigger] digits[k]),
    ensures
        0 <= digits_value(digits),
    decreases digits.len(),
{
    if digits.len() > 0 {
        lemma_digits_value_is_not_negative(digits.drop_last());
    }
}

/// The greatest number of which the digits are read out in full: one more
/// than the greatest number that fits in 63 bits.
pub open spec fn reading_limit() -> int {
    0x8000_0000_0000_0000
}

/// The number that the part of `text` from `start` on spells in digits, if
/// it is at most `reading_limit()`.
fn parse_digits(text: &Vec<char>, start: usize) -> (value: Option<u128>)
    requires
        start <= text@.len(),
    ensures
        match value {
            Some(number) => is_digits(text@.skip(start as int)) && number == digits_value(
                text@.skip(start as int),
            ) && number <= reading_limit(),
            None => !is_digits(text@.skip(start as int)) || digits_value(text@.skip(start as int))
                > reading_limit(),
        },
{
    let ghost digits = text@.skip(start as int);
    if start == text.len() {
        return None;
    }
    let limit: u128 = 0x8000_0000_0000_0000;
    let mut value: u128 = 0;
    let mut too_big = false;
    let mut i: usize = start;
    while i < text.len()
        invariant
            start <= i <= text.len(),
            digits == text@.skip(start as int),
            limit == reading_limit(),
            forall|k: int| 0 <= k < i - start ==> is_digit(#[trigger] digits[k]),
            !too_big ==> value == digits_value(digits.take(i - start)) && value <= limit,
            too_big ==> digits_value(digits.take(i - start)) > limit,
        decreases text.len() - i,
    {
        let c = text[i];
        if !('0' <= c && c <= '9') {
            assert(digits[i - start] == c);
            return None;
        }
        proof {
            assert(digits[i - start] == c);
            assert(digits.take(i - start + 1).drop_last() =~= digits.take(i - start));
        }
        if !too_big {
            let next: u128 = value * 10 + (c as u32 - '0' as u32) as u128;
            if next > limit {
                too_big = true;
            } else {
                value = next;
            }
        }
        i += 1;
    }
    proof {
        assert(digits.take(i - start) =~= digits);
    }
    if too_big {
        None
    } else {
        Some(value)
    }
}

/// The number that `text` spells, if it spells one from `least` to `most`.
pub fn parse_number(text: &Vec<char>, least: i64, most: i64) -> (number: Option<i64>)
    ensures
        number == match number_within(text@, least as int, most as int) {
            Some(value) => Some(value as i64),
            None => None,
        },
{
    let negative = text.len() > 0 && text[0] == '-';
    let signed = negative || (text.len() > 0 && text[0] == '+');
    let start: usize = if signed {
        1
    } else {
        0
    };
    proof {
        assert(text@.skip(0) =~= text@);
        if is_digits(text@.skip(start as int)) {
            lemma_digits_value_is_not_negative(text@.skip(start as int));
        }
    }
    match parse_digits(text, start) {
        Some(value) => {
            if negative && least >= 0 {
                return None;
            }
            let number: i128 = if negative {
                -(value as i128)
            } else {
                value as i128
            };
            if least as i128 <= number && number <= most as i128 {
                Some(number as i64)
            } else {
                None
            }
        },
        None => None,
    }
}

/// The digit that stands for `n`, which is at most 9.
pub open spec fn digit_of(n: int) -> char {
    ('0' as u32 + n) as char
}

/// The digits that spell the number `n`, which is not negative.
pub open spec fn decimal(n: int) -> Seq<char>
    decreases n,
{
    if n < 10 {
        seq![digit_of(n)]
    } else {
        decimal(n / 10).push(digit_of(n % 10))
    }
}

/// The text that spells the whole number `n`.
pub open spec fn signed_decimal(n: int) -> Seq<char> {
    if n < 0 {
        seq!['-'] + decimal(-n)
    } else {
        decimal(n)
    }
}

/// The digits of a number spell that number.
pub proof fn lemma_decimal_spells_its_number(n: int)
    requires
        0 <= n,
    ensures
        is_digits(decimal(n)),
        digits_value(decimal(n)) == n,
    decreases n,
{
    if n < 10 {
        assert(decimal(n).drop_last() =~= Seq::<char>::empty());
        assert(digits_value(decimal(n).drop_last()) == 0);
    } else {
        lemma_decimal_spells_its_number(n / 10);
        assert(decimal(n).drop_last() =~= decimal(n / 10));
    }
}

/// Reading a number that was written gives the number back.
pub proof fn lemma_written_number_is_read_back(n: int)
    ensures
        number_of(signed_decimal(n)) == Some(n),
{
    if n < 0 {
        lemma_decimal_spells_its_number(-n);
        assert(signed_decimal(n).skip(1) =~= decimal(-n));
    } else {
        lemma_decimal_spells_its_number(n);
    }
}

/// Whether `text` ends with a new line.
pub open spec fn ends_line(text: Seq<char>) -> bool {
    text.len() > 0 && text.last() == '\n'
}

fn digit_text(digit: u32) -> (text: &'static str)
    requires
        digit < 10,
    ensures
        text@ == seq![digit_of(digit as int)],
{
    proof {
        reveal_strlit("0");
        reveal_strlit("1");
        reveal_strlit("2");
        reveal_strlit("3");
        reveal_strlit("4");
        reveal_strlit("5");
        reveal_strlit("6");
        reveal_strlit("7");
        reveal_strlit("8");
        reveal_strlit("9");
    }
    let text = match digit {
        0 => "0",
        1 => "1",
        2 => "2",
        3 => "3",
        4 => "4",
        5 => "5",
        6 => "6",
        7 => "7",
        8 => "8",
        _ => "9",
    };
    assert(text@ =~= seq![digit_of(digit as int)]);
    text
}

/// Writes the digits of `number` to the end of `out`.
pub fn write_decimal(out: &mut String, number: u32)
    ensures
        final(out)@ == old(out)@ + decimal(number as int),
        !ends_line(final(out)@),
    decreases number,
{
    if number >= 10 {
        write_decimal(out, number / 10);
    }
    let ghost before = out@;
    out.append(digit_text(number % 10));
    proof {
        if number >= 10 {
            assert(out@ =~= old(out)@ + decimal(number as int));
        } else {
            assert(out@ =~= old(out)@ + decimal(number as int));
        }
        assert(out@.last() == digit_of(number as int % 10));
    }
}

/// Writes the whole number `number` to the end of `out`.
pub fn write_signed(out: &mut String, number: i16)
    ensures
        final(out)@ == old(out)@ + signed_decimal(number as int),
        !ends_line(final(out)@),
{
    if number < 0 {
        proof {
            reveal_strlit("-");
        }
        out.append("-");
        let ghost signed = out@;
        write_decimal(out, (-(number as i32)) as u32);
        assert(out@ =~= old(out)@ + signed_decimal(number as int)) by {
            assert(signed =~= old(out)@ + seq!['-']);
        }
    } else {
        write_decimal(out, number as u32);
    }
}

} // verus!
