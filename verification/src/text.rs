//! Text as sequences of characters: what the rest of the library builds
//! on to cut lines into fields, hold them against their rules and put them
//! together again.
//!
//! What the standard library knows of letters, numbers and case is taken
//! from it and known here by name only; white space and equality are
//! stated and proved here.

use vstd::prelude::*;
use vstd::string::StringSliceAdditionalSpecFns;

verus! {

/// `String::push` appends one character.
pub assume_specification[ String::push ](text: &mut String, c: char)
    ensures
        final(text)@ == old(text)@.push(c),
;

/// Whether a character has the Unicode property `White_Space`: the
/// controls from tab to carriage return, the space, the next-line control,
/// the no-break space, and the spaces and separators of the general
/// punctuation and ideographic blocks.
pub open spec fn is_space(c: char) -> bool {
    let code = c as u32;
    ||| 0x09 <= code <= 0x0d
    ||| code == 0x20
    ||| code == 0x85
    ||| code == 0xa0
    ||| code == 0x1680
    ||| 0x2000 <= code <= 0x200a
    ||| code == 0x2028
    ||| code == 0x2029
    ||| code == 0x202f
    ||| code == 0x205f
    ||| code == 0x3000
}

/// Whether a character has the Unicode property `Alphabetic`.
pub uninterp spec fn is_letter(c: char) -> bool;

/// Whether a character is a Unicode letter or number.
pub uninterp spec fn is_letter_or_number(c: char) -> bool;

/// Whether a character is in one of the Unicode number categories.
pub uninterp spec fn is_number(c: char) -> bool;

/// Whether a character has the Unicode property `Uppercase`.
pub uninterp spec fn is_upper(c: char) -> bool;

/// Whether a character has the Unicode property `Lowercase`.
pub uninterp spec fn is_lower(c: char) -> bool;

/// The lowercase form of a text, by the Unicode rules.
pub uninterp spec fn lowercase(text: Seq<char>) -> Seq<char>;

/// Tells whether a character is white space.
pub fn is_white_space(c: char) -> (yes: bool)
    ensures
        yes == is_space(c),
{
    let code = c as u32;
    (0x09 <= code && code <= 0x0d) || code == 0x20 || code == 0x85 || code == 0xa0 || code
        == 0x1680 || (0x2000 <= code && code <= 0x200a) || code == 0x2028 || code == 0x2029
        || code == 0x202f || code == 0x205f || code == 0x3000
}

/// `char::is_alphabetic` tells whether the character is a letter.
pub assume_specification[ char::is_alphabetic ](c: char) -> (yes: bool)
    ensures
        yes == is_letter(c),
;

/// `char::is_alphanumeric` tells whether the character is a letter or a
/// number.
pub assume_specification[ char::is_alphanumeric ](c: char) -> (yes: bool)
    ensures
        yes == is_letter_or_number(c),
;

/// `char::is_numeric` tells whether the character is a number.
pub assume_specification[ char::is_numeric ](c: char) -> (yes: bool)
    ensures
        yes == is_number(c),
;

/// `char::is_uppercase` tells whether the character is an uppercase one.
pub assume_specification[ char::is_uppercase ](c: char) -> (yes: bool)
    ensures
        yes == is_upper(c),
;

/// `char::is_lowercase` tells whether the character is a lowercase one.
pub assume_specification[ char::is_lowercase ](c: char) -> (yes: bool)
    ensures
        yes == is_lower(c),
;

/// `str::to_lowercase` gives the lowercase form of the text.
pub assume_specification[ str::to_lowercase ](text: &str) -> (lower: String)
    ensures
        lower@ == lowercase(text@),
;

/// Tells whether two texts hold the same characters in the same order, by
/// their bytes.
pub fn same_text(left: &str, right: &str) -> (same: bool)
    ensures
        same == (left@ == right@),
{
    let left_bytes = left.as_bytes();
    let right_bytes = right.as_bytes();
    proof {
        vstd::utf8::encode_utf8_decode_utf8(left@);
        vstd::utf8::encode_utf8_decode_utf8(right@);
    }
    if left_bytes.len() != right_bytes.len() {
        return false;
    }
    let mut at: usize = 0;
    while at < left_bytes.len()
        invariant
            at <= left_bytes.len(),
            left_bytes@.len() == right_bytes@.len(),
            left_bytes@ == left.spec_bytes(),
            right_bytes@ == right.spec_bytes(),
            forall|index: int| 0 <= index < at ==> left_bytes@[index] == right_bytes@[index],
        decreases left_bytes.len() - at,
    {
        if left_bytes[at] != right_bytes[at] {
            assert(left_bytes@[at as int] != right_bytes@[at as int]);
            return false;
        }
        at = at + 1;
    }
    assert(left_bytes@ =~= right_bytes@);
    true
}

/// The characters of a string, in order.
pub fn chars_of(text: &str) -> (chars: Vec<char>)
    ensures
        chars@ == text@,
{
    let mut chars: Vec<char> = Vec::new();
    for c in it: text.chars()
        invariant
            it.seq() == text@,
            chars@ == text@.take(it.index() as int),
    {
        chars.push(c);
        assert(text@.take(it.index() + 1) =~= text@.take(it.index() as int).push(c));
    }
    assert(text@.take(text@.len() as int) =~= text@);
    chars
}

/// The string that holds the given characters, in order.
pub fn string_of(chars: &Vec<char>) -> (text: String)
    ensures
        text@ == chars@,
{
    let mut text = String::new();
    let mut at: usize = 0;
    while at < chars.len()
        invariant
            at <= chars.len(),
            text@ == chars@.take(at as int),
        decreases chars.len() - at,
    {
        text.push(chars[at]);
        assert(chars@.take(at + 1) =~= chars@.take(at as int).push(chars@[at as int]));
        at = at + 1;
    }
    assert(chars@.take(chars@.len() as int) =~= chars@);
    text
}

/// The views of a vector of character vectors.
pub open spec fn views(parts: Seq<Vec<char>>) -> Seq<Seq<char>> {
    Seq::new(parts.len(), |index: int| parts[index]@)
}

/// The pieces of `text` between occurrences of `sep`: one more than there
/// are separators, empty pieces included.
pub open spec fn split(text: Seq<char>, sep: char) -> Seq<Seq<char>>
    decreases text.len(),
{
    if text.len() == 0 {
        seq![Seq::empty()]
    } else {
        let before = split(text.drop_last(), sep);
        if text.last() == sep {
            before.push(Seq::empty())
        } else {
            before.update(before.len() - 1, before.last().push(text.last()))
        }
    }
}

/// A split has at least one piece.
pub proof fn lemma_split_nonempty(text: Seq<char>, sep: char)
    ensures
        split(text, sep).len() >= 1,
    decreases text.len(),
{
    if text.len() > 0 {
        lemma_split_nonempty(text.drop_last(), sep);
    }
}

/// Cuts `text` at every `sep`.
pub fn split_on(text: &Vec<char>, sep: char) -> (parts: Vec<Vec<char>>)
    ensures
        views(parts@) == split(text@, sep),
{
    let mut parts: Vec<Vec<char>> = Vec::new();
    let mut piece: Vec<char> = Vec::new();
    let mut at: usize = 0;
    assert(text@.take(0) =~= Seq::empty());
    assert(views(parts@).push(piece@) =~= split(text@.take(0), sep));
    while at < text.len()
        invariant
            at <= text.len(),
            views(parts@).push(piece@) == split(text@.take(at as int), sep),
        decreases text.len() - at,
    {
        let c = text[at];
        let ghost before = text@.take(at as int);
        let ghost now = text@.take(at + 1);
        assert(now.drop_last() =~= before);
        assert(now.last() == c);
        let ghost old_parts = views(parts@);
        let ghost old_piece = piece@;
        if c == sep {
            parts.push(piece);
            piece = Vec::new();
            assert(views(parts@) =~= old_parts.push(old_piece));
        } else {
            piece.push(c);
            assert(views(parts@).push(piece@) =~= old_parts.push(old_piece).update(
                old_parts.len() as int,
                old_piece.push(c),
            ));
        }
        at = at + 1;
    }
    assert(text@.take(text@.len() as int) =~= text@);
    let ghost old_parts = views(parts@);
    parts.push(piece);
    assert(views(parts@) =~= old_parts.push(piece@));
    parts
}

/// The pieces of at least `min` characters, in order.
pub open spec fn at_least(parts: Seq<Seq<char>>, min: nat) -> Seq<Seq<char>>
    decreases parts.len(),
{
    if parts.len() == 0 {
        Seq::empty()
    } else if parts.last().len() >= min {
        at_least(parts.drop_last(), min).push(parts.last())
    } else {
        at_least(parts.drop_last(), min)
    }
}

/// The pieces that are not empty, in order.
pub open spec fn nonempty(parts: Seq<Seq<char>>) -> Seq<Seq<char>> {
    at_least(parts, 1)
}

/// The lines of a text that are long enough to hold a record: three
/// characters or more.
pub open spec fn record_lines(text: Seq<char>) -> Seq<Seq<char>> {
    at_least(split(text, '\n'), 3)
}

/// Cuts `text` at every `sep` and keeps the pieces of at least `min`
/// characters.
pub fn split_keeping(text: &Vec<char>, sep: char, min: usize) -> (parts: Vec<Vec<char>>)
    ensures
        views(parts@) == at_least(split(text@, sep), min as nat),
{
    let mut parts: Vec<Vec<char>> = Vec::new();
    let mut piece: Vec<char> = Vec::new();
    let mut at: usize = 0;
    assert(text@.take(0) =~= Seq::empty());
    assert(split(text@.take(0), sep).drop_last() =~= Seq::empty());
    while at < text.len()
        invariant
            at <= text.len(),
            split(text@.take(at as int), sep).len() >= 1,
            views(parts@) == at_least(split(text@.take(at as int), sep).drop_last(), min as nat),
            piece@ == split(text@.take(at as int), sep).last(),
        decreases text.len() - at,
    {
        let c = text[at];
        let ghost before = text@.take(at as int);
        let ghost now = text@.take(at + 1);
        assert(now.drop_last() =~= before);
        assert(now.last() == c);
        let ghost old_parts = views(parts@);
        if c == sep {
            assert(split(now, sep).drop_last() =~= split(before, sep));
            assert(split(before, sep).last() == piece@);
            if piece.len() >= min {
                parts.push(piece);
                assert(views(parts@) =~= old_parts.push(split(before, sep).last()));
            }
            piece = Vec::new();
        } else {
            piece.push(c);
            assert(split(now, sep).drop_last() =~= split(before, sep).drop_last());
        }
        at = at + 1;
    }
    assert(text@.take(text@.len() as int) =~= text@);
    let ghost old_parts = views(parts@);
    let ghost all = split(text@, sep);
    if piece.len() >= min {
        parts.push(piece);
        assert(views(parts@) =~= old_parts.push(all.last()));
    }
    parts
}

/// The lines put together: each line after the first is set off by `sep`,
/// but only where what stands before it has more than one character.
pub open spec fn joined_lines(lines: Seq<Seq<char>>, sep: char) -> Seq<char>
    decreases lines.len(),
{
    if lines.len() == 0 {
        Seq::empty()
    } else {
        let before = joined_lines(lines.drop_last(), sep);
        if before.len() > 1 {
            before.push(sep) + lines.last()
        } else {
            before + lines.last()
        }
    }
}

/// Puts one more line behind the lines joined so far.
pub fn push_line(joined: &mut Vec<char>, sep: char, line: &str)
    ensures
        final(joined)@ == if old(joined)@.len() > 1 {
            old(joined)@.push(sep) + line@
        } else {
            old(joined)@ + line@
        },
{
    if joined.len() > 1 {
        joined.push(sep);
    }
    let ghost start = joined@;
    let chars = chars_of(line);
    let mut at: usize = 0;
    while at < chars.len()
        invariant
            at <= chars.len(),
            joined@ == start + chars@.take(at as int),
        decreases chars.len() - at,
    {
        joined.push(chars[at]);
        assert(chars@.take(at + 1) =~= chars@.take(at as int).push(chars@[at as int]));
        assert(start + chars@.take(at + 1) =~= (start + chars@.take(at as int)).push(
            chars@[at as int],
        ));
        at = at + 1;
    }
    assert(chars@.take(chars@.len() as int) =~= chars@);
}

/// Whether a character is a decimal digit.
pub open spec fn is_digit(c: char) -> bool {
    '0' <= c && c <= '9'
}

/// The value of a decimal digit.
pub open spec fn digit_value(c: char) -> int {
    (c as int) - ('0' as int)
}

/// Whether all characters are decimal digits.
pub open spec fn all_digits(text: Seq<char>) -> bool {
    forall|index: int| 0 <= index < text.len() ==> is_digit(#[trigger] text[index])
}

/// The number that a string of decimal digits writes.
pub open spec fn decimal_value(digits: Seq<char>) -> int
    decreases digits.len(),
{
    if digits.len() == 0 {
        0
    } else {
        decimal_value(digits.drop_last()) * 10 + digit_value(digits.last())
    }
}

/// The digits of a text that may start with one `+`.
pub open spec fn unsigned_digits(text: Seq<char>) -> Seq<char> {
    if text.len() > 0 && text[0] == '+' {
        text.skip(1)
    } else {
        text
    }
}

/// The number that `text` writes, as the standard parser of unsigned
/// integers reads it: one optional `+`, then at least one digit and nothing
/// else, and a value of at most `max`.
pub open spec fn parsed_unsigned(text: Seq<char>, max: int) -> Option<int> {
    let digits = unsigned_digits(text);
    if digits.len() > 0 && all_digits(digits) && decimal_value(digits) <= max {
        Some(decimal_value(digits))
    } else {
        None
    }
}

/// A number written with digits is at least the number that any of its
/// beginnings writes.
pub proof fn lemma_decimal_value_grows(digits: Seq<char>, cut: int)
    requires
        all_digits(digits),
        0 <= cut <= digits.len(),
    ensures
        0 <= decimal_value(digits.take(cut)) <= decimal_value(digits),
    decreases digits.len() - cut,
{
    if cut == digits.len() {
        assert(digits.take(cut) =~= digits);
        lemma_decimal_value_grows_from_zero(digits);
    } else {
        lemma_decimal_value_grows(digits, cut + 1);
        let longer = digits.take(cut + 1);
        assert(longer.drop_last() =~= digits.take(cut));
        assert(is_digit(digits[cut]));
        assert(longer.last() == digits[cut]);
        lemma_decimal_value_grows_from_zero(digits.take(cut));
    }
}

/// A number written with digits is not negative.
pub proof fn lemma_decimal_value_grows_from_zero(digits: Seq<char>)
    requires
        all_digits(digits),
    ensures
        0 <= decimal_value(digits),
    decreases digits.len(),
{
    if digits.len() > 0 {
        assert(is_digit(digits.last()));
        lemma_decimal_value_grows_from_zero(digits.drop_last());
    }
}

/// Reads an unsigned decimal number of at most `max`.
pub fn parse_unsigned(text: &Vec<char>, max: u64) -> (number: Option<u64>)
    requires
        max >= 9,
    ensures
        number matches Some(value) ==> parsed_unsigned(text@, max as int) == Some(value as int),
        number is None ==> parsed_unsigned(text@, max as int) is None,
{
    let start: usize = if text.len() > 0 && text[0] == '+' {
        1
    } else {
        0
    };
    let ghost digits = unsigned_digits(text@);
    assert(digits =~= text@.skip(start as int));
    if start == text.len() {
        return None;
    }
    let mut value: u64 = 0;
    let mut at: usize = start;
    assert(digits.take(0) =~= Seq::empty());
    while at < text.len()
        invariant
            start <= at <= text.len(),
            max >= 9,
            digits == text@.skip(start as int),
            digits == unsigned_digits(text@),
            all_digits(digits.take(at - start)),
            value == decimal_value(digits.take(at - start)),
            value <= max,
        decreases text.len() - at,
    {
        let c = text[at];
        let ghost before = digits.take(at - start);
        let ghost now = digits.take(at - start + 1);
        assert(now.drop_last() =~= before);
        assert(now.last() == c);
        assert(digits[at - start] == c);
        if !('0' <= c && c <= '9') {
            assert(!is_digit(digits[at - start]));
            assert(!all_digits(digits));
            return None;
        }
        let digit: u64 = (c as u64) - ('0' as u64);
        assert(all_digits(now)) by {
            assert forall|index: int| 0 <= index < now.len() implies is_digit(
                #[trigger] now[index],
            ) by {
                if index < before.len() {
                    assert(now[index] == before[index]);
                }
            }
        }
        if value > (max - digit) / 10 {
            proof {
                assert(decimal_value(now) == value * 10 + digit);
                assert(decimal_value(now) > max);
                if all_digits(digits) {
                    lemma_decimal_value_grows(digits, at - start + 1);
                    assert(decimal_value(digits) > max);
                }
            }
            return None;
        }
        value = value * 10 + digit;
        at = at + 1;
    }
    assert(digits.take(digits.len() as int) =~= digits);
    Some(value)
}

/// The character of a decimal digit.
pub open spec fn digit_char(value: int) -> char {
    ((value + ('0' as int)) as u8) as char
}

/// The digits that write a number, without leading zeros.
pub open spec fn decimal(number: nat) -> Seq<char>
    decreases number,
{
    if number < 10 {
        seq![digit_char(number as int)]
    } else {
        decimal(number / 10).push(digit_char((number % 10) as int))
    }
}

/// The digits of a number are digits, and they write the number.
pub proof fn lemma_decimal(number: nat)
    ensures
        decimal(number).len() >= 1,
        all_digits(decimal(number)),
        decimal_value(decimal(number)) == number,
        number < 10 ==> decimal(number).len() == 1,
        10 <= number < 100 ==> decimal(number).len() == 2,
    decreases number,
{
    if number < 10 {
        let text = decimal(number);
        assert(text.drop_last() =~= Seq::empty());
        assert(decimal_value(text.drop_last()) == 0);
    } else {
        lemma_decimal(number / 10);
        let text = decimal(number);
        assert(text.drop_last() =~= decimal(number / 10));
        assert forall|index: int| 0 <= index < text.len() implies is_digit(
            #[trigger] text[index],
        ) by {
            if index < text.len() - 1 {
                assert(text[index] == decimal(number / 10)[index]);
            }
        }
    }
}

/// Appends the digits of a number.
pub fn push_decimal(out: &mut Vec<char>, number: u64)
    ensures
        final(out)@ == old(out)@ + decimal(number as nat),
    decreases number,
{
    if number >= 10 {
        push_decimal(out, number / 10);
    }
    let digit: u8 = (number % 10) as u8;
    out.push((digit + 48) as char);
    proof {
        if number < 10 {
            assert(out@ =~= old(out)@ + decimal(number as nat));
        } else {
            assert(out@ =~= old(out)@ + decimal(number as nat));
        }
    }
}

/// Whether `sep` does not occur in `text`.
pub open spec fn free_of(text: Seq<char>, sep: char) -> bool {
    forall|index: int| 0 <= index < text.len() ==> #[trigger] text[index] != sep
}

/// A separator at the end opens a new, empty piece.
pub proof fn lemma_split_separator(text: Seq<char>, sep: char)
    ensures
        split(text.push(sep), sep) == split(text, sep).push(Seq::empty()),
{
    assert(text.push(sep).drop_last() =~= text);
}

/// Text without a separator, put behind `text`, lengthens the last piece.
pub proof fn lemma_split_plain(text: Seq<char>, more: Seq<char>, sep: char)
    requires
        free_of(more, sep),
    ensures
        split(text, sep).len() >= 1,
        split(text + more, sep) == split(text, sep).update(
            split(text, sep).len() - 1,
            split(text, sep).last() + more,
        ),
    decreases more.len(),
{
    lemma_split_nonempty(text, sep);
    let pieces = split(text, sep);
    if more.len() == 0 {
        assert(text + more =~= text);
        assert(pieces.last() + more =~= pieces.last());
        assert(pieces.update(pieces.len() - 1, pieces.last()) =~= pieces);
    } else {
        let shorter = more.drop_last();
        assert(free_of(shorter, sep)) by {
            assert forall|index: int| 0 <= index < shorter.len() implies #[trigger] shorter[index]
                != sep by {
                assert(shorter[index] == more[index]);
            }
        }
        lemma_split_plain(text, shorter, sep);
        assert((text + more).drop_last() =~= text + shorter);
        assert((text + more).last() == more.last());
        assert(more[more.len() - 1] != sep);
        assert((pieces.last() + shorter).push(more.last()) =~= pieces.last() + more);
        assert(split(text + more, sep) =~= pieces.update(
            pieces.len() - 1,
            pieces.last() + more,
        ));
    }
}

/// A text that starts with a digit reads as the number that its digits
/// write, where that number is within the bound.
pub proof fn lemma_parsed_digits(text: Seq<char>, max: int)
    requires
        text.len() > 0,
        all_digits(text),
        decimal_value(text) <= max,
    ensures
        parsed_unsigned(text, max) == Some(decimal_value(text)),
{
    assert(is_digit(text[0]));
}

/// Number of bytes that a text takes in UTF-8.
pub open spec fn byte_len(text: Seq<char>) -> nat {
    vstd::utf8::encode_utf8(text).len()
}

/// Whether a character is an ASCII letter or digit.
pub open spec fn is_ascii_alnum(c: char) -> bool {
    ('0' <= c && c <= '9') || ('a' <= c && c <= 'z') || ('A' <= c && c <= 'Z')
}

/// Whether every character is an ASCII letter or digit, or one of `extra`.
pub open spec fn all_alnum_or(text: Seq<char>, extra: Seq<char>) -> bool {
    forall|index: int|
        0 <= index < text.len() ==> is_ascii_alnum(#[trigger] text[index]) || extra.contains(
            text[index],
        )
}

/// Whether no character is one of `banned`.
pub open spec fn none_of(text: Seq<char>, banned: Seq<char>) -> bool {
    forall|index: int| 0 <= index < text.len() ==> !banned.contains(#[trigger] text[index])
}

/// Whether `c` occurs in `chars`.
pub fn holds(chars: &Vec<char>, c: char) -> (found: bool)
    ensures
        found == chars@.contains(c),
{
    let mut at: usize = 0;
    while at < chars.len()
        invariant
            at <= chars.len(),
            forall|index: int| 0 <= index < at ==> chars@[index] != c,
        decreases chars.len() - at,
    {
        if chars[at] == c {
            assert(chars@[at as int] == c);
            return true;
        }
        at = at + 1;
    }
    false
}

/// Tells whether every character is an ASCII letter or digit, or one of
/// `extra`.
pub fn is_alnum_or(text: &Vec<char>, extra: &Vec<char>) -> (good: bool)
    ensures
        good == all_alnum_or(text@, extra@),
{
    let mut at: usize = 0;
    while at < text.len()
        invariant
            at <= text.len(),
            forall|index: int|
                0 <= index < at ==> is_ascii_alnum(#[trigger] text@[index]) || extra@.contains(
                    text@[index],
                ),
        decreases text.len() - at,
    {
        let c = text[at];
        let plain = ('0' <= c && c <= '9') || ('a' <= c && c <= 'z') || ('A' <= c && c <= 'Z');
        if !plain && !holds(extra, c) {
            assert(!is_ascii_alnum(text@[at as int]) && !extra@.contains(text@[at as int]));
            return false;
        }
        at = at + 1;
    }
    true
}

/// Tells whether no character is one of `banned`.
pub fn has_none_of(text: &Vec<char>, banned: &Vec<char>) -> (good: bool)
    ensures
        good == none_of(text@, banned@),
{
    let mut at: usize = 0;
    while at < text.len()
        invariant
            at <= text.len(),
            forall|index: int| 0 <= index < at ==> !banned@.contains(#[trigger] text@[index]),
        decreases text.len() - at,
    {
        if holds(banned, text[at]) {
            assert(banned@.contains(text@[at as int]));
            return false;
        }
        at = at + 1;
    }
    true
}

/// The text without the white space at its start.
pub open spec fn trimmed_start(text: Seq<char>) -> Seq<char>
    decreases text.len(),
{
    if text.len() > 0 && is_space(text[0]) {
        trimmed_start(text.skip(1))
    } else {
        text
    }
}

/// The text without the white space at its end.
pub open spec fn trimmed_end(text: Seq<char>) -> Seq<char>
    decreases text.len(),
{
    if text.len() > 0 && is_space(text.last()) {
        trimmed_end(text.drop_last())
    } else {
        text
    }
}

/// The text without the white space at its start and at its end.
pub open spec fn trimmed(text: Seq<char>) -> Seq<char> {
    trimmed_end(trimmed_start(text))
}

/// Skipping a run of white space at the start is trimming the start.
pub proof fn lemma_trimmed_start(text: Seq<char>, run: int)
    requires
        0 <= run <= text.len(),
        forall|index: int| 0 <= index < run ==> is_space(#[trigger] text[index]),
        run == text.len() || !is_space(text[run]),
    ensures
        trimmed_start(text) == text.skip(run),
    decreases run,
{
    if run == 0 {
        assert(text.skip(0) =~= text);
    } else {
        assert(is_space(text[0]));
        let rest = text.skip(1);
        assert forall|index: int| 0 <= index < run - 1 implies is_space(#[trigger] rest[index]) by {
            assert(rest[index] == text[index + 1]);
        }
        lemma_trimmed_start(rest, run - 1);
        assert(rest.skip(run - 1) =~= text.skip(run));
    }
}

/// Cutting a run of white space off the end is trimming the end.
pub proof fn lemma_trimmed_end(text: Seq<char>, keep: int)
    requires
        0 <= keep <= text.len(),
        forall|index: int| keep <= index < text.len() ==> is_space(#[trigger] text[index]),
        keep == 0 || !is_space(text[keep - 1]),
    ensures
        trimmed_end(text) == text.take(keep),
    decreases text.len() - keep,
{
    if keep == text.len() {
        assert(text.take(keep) =~= text);
    } else {
        assert(is_space(text[text.len() - 1]));
        let rest = text.drop_last();
        assert forall|index: int| keep <= index < rest.len() implies is_space(
            #[trigger] rest[index],
        ) by {
            assert(rest[index] == text[index]);
        }
        lemma_trimmed_end(rest, keep);
        assert(rest.take(keep) =~= text.take(keep));
    }
}

/// A text that neither starts nor ends with white space is its own trimmed
/// form.
pub proof fn lemma_trimmed_plain(text: Seq<char>)
    requires
        text.len() == 0 || (!is_space(text[0]) && !is_space(text.last())),
    ensures
        trimmed(text) == text,
{
}

/// ASCII letters and digits, `_`, `-`, `/` and `.` are no white space.
pub proof fn lemma_plain_characters(c: char)
    requires
        is_ascii_alnum(c) || c == '_' || c == '-' || c == '/' || c == '.',
    ensures
        !is_space(c),
{
}

/// A text of ASCII letters, digits and other characters that are no white
/// space is its own trimmed form.
pub proof fn lemma_trimmed_alnum(text: Seq<char>, extra: Seq<char>)
    requires
        all_alnum_or(text, extra),
        forall|index: int| 0 <= index < extra.len() ==> !is_space(#[trigger] extra[index]),
    ensures
        trimmed(text) == text,
{
    if text.len() > 0 {
        assert(is_ascii_alnum(text[0]) || extra.contains(text[0]));
        assert(is_ascii_alnum(text.last()) || extra.contains(text.last()));
        if is_ascii_alnum(text[0]) {
            lemma_plain_characters(text[0]);
        }
        if is_ascii_alnum(text.last()) {
            lemma_plain_characters(text.last());
        }
    }
    lemma_trimmed_plain(text);
}

/// The text without the white space around it.
pub fn trim(text: &Vec<char>) -> (out: String)
    ensures
        out@ == trimmed(text@),
{
    let mut start: usize = 0;
    while start < text.len() && is_white_space(text[start])
        invariant
            start <= text.len(),
            forall|index: int| 0 <= index < start ==> is_space(#[trigger] text@[index]),
        decreases text.len() - start,
    {
        start = start + 1;
    }
    let mut end: usize = text.len();
    while end > start && is_white_space(text[end - 1])
        invariant
            start <= end <= text.len(),
            forall|index: int| end <= index < text.len() ==> is_space(#[trigger] text@[index]),
        decreases end,
    {
        end = end - 1;
    }
    let ghost rest = text@.skip(start as int);
    proof {
        lemma_trimmed_start(text@, start as int);
        assert forall|index: int| end - start <= index < rest.len() implies is_space(
            #[trigger] rest[index],
        ) by {
            assert(rest[index] == text@[index + start]);
        }
        if end > start {
            assert(rest[end - start - 1] == text@[end - 1]);
        }
        lemma_trimmed_end(rest, end - start);
    }
    let mut out = String::new();
    let mut at: usize = start;
    while at < end
        invariant
            start <= at <= end <= text.len(),
            out@ == text@.subrange(start as int, at as int),
        decreases end - at,
    {
        out.push(text[at]);
        assert(text@.subrange(start as int, at + 1) =~= text@.subrange(start as int, at as int).push(
            text@[at as int],
        ));
        at = at + 1;
    }
    assert(text@.subrange(start as int, end as int) =~= rest.take(end - start));
    out
}

/// Whether `pattern` stands in `text` at `at`.
pub open spec fn occurs_at(text: Seq<char>, pattern: Seq<char>, at: int) -> bool {
    0 <= at && at + pattern.len() <= text.len() && text.subrange(at, at + pattern.len())
        == pattern
}

/// Whether `pattern` stands somewhere in `text`.
pub open spec fn has_substring(text: Seq<char>, pattern: Seq<char>) -> bool {
    exists|at: int| occurs_at(text, pattern, at)
}

/// Tells whether `pattern` stands in `text` at `at`.
fn matches_at(text: &Vec<char>, pattern: &Vec<char>, at: usize) -> (found: bool)
    requires
        at + pattern.len() <= text.len(),
    ensures
        found == occurs_at(text@, pattern@, at as int),
{
    let mut offset: usize = 0;
    while offset < pattern.len()
        invariant
            offset <= pattern.len(),
            at + pattern.len() <= text.len(),
            forall|index: int| 0 <= index < offset ==> text@[at + index] == pattern@[index],
        decreases pattern.len() - offset,
    {
        if text[at + offset] != pattern[offset] {
            assert(text@.subrange(at as int, at + pattern.len())[offset as int]
                != pattern@[offset as int]);
            return false;
        }
        offset = offset + 1;
    }
    assert(text@.subrange(at as int, at + pattern.len()) =~= pattern@);
    true
}

/// Tells whether `pattern` stands somewhere in `text`.
pub fn contains_text(text: &Vec<char>, pattern: &Vec<char>) -> (found: bool)
    ensures
        found == has_substring(text@, pattern@),
{
    if pattern.len() > text.len() {
        return false;
    }
    if pattern.len() == 0 {
        assert(text@.subrange(0, 0) =~= pattern@);
        assert(occurs_at(text@, pattern@, 0));
        return true;
    }
    let last: usize = text.len() - pattern.len();
    let mut at: usize = 0;
    while at <= last
        invariant
            at <= last + 1,
            last < text.len(),
            last == text.len() - pattern.len(),
            forall|index: int| 0 <= index < at ==> !occurs_at(text@, pattern@, index),
        decreases last + 1 - at,
    {
        if matches_at(text, pattern, at) {
            return true;
        }
        at = at + 1;
    }
    false
}

/// `first`, `second` and `third` put together.
pub fn joined(first: &str, second: &str, third: &str) -> (text: String)
    ensures
        text@ == first@ + second@ + third@,
{
    let mut text = String::new();
    text.append(first);
    text.append(second);
    text.append(third);
    assert(text@ =~= first@ + second@ + third@);
    text
}

/// How a list operation ends: the list that it leaves, and the message of
/// its error where it fails.
pub struct Outcome<V> {
    pub list: Seq<V>,
    pub error: Option<Seq<char>>,
}

/// The outcome of an operation that succeeds and leaves `list`.
pub open spec fn fine<V>(list: Seq<V>) -> Outcome<V> {
    Outcome { list, error: None }
}

/// The outcome of an operation that fails with `message` and leaves
/// `list`.
pub open spec fn failed<V>(list: Seq<V>, message: Seq<char>) -> Outcome<V> {
    Outcome { list, error: Some(message) }
}

/// Whether a result and the list after the call are what `expected` says.
pub open spec fn ends<V>(result: Result<(), String>, after: Seq<V>, expected: Outcome<V>) -> bool {
    &&& after == expected.list
    &&& match expected.error {
        None => result is Ok,
        Some(message) => result matches Err(text) && text@ == message,
    }
}

/// Position of the first of `ids` that is `id`, or the number of ids where
/// none is.
pub open spec fn first_index(ids: Seq<Seq<char>>, id: Seq<char>) -> int
    decreases ids.len(),
{
    if ids.len() == 0 {
        0
    } else if ids[0] == id {
        0
    } else {
        1 + first_index(ids.skip(1), id)
    }
}

/// Whether one of `ids` is `id`.
pub open spec fn is_among(ids: Seq<Seq<char>>, id: Seq<char>) -> bool {
    first_index(ids, id) < ids.len()
}

/// The first index is the one before which no id matches and at which one
/// does.
pub proof fn lemma_first_index(ids: Seq<Seq<char>>, id: Seq<char>, at: int)
    requires
        0 <= at <= ids.len(),
        forall|index: int| 0 <= index < at ==> #[trigger] ids[index] != id,
        at < ids.len() ==> ids[at] == id,
    ensures
        first_index(ids, id) == at,
    decreases ids.len(),
{
    if ids.len() > 0 && at > 0 {
        let rest = ids.skip(1);
        assert(ids[0] != id);
        assert forall|index: int| 0 <= index < at - 1 implies #[trigger] rest[index] != id by {
            assert(rest[index] == ids[index + 1]);
        }
        lemma_first_index(rest, id, at - 1);
    }
}

/// What the first index says of the ids.
pub proof fn lemma_first_index_is(ids: Seq<Seq<char>>, id: Seq<char>)
    ensures
        0 <= first_index(ids, id) <= ids.len(),
        forall|index: int| 0 <= index < first_index(ids, id) ==> #[trigger] ids[index] != id,
        first_index(ids, id) < ids.len() ==> ids[first_index(ids, id)] == id,
    decreases ids.len(),
{
    if ids.len() > 0 && ids[0] != id {
        let rest = ids.skip(1);
        lemma_first_index_is(rest, id);
        assert forall|index: int| 0 <= index < first_index(ids, id) implies #[trigger] ids[index]
            != id by {
            if index > 0 {
                assert(ids[index] == rest[index - 1]);
            }
        }
    }
}

/// The message for a text whose trimmed form is shorter than `min` bytes
/// or longer than `max`, if it is either.
pub open spec fn length_error(
    text: Seq<char>,
    min: nat,
    max: nat,
    too_short: Seq<char>,
    too_long: Seq<char>,
) -> Option<Seq<char>> {
    if byte_len(trimmed(text)) < min {
        Some(too_short)
    } else if byte_len(trimmed(text)) > max {
        Some(too_long)
    } else {
        None
    }
}

/// Holds the length in bytes of a trimmed text against its bounds.
pub fn check_length(
    shortened: &String,
    min: usize,
    max: usize,
    too_short: &str,
    too_long: &str,
) -> (error: Option<String>)
    ensures
        match error {
            Some(text) => byte_len(shortened@) < min && text@ == too_short@ || !(byte_len(
                shortened@,
            ) < min) && byte_len(shortened@) > max && text@ == too_long@,
            None => min <= byte_len(shortened@) <= max,
        },
{
    let length = shortened.as_str().as_bytes().len();
    if length < min {
        Some(String::from_str(too_short))
    } else if length > max {
        Some(String::from_str(too_long))
    } else {
        None
    }
}

} // verus!
