//! Text building blocks: decimal numbers, trimming, replacement and ASCII case.

use vstd::prelude::*;
use vstd::slice::slice_subrange;
use vstd::string::*;

verus! {

/// `String::push` of std appends the given character to the end of the text.
pub assume_specification[ String::push ](text: &mut String, c: char)
    ensures
        final(text)@ == old(text)@.push(c),
;

/// The characters of a text, in order.
pub fn chars_of(text: &str) -> (chars: Vec<char>)
    ensures
        chars@ == text@,
{
    let mut chars: Vec<char> = Vec::new();
    for c in it: text.chars()
        invariant
            it.seq() == text@,
            chars@ == text@.take(it.index() as int),
    {
        chars.push(c);
    }
    assert(text@.take(text@.len() as int) == text@);
    chars
}

/// The text made of the given characters.
pub fn text_of(chars: &[char]) -> (text: String)
    ensures
        text@ == chars@,
{
    let mut text = String::new();
    for i in 0..chars.len()
        invariant
            text@ == chars@.take(i as int),
    {
        text.push(chars[i]);
        assert(chars@.take(i + 1) == chars@.take(i as int).push(chars@[i as int]));
    }
    assert(chars@.take(chars@.len() as int) == chars@);
    text
}

/// The views of some texts.
pub open spec fn views(texts: Seq<String>) -> Seq<Seq<char>> {
    Seq::new(texts.len(), |i: int| texts[i]@)
}

/// Whether a text is empty.
pub fn is_empty(text: &str) -> (empty: bool)
    ensures
        empty == (text@.len() == 0),
{
    chars_of(text).len() == 0
}

/// Whether two texts hold the same characters.
pub fn same_text(left: &str, right: &str) -> (same: bool)
    ensures
        same == (left@ == right@),
{
    let a = chars_of(left);
    let b = chars_of(right);
    if a.len() != b.len() {
        return false;
    }
    for i in 0..a.len()
        invariant
            a@ == left@,
            b@ == right@,
            a@.len() == b@.len(),
            forall|j: int| 0 <= j < i ==> a@[j] == b@[j],
    {
        if a[i] != b[i] {
            return false;
        }
    }
    assert(a@ == b@);
    true
}

/// The digit character of a number below ten.
pub open spec fn digit(value: nat) -> char {
    ('0' as nat + value) as char
}

/// A number in decimal, without leading zeros.
pub open spec fn decimal(value: nat) -> Seq<char>
    decreases value,
{
    if value < 10 {
        seq![digit(value)]
    } else {
        decimal(value / 10).push(digit(value % 10))
    }
}

/// The last `width` decimal digits of a number, with leading zeros where it has fewer.
pub open spec fn padded_decimal(value: nat, width: nat) -> Seq<char>
    decreases width,
{
    if width == 0 {
        Seq::empty()
    } else {
        padded_decimal(value / 10, (width - 1) as nat).push(digit(value % 10))
    }
}

/// An integer in decimal, with a minus sign where it is negative.
pub open spec fn signed_decimal(value: int) -> Seq<char> {
    if value < 0 {
        seq!['-'] + decimal((-value) as nat)
    } else {
        decimal(value as nat)
    }
}

fn digit_char(value: u64) -> (c: char)
    requires
        value < 10,
    ensures
        c == digit(value as nat),
{
    (48u8 + value as u8) as char
}

/// Appends a number in decimal.
pub fn push_decimal(text: &mut String, value: u64)
    ensures
        final(text)@ == old(text)@ + decimal(value as nat),
    decreases value,
{
    if value >= 10 {
        push_decimal(text, value / 10);
    }
    text.push(digit_char(value % 10));
    proof {
        if value >= 10 {
            assert(old(text)@ + decimal((value / 10) as nat).push(digit((value % 10) as nat)) =~= (
            old(text)@ + decimal((value / 10) as nat)).push(digit((value % 10) as nat)));
        } else {
            assert(old(text)@ + seq![digit(value as nat)] =~= old(text)@.push(digit(value as nat)));
        }
    }
}

/// Appends the last `width` decimal digits of a number.
pub fn push_padded_decimal(text: &mut String, value: u64, width: usize)
    ensures
        final(text)@ == old(text)@ + padded_decimal(value as nat, width as nat),
    decreases width,
{
    if width > 0 {
        push_padded_decimal(text, value / 10, width - 1);
        text.push(digit_char(value % 10));
    }
    assert(text@ =~= old(text)@ + padded_decimal(value as nat, width as nat));
}

/// A number in decimal.
pub fn decimal_text(value: u64) -> (text: String)
    ensures
        text@ == decimal(value as nat),
{
    let mut text = String::new();
    push_decimal(&mut text, value);
    assert(text@ =~= decimal(value as nat));
    text
}

/// An integer in decimal.
pub fn signed_decimal_text(value: i64) -> (text: String)
    ensures
        text@ == signed_decimal(value as int),
{
    let mut text = String::new();
    if value < 0 {
        text.push('-');
        push_decimal(&mut text, (-(value as i128)) as u64);
        assert(text@ =~= seq!['-'] + decimal((-value) as nat));
    } else {
        push_decimal(&mut text, value as u64);
        assert(text@ =~= decimal(value as nat));
    }
    text
}

/// Whether a character is a decimal digit of ASCII.
pub open spec fn is_digit(c: char) -> bool {
    '0' <= c <= '9'
}

/// The number that a sequence of decimal digits denotes.
pub open spec fn digits_value(digits: Seq<char>) -> nat
    decreases digits.len(),
{
    if digits.len() == 0 {
        0
    } else {
        digits_value(digits.drop_last()) * 10 + (digits.last() as nat - '0' as nat) as nat
    }
}

/// Whether a text is made of decimal digits alone, at least one of them.
pub open spec fn is_number(text: Seq<char>) -> bool {
    text.len() > 0 && forall|i: int| 0 <= i < text.len() ==> is_digit(#[trigger] text[i])
}

/// A text without the plus sign that it may start with.
pub open spec fn without_plus(text: Seq<char>) -> Seq<char> {
    if text.len() > 0 && text[0] == '+' {
        text.drop_first()
    } else {
        text
    }
}

/// The byte that a text denotes: an optional plus sign, then at least one decimal digit, and no
/// more than 255 in all.
pub open spec fn byte_denoted(text: Seq<char>) -> Option<u8> {
    let digits = without_plus(text);
    if is_number(digits) && digits_value(digits) <= u8::MAX {
        Some(digits_value(digits) as u8)
    } else {
        None
    }
}

proof fn lemma_digits_value_grows(digits: Seq<char>, taken: int)
    requires
        0 <= taken <= digits.len(),
    ensures
        digits_value(digits.take(taken)) <= digits_value(digits),
    decreases digits.len() - taken,
{
    if taken < digits.len() {
        lemma_digits_value_grows(digits, taken + 1);
        assert(digits.take(taken + 1).drop_last() == digits.take(taken));
    } else {
        assert(digits.take(taken) == digits);
    }
}

/// Reads a byte in decimal.
pub fn parse_byte(text: &str) -> (value: Option<u8>)
    ensures
        value == byte_denoted(text@),
{
    let chars = chars_of(text);
    let start: usize = if chars.len() > 0 && chars[0] == '+' {
        1
    } else {
        0
    };
    let ghost digits = without_plus(text@);
    assert(digits == text@.skip(start as int));
    if start == chars.len() {
        return None;
    }
    let mut value: u32 = 0;
    for i in start..chars.len()
        invariant
            chars@ == text@,
            start <= 1,
            start <= i <= chars@.len(),
            digits == text@.skip(start as int),
            digits == without_plus(text@),
            value == digits_value(digits.take(i - start)),
            value <= 255,
            forall|j: int| 0 <= j < i - start ==> is_digit(#[trigger] digits[j]),
    {
        let c = chars[i];
        assert(digits[i - start] == c);
        if c < '0' || c > '9' {
            assert(!is_digit(digits[i - start]));
            return None;
        }
        assert(digits.take(i - start + 1).drop_last() == digits.take(i - start));
        value = value * 10 + (c as u32 - 48);
        if value > 255 {
            proof {
                lemma_digits_value_grows(digits, i - start + 1);
            }
            return None;
        }
    }
    assert(digits.take(chars@.len() - start) == digits);
    Some(value as u8)
}

/// The decimal digits of a number denote that number.
pub proof fn lemma_decimal_denotes(value: nat)
    ensures
        is_number(decimal(value)),
        digits_value(decimal(value)) == value,
    decreases value,
{
    if value < 10 {
        assert(decimal(value).drop_last() == Seq::<char>::empty());
        assert(digits_value(Seq::<char>::empty()) == 0);
    } else {
        lemma_decimal_denotes(value / 10);
        assert(decimal(value).drop_last() == decimal(value / 10));
    }
}

/// Reading the decimal text of a byte gives that byte.
pub proof fn lemma_byte_round_trip(value: u8)
    ensures
        byte_denoted(decimal(value as nat)) == Some(value),
{
    lemma_decimal_denotes(value as nat);
    assert(is_digit(decimal(value as nat)[0]));
}

/// A text with every occurrence of a character replaced by another text.
pub open spec fn char_replaced(text: Seq<char>, from: char, to: Seq<char>) -> Seq<char>
    decreases text.len(),
{
    if text.len() == 0 {
        Seq::empty()
    } else {
        char_replaced(text.drop_last(), from, to) + (if text.last() == from {
            to
        } else {
            seq![text.last()]
        })
    }
}

/// Replaces every occurrence of a character.
pub fn replace_char(text: &str, from: char, to: &str) -> (replaced: String)
    ensures
        replaced@ == char_replaced(text@, from, to@),
{
    let chars = chars_of(text);
    let mut replaced = String::new();
    for i in 0..chars.len()
        invariant
            chars@ == text@,
            replaced@ == char_replaced(text@.take(i as int), from, to@),
    {
        assert(text@.take(i + 1).drop_last() == text@.take(i as int));
        if chars[i] == from {
            replaced.append(to);
        } else {
            replaced.push(chars[i]);
            assert(replaced@ =~= char_replaced(text@.take(i as int), from, to@) + seq![text@[i as int]]);
        }
    }
    assert(text@.take(chars@.len() as int) == text@);
    replaced
}

/// A text with each occurrence of a pattern, taken from the left without overlap, replaced.
pub open spec fn text_replaced(text: Seq<char>, pattern: Seq<char>, to: Seq<char>) -> Seq<char>
    decreases text.len(),
{
    if pattern.len() == 0 || text.len() < pattern.len() {
        text
    } else if text.take(pattern.len() as int) == pattern {
        to + text_replaced(text.skip(pattern.len() as int), pattern, to)
    } else {
        seq![text[0]] + text_replaced(text.skip(1), pattern, to)
    }
}

fn occurs_at(chars: &Vec<char>, at: usize, pattern: &Vec<char>) -> (found: bool)
    requires
        at + pattern@.len() <= chars@.len(),
    ensures
        found == (chars@.skip(at as int).take(pattern@.len() as int) == pattern@),
{
    let ghost window = chars@.skip(at as int).take(pattern@.len() as int);
    for i in 0..pattern.len()
        invariant
            at + pattern.len() <= chars.len(),
            window == chars@.skip(at as int).take(pattern@.len() as int),
            forall|j: int| 0 <= j < i ==> window[j] == pattern@[j],
    {
        assert(window[i as int] == chars@[at + i]);
        if chars[at + i] != pattern[i] {
            return false;
        }
    }
    assert(window == pattern@);
    true
}

/// Replaces each occurrence of a pattern that holds at least one character.
pub fn replace_text(text: &str, pattern: &str, to: &str) -> (replaced: String)
    requires
        pattern@.len() > 0,
    ensures
        replaced@ == text_replaced(text@, pattern@, to@),
{
    let chars = chars_of(text);
    let sought = chars_of(pattern);
    let mut replaced = String::new();
    let mut at: usize = 0;
    assert(text@.skip(0) == text@);
    while at < chars.len() && sought.len() <= chars.len() - at
        invariant
            chars@ == text@,
            sought@ == pattern@,
            pattern@.len() > 0,
            at <= chars@.len(),
            replaced@ + text_replaced(text@.skip(at as int), pattern@, to@) == text_replaced(
                text@,
                pattern@,
                to@,
            ),
        decreases chars@.len() - at,
    {
        let ghost rest = text@.skip(at as int);
        let ghost before = replaced@;
        if occurs_at(&chars, at, &sought) {
            replaced.append(to);
            at = at + sought.len();
            proof {
                assert(rest.skip(pattern@.len() as int) == text@.skip(at as int));
                let tail = text_replaced(text@.skip(at as int), pattern@, to@);
                assert(before + (to@ + tail) =~= (before + to@) + tail);
            }
        } else {
            replaced.push(chars[at]);
            at = at + 1;
            proof {
                assert(rest.skip(1) == text@.skip(at as int));
                let tail = text_replaced(text@.skip(at as int), pattern@, to@);
                assert(before + (seq![rest[0]] + tail) =~= before.push(rest[0]) + tail);
            }
        }
    }
    let ghost rest = text@.skip(at as int);
    let ghost before = replaced@;
    let ghost stopped = at;
    while at < chars.len()
        invariant
            chars@ == text@,
            stopped <= at <= chars@.len(),
            rest == text@.skip(stopped as int),
            replaced@ == before + rest.take(at - stopped),
        decreases chars@.len() - at,
    {
        replaced.push(chars[at]);
        assert(rest.take(at - stopped + 1) == rest.take(at - stopped).push(text@[at as int]));
        assert(before + rest.take(at - stopped).push(text@[at as int]) =~= (before + rest.take(
            at - stopped,
        )).push(text@[at as int]));
        at = at + 1;
    }
    assert(rest.take(rest.len() as int) == rest);
    replaced
}

/// A text without the run of one character that it ends with.
pub open spec fn without_trailing(text: Seq<char>, c: char) -> Seq<char>
    decreases text.len(),
{
    if text.len() > 0 && text.last() == c {
        without_trailing(text.drop_last(), c)
    } else {
        text
    }
}

/// Drops the run of one character that a text ends with.
pub fn trim_end_char(text: &str, c: char) -> (trimmed: String)
    ensures
        trimmed@ == without_trailing(text@, c),
{
    let mut chars = chars_of(text);
    while chars.len() > 0 && chars[chars.len() - 1] == c
        invariant
            without_trailing(chars@, c) == without_trailing(text@, c),
        decreases chars@.len(),
    {
        let ghost before = chars@;
        let _ = chars.pop();
        assert(chars@ == before.drop_last());
    }
    text_of(chars.as_slice())
}

/// Whether a character has the White_Space property of Unicode.
pub open spec fn is_white_space(c: char) -> bool {
    let code = c as u32;
    ||| 0x9 <= code <= 0xd
    ||| code == 0x20
    ||| code == 0x85
    ||| code == 0xa0
    ||| code == 0x1680
    ||| 0x2000 <= code <= 0x200a
    ||| code == 0x2028
    ||| code == 0x2029
    ||| code == 0x202f
    ||| code == 0x205f
    ||| code == 0x3000
}

fn white_space(c: char) -> (white: bool)
    ensures
        white == is_white_space(c),
{
    let code: u32 = c as u32;
    (0x9 <= code && code <= 0xd) || code == 0x20 || code == 0x85 || code == 0xa0 || code == 0x1680
        || (0x2000 <= code && code <= 0x200a) || code == 0x2028 || code == 0x2029 || code == 0x202f
        || code == 0x205f || code == 0x3000
}

/// A text without the white space that it starts and ends with.
pub open spec fn trimmed(text: Seq<char>) -> Seq<char>
    decreases text.len(),
{
    if text.len() > 0 && is_white_space(text.last()) {
        trimmed(text.drop_last())
    } else if text.len() > 0 && is_white_space(text[0]) {
        trimmed(text.drop_first())
    } else {
        text
    }
}

/// Drops the white space that a text starts and ends with.
pub fn trim(text: &str) -> (kept: String)
    ensures
        kept@ == trimmed(text@),
{
    let chars = chars_of(text);
    let mut start: usize = 0;
    let mut end: usize = chars.len();
    assert(chars@.subrange(0, end as int) == text@);
    while start < end && white_space(chars[end - 1])
        invariant
            start <= end <= chars@.len(),
            trimmed(chars@.subrange(start as int, end as int)) == trimmed(text@),
        decreases end - start,
    {
        assert(chars@.subrange(start as int, end as int).drop_last() == chars@.subrange(
            start as int,
            end - 1,
        ));
        end = end - 1;
    }
    while start < end && white_space(chars[start])
        invariant
            start <= end <= chars@.len(),
            start < end ==> !is_white_space(chars@[end - 1]),
            trimmed(chars@.subrange(start as int, end as int)) == trimmed(text@),
        decreases end - start,
    {
        assert(chars@.subrange(start as int, end as int).drop_first() == chars@.subrange(
            start + 1,
            end as int,
        ));
        start = start + 1;
    }
    text_of(slice_subrange(chars.as_slice(), start, end))
}

/// A character with the capital letters of ASCII made small.
pub open spec fn ascii_lower(c: char) -> char {
    if 'A' <= c <= 'Z' {
        ((c as u32 + 32) as u32) as char
    } else {
        c
    }
}

/// A text with the capital letters of ASCII made small.
pub open spec fn ascii_lowered(text: Seq<char>) -> Seq<char> {
    text.map_values(|c: char| ascii_lower(c))
}

fn lower_char(c: char) -> (lower: char)
    ensures
        lower == ascii_lower(c),
{
    if 'A' <= c && c <= 'Z' {
        (c as u8 + 32) as char
    } else {
        c
    }
}

/// Makes the capital letters of ASCII small.
pub fn to_ascii_lowercase(text: &str) -> (lowered: String)
    ensures
        lowered@ == ascii_lowered(text@),
{
    let chars = chars_of(text);
    let mut lowered = String::new();
    for i in 0..chars.len()
        invariant
            chars@ == text@,
            lowered@ == ascii_lowered(text@.take(i as int)),
    {
        lowered.push(lower_char(chars[i]));
        assert(lowered@ =~= ascii_lowered(text@.take(i + 1)));
    }
    assert(text@.take(chars@.len() as int) == text@);
    lowered
}

/// Whether two texts differ in the case of ASCII letters at most.
pub fn eq_ignore_ascii_case(left: &str, right: &str) -> (same: bool)
    ensures
        same == (ascii_lowered(left@) == ascii_lowered(right@)),
{
    let a = to_ascii_lowercase(left);
    let b = to_ascii_lowercase(right);
    same_text(a.as_str(), b.as_str())
}

/// Replacing starts over after the first character.
pub proof fn lemma_char_replaced_first(text: Seq<char>, from: char, to: Seq<char>)
    requires
        text.len() > 0,
    ensures
        char_replaced(text, from, to) == (if text[0] == from {
            to
        } else {
            seq![text[0]]
        }) + char_replaced(text.drop_first(), from, to),
    decreases text.len(),
{
    if text.len() == 1 {
        assert(text.drop_last() =~= Seq::empty());
        assert(text.drop_first() =~= Seq::empty());
        assert(char_replaced(Seq::empty(), from, to) =~= Seq::empty());
    } else {
        let front = text.drop_last();
        lemma_char_replaced_first(front, from, to);
        assert(front.drop_first() =~= text.drop_first().drop_last());
        assert(text.drop_first().last() == text.last());
    }
    assert(char_replaced(text, from, to) =~= (if text[0] == from {
        to
    } else {
        seq![text[0]]
    }) + char_replaced(text.drop_first(), from, to));
}

/// Replacing brings in no character that neither the text nor the replacement has, and leaves none
/// of those that are replaced, unless the replacement has them.
pub proof fn lemma_char_replaced_lacks(text: Seq<char>, from: char, to: Seq<char>, c: char)
    requires
        !to.contains(c),
        c == from || !text.contains(c),
    ensures
        !char_replaced(text, from, to).contains(c),
    decreases text.len(),
{
    if text.len() > 0 {
        let front = text.drop_last();
        if c != from {
            assert(text.last() != c) by {
                assert(text[text.len() - 1] == text.last());
            }
            assert(!front.contains(c)) by {
                assert forall|i: int| 0 <= i < front.len() implies front[i] != c by {
                    assert(text[i] == front[i]);
                }
            }
        }
        lemma_char_replaced_lacks(front, from, to, c);
        let whole = char_replaced(text, from, to);
        let before = char_replaced(front, from, to);
        assert forall|i: int| 0 <= i < whole.len() implies whole[i] != c by {
            if i < before.len() {
                assert(whole[i] == before[i]);
            } else if text.last() == from {
                assert(whole[i] == to[i - before.len()]);
            }
        }
    }
}

/// Of a run of one character at the end of a text nothing is left, and the rest stays whole.
pub proof fn law_trailing_run_is_dropped(kept: Seq<char>, run: Seq<char>, c: char)
    requires
        kept.len() == 0 || kept.last() != c,
        forall|i: int| 0 <= i < run.len() ==> #[trigger] run[i] == c,
    ensures
        without_trailing(kept + run, c) == kept,
    decreases run.len(),
{
    if run.len() == 0 {
        assert(kept + run =~= kept);
    } else {
        assert((kept + run).last() == run[run.len() - 1]);
        assert((kept + run).drop_last() =~= kept + run.drop_last());
        assert forall|i: int| 0 <= i < run.drop_last().len() implies #[trigger] run.drop_last()[i]
            == c by {
            assert(run.drop_last()[i] == run[i]);
        }
        law_trailing_run_is_dropped(kept, run.drop_last(), c);
    }
}

/// A pattern behind a text in which it cannot start is replaced, and replacing goes on behind it. A
/// text in which it cannot start stays as it is.
pub proof fn law_pattern_is_replaced_where_it_stands(
    before: Seq<char>,
    pattern: Seq<char>,
    after: Seq<char>,
    to: Seq<char>,
)
    requires
        pattern.len() > 0,
        !before.contains(pattern[0]),
    ensures
        text_replaced(before + pattern + after, pattern, to) == before + to + text_replaced(
            after,
            pattern,
            to,
        ),
        text_replaced(before, pattern, to) == before,
    decreases before.len(),
{
    let text = before + pattern + after;
    if before.len() == 0 {
        assert(text.take(pattern.len() as int) =~= pattern);
        assert(text.skip(pattern.len() as int) =~= after);
        assert(before + to + text_replaced(after, pattern, to) =~= to + text_replaced(
            after,
            pattern,
            to,
        ));
    } else {
        let rest = before.skip(1);
        assert(!rest.contains(pattern[0])) by {
            assert forall|i: int| 0 <= i < rest.len() implies rest[i] != pattern[0] by {
                assert(rest[i] == before[i + 1]);
            }
        }
        law_pattern_is_replaced_where_it_stands(rest, pattern, after, to);
        assert(before[0] != pattern[0]);
        assert(text[0] == before[0]);
        assert(text.take(pattern.len() as int)[0] == before[0]);
        assert(text.skip(1) =~= rest + pattern + after);
        assert(seq![before[0]] + rest =~= before);
        assert(text_replaced(text, pattern, to) =~= before + to + text_replaced(after, pattern, to));
        if before.len() >= pattern.len() {
            assert(before.take(pattern.len() as int)[0] == before[0]);
            assert(text_replaced(before, pattern, to) =~= before);
        }
    }
}

/// White space around a text goes, and what stands between stays whole.
pub proof fn law_white_space_around_a_text_goes(
    left: Seq<char>,
    kept: Seq<char>,
    right: Seq<char>,
)
    requires
        forall|i: int| 0 <= i < left.len() ==> is_white_space(#[trigger] left[i]),
        forall|i: int| 0 <= i < right.len() ==> is_white_space(#[trigger] right[i]),
        kept.len() > 0,
        !is_white_space(kept[0]),
        !is_white_space(kept.last()),
    ensures
        trimmed(left + kept + right) == kept,
    decreases left.len() + right.len(),
{
    let text = left + kept + right;
    if right.len() > 0 {
        let fewer = right.drop_last();
        assert forall|i: int| 0 <= i < fewer.len() implies is_white_space(#[trigger] fewer[i]) by {
            assert(fewer[i] == right[i]);
        }
        assert(text.last() == right[right.len() - 1]);
        assert(text.drop_last() =~= left + kept + fewer);
        law_white_space_around_a_text_goes(left, kept, fewer);
    } else if left.len() > 0 {
        let fewer = left.drop_first();
        assert forall|i: int| 0 <= i < fewer.len() implies is_white_space(#[trigger] fewer[i]) by {
            assert(fewer[i] == left[i + 1]);
        }
        assert(text.last() == kept.last());
        assert(text[0] == left[0]);
        assert(text.drop_first() =~= fewer + kept + right);
        law_white_space_around_a_text_goes(fewer, kept, right);
    } else {
        assert(text =~= kept);
    }
}

/// Blanks, tabs and line ends are white space; what is printed in ASCII is not.
pub proof fn law_white_space_is_not_printed(c: char)
    ensures
        c == ' ' || c == '\t' || c == '\n' || c == '\r' ==> is_white_space(c),
        '!' <= c <= '~' ==> !is_white_space(c),
{
}

/// Capital letters of ASCII become the small letter of the same place in the alphabet, and every
/// other character stays.
pub proof fn law_lowered_letters_keep_their_place(text: Seq<char>, i: int)
    requires
        0 <= i < text.len(),
    ensures
        ascii_lowered(text).len() == text.len(),
        'A' <= text[i] <= 'Z' ==> ascii_lowered(text)[i] as int - 'a' as int == text[i] as int
            - 'A' as int,
        !('A' <= text[i] <= 'Z') ==> ascii_lowered(text)[i] == text[i],
{
    lemma_lower(text[i]);
}

proof fn lemma_lower(c: char)
    ensures
        'A' <= c <= 'Z' ==> ascii_lower(c) as int - 'a' as int == c as int - 'A' as int,
        !('A' <= c <= 'Z') ==> ascii_lower(c) == c,
{
}

/// A number in decimal has no leading zero but the one of zero itself, and a negative number is that
/// without its sign behind a minus.
pub proof fn law_decimal_has_no_leading_zero(value: nat)
    ensures
        decimal(value).len() > 0,
        value > 0 ==> decimal(value)[0] != '0',
        value > 0 ==> signed_decimal(-(value as int)) == seq!['-'] + decimal(value),
        signed_decimal(value as int) == decimal(value),
    decreases value,
{
    if value >= 10 {
        law_decimal_has_no_leading_zero(value / 10);
    } else if value > 0 {
        assert(digit(value) as int == '0' as int + value);
    }
}

/// Replacing a character works on each part of a text for itself: the character becomes the other
/// text, and every other character stays.
pub proof fn law_characters_are_replaced_one_by_one(
    left: Seq<char>,
    c: char,
    right: Seq<char>,
    from: char,
    to: Seq<char>,
)
    ensures
        char_replaced(left + right, from, to) == char_replaced(left, from, to) + char_replaced(
            right,
            from,
            to,
        ),
        char_replaced(seq![from], from, to) == to,
        c != from ==> char_replaced(seq![c], from, to) == seq![c],
        char_replaced(Seq::empty(), from, to) == Seq::<char>::empty(),
    decreases right.len(),
{
    reveal_with_fuel(char_replaced, 2);
    assert(seq![c].drop_last() =~= Seq::<char>::empty());
    assert(seq![from].drop_last() =~= Seq::<char>::empty());
    assert(Seq::<char>::empty() + to =~= to);
    assert(Seq::<char>::empty() + seq![c] =~= seq![c]);
    if right.len() == 0 {
        assert(left + right =~= left);
        assert(char_replaced(left, from, to) + Seq::<char>::empty() =~= char_replaced(
            left,
            from,
            to,
        ));
    } else {
        let whole = left + right;
        law_characters_are_replaced_one_by_one(left, c, right.drop_last(), from, to);
        assert(whole.drop_last() =~= left + right.drop_last());
        assert(whole.last() == right.last());
        assert(char_replaced(whole, from, to) =~= char_replaced(left, from, to) + char_replaced(
            right,
            from,
            to,
        ));
    }
}

} // verus!
