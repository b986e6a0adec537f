//! Character-level helpers: trimming, splitting and parsing numbers.
use vstd::prelude::*;

verus! {

/// `String::push`: the character is appended to the end of the string.
pub assume_specification[ String::push ](string: &mut String, ch: char)
    ensures
        final(string)@ == old(string)@.push(ch),
;

/// A text without the slashes at its two ends.
pub open spec fn trimmed(text: Seq<char>) -> Seq<char>
    decreases text.len(),
{
    if text.len() == 0 {
        text
    } else if text.first() == '/' {
        trimmed(text.drop_first())
    } else if text.last() == '/' {
        trimmed(text.drop_last())
    } else {
        text
    }
}

/// The segments between the separators of a text; a text without a separator is one segment.
pub open spec fn split(text: Seq<char>, separator: char) -> Seq<Seq<char>>
    decreases text.len(),
{
    if text.len() == 0 {
        seq![Seq::empty()]
    } else {
        let before = split(text.drop_last(), separator);
        if text.last() == separator {
            before.push(Seq::empty())
        } else {
            before.drop_last().push(before.last().push(text.last()))
        }
    }
}

/// Every `+` of a text as a space, the other characters as they are.
pub open spec fn plus_to_space(text: Seq<char>) -> Seq<char> {
    text.map_values(
        |ch: char|
            if ch == '+' {
                ' '
            } else {
                ch
            },
    )
}

pub open spec fn is_digit(ch: char) -> bool {
    '0' <= ch <= '9'
}

/// The number that a sequence of decimal digits writes.
pub open spec fn digits_value(digits: Seq<char>) -> nat
    decreases digits.len(),
{
    if digits.len() == 0 {
        0
    } else {
        10 * digits_value(digits.drop_last()) + (digits.last() as nat - '0' as nat) as nat
    }
}

/// The digits of a number that may carry one leading plus sign.
pub open spec fn unsigned_digits(text: Seq<char>) -> Seq<char> {
    if text.len() > 0 && text[0] == '+' {
        text.drop_first()
    } else {
        text
    }
}

/// The unsigned number that a text writes: an optional plus sign and one or more decimal
/// digits whose value is at most `max`.
pub open spec fn parsed_number(text: Seq<char>, max: nat) -> Option<nat> {
    let digits = unsigned_digits(text);
    if digits.len() > 0 && (forall|i: int| 0 <= i < digits.len() ==> is_digit(#[trigger] digits[i]))
        && digits_value(digits) <= max {
        Some(digits_value(digits))
    } else {
        None
    }
}

/// The characters of a text.
pub fn chars_of(text: &str) -> (chars: Vec<char>)
    ensures
        chars@ == text@,
{
    let mut chars: Vec<char> = Vec::new();
    for ch in iter: text.chars()
        invariant
            chars@ == text@.take(iter.index() as int),
            iter.seq() == text@,
    {
        chars.push(ch);
    }
    chars
}

/// The views of a list of strings.
pub open spec fn texts(strings: Seq<String>) -> Seq<Seq<char>> {
    strings.map_values(|string: String| string@)
}

/// Whether a string has no characters.
pub fn is_blank(string: &String) -> (blank: bool)
    ensures
        blank == (string@.len() == 0),
{
    let empty = String::new();
    assert(string@.len() == 0 ==> string@ == empty@);
    *string == empty
}

/// The text with every `+` replaced by a space.
pub fn replace_plus(text: &str) -> (replaced: String)
    ensures
        replaced@ == plus_to_space(text@),
{
    let mut replaced = String::new();
    for ch in iter: text.chars()
        invariant
            replaced@ == plus_to_space(text@).take(iter.index() as int),
            iter.seq() == text@,
    {
        if ch == '+' {
            replaced.push(' ');
        } else {
            replaced.push(ch);
        }
    }
    replaced
}

/// Splits a path into its segments, once the slashes at its two ends are gone.
pub fn path_segments(path: &str) -> (segments: Vec<String>)
    ensures
        texts(segments@) == split(trimmed(path@), '/'),
{
    let chars = chars_of(path);
    let mut start: usize = 0;
    let mut end: usize = chars.len();
    assert(chars@.subrange(0, chars@.len() as int) == path@);
    while start < end && chars[start] == '/'
        invariant
            start <= end <= chars.len(),
            trimmed(path@) == trimmed(chars@.subrange(start as int, end as int)),
        decreases end - start,
    {
        assert(chars@.subrange(start as int, end as int).drop_first() == chars@.subrange(
            start + 1,
            end as int,
        ));
        start = start + 1;
    }
    while start < end && chars[end - 1] == '/'
        invariant
            start <= end <= chars.len(),
            start < end ==> chars@[start as int] != '/',
            trimmed(path@) == trimmed(chars@.subrange(start as int, end as int)),
        decreases end - start,
    {
        assert(chars@.subrange(start as int, end as int).drop_last() == chars@.subrange(
            start as int,
            end - 1,
        ));
        end = end - 1;
    }
    let ghost core = chars@.subrange(start as int, end as int);
    assert(trimmed(path@) == core);
    let mut segments: Vec<String> = Vec::new();
    let mut current: String = String::new();
    for i in start..end
        invariant
            start <= end <= chars.len(),
            core == chars@.subrange(start as int, end as int),
            texts(segments@).push(current@) == split(core.take(i - start), '/'),
    {
        let ch = chars[i];
        proof {
            let longer = core.take(i + 1 - start);
            assert(longer.drop_last() == core.take(i - start));
            assert(longer.last() == ch);
        }
        let ghost before = texts(segments@).push(current@);
        if ch == '/' {
            let ghost done = current@;
            segments.push(current);
            current = String::new();
            assert(texts(segments@) == before);
        } else {
            current.push(ch);
            assert(before.drop_last() == texts(segments@));
        }
    }
    assert(core.take(end - start) == core);
    let ghost before = texts(segments@).push(current@);
    segments.push(current);
    assert(texts(segments@) == before);
    segments
}

/// Parses an unsigned number of at most `max`.
pub fn parse_number(text: &str, max: u64) -> (number: Option<u64>)
    ensures
        match number {
            Some(number) => parsed_number(text@, max as nat) == Some(number as nat),
            None => parsed_number(text@, max as nat) is None,
        },
{
    let chars = chars_of(text);
    let first: usize = if chars.len() > 0 && chars[0] == '+' {
        1
    } else {
        0
    };
    let ghost digits = unsigned_digits(text@);
    assert(digits == chars@.subrange(first as int, chars@.len() as int));
    if first == chars.len() {
        return None;
    }
    let mut value: u64 = 0;
    let mut over: bool = false;
    for i in first..chars.len()
        invariant
            first <= chars.len(),
            digits == unsigned_digits(text@),
            digits == chars@.subrange(first as int, chars@.len() as int),
            !over ==> value <= max && value == digits_value(digits.take(i - first)),
            over ==> digits_value(digits.take(i - first)) > max,
            forall|j: int| 0 <= j < i - first ==> is_digit(#[trigger] digits[j]),
    {
        let ch = chars[i];
        assert(digits[i - first] == ch);
        if ch < '0' || ch > '9' {
            return None;
        }
        let digit: u64 = (ch as u64) - ('0' as u64);
        proof {
            let longer = digits.take(i + 1 - first);
            assert(longer.drop_last() == digits.take(i - first));
            assert(longer.last() == ch);
        }
        if !over {
            let next: u128 = value as u128 * 10 + digit as u128;
            if next > max as u128 {
                over = true;
            } else {
                value = next as u64;
            }
        }
    }
    assert(digits.take(chars@.len() - first) == digits);
    if over {
        None
    } else {
        Some(value)
    }
}

/// The decimal digits of a number.
pub open spec fn decimal_text(number: nat) -> Seq<char>
    decreases number,
{
    if number < 10 {
        seq![(number + '0' as nat) as char]
    } else {
        decimal_text(number / 10).push((number % 10 + '0' as nat) as char)
    }
}

/// Writes a number in decimal.
pub fn decimal(number: u64) -> (text: String)
    ensures
        text@ == decimal_text(number as nat),
    decreases number,
{
    let digit = (0x30u8 + (number % 10) as u8) as char;
    let mut text = if number < 10 {
        String::new()
    } else {
        decimal(number / 10)
    };
    text.push(digit);
    text
}

/// A run of slashes.
pub open spec fn slashes(count: nat) -> Seq<char> {
    Seq::new(count, |i: int| '/')
}

/// Slashes before and behind a text do not count once it is trimmed.
pub proof fn trimming_drops_slashes(text: Seq<char>, leading: nat, trailing: nat)
    ensures
        trimmed(slashes(leading) + text + slashes(trailing)) == trimmed(text),
    decreases leading + trailing,
{
    let whole = slashes(leading) + text + slashes(trailing);
    if leading > 0 {
        let fewer = (leading - 1) as nat;
        assert(whole.drop_first() == slashes(fewer) + text + slashes(trailing));
        trimming_drops_slashes(text, fewer, trailing);
    } else if trailing > 0 {
        let fewer = (trailing - 1) as nat;
        assert(whole == (text + slashes(fewer)).push('/'));
        lemma_trimmed_push(text + slashes(fewer));
        assert(text + slashes(fewer) == slashes(0) + text + slashes(fewer));
        trimming_drops_slashes(text, 0, fewer);
    } else {
        assert(whole == text);
    }
}

proof fn lemma_trimmed_push(text: Seq<char>)
    ensures
        trimmed(text.push('/')) == trimmed(text),
    decreases text.len(),
{
    let longer = text.push('/');
    if text.len() == 0 {
        assert(longer.drop_first() == text);
    } else if text.first() == '/' {
        assert(longer.drop_first() == text.drop_first().push('/'));
        lemma_trimmed_push(text.drop_first());
    } else {
        assert(longer.drop_last() == text);
    }
}

/// Segments without the separator, joined by it, are what splitting gives back.
pub proof fn splitting_undoes_joining(head: Seq<char>, separator: char, tail: Seq<char>)
    requires
        !tail.contains(separator),
    ensures
        split(tail, separator) == seq![tail],
        split(head.push(separator) + tail, separator) == split(head, separator).push(tail),
    decreases tail.len(),
{
    let whole = head.push(separator) + tail;
    if tail.len() == 0 {
        assert(whole == head.push(separator));
        assert(whole.drop_last() == head);
        assert(tail == Seq::<char>::empty());
    } else {
        let shorter = tail.drop_last();
        assert(tail[tail.len() - 1] != separator);
        assert forall|i: int| 0 <= i < shorter.len() implies shorter[i] != separator by {
            assert(tail[i] == shorter[i]);
        }
        splitting_undoes_joining(head, separator, shorter);
        assert(whole.drop_last() == head.push(separator) + shorter);
        assert(shorter.push(tail.last()) == tail);
        assert(split(tail, separator) == seq![tail]);
        let before = split(head, separator).push(shorter);
        assert(before.drop_last() == split(head, separator));
    }
}

/// A number is read back from its decimal digits, of which the first is no idle zero.
pub proof fn digits_are_read_back(number: nat, max: nat)
    requires
        number <= max,
    ensures
        parsed_number(decimal_text(number), max) == Some(number),
        forall|i: int|
            0 <= i < decimal_text(number).len() ==> is_digit(#[trigger] decimal_text(number)[i]),
        decimal_text(number).len() > 1 ==> decimal_text(number)[0] != '0',
{
    lemma_decimal_text(number);
    let digits = decimal_text(number);
    assert(is_digit(digits[0]));
    assert(unsigned_digits(digits) == digits);
}

proof fn lemma_decimal_text(number: nat)
    ensures
        decimal_text(number).len() > 0,
        digits_value(decimal_text(number)) == number,
        forall|i: int|
            0 <= i < decimal_text(number).len() ==> is_digit(#[trigger] decimal_text(number)[i]),
        number > 0 ==> decimal_text(number)[0] != '0',
        number < 10 ==> decimal_text(number).len() == 1,
    decreases number,
{
    reveal_with_fuel(digits_value, 2);
    let digits = decimal_text(number);
    if number < 10 {
        assert(digits.drop_last() == Seq::<char>::empty());
    } else {
        lemma_decimal_text(number / 10);
        assert(digits.drop_last() == decimal_text(number / 10));
    }
}

/// Whether a text is slashes before `from` and from `to` on.
spec fn is_slashes_outside(text: Seq<char>, from: int, to: int) -> bool {
    &&& 0 <= from <= to <= text.len()
    &&& forall|i: int| 0 <= i < from ==> #[trigger] text[i] == '/'
    &&& forall|i: int| to <= i < text.len() ==> #[trigger] text[i] == '/'
}

proof fn lemma_trimmed_stretch(text: Seq<char>) -> (stretch: (int, int))
    ensures
        is_slashes_outside(text, stretch.0, stretch.1),
        text.subrange(stretch.0, stretch.1) == trimmed(text),
        trimmed(text).len() > 0 ==> trimmed(text).first() != '/' && trimmed(text).last() != '/',
    decreases text.len(),
{
    if text.len() == 0 {
        (0, 0)
    } else if text.first() == '/' {
        let rest = text.drop_first();
        let (from, to) = lemma_trimmed_stretch(rest);
        assert(text.subrange(from + 1, to + 1) == rest.subrange(from, to));
        assert forall|i: int| 0 <= i < from + 1 implies #[trigger] text[i] == '/' by {
            if i > 0 {
                assert(rest[i - 1] == '/');
            }
        }
        assert forall|i: int| to + 1 <= i < text.len() implies #[trigger] text[i] == '/' by {
            assert(rest[i - 1] == '/');
        }
        (from + 1, to + 1)
    } else if text.last() == '/' {
        let rest = text.drop_last();
        let (from, to) = lemma_trimmed_stretch(rest);
        assert(text.subrange(from, to) == rest.subrange(from, to));
        assert forall|i: int| 0 <= i < from implies #[trigger] text[i] == '/' by {
            assert(rest[i] == '/');
        }
        assert forall|i: int| to <= i < text.len() implies #[trigger] text[i] == '/' by {
            if i < rest.len() {
                assert(rest[i] == '/');
            }
        }
        (from, to)
    } else {
        assert(text.subrange(0, text.len() as int) == text);
        (0, text.len() as int)
    }
}

/// What trimming leaves is one stretch of the text. Before and behind it the text has slashes
/// only, and at its own two ends there is none.
pub proof fn trimming_takes_only_slashes(text: Seq<char>)
    ensures
        trimmed(text).len() > 0 ==> trimmed(text).first() != '/' && trimmed(text).last() != '/',
        exists|from: int, to: int|
            0 <= from <= to <= text.len() && #[trigger] text.subrange(from, to) == trimmed(text)
                && (forall|i: int| 0 <= i < from ==> text[i] == '/') && (forall|i: int|
                to <= i < text.len() ==> text[i] == '/'),
{
    let (from, to) = lemma_trimmed_stretch(text);
    assert(text.subrange(from, to) == trimmed(text));
}

/// Every `+` becomes a space where it stands, and nothing else changes.
pub proof fn pluses_become_spaces(text: Seq<char>)
    ensures
        plus_to_space(text).len() == text.len(),
        forall|i: int|
            0 <= i < text.len() ==> #[trigger] plus_to_space(text)[i] == if text[i] == '+' {
                ' '
            } else {
                text[i]
            },
{
}

/// A digit behind others makes their number ten times as large and adds its own value.
pub proof fn digits_count_in_tens(digits: Seq<char>, digit: char)
    requires
        '0' <= digit <= '9',
    ensures
        digits_value(Seq::<char>::empty()) == 0,
        digits_value(digits.push(digit)) == 10 * digits_value(digits) + (digit as int
            - '0' as int),
{
    assert(digits.push(digit).drop_last() == digits);
}

/// A text is a number where it is one or more of the digits `0` to `9` and its value is up to the
/// maximum; and then it is that value. One plus sign before the digits changes nothing.
pub proof fn numbers_are_digits(digits: Seq<char>, max: nat)
    requires
        digits.len() > 0 ==> digits[0] != '+',
    ensures
        parsed_number(digits, max) is Some <==> digits.len() > 0 && (forall|i: int|
            0 <= i < digits.len() ==> '0' <= #[trigger] digits[i] && digits[i] <= '9')
            && digits_value(digits) <= max,
        parsed_number(digits, max) is Some ==> parsed_number(digits, max)->0 == digits_value(
            digits,
        ),
        parsed_number(seq!['+'] + digits, max) == parsed_number(digits, max),
{
    assert(unsigned_digits(digits) == digits);
    assert((seq!['+'] + digits).drop_first() == digits);
    if parsed_number(digits, max) is Some {
        assert forall|i: int| 0 <= i < digits.len() implies '0' <= #[trigger] digits[i] && digits[i]
            <= '9' by {
            assert(is_digit(digits[i]));
        }
    }
}

/// No text with two plus signs before it is a number.
pub proof fn two_signs_are_no_number(text: Seq<char>, max: nat)
    ensures
        parsed_number(seq!['+', '+'] + text, max) is None,
{
    let signed = seq!['+', '+'] + text;
    assert(unsigned_digits(signed)[0] == '+');
}

/// The texts of a list of strings are those of each string, in order.
pub proof fn texts_are_those_of_each_string(strings: Seq<String>)
    ensures
        texts(strings).len() == strings.len(),
        forall|i: int| 0 <= i < strings.len() ==> #[trigger] texts(strings)[i] == strings[i]@,
{
}

} // verus!
