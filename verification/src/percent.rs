//! Percent-encoding of the sheet titles that travel in URLs.
use vstd::prelude::*;
use vstd::utf8::*;

use crate::text::plus_to_space;

verus! {

/// `FromUtf8Error`, the refusal of bytes that are not UTF-8.
#[verifier::external_type_specification]
#[verifier::external_body]
pub struct ExFromUtf8Error(std::string::FromUtf8Error);

/// The value of a hexadecimal digit in either case.
pub open spec fn hex_value(byte: u8) -> Option<u8> {
    if '0' as u8 <= byte <= '9' as u8 {
        Some((byte - '0' as u8) as u8)
    } else if 'A' as u8 <= byte <= 'F' as u8 {
        Some((byte - 'A' as u8 + 10) as u8)
    } else if 'a' as u8 <= byte <= 'f' as u8 {
        Some((byte - 'a' as u8 + 10) as u8)
    } else {
        None
    }
}

/// The bytes of a percent-encoded text: `%` and two hexadecimal digits stand for one byte,
/// every other byte for itself.
pub open spec fn percent_decoded(bytes: Seq<u8>) -> Seq<u8>
    decreases bytes.len(),
{
    if bytes.len() == 0 {
        bytes
    } else if bytes[0] == '%' as u8 && bytes.len() >= 3 && hex_value(bytes[1]) is Some && hex_value(
        bytes[2],
    ) is Some {
        seq![(16 * hex_value(bytes[1])->0 + hex_value(bytes[2])->0) as u8] + percent_decoded(
            bytes.skip(3),
        )
    } else {
        seq![bytes[0]] + percent_decoded(bytes.skip(1))
    }
}

/// The bytes that stand for themselves in an encoded text: alphanumerics and `-`, `_`, `.`, `~`.
pub open spec fn is_unreserved(byte: u8) -> bool {
    ||| '0' as u8 <= byte <= '9' as u8
    ||| 'A' as u8 <= byte <= 'Z' as u8
    ||| 'a' as u8 <= byte <= 'z' as u8
    ||| byte == '-' as u8
    ||| byte == '_' as u8
    ||| byte == '.' as u8
    ||| byte == '~' as u8
}

/// The upper-case hexadecimal digit of a value below 16.
pub open spec fn hex_digit(value: int) -> char {
    if value < 10 {
        (value + '0' as int) as char
    } else {
        (value - 10 + 'A' as int) as char
    }
}

/// The percent-encoding of one byte.
pub open spec fn percent_encoded_byte(byte: u8) -> Seq<char> {
    if is_unreserved(byte) {
        seq![byte as char]
    } else {
        seq!['%', hex_digit(byte as int / 16), hex_digit(byte as int % 16)]
    }
}

/// The percent-encoding of a sequence of bytes.
pub open spec fn percent_encoded(bytes: Seq<u8>) -> Seq<char>
    decreases bytes.len(),
{
    if bytes.len() == 0 {
        Seq::empty()
    } else {
        percent_encoded_byte(bytes[0]) + percent_encoded(bytes.skip(1))
    }
}

/// The percent-decoding of a text, where the decoded bytes are UTF-8.
pub open spec fn decoded_text(text: Seq<char>) -> Option<Seq<char>> {
    let bytes = percent_decoded(encode_utf8(text));
    if valid_utf8(bytes) {
        Some(decode_utf8(bytes))
    } else {
        None
    }
}

/// `urlencoding::decode`: decodes the `%xx` sequences of the UTF-8 bytes of the text, leaves
/// every other byte as it is, and refuses the text where the decoded bytes are not UTF-8.
#[verifier::external_body]
fn url_decode(text: &str) -> (decoded: Result<String, std::string::FromUtf8Error>)
    ensures
        match decoded {
            Ok(decoded) => decoded_text(text@) == Some(decoded@),
            Err(_) => decoded_text(text@) is None,
        },
{
    urlencoding::decode(text).map(|decoded| decoded.into_owned())
}

/// `urlencoding::encode`: percent-encodes every UTF-8 byte of the text except the
/// alphanumerics and `-`, `_`, `.`, `~`, with upper-case digits.
#[verifier::external_body]
fn url_encode(text: &str) -> (encoded: String)
    ensures
        encoded@ == percent_encoded(encode_utf8(text@)),
{
    urlencoding::encode(text).into_owned()
}

/// Percent-encodes a text.
pub fn encode_title(title: &str) -> (encoded: String)
    ensures
        encoded@ == percent_encoded(encode_utf8(title@)),
{
    url_encode(title)
}

/// Percent-decodes a text; `None` where the decoded bytes are not UTF-8.
pub fn decode_title(text: &str) -> (decoded: Option<String>)
    ensures
        match decoded {
            Some(decoded) => decoded_text(text@) == Some(decoded@),
            None => decoded_text(text@) is None,
        },
{
    match url_decode(text) {
        Ok(decoded) => Some(decoded),
        Err(_) => None,
    }
}

proof fn lemma_encoded_byte(byte: u8)
    ensures
        is_ascii_chars(percent_encoded_byte(byte)),
        forall|i: int|
            0 <= i < percent_encoded_byte(byte).len() ==> #[trigger] percent_encoded_byte(byte)[i]
                != '+',
        !is_unreserved(byte) ==> {
            &&& hex_value(hex_digit(byte as int / 16) as u8) == Some((byte as int / 16) as u8)
            &&& hex_value(hex_digit(byte as int % 16) as u8) == Some((byte as int % 16) as u8)
        },
{
}

proof fn lemma_encoding(bytes: Seq<u8>)
    ensures
        is_ascii_chars(percent_encoded(bytes)),
        forall|i: int|
            0 <= i < percent_encoded(bytes).len() ==> #[trigger] percent_encoded(bytes)[i] != '+',
        percent_decoded(encode_utf8(percent_encoded(bytes))) == bytes,
    decreases bytes.len(),
{
    if bytes.len() > 0 {
        let head = percent_encoded_byte(bytes[0]);
        let tail = percent_encoded(bytes.skip(1));
        let whole = percent_encoded(bytes);
        lemma_encoded_byte(bytes[0]);
        lemma_encoding(bytes.skip(1));
        assert(whole == head + tail);
        assert(is_ascii_chars(whole)) by {
            is_ascii_chars_concat(whole, head, tail);
        }
        is_ascii_chars_encode_utf8(whole);
        is_ascii_chars_encode_utf8(tail);
        let encoded = encode_utf8(whole);
        assert(encoded.skip(head.len() as int) =~= encode_utf8(tail)) by {
            assert forall|i: int| 0 <= i < tail.len() implies encoded[head.len() + i]
                == #[trigger] encode_utf8(tail)[i] by {
                assert(whole[head.len() + i] == tail[i]);
            }
        }
        assert(bytes =~= seq![bytes[0]] + bytes.skip(1));
        assert(encoded[0] == whole[0] as u8);
        if !is_unreserved(bytes[0]) {
            assert(encoded[1] == whole[1] as u8);
            assert(encoded[2] == whole[2] as u8);
        }
    }
}

/// What is percent-encoded is decoded to the same text, also where every `+` is first read as
/// a space.
pub proof fn encoding_is_undone(text: Seq<char>)
    ensures
        decoded_text(percent_encoded(encode_utf8(text))) == Some(text),
        decoded_text(plus_to_space(percent_encoded(encode_utf8(text)))) == Some(text),
{
    let encoded = percent_encoded(encode_utf8(text));
    lemma_encoding(encode_utf8(text));
    encode_utf8_valid_utf8(text);
    encode_utf8_decode_utf8(text);
    assert(plus_to_space(encoded) =~= encoded);
}

proof fn lemma_plain_bytes(bytes: Seq<u8>)
    requires
        forall|i: int| 0 <= i < bytes.len() ==> #[trigger] bytes[i] != '%' as u8,
    ensures
        percent_decoded(bytes) == bytes,
    decreases bytes.len(),
{
    if bytes.len() > 0 {
        lemma_plain_bytes(bytes.skip(1));
        assert(seq![bytes[0]] + bytes.skip(1) == bytes);
    }
}

/// An ASCII text without `%` and `+` stands for itself.
pub proof fn plain_texts_stand_for_themselves(text: Seq<char>)
    requires
        is_ascii_chars(text),
        !text.contains('%'),
        !text.contains('+'),
    ensures
        decoded_text(plus_to_space(text)) == Some(text),
{
    assert(plus_to_space(text) =~= text) by {
        assert forall|i: int| 0 <= i < text.len() implies text[i] != '+' by {
            assert(text.contains(text[i]));
        }
    }
    is_ascii_chars_encode_utf8(text);
    assert forall|i: int| 0 <= i < text.len() implies #[trigger] encode_utf8(text)[i]
        != '%' as u8 by {
        assert(text.contains(text[i]));
        assert(text[i] as u8 == encode_utf8(text)[i]);
    }
    lemma_plain_bytes(encode_utf8(text));
    encode_utf8_valid_utf8(text);
    encode_utf8_decode_utf8(text);
}

/// Bytes are encoded one by one, in order: letters, digits and `-`, `_`, `.`, `~` as themselves,
/// each other byte as `%` and its two upper-case hexadecimal digits.
pub proof fn bytes_are_encoded_one_by_one(bytes: Seq<u8>, byte: u8)
    ensures
        percent_encoded(Seq::<u8>::empty()) == Seq::<char>::empty(),
        percent_encoded(seq![byte] + bytes) == (if ('0' as u8 <= byte <= '9' as u8) || ('A' as u8
            <= byte <= 'Z' as u8) || ('a' as u8 <= byte <= 'z' as u8) || "-_.~"@.contains(
            byte as char,
        ) {
            seq![byte as char]
        } else {
            seq![
                '%',
                "0123456789ABCDEF"@[byte as int / 16],
                "0123456789ABCDEF"@[byte as int % 16],
            ]
        }) + percent_encoded(bytes),
{
    reveal_strlit("-_.~");
    reveal_strlit("0123456789ABCDEF");
    let all = seq![byte] + bytes;
    assert(all.skip(1) == bytes);
    let marks = "-_.~"@;
    assert(marks[0] == '-' && marks[1] == '_' && marks[2] == '.' && marks[3] == '~');
    assert(marks.contains(byte as char) <==> byte == '-' as u8 || byte == '_' as u8 || byte
        == '.' as u8 || byte == '~' as u8) by {
        if byte == '-' as u8 {
            assert(marks[0] == byte as char);
        }
        if byte == '_' as u8 {
            assert(marks[1] == byte as char);
        }
        if byte == '.' as u8 {
            assert(marks[2] == byte as char);
        }
        if byte == '~' as u8 {
            assert(marks[3] == byte as char);
        }
    }
    lemma_hex_digit(byte as int / 16);
    lemma_hex_digit(byte as int % 16);
}

proof fn lemma_hex_digit(value: int)
    requires
        0 <= value < 16,
    ensures
        hex_digit(value) == "0123456789ABCDEF"@[value],
{
    reveal_strlit("0123456789ABCDEF");
    let digits = "0123456789ABCDEF"@;
    assert(value == 0 || value == 1 || value == 2 || value == 3 || value == 4 || value == 5 || value
        == 6 || value == 7 || value == 8 || value == 9 || value == 10 || value == 11 || value == 12
        || value == 13 || value == 14 || value == 15);
}

/// Encoded texts are decoded from left to right: `%` and two hexadecimal digits in either case
/// stand for the byte of that value, every other byte for itself.
pub proof fn bytes_are_decoded_in_order(byte: u8, upper: u8, lower: u8, rest: Seq<u8>)
    ensures
        percent_decoded(Seq::<u8>::empty()) == Seq::<u8>::empty(),
        byte != '%' as u8 ==> percent_decoded(seq![byte] + rest) == seq![byte] + percent_decoded(
            rest,
        ),
        hex_value(upper) is Some && hex_value(lower) is Some ==> percent_decoded(
            seq!['%' as u8, upper, lower] + rest,
        ) == seq![(16 * hex_value(upper)->0 + hex_value(lower)->0) as u8] + percent_decoded(rest),
        rest.len() < 2 || hex_value(rest[0]) is None || hex_value(rest[1]) is None
            ==> percent_decoded(seq!['%' as u8] + rest) == seq!['%' as u8] + percent_decoded(rest),
        hex_value(byte) matches Some(value) ==> value < 16 && (byte as char
            == "0123456789ABCDEF"@[value as int] || byte as char
            == "0123456789abcdef"@[value as int]),
        forall|value: int|
            0 <= value < 16 ==> hex_value(#[trigger] "0123456789ABCDEF"@[value] as u8) == Some(
                value as u8,
            ),
        forall|value: int|
            0 <= value < 16 ==> hex_value(#[trigger] "0123456789abcdef"@[value] as u8) == Some(
                value as u8,
            ),
{
    reveal_strlit("0123456789ABCDEF");
    reveal_strlit("0123456789abcdef");
    assert((seq![byte] + rest).skip(1) == rest);
    assert((seq!['%' as u8, upper, lower] + rest).skip(3) == rest);
    let literal = seq!['%' as u8] + rest;
    assert(literal.skip(1) == rest);
    if rest.len() >= 2 {
        assert(literal[1] == rest[0] && literal[2] == rest[1]);
    }
}

/// A text that encodes UTF-8 is decoded to the text of the decoded bytes, any other is refused.
pub proof fn decoded_bytes_are_read_as_utf8(text: Seq<char>)
    ensures
        match decoded_text(text) {
            Some(decoded) => encode_utf8(decoded) == percent_decoded(encode_utf8(text)),
            None => !valid_utf8(percent_decoded(encode_utf8(text))),
        },
{
    let bytes = percent_decoded(encode_utf8(text));
    if valid_utf8(bytes) {
        decode_utf8_encode_utf8(bytes);
    }
}

} // verus!
