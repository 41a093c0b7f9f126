//! Lowercase hexadecimal text, as the `hex` crate writes and reads it.
use vstd::prelude::*;
use vstd::utf8::*;

verus! {

broadcast use vstd::seq::group_seq_axioms;

/// The hexadecimal digit for a value in `0..16`, lowercase.
pub open spec fn hex_digit(v: int) -> char {
    if v < 10 {
        (48 + v) as char
    } else {
        (87 + v) as char
    }
}

/// Lowercase hexadecimal text of a byte string: two digits per byte,
/// the high half of the byte first.
pub open spec fn hex_encode_chars(bytes: Seq<u8>) -> Seq<char>
    decreases bytes.len(),
{
    if bytes.len() == 0 {
        Seq::empty()
    } else {
        seq![hex_digit(bytes[0] as int / 16), hex_digit(bytes[0] as int % 16)] + hex_encode_chars(
            bytes.drop_first(),
        )
    }
}

/// A byte that is a hexadecimal digit in either case.
pub open spec fn is_hex_byte(c: u8) -> bool {
    (48 <= c <= 57) || (65 <= c <= 70) || (97 <= c <= 102)
}

/// The value of a hexadecimal digit byte.
pub open spec fn hex_byte_value(c: u8) -> int {
    if c <= 57 {
        c - 48
    } else if c <= 70 {
        c - 55
    } else {
        c - 87
    }
}

/// Whether a byte string is hexadecimal text that decodes: an even number
/// of bytes, each a hexadecimal digit of either case.
pub open spec fn hex_decodable(text: Seq<u8>) -> bool {
    &&& text.len() % 2 == 0
    &&& forall|i: int| 0 <= i < text.len() ==> is_hex_byte(#[trigger] text[i])
}

/// The bytes that hexadecimal text stands for: each pair of digits is one
/// byte, the first digit of the pair being the high half.
pub open spec fn hex_decode_bytes(text: Seq<u8>) -> Seq<u8>
    decreases text.len(),
{
    if text.len() < 2 {
        Seq::empty()
    } else {
        seq![(hex_byte_value(text[0]) * 16 + hex_byte_value(text[1])) as u8] + hex_decode_bytes(
            text.subrange(2, text.len() as int),
        )
    }
}

/// The bytes of hexadecimal text held as characters (its UTF-8 encoding),
/// decoded, or nothing where they are not hexadecimal text.
pub open spec fn decode_or_empty(text: Seq<char>) -> Seq<u8> {
    let bytes = encode_utf8(text);
    if hex_decodable(bytes) {
        hex_decode_bytes(bytes)
    } else {
        Seq::empty()
    }
}

/// `hex::encode`: the crate writes each byte as two lowercase hexadecimal
/// digits, high half first, so the text is `hex_encode_chars` of the bytes.
#[verifier::external_body]
pub fn hex_encode(data: &[u8]) -> (text: String)
    ensures
        text@ == hex_encode_chars(data@),
{
    hex::encode(data)
}

/// `hex::decode`: the crate fails on an odd number of bytes or on a byte
/// that is no hexadecimal digit (either case is accepted), and otherwise
/// turns each pair of digits into one byte, high half first.
/// Which error comes back is left unsaid.
#[verifier::external_body]
pub fn hex_decode(text: &[u8]) -> (res: Result<Vec<u8>, hex::FromHexError>)
    ensures
        res is Ok <==> hex_decodable(text@),
        res matches Ok(v) ==> v@ == hex_decode_bytes(text@),
{
    hex::decode(text)
}

/// The error of `hex::decode`.
#[verifier::external_type_specification]
#[verifier::external_body]
pub struct ExFromHexError(hex::FromHexError);

/// Hexadecimal text is ASCII and twice as long as the bytes it encodes.
pub proof fn lemma_hex_encode_ascii(bytes: Seq<u8>)
    ensures
        hex_encode_chars(bytes).len() == 2 * bytes.len(),
        is_ascii_chars(hex_encode_chars(bytes)),
        forall|i: int|
            0 <= i < hex_encode_chars(bytes).len() ==> is_hex_byte(
                #[trigger] hex_encode_chars(bytes)[i] as u8,
            ),
    decreases bytes.len(),
{
    if bytes.len() > 0 {
        lemma_hex_encode_ascii(bytes.drop_first());
        let rest = hex_encode_chars(bytes.drop_first());
        let hi = bytes[0] as int / 16;
        let lo = bytes[0] as int % 16;
        let e = hex_encode_chars(bytes);
        assert(e == seq![hex_digit(hi), hex_digit(lo)] + rest);
        assert forall|i: int| 0 <= i < e.len() implies '\0' <= #[trigger] e[i] <= '\u{7f}'
            && is_hex_byte(e[i] as u8) by {
            if i >= 2 {
                assert(e[i] == rest[i - 2]);
            }
        }
    }
}

/// Decoding the bytes of the hexadecimal text of `bytes` gives `bytes` back.
pub proof fn lemma_hex_round_trip(bytes: Seq<u8>)
    ensures
        hex_decodable(encode_utf8(hex_encode_chars(bytes))),
        hex_decode_bytes(encode_utf8(hex_encode_chars(bytes))) == bytes,
        decode_or_empty(hex_encode_chars(bytes)) == bytes,
{
    let e = hex_encode_chars(bytes);
    lemma_hex_encode_ascii(bytes);
    is_ascii_chars_encode_utf8(e);
    let b = encode_utf8(e);
    assert(b =~= ascii_bytes(e));
    lemma_hex_round_trip_ascii(bytes);
}

/// The bytes of ASCII characters, one per character.
pub open spec fn ascii_bytes(chars: Seq<char>) -> Seq<u8> {
    Seq::new(chars.len(), |i: int| chars[i] as u8)
}

proof fn lemma_hex_round_trip_ascii(bytes: Seq<u8>)
    ensures
        hex_decodable(ascii_bytes(hex_encode_chars(bytes))),
        hex_decode_bytes(ascii_bytes(hex_encode_chars(bytes))) == bytes,
    decreases bytes.len(),
{
    lemma_hex_encode_ascii(bytes);
    let a = ascii_bytes(hex_encode_chars(bytes));
    if bytes.len() > 0 {
        lemma_hex_round_trip_ascii(bytes.drop_first());
        let rest = ascii_bytes(hex_encode_chars(bytes.drop_first()));
        assert(a.subrange(2, a.len() as int) =~= rest);
        let hi = bytes[0] as int / 16;
        let lo = bytes[0] as int % 16;
        assert(a[0] == hex_digit(hi) as u8);
        assert(a[1] == hex_digit(lo) as u8);
        assert(hex_byte_value(a[0]) == hi);
        assert(hex_byte_value(a[1]) == lo);
        assert(hex_decode_bytes(a) =~= bytes);
    } else {
        assert(hex_decode_bytes(a) =~= bytes);
    }
}

} // verus!
