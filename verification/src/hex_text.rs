//! Hexadecimal text of byte strings, through the `hex` crate.

use vstd::prelude::*;
use vstd::string::*;
use vstd::utf8::*;

verus! {

/// The ASCII code of the lowercase hexadecimal digit of `n`, for `n < 16`.
pub open spec fn hex_digit_byte(n: u8) -> u8 {
    if n < 10 {
        (0x30 + n) as u8
    } else {
        (0x61 + n - 10) as u8
    }
}

/// The lowercase hexadecimal digit of `n`, for `n < 16`.
pub open spec fn hex_digit(n: u8) -> char {
    hex_digit_byte(n) as char
}

/// Two lowercase hexadecimal digits per byte, high nibble first.
pub open spec fn hex_encoding(b: Seq<u8>) -> Seq<char>
    decreases b.len(),
{
    if b.len() == 0 {
        Seq::empty()
    } else {
        seq![hex_digit(b[0] / 16), hex_digit(b[0] % 16)] + hex_encoding(b.drop_first())
    }
}

/// The value of the hexadecimal digit written by the byte `c`, in either case.
pub open spec fn hex_value(c: u8) -> Option<u8> {
    if 0x30 <= c <= 0x39 {
        Some((c - 0x30) as u8)
    } else if 0x41 <= c <= 0x46 {
        Some((c - 0x41 + 10) as u8)
    } else if 0x61 <= c <= 0x66 {
        Some((c - 0x61 + 10) as u8)
    } else {
        None
    }
}

/// The bytes written by pairs of hexadecimal digits.
pub open spec fn hex_pairs(b: Seq<u8>) -> Seq<u8>
    decreases b.len(),
{
    if b.len() < 2 {
        Seq::empty()
    } else {
        seq![(hex_value(b[0])->0 * 16 + hex_value(b[1])->0) as u8] + hex_pairs(b.skip(2))
    }
}

/// Why hexadecimal text could not be decoded; the variants of
/// `hex::FromHexError`.
#[derive(Debug, Clone, Copy, PartialEq, Eq)]
pub enum HexError {
    /// The byte at `index` is no hexadecimal digit; `c` is that byte as a `char`.
    InvalidHexCharacter { c: char, index: usize },
    /// The text has an odd number of bytes.
    OddLength,
    /// The text does not fit a container of fixed size.
    InvalidStringLength,
}

/// `i` is the position of the first byte of `b` that is no hexadecimal digit.
pub open spec fn first_bad_hex(b: Seq<u8>, i: int) -> bool {
    &&& 0 <= i < b.len()
    &&& hex_value(b[i]) is None
    &&& forall|j: int| 0 <= j < i ==> hex_value(#[trigger] b[j]) is Some
}

/// What decoding the hexadecimal text with bytes `b` gives.
pub open spec fn hex_decoding(b: Seq<u8>) -> Result<Seq<u8>, HexError> {
    if b.len() % 2 != 0 {
        Err(HexError::OddLength)
    } else if forall|j: int| 0 <= j < b.len() ==> hex_value(#[trigger] b[j]) is Some {
        Ok(hex_pairs(b))
    } else {
        let i = choose|i: int| first_bad_hex(b, i);
        Err(HexError::InvalidHexCharacter { c: b[i] as char, index: i as usize })
    }
}

/// The plain view of a decoding result.
pub open spec fn hex_result(r: Result<Vec<u8>, HexError>) -> Result<Seq<u8>, HexError> {
    match r {
        Ok(v) => Ok(v@),
        Err(e) => Err(e),
    }
}

/// Calls `hex::encode` on `bytes`. Claims that the result is two
/// lowercase hexadecimal digits per byte, high nibble first.
#[verifier::external_body]
fn hex_encode(bytes: &[u8]) -> (res: String)
    ensures
        res@ == hex_encoding(bytes@),
{
    hex::encode(bytes)
}

/// Calls `hex::decode` on the bytes of `text`, and carries its error over
/// to `HexError`, variant for variant.
/// Claims: an odd number of bytes gives `OddLength`; else the first byte
/// that is no digit (either case) gives `InvalidHexCharacter` with that
/// byte as a `char` and its position; else each pair of digits gives a byte.
#[verifier::external_body]
pub(crate) fn hex_decode(text: &str) -> (res: Result<Vec<u8>, HexError>)
    ensures
        hex_result(res) == hex_decoding(text.spec_bytes()),
{
    match hex::decode(text) {
        Ok(v) => Ok(v),
        Err(hex::FromHexError::InvalidHexCharacter { c, index }) => Err(
            HexError::InvalidHexCharacter { c, index },
        ),
        Err(hex::FromHexError::OddLength) => Err(HexError::OddLength),
        Err(hex::FromHexError::InvalidStringLength) => Err(HexError::InvalidStringLength),
    }
}

/// The lowercase hexadecimal text of `bytes`.
pub fn hex_string(bytes: &[u8]) -> (res: String)
    ensures
        res@ == hex_encoding(bytes@),
{
    hex_encode(bytes)
}

/// The ASCII bytes of the hexadecimal text of `b`.
spec fn hex_encoding_bytes(b: Seq<u8>) -> Seq<u8>
    decreases b.len(),
{
    if b.len() == 0 {
        Seq::empty()
    } else {
        seq![hex_digit_byte(b[0] / 16), hex_digit_byte(b[0] % 16)] + hex_encoding_bytes(
            b.drop_first(),
        )
    }
}

proof fn lemma_encode_utf8_concat(a: Seq<char>, b: Seq<char>)
    ensures
        encode_utf8(a + b) == encode_utf8(a) + encode_utf8(b),
    decreases a.len(),
{
    if a.len() > 0 {
        assert((a + b).drop_first() =~= a.drop_first() + b);
        lemma_encode_utf8_concat(a.drop_first(), b);
        assert(encode_utf8(a + b) =~= encode_utf8(a) + encode_utf8(b));
    }
}

proof fn lemma_encode_ascii_char(c: char)
    requires
        (c as u32) < 0x80,
    ensures
        encode_utf8(seq![c]) == seq![c as u8],
{
    let s = seq![c];
    assert(is_ascii_chars(s));
    is_ascii_chars_encode_utf8(s);
    assert(encode_utf8(s) =~= seq![c as u8]);
}

proof fn lemma_hex_encoding_ascii(b: Seq<u8>)
    ensures
        encode_utf8(hex_encoding(b)) == hex_encoding_bytes(b),
    decreases b.len(),
{
    if b.len() > 0 {
        let c1 = hex_digit(b[0] / 16);
        let c2 = hex_digit(b[0] % 16);
        let rest = hex_encoding(b.drop_first());
        lemma_hex_encoding_ascii(b.drop_first());
        lemma_encode_ascii_char(c1);
        lemma_encode_ascii_char(c2);
        assert(seq![c1, c2] + rest =~= seq![c1] + (seq![c2] + rest));
        lemma_encode_utf8_concat(seq![c1], seq![c2] + rest);
        lemma_encode_utf8_concat(seq![c2], rest);
        assert(encode_utf8(hex_encoding(b)) =~= hex_encoding_bytes(b));
    }
}

proof fn lemma_hex_bytes_decode(b: Seq<u8>)
    ensures
        hex_encoding_bytes(b).len() == 2 * b.len(),
        forall|j: int|
            0 <= j < hex_encoding_bytes(b).len() ==> hex_value(
                #[trigger] hex_encoding_bytes(b)[j],
            ) is Some,
        hex_pairs(hex_encoding_bytes(b)) == b,
    decreases b.len(),
{
    if b.len() > 0 {
        let e = hex_encoding_bytes(b);
        let rest = hex_encoding_bytes(b.drop_first());
        lemma_hex_bytes_decode(b.drop_first());
        assert(e.skip(2) =~= rest);
        assert forall|j: int| 0 <= j < e.len() implies hex_value(#[trigger] e[j]) is Some by {
            if j >= 2 {
                assert(e[j] == rest[j - 2]);
            }
        }
        assert(hex_pairs(e) =~= b);
    }
}

/// Decoding the hexadecimal text of bytes gives the bytes back.
pub proof fn law_hex_roundtrip(b: Seq<u8>)
    ensures
        hex_decoding(encode_utf8(hex_encoding(b))) == Ok::<Seq<u8>, HexError>(b),
{
    lemma_hex_encoding_ascii(b);
    lemma_hex_bytes_decode(b);
}

} // verus!
