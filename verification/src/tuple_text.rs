//! Tuples written as text, such as `(user-1)`, and their FoundationDB
//! tuple-layer encoding.
//!
//! A one-element tuple holding a string is encoded as the type code `0x02`,
//! the UTF-8 bytes of the string with every `0x00` escaped as `0x00 0xFF`,
//! and a terminating `0x00`.

use vstd::prelude::*;
use vstd::string::*;
use vstd::utf8::*;

use crate::text::{
    is_whitespace, law_trim_ignores_leading_white, law_trim_ignores_line_ending,
    law_trim_ignores_trailing_white, lemma_trim_fixed, lemma_trim_idempotent, trim,
    trim_str,
};

verus! {

/// `b` with every `0x00` byte written as `0x00 0xFF`.
pub open spec fn escape_nul(b: Seq<u8>) -> Seq<u8>
    decreases b.len(),
{
    if b.len() == 0 {
        Seq::empty()
    } else {
        (if b[0] == 0u8 {
            seq![0u8, 0xFFu8]
        } else {
            seq![b[0]]
        }) + escape_nul(b.drop_first())
    }
}

/// The tuple-layer encoding of the one-element tuple `(s,)`.
pub open spec fn tuple_string_encoding(s: Seq<char>) -> Seq<u8> {
    seq![0x02u8] + escape_nul(encode_utf8(s)) + seq![0x00u8]
}

/// The encoding of `(s,)` is short enough for the tuple layer, whose
/// encoder counts sizes in a `u32` and panics beyond it.
pub open spec fn fits_tuple_limit(s: Seq<char>) -> bool {
    tuple_string_encoding(s).len() <= u32::MAX
}

/// `bytes` is the encoding of a one-element tuple holding a string.
pub open spec fn is_string_tuple(bytes: Seq<u8>) -> bool {
    exists|v: Seq<char>| bytes == #[trigger] tuple_string_encoding(v)
}

/// The string that `bytes` encodes, where `is_string_tuple(bytes)`.
pub open spec fn string_tuple_value(bytes: Seq<u8>) -> Seq<char> {
    choose|v: Seq<char>| bytes == #[trigger] tuple_string_encoding(v)
}

/// The `Debug` text of the error that `foundationdb_tuple::unpack::<(String,)>`
/// returns on `bytes`.
pub uninterp spec fn tuple_unpack_error_text(bytes: Seq<u8>) -> Seq<char>;

/// Calls `foundationdb_tuple::pack` on the one-element tuple `(s,)`.
/// Claims that the result is the tuple-layer encoding of `(s,)`: code
/// `0x02`, the escaped UTF-8 bytes and `0x00`. The encoder panics when the
/// encoding does not fit in a `u32`; `requires` leaves those inputs out.
#[verifier::external_body]
fn pack_string_tuple(s: &str) -> (res: Vec<u8>)
    requires
        fits_tuple_limit(s@),
    ensures
        res@ == tuple_string_encoding(s@),
{
    foundationdb_tuple::pack(&(s,))
}

/// Calls `foundationdb_tuple::unpack::<(String,)>` on `bytes`, and turns its
/// error into its `Debug` text.
/// Claims that it succeeds exactly on the encodings of one-element string
/// tuples, giving back the encoded string, and that otherwise the error
/// text is the named function of `bytes`.
#[verifier::external_body]
fn unpack_string_tuple(bytes: &[u8]) -> (res: Result<String, String>)
    ensures
        match res {
            Ok(s) => bytes@ == tuple_string_encoding(s@),
            Err(e) => !is_string_tuple(bytes@) && e@ == tuple_unpack_error_text(bytes@),
        },
{
    match foundationdb_tuple::unpack::<(String,)>(bytes) {
        Ok(t) => Ok(t.0),
        Err(e) => Err(format!("{:?}", e)),
    }
}

/// The plain view of a result carrying text.
pub open spec fn text_result(r: Result<String, String>) -> Result<Seq<char>, Seq<char>> {
    match r {
        Ok(a) => Ok(a@),
        Err(e) => Err(e@),
    }
}

/// The plain view of a result carrying bytes.
pub open spec fn bytes_result(r: Result<Vec<u8>, String>) -> Result<Seq<u8>, Seq<char>> {
    match r {
        Ok(a) => Ok(a@),
        Err(e) => Err(e@),
    }
}

/// `t` is non-empty, starts with `(` and ends with `)`.
pub open spec fn is_paren_wrapped(t: Seq<char>) -> bool {
    t.len() > 0 && t[0] == '(' && t.last() == ')'
}

/// What the tuple text `s` holds: after trimming, it must be wrapped in
/// parentheses, and its value is what stands between them, trimmed.
pub open spec fn parse_tuple_text(s: Seq<char>) -> Result<Seq<char>, Seq<char>> {
    let t = trim(s);
    if is_paren_wrapped(t) {
        Ok(trim(t.subrange(1, t.len() - 1)))
    } else {
        Err("Expected (value), got: "@ + t)
    }
}

/// What packing the tuple text `s` gives: its encoding, or the parse error.
pub open spec fn pack_tuple_text(s: Seq<char>) -> Result<Seq<u8>, Seq<char>> {
    match parse_tuple_text(s) {
        Ok(v) => Ok(tuple_string_encoding(v)),
        Err(e) => Err(e),
    }
}

/// The tuple text packing `s` needs no more than the tuple layer allows.
pub open spec fn packable_tuple_text(s: Seq<char>) -> bool {
    parse_tuple_text(s) matches Ok(v) ==> fits_tuple_limit(v)
}

/// What unpacking `bytes` gives: the string written as `(value)`, or the
/// unpack error.
pub open spec fn unpack_tuple_text(bytes: Seq<u8>) -> Result<Seq<char>, Seq<char>> {
    if is_string_tuple(bytes) {
        Ok("("@ + string_tuple_value(bytes) + ")"@)
    } else {
        Err("unpack error: "@ + tuple_unpack_error_text(bytes))
    }
}

/// Very simple tuple parser: expects `(value)` and uses it as a
/// single-string tuple.
pub fn parse_simple_tuple_str(tuple_str: &str) -> (res: Result<String, String>)
    ensures
        text_result(res) == parse_tuple_text(tuple_str@),
{
    let t = trim_str(tuple_str);
    let n = t.unicode_len();
    if n == 0 || t.get_char(0) != '(' || t.get_char(n - 1) != ')' {
        let mut msg = String::from_str("Expected (value), got: ");
        msg.append(t);
        return Err(msg);
    }
    let inner = t.substring_char(1, n - 1);
    let v = trim_str(inner);
    Ok(String::from_str(v))
}

/// Pack a tuple string into bytes without a directory (global tuple).
/// Currently supports `(value)` as a single string.
pub fn tuple_pack_from_string(tuple_str: &str) -> (res: Result<Vec<u8>, String>)
    requires
        packable_tuple_text(tuple_str@),
    ensures
        bytes_result(res) == pack_tuple_text(tuple_str@),
{
    match parse_simple_tuple_str(tuple_str) {
        Ok(v) => Ok(pack_string_tuple(v.as_str())),
        Err(e) => Err(e),
    }
}

/// Unpack raw bytes into a simple tuple string like `(value)`.
pub fn tuple_unpack_to_string(bytes: &[u8]) -> (res: Result<String, String>)
    ensures
        text_result(res) == unpack_tuple_text(bytes@),
{
    match unpack_string_tuple(bytes) {
        Ok(s) => {
            proof {
                assert(is_string_tuple(bytes@));
                lemma_tuple_string_encoding_injective(s@, string_tuple_value(bytes@));
            }
            let mut out = String::from_str("(");
            out.append(s.as_str());
            out.append(")");
            Ok(out)
        },
        Err(d) => {
            let mut out = String::from_str("unpack error: ");
            out.append(d.as_str());
            Err(out)
        },
    }
}

/// The number of `0x00` bytes in `b`.
pub open spec fn nul_count(b: Seq<u8>) -> nat
    decreases b.len(),
{
    if b.len() == 0 {
        0
    } else {
        (if b[0] == 0u8 {
            1nat
        } else {
            0nat
        }) + nul_count(b.drop_first())
    }
}

/// Escaping adds one byte per `0x00` byte.
pub proof fn lemma_escape_nul_len(b: Seq<u8>)
    ensures
        escape_nul(b).len() == b.len() + nul_count(b),
    decreases b.len(),
{
    if b.len() > 0 {
        lemma_escape_nul_len(b.drop_first());
    }
}

/// The length of the encoding of `(s,)`, where it is no longer than `u32`
/// allows; `None` where it is longer.
pub fn tuple_string_encoding_len(s: &str) -> (len: Option<u64>)
    ensures
        len matches Some(n) ==> n == tuple_string_encoding(s@).len() && n <= u32::MAX,
        len is None ==> tuple_string_encoding(s@).len() > u32::MAX,
{
    let b = s.as_bytes();
    let n = b.len();
    proof {
        lemma_escape_nul_len(encode_utf8(s@));
    }
    if n > u32::MAX as usize {
        return None;
    }
    let mut count: usize = 0;
    let mut i: usize = n;
    while i > 0
        invariant
            n == b@.len(),
            n <= u32::MAX,
            i <= n,
            count == nul_count(b@.skip(i as int)),
            count <= n - i,
        decreases i,
    {
        assert(b@.skip(i - 1).drop_first() =~= b@.skip(i as int));
        if b[i - 1] == 0 {
            count = count + 1;
        }
        i = i - 1;
    }
    assert(b@.skip(0) =~= b@);
    let total = (n as u64) + (count as u64) + 2;
    if total <= u32::MAX as u64 {
        Some(total)
    } else {
        None
    }
}

/// Decides whether the encoding of `(s,)` stays within what the tuple layer
/// allows.
pub fn string_fits_tuple_limit(s: &str) -> (ok: bool)
    ensures
        ok == fits_tuple_limit(s@),
{
    tuple_string_encoding_len(s).is_some()
}

/// Decides whether packing the tuple text `tuple_str` stays within what the
/// tuple layer allows; the packing functions require it.
pub fn tuple_text_packable(tuple_str: &str) -> (ok: bool)
    ensures
        ok == packable_tuple_text(tuple_str@),
{
    match parse_simple_tuple_str(tuple_str) {
        Ok(v) => string_fits_tuple_limit(v.as_str()),
        Err(_) => true,
    }
}

/// Undoes `escape_nul`.
spec fn unescape_nul(b: Seq<u8>) -> Seq<u8>
    decreases b.len(),
{
    if b.len() == 0 {
        Seq::empty()
    } else if b[0] == 0u8 && b.len() >= 2 {
        seq![0u8] + unescape_nul(b.subrange(2, b.len() as int))
    } else {
        seq![b[0]] + unescape_nul(b.drop_first())
    }
}

proof fn lemma_unescape_escape(b: Seq<u8>)
    ensures
        unescape_nul(escape_nul(b)) == b,
    decreases b.len(),
{
    if b.len() > 0 {
        let e = escape_nul(b);
        lemma_unescape_escape(b.drop_first());
        if b[0] == 0u8 {
            assert(e.subrange(2, e.len() as int) =~= escape_nul(b.drop_first()));
        } else {
            assert(e.drop_first() =~= escape_nul(b.drop_first()));
        }
        assert(unescape_nul(e) =~= b);
    }
}

/// Different strings have different encodings.
pub proof fn lemma_tuple_string_encoding_injective(v1: Seq<char>, v2: Seq<char>)
    requires
        tuple_string_encoding(v1) == tuple_string_encoding(v2),
    ensures
        v1 == v2,
{
    let e1 = escape_nul(encode_utf8(v1));
    let e2 = escape_nul(encode_utf8(v2));
    let t1 = tuple_string_encoding(v1);
    let t2 = tuple_string_encoding(v2);
    assert(t1.subrange(1, t1.len() - 1) =~= e1);
    assert(t2.subrange(1, t2.len() - 1) =~= e2);
    lemma_unescape_escape(encode_utf8(v1));
    lemma_unescape_escape(encode_utf8(v2));
    encode_utf8_decode_utf8(v1);
    encode_utf8_decode_utf8(v2);
}

/// Packing tuple text and unpacking the resulting bytes gives back the
/// parsed value written as `(value)`.
pub proof fn law_pack_then_unpack(s: Seq<char>)
    requires
        parse_tuple_text(s) is Ok,
    ensures
        pack_tuple_text(s) matches Ok(b) && unpack_tuple_text(b) == Ok::<Seq<char>, Seq<char>>(
            "("@ + parse_tuple_text(s)->Ok_0 + ")"@,
        ),
{
    let v = parse_tuple_text(s)->Ok_0;
    let b = tuple_string_encoding(v);
    assert(is_string_tuple(b));
    lemma_tuple_string_encoding_injective(v, string_tuple_value(b));
}

/// A parsed value written back as `(value)` parses to the same value.
pub proof fn law_parsed_value_reparses(s: Seq<char>)
    requires
        parse_tuple_text(s) is Ok,
    ensures
        parse_tuple_text("("@ + parse_tuple_text(s)->Ok_0 + ")"@) == parse_tuple_text(s),
{
    let t = trim(s);
    let v = trim(t.subrange(1, t.len() - 1));
    lemma_wrapped_parses(v);
    lemma_trim_idempotent(t.subrange(1, t.len() - 1));
}

/// Unpacking the bytes of a string without surrounding whitespace and
/// packing the text that comes out gives back the same bytes.
pub proof fn law_unpack_then_pack(b: Seq<u8>)
    requires
        is_string_tuple(b),
        trim(string_tuple_value(b)) == string_tuple_value(b),
    ensures
        unpack_tuple_text(b) matches Ok(t) && pack_tuple_text(t) == Ok::<Seq<u8>, Seq<char>>(b),
{
    let v = string_tuple_value(b);
    lemma_wrapped_parses(v);
}

/// `(v)` parses to `trim(v)`.
pub proof fn lemma_wrapped_parses(v: Seq<char>)
    ensures
        parse_tuple_text("("@ + v + ")"@) == Ok::<Seq<char>, Seq<char>>(trim(v)),
{
    reveal_strlit("(");
    reveal_strlit(")");
    let w = "("@ + v + ")"@;
    assert(w[0] == '(');
    assert(w.last() == ')');
    assert(!is_whitespace('('));
    assert(!is_whitespace(')'));
    lemma_trim_fixed(w);
    assert(w.subrange(1, w.len() - 1) =~= v);
}

/// A line ending, `\r\n`, after tuple text does not change what it parses to.
pub proof fn law_parse_ignores_line_ending(s: Seq<char>)
    ensures
        parse_tuple_text(s + seq!['\r', '\n']) == parse_tuple_text(s),
{
    law_trim_ignores_line_ending(s);
}

/// Whitespace before or after tuple text does not change what it parses to.
pub proof fn law_parse_ignores_surrounding_white(s: Seq<char>, c: char)
    requires
        is_whitespace(c),
    ensures
        parse_tuple_text(seq![c] + s) == parse_tuple_text(s),
        parse_tuple_text(s.push(c)) == parse_tuple_text(s),
{
    law_trim_ignores_leading_white(s, c);
    law_trim_ignores_trailing_white(s, c);
}

} // verus!
