use snm_fdbcli::tuple_text::tuple_text_packable;
use snm_fdbcli::{parse_simple_tuple_str, tuple_pack_from_string, tuple_unpack_to_string};

#[test]
fn tuple_pack_and_unpack_roundtrip() {
    let input = "(alice)";
    let bytes = tuple_pack_from_string(input).expect("pack should succeed");
    let out = tuple_unpack_to_string(&bytes).expect("unpack should succeed");
    assert_eq!(out, "(alice)");
}

#[test]
fn tuple_pack_rejects_invalid_format() {
    // Missing parentheses
    assert!(tuple_pack_from_string("alice").is_err());
    // Bad parentheses
    assert!(tuple_pack_from_string("(alice").is_err());
    assert!(tuple_pack_from_string("alice)").is_err());
}

#[test]
fn parse_trims_outside_and_inside() {
    assert_eq!(parse_simple_tuple_str("  ( bob )\n").unwrap(), "bob");
    assert_eq!(parse_simple_tuple_str("()").unwrap(), "");
    assert_eq!(parse_simple_tuple_str("(a b)").unwrap(), "a b");
    // U+3000 IDEOGRAPHIC SPACE and U+00A0 are Unicode whitespace too.
    assert_eq!(parse_simple_tuple_str("\u{3000}(\u{a0}x\u{a0})\u{3000}").unwrap(), "x");
}

#[test]
fn parse_error_message_shows_trimmed_text() {
    assert_eq!(
        parse_simple_tuple_str("  alice  ").unwrap_err(),
        "Expected (value), got: alice"
    );
    assert_eq!(parse_simple_tuple_str("(").unwrap_err(), "Expected (value), got: (");
    assert_eq!(parse_simple_tuple_str("   ").unwrap_err(), "Expected (value), got: ");
    assert_eq!(parse_simple_tuple_str(")(").unwrap_err(), "Expected (value), got: )(");
}

#[test]
fn pack_gives_tuple_layer_encoding() {
    assert_eq!(
        tuple_pack_from_string("(alice)").unwrap(),
        vec![0x02, b'a', b'l', b'i', b'c', b'e', 0x00]
    );
    // A NUL inside the string is escaped as 0x00 0xFF.
    assert_eq!(
        tuple_pack_from_string("(a\u{0}b)").unwrap(),
        vec![0x02, b'a', 0x00, 0xFF, b'b', 0x00]
    );
    // Non-ASCII text is stored as UTF-8.
    assert_eq!(tuple_pack_from_string("(\u{d4})").unwrap(), vec![0x02, 0xC3, 0x94, 0x00]);
    assert_eq!(tuple_pack_from_string("()").unwrap(), vec![0x02, 0x00]);
}

#[test]
fn pack_error_is_parse_error() {
    assert_eq!(
        tuple_pack_from_string("user-1").unwrap_err(),
        "Expected (value), got: user-1"
    );
}

#[test]
fn unpack_gives_value_in_parentheses() {
    assert_eq!(tuple_unpack_to_string(&[0x02, b'h', b'i', 0x00]).unwrap(), "(hi)");
    assert_eq!(
        tuple_unpack_to_string(&[0x02, b'a', 0x00, 0xFF, b'b', 0x00]).unwrap(),
        "(a\u{0}b)"
    );
    assert_eq!(tuple_unpack_to_string(&[0x02, 0x00]).unwrap(), "()");
}

#[test]
fn unpack_errors_name_the_cause() {
    assert_eq!(
        tuple_unpack_to_string(&[0x01, b'a', 0x00]).unwrap_err(),
        "unpack error: BadCode { found: 1, expected: Some(2) }"
    );
    assert_eq!(
        tuple_unpack_to_string(&[0x02, b'a', 0x00, 0x05]).unwrap_err(),
        "unpack error: TrailingBytes"
    );
    assert_eq!(
        tuple_unpack_to_string(&[0x02, b'a']).unwrap_err(),
        "unpack error: MissingBytes"
    );
    assert_eq!(
        tuple_unpack_to_string(&[0x02, 0xFF, 0x00]).unwrap_err(),
        "unpack error: BadStringFormat"
    );
    assert!(tuple_unpack_to_string(&[]).unwrap_err().starts_with("unpack error: "));
}

#[test]
fn pack_then_unpack_gives_parsed_value() {
    for text in ["(user-1)", "  ( spaced out )  ", "(a\u{0}b)", "(\u{d4}O)", "()"] {
        let value = parse_simple_tuple_str(text).unwrap();
        let bytes = tuple_pack_from_string(text).unwrap();
        assert_eq!(tuple_unpack_to_string(&bytes).unwrap(), format!("({})", value));
    }
}

#[test]
fn parsed_value_reparses() {
    let value = parse_simple_tuple_str("  (  v a l  ) ").unwrap();
    assert_eq!(parse_simple_tuple_str(&format!("({})", value)).unwrap(), value);
}

#[test]
fn unpack_then_pack_gives_same_bytes() {
    let bytes = vec![0x02, b'k', b'e', b'y', 0x00];
    let text = tuple_unpack_to_string(&bytes).unwrap();
    assert_eq!(tuple_pack_from_string(&text).unwrap(), bytes);
    // A value with surrounding whitespace does not come back the same.
    let spaced = vec![0x02, b' ', b'k', 0x00];
    let text = tuple_unpack_to_string(&spaced).unwrap();
    assert_eq!(tuple_pack_from_string(&text).unwrap(), vec![0x02, b'k', 0x00]);
}

#[test]
fn packable_checks_parsed_value() {
    assert!(tuple_text_packable("(alice)"));
    assert!(tuple_text_packable("not a tuple"));
    assert!(tuple_text_packable("(a\u{0}\u{0})"));
}
