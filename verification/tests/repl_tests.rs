use snm_fdbcli::hex_text::{hex_string, HexError};
use snm_fdbcli::repl::{
    classify_line, history_location, join_with_spaces, keypack_reply, keyunpack_reply,
    parse_command, split_words, ReplCommand, ReplInput, UnpackReply,
};
use snm_fdbcli::text::{str_eq_ignore_ascii_case, trim_str};

fn strings(v: &[&str]) -> Vec<String> {
    v.iter().map(|s| s.to_string()).collect()
}

#[test]
fn classify_blank_quit_help() {
    assert!(matches!(classify_line(""), ReplInput::Blank));
    assert!(matches!(classify_line(" \t \n"), ReplInput::Blank));
    assert!(matches!(classify_line("quit"), ReplInput::Quit));
    assert!(matches!(classify_line("  QuIt  "), ReplInput::Quit));
    assert!(matches!(classify_line("EXIT"), ReplInput::Quit));
    assert!(matches!(classify_line("Help"), ReplInput::Help));
    // Only the whole line counts.
    assert!(matches!(classify_line("quit now"), ReplInput::Command { .. }));
}

#[test]
fn classify_command_words() {
    match classify_line("  range   srotas\tlogins (user-1)  ") {
        ReplInput::Command { cmd, args } => {
            assert_eq!(cmd, "range");
            assert_eq!(args, strings(&["srotas", "logins", "(user-1)"]));
        }
        other => panic!("unexpected {:?}", other),
    }
    match classify_line("dump-all") {
        ReplInput::Command { cmd, args } => {
            assert_eq!(cmd, "dump-all");
            assert!(args.is_empty());
        }
        other => panic!("unexpected {:?}", other),
    }
}

#[test]
fn split_words_and_trim() {
    assert_eq!(split_words("  a  bb\u{3000}c "), strings(&["a", "bb", "c"]));
    assert!(split_words("   ").is_empty());
    assert_eq!(trim_str("\u{2028} x y \u{85}"), "x y");
    assert!(str_eq_ignore_ascii_case("HeLP", "help"));
    assert!(!str_eq_ignore_ascii_case("helps", "help"));
    assert_eq!(join_with_spaces(&["(user-1,", "1)"]), "(user-1, 1)");
    assert_eq!(join_with_spaces(&[]), "");
}

#[test]
fn parse_simple_commands() {
    assert!(matches!(parse_command("init", &["x"]), ReplCommand::Init));
    assert!(matches!(parse_command("dump-all", &[]), ReplCommand::DumpAll));
    match parse_command("seed", &[]) {
        ReplCommand::Seed { user } => assert_eq!(user, "user-1"),
        other => panic!("unexpected {:?}", other),
    }
    match parse_command("seed", &["bob", "extra"]) {
        ReplCommand::Seed { user } => assert_eq!(user, "bob"),
        other => panic!("unexpected {:?}", other),
    }
    match parse_command("show-user", &["bob"]) {
        ReplCommand::ShowUser { user } => assert_eq!(user, "bob"),
        other => panic!("unexpected {:?}", other),
    }
    match parse_command("show-wallet", &["bob"]) {
        ReplCommand::ShowWallet { user } => assert_eq!(user, "bob"),
        other => panic!("unexpected {:?}", other),
    }
    match parse_command("logins", &["bob"]) {
        ReplCommand::Logins { user } => assert_eq!(user, "bob"),
        other => panic!("unexpected {:?}", other),
    }
    match parse_command("orders", &["bob"]) {
        ReplCommand::Orders { user } => assert_eq!(user, "bob"),
        other => panic!("unexpected {:?}", other),
    }
}

fn usage_of(cmd: &str, args: &[&str]) -> String {
    match parse_command(cmd, args) {
        ReplCommand::Usage { message } => message,
        other => panic!("expected usage, got {:?}", other),
    }
}

#[test]
fn parse_usage_messages() {
    assert_eq!(usage_of("show-user", &[]), "Usage: show-user <user_id>");
    assert_eq!(usage_of("show-wallet", &[]), "Usage: show-wallet <user_id>");
    assert_eq!(usage_of("logins", &[]), "Usage: logins <user_id>");
    assert_eq!(usage_of("orders", &[]), "Usage: orders <user_id>");
    assert_eq!(usage_of("dircreate", &[]), "Usage: dircreate <path...>");
    assert_eq!(usage_of("keypack", &[]), "Usage: keypack (value)");
    assert_eq!(usage_of("pack", &[]), "Usage: pack (value)");
    assert_eq!(usage_of("keyunpack", &[]), "Usage: keyunpack <hex>");
    assert_eq!(usage_of("unpack", &[]), "Usage: unpack <hex>");
    assert_eq!(usage_of("clearprefix", &["srotas"]), "Usage: clearprefix <path...> (tuple)");
    assert_eq!(usage_of("range", &[]), "Usage: range <path...> (tuple)");
    assert_eq!(usage_of("delkey", &["(x)"]), "Usage: delkey <path...> (tuple)");
}

#[test]
fn parse_directory_and_tuple_commands() {
    match parse_command("dircreate", &["srotas", "users"]) {
        ReplCommand::DirCreate { path } => assert_eq!(path, strings(&["srotas", "users"])),
        other => panic!("unexpected {:?}", other),
    }
    match parse_command("dirlist", &[]) {
        ReplCommand::DirList { path } => assert!(path.is_empty()),
        other => panic!("unexpected {:?}", other),
    }
    match parse_command("pack", &["(user-1,", "1)"]) {
        ReplCommand::KeyPack { tuple } => assert_eq!(tuple, "(user-1, 1)"),
        other => panic!("unexpected {:?}", other),
    }
    match parse_command("keyunpack", &["0200", "x"]) {
        ReplCommand::KeyUnpack { hex } => assert_eq!(hex, "0200"),
        other => panic!("unexpected {:?}", other),
    }
    match parse_command("range", &["srotas", "logins", "(user-1)"]) {
        ReplCommand::Range { path, tuple } => {
            assert_eq!(path, strings(&["srotas", "logins"]));
            assert_eq!(tuple, "(user-1)");
        }
        other => panic!("unexpected {:?}", other),
    }
    match parse_command("clearprefix", &["srotas", "(user-1)"]) {
        ReplCommand::ClearPrefix { path, tuple } => {
            assert_eq!(path, strings(&["srotas"]));
            assert_eq!(tuple, "(user-1)");
        }
        other => panic!("unexpected {:?}", other),
    }
    match parse_command("delkey", &["a", "b", "(k)"]) {
        ReplCommand::DelKey { path, tuple } => {
            assert_eq!(path, strings(&["a", "b"]));
            assert_eq!(tuple, "(k)");
        }
        other => panic!("unexpected {:?}", other),
    }
}

#[test]
fn parse_unknown_command() {
    match parse_command("help", &[]) {
        ReplCommand::Unknown { message } => {
            assert_eq!(message, "Unknown command: help. Type 'help' for list.")
        }
        other => panic!("unexpected {:?}", other),
    }
    match parse_command("INIT", &[]) {
        ReplCommand::Unknown { message } => {
            assert_eq!(message, "Unknown command: INIT. Type 'help' for list.")
        }
        other => panic!("unexpected {:?}", other),
    }
}

#[test]
fn keypack_shows_hex_of_packed_tuple() {
    assert_eq!(keypack_reply("(user-1)").unwrap(), "02757365722d3100");
    assert_eq!(keypack_reply("(a\u{0}b)").unwrap(), "026100ff6200");
    assert_eq!(keypack_reply("user-1").unwrap_err(), "Expected (value), got: user-1");
}

#[test]
fn keyunpack_decodes_hex_then_tuple() {
    match keyunpack_reply("02757365722d3100") {
        UnpackReply::Tuple(t) => assert_eq!(t, "(user-1)"),
        other => panic!("unexpected {:?}", other),
    }
    // Upper-case digits are accepted too.
    match keyunpack_reply("026100FF6200") {
        UnpackReply::Tuple(t) => assert_eq!(t, "(a\u{0}b)"),
        other => panic!("unexpected {:?}", other),
    }
    // The key of the README example is a byte-string tuple, not a string one.
    match keyunpack_reply("0167757365722d31000000000000000100") {
        UnpackReply::Error(e) => {
            assert_eq!(e, "unpack error: BadCode { found: 1, expected: Some(2) }")
        }
        other => panic!("unexpected {:?}", other),
    }
}

#[test]
fn keyunpack_rejects_bad_hex() {
    match keyunpack_reply("123") {
        UnpackReply::InvalidHex(h) => assert_eq!(h, HexError::OddLength),
        other => panic!("unexpected {:?}", other),
    }
    match keyunpack_reply("01g2x3") {
        UnpackReply::InvalidHex(h) => {
            assert_eq!(h, HexError::InvalidHexCharacter { c: 'g', index: 2 });
            assert_eq!(format!("{:?}", h), "InvalidHexCharacter { c: 'g', index: 2 }");
        }
        other => panic!("unexpected {:?}", other),
    }
    // Non-ASCII text is read byte by byte.
    match keyunpack_reply("0\u{e9}0") {
        UnpackReply::InvalidHex(h) => {
            assert_eq!(h, HexError::InvalidHexCharacter { c: '\u{c3}', index: 1 })
        }
        other => panic!("unexpected {:?}", other),
    }
}

#[test]
fn keypack_output_unpacks_to_value() {
    for text in ["(user-1)", " ( x y ) ", "(\u{d4}\u{0})"] {
        let hex = keypack_reply(text).unwrap();
        match keyunpack_reply(&hex) {
            UnpackReply::Tuple(t) => {
                assert_eq!(t, format!("({})", snm_fdbcli::parse_simple_tuple_str(text).unwrap()))
            }
            other => panic!("unexpected {:?}", other),
        }
    }
}

#[test]
fn hex_string_is_lowercase_pairs() {
    assert_eq!(hex_string(&[0x01, 0xAB, 0x00, 0xFF]), "01ab00ff");
    assert_eq!(hex_string(&[]), "");
}

#[test]
fn history_location_choices() {
    let (parts, create) = history_location(Some("/data"), Some("/home/u"));
    assert_eq!(parts, strings(&["/data", "snm-fdbcli", "history.txt"]));
    assert!(create);
    let (parts, create) = history_location(None, Some("/home/u"));
    assert_eq!(parts, strings(&["/home/u", ".snm-fdbcli_history"]));
    assert!(!create);
    let (parts, create) = history_location(None, None);
    assert_eq!(parts, strings(&[".snm-fdbcli_history"]));
    assert!(!create);
}
