//! The decisions of the interactive shell: how an input line is read, which
//! command its words name, and what the tuple commands answer.

use vstd::prelude::*;
use vstd::string::*;
use vstd::utf8::*;

use crate::hex_text::{hex_decode, hex_decoding, hex_encoding, hex_string, law_hex_roundtrip, HexError};
use crate::text::{
    char_is_whitespace, chars_of, eq_ignore_ascii_case, is_whitespace, str_eq,
    law_trim_ignores_line_ending, str_eq_ignore_ascii_case, trim, trim_str,
};
use crate::tuple_text::{
    law_pack_then_unpack, pack_tuple_text, parse_tuple_text, packable_tuple_text, text_result, tuple_pack_from_string,
    tuple_unpack_to_string, unpack_tuple_text,
};

verus! {

// ---------------------------------------------------------------------
// Reading a line
// ---------------------------------------------------------------------

/// The words of `s` after the word `cur` that is being read: maximal runs of
/// non-whitespace characters, as `str::split_whitespace` gives them.
pub open spec fn words_from(s: Seq<char>, cur: Seq<char>) -> Seq<Seq<char>>
    decreases s.len(),
{
    if s.len() == 0 {
        if cur.len() > 0 {
            seq![cur]
        } else {
            Seq::empty()
        }
    } else if is_whitespace(s[0]) {
        (if cur.len() > 0 {
            seq![cur]
        } else {
            Seq::empty()
        }) + words_from(s.drop_first(), Seq::empty())
    } else {
        words_from(s.drop_first(), cur.push(s[0]))
    }
}

/// The whitespace-separated words of `s`.
pub open spec fn words(s: Seq<char>) -> Seq<Seq<char>> {
    words_from(s, Seq::empty())
}

/// `w` is a word: non-empty, without whitespace.
pub open spec fn is_word(w: Seq<char>) -> bool {
    w.len() > 0 && forall|k: int| 0 <= k < w.len() ==> !is_whitespace(#[trigger] w[k])
}

proof fn lemma_words_from_are_words(s: Seq<char>, cur: Seq<char>)
    requires
        forall|k: int| 0 <= k < cur.len() ==> !is_whitespace(#[trigger] cur[k]),
    ensures
        forall|i: int|
            0 <= i < words_from(s, cur).len() ==> is_word(#[trigger] words_from(s, cur)[i]),
    decreases s.len(),
{
    if s.len() == 0 {
        if cur.len() > 0 {
            assert(words_from(s, cur) == seq![cur]);
            assert(is_word(cur));
        }
    } else if is_whitespace(s[0]) {
        lemma_words_from_are_words(s.drop_first(), Seq::empty());
        let head: Seq<Seq<char>> = if cur.len() > 0 {
            seq![cur]
        } else {
            Seq::empty()
        };
        let tail = words_from(s.drop_first(), Seq::empty());
        assert(words_from(s, cur) == head + tail);
        if cur.len() > 0 {
            assert(is_word(cur));
        }
        assert forall|i: int| 0 <= i < (head + tail).len() implies is_word(
            #[trigger] (head + tail)[i],
        ) by {
            if i >= head.len() {
                assert((head + tail)[i] == tail[i - head.len()]);
            }
        }
        assert forall|i: int| 0 <= i < words_from(s, cur).len() implies is_word(
            #[trigger] words_from(s, cur)[i],
        ) by {
            assert(words_from(s, cur)[i] == (head + tail)[i]);
        }
    } else {
        let next = cur.push(s[0]);
        assert forall|k: int| 0 <= k < next.len() implies !is_whitespace(#[trigger] next[k]) by {
            if k < cur.len() {
                assert(next[k] == cur[k]);
            }
        }
        lemma_words_from_are_words(s.drop_first(), next);
        assert(words_from(s, cur) == words_from(s.drop_first(), next));
    }
}

/// Every word that splitting gives is non-empty and holds no whitespace.
pub proof fn law_words_are_words(s: Seq<char>)
    ensures
        forall|i: int| 0 <= i < words(s).len() ==> is_word(#[trigger] words(s)[i]),
{
    lemma_words_from_are_words(s, Seq::empty());
}

/// The plain view of a list of strings.
pub open spec fn strings_view(v: Seq<String>) -> Seq<Seq<char>> {
    v.map_values(|s: String| s@)
}

/// The plain view of a list of string slices.
pub open spec fn strs_view(v: Seq<&str>) -> Seq<Seq<char>> {
    v.map_values(|s: &str| s@)
}

/// The whitespace-separated words of `s`, in order.
pub fn split_words(s: &str) -> (out: Vec<String>)
    ensures
        strings_view(out@) == words(s@),
{
    let v = chars_of(s);
    let n = v.len();
    let mut out: Vec<String> = Vec::new();
    let mut i: usize = 0;
    let mut start: usize = 0;
    let mut in_word = false;
    assert(v@.skip(0) =~= v@);
    while i < n
        invariant
            n == v@.len(),
            v@ == s@,
            i <= n,
            start <= i,
            in_word ==> start < i,
            strings_view(out@) + words_from(
                v@.skip(i as int),
                if in_word {
                    v@.subrange(start as int, i as int)
                } else {
                    Seq::empty()
                },
            ) == words(s@),
        decreases n - i,
    {
        let ghost cur = if in_word {
            v@.subrange(start as int, i as int)
        } else {
            Seq::<char>::empty()
        };
        let ghost rest = v@.skip(i as int);
        assert(rest.drop_first() =~= v@.skip(i + 1));
        assert(rest[0] == v@[i as int]);
        if char_is_whitespace(v[i]) {
            if in_word {
                let w = s.substring_char(start, i);
                let ghost before = out@;
                out.push(String::from_str(w));
                assert(strings_view(out@) =~= strings_view(before).push(w@));
            }
            in_word = false;
        } else {
            if !in_word {
                start = i;
                in_word = true;
            }
            assert(cur.push(v@[i as int]) =~= v@.subrange(start as int, i + 1));
        }
        i = i + 1;
    }
    if in_word {
        let w = s.substring_char(start, n);
        let ghost before = out@;
        out.push(String::from_str(w));
        assert(strings_view(out@) =~= strings_view(before).push(w@));
    }
    out
}

/// What an input line of the shell asks for.
#[derive(Debug)]
pub enum ReplInput {
    /// Nothing but whitespace: read the next line.
    Blank,
    /// `quit` or `exit`, in any ASCII case: leave the shell.
    Quit,
    /// `help`, in any ASCII case: print the list of commands.
    Help,
    /// A command word and its arguments.
    Command { cmd: String, args: Vec<String> },
}

/// The plain view of `ReplInput`.
pub enum ReplInputView {
    Blank,
    Quit,
    Help,
    Command { cmd: Seq<char>, args: Seq<Seq<char>> },
}

impl View for ReplInput {
    type V = ReplInputView;

    open spec fn view(&self) -> ReplInputView {
        match self {
            ReplInput::Blank => ReplInputView::Blank,
            ReplInput::Quit => ReplInputView::Quit,
            ReplInput::Help => ReplInputView::Help,
            ReplInput::Command { cmd, args } => ReplInputView::Command {
                cmd: cmd@,
                args: strings_view(args@),
            },
        }
    }
}

/// How the shell reads the line `line`: trimmed, it is blank, a request to
/// leave or for help, or else a command word followed by its arguments.
pub open spec fn classify_line_spec(line: Seq<char>) -> ReplInputView {
    let t = trim(line);
    if t.len() == 0 {
        ReplInputView::Blank
    } else if eq_ignore_ascii_case(t, "quit"@) || eq_ignore_ascii_case(t, "exit"@) {
        ReplInputView::Quit
    } else if eq_ignore_ascii_case(t, "help"@) {
        ReplInputView::Help
    } else {
        let w = words(t);
        if w.len() == 0 {
            ReplInputView::Blank
        } else {
            ReplInputView::Command { cmd: w[0], args: w.drop_first() }
        }
    }
}

/// The command word and the arguments of a command line are words:
/// non-empty and without whitespace.
pub proof fn law_command_parts_are_words(line: Seq<char>)
    ensures
        classify_line_spec(line) matches ReplInputView::Command { cmd, args } ==> is_word(cmd)
            && forall|i: int| 0 <= i < args.len() ==> is_word(#[trigger] args[i]),
{
    let t = trim(line);
    law_words_are_words(t);
    let w = words(t);
    if w.len() > 0 {
        assert forall|i: int| 0 <= i < w.drop_first().len() implies is_word(
            #[trigger] w.drop_first()[i],
        ) by {
            assert(w.drop_first()[i] == w[i + 1]);
        }
    }
}

/// Reads one input line of the shell.
pub fn classify_line(line: &str) -> (input: ReplInput)
    ensures
        input@ == classify_line_spec(line@),
{
    let t = trim_str(line);
    if t.unicode_len() == 0 {
        return ReplInput::Blank;
    }
    if str_eq_ignore_ascii_case(t, "quit") || str_eq_ignore_ascii_case(t, "exit") {
        return ReplInput::Quit;
    }
    if str_eq_ignore_ascii_case(t, "help") {
        return ReplInput::Help;
    }
    let mut parts = split_words(t);
    if parts.len() == 0 {
        return ReplInput::Blank;
    }
    let ghost all = parts@;
    let cmd = parts.remove(0);
    assert(strings_view(parts@) =~= strings_view(all).drop_first());
    ReplInput::Command { cmd, args: parts }
}

// ---------------------------------------------------------------------
// Commands
// ---------------------------------------------------------------------

/// A command of the shell, with what it acts on.
#[derive(Debug)]
pub enum ReplCommand {
    /// Create the four core directories.
    Init,
    /// Seed the sample records of a user.
    Seed { user: String },
    /// Show a user's record.
    ShowUser { user: String },
    /// Show a user's wallet.
    ShowWallet { user: String },
    /// Show a user's logins.
    Logins { user: String },
    /// Show a user's orders.
    Orders { user: String },
    /// Dump the four core directories.
    DumpAll,
    /// Create or open the directory at `path`.
    DirCreate { path: Vec<String> },
    /// List the directories under `path`.
    DirList { path: Vec<String> },
    /// Pack the tuple text `tuple` and show its hexadecimal text.
    KeyPack { tuple: String },
    /// Unpack the key written in hexadecimal as `hex`.
    KeyUnpack { hex: String },
    /// Delete every key under the prefix of `tuple` in the directory at `path`.
    ClearPrefix { path: Vec<String>, tuple: String },
    /// List the keys under the prefix of `tuple` in the directory at `path`.
    Range { path: Vec<String>, tuple: String },
    /// Delete the key of `tuple` in the directory at `path`.
    DelKey { path: Vec<String>, tuple: String },
    /// The command lacks arguments: print `message` and do nothing else.
    Usage { message: String },
    /// The command word is not known: print `message` and do nothing else.
    Unknown { message: String },
}

/// The plain view of `ReplCommand`.
pub enum CommandView {
    Init,
    Seed { user: Seq<char> },
    ShowUser { user: Seq<char> },
    ShowWallet { user: Seq<char> },
    Logins { user: Seq<char> },
    Orders { user: Seq<char> },
    DumpAll,
    DirCreate { path: Seq<Seq<char>> },
    DirList { path: Seq<Seq<char>> },
    KeyPack { tuple: Seq<char> },
    KeyUnpack { hex: Seq<char> },
    ClearPrefix { path: Seq<Seq<char>>, tuple: Seq<char> },
    Range { path: Seq<Seq<char>>, tuple: Seq<char> },
    DelKey { path: Seq<Seq<char>>, tuple: Seq<char> },
    Usage { message: Seq<char> },
    Unknown { message: Seq<char> },
}

impl View for ReplCommand {
    type V = CommandView;

    open spec fn view(&self) -> CommandView {
        match self {
            ReplCommand::Init => CommandView::Init,
            ReplCommand::Seed { user } => CommandView::Seed { user: user@ },
            ReplCommand::ShowUser { user } => CommandView::ShowUser { user: user@ },
            ReplCommand::ShowWallet { user } => CommandView::ShowWallet { user: user@ },
            ReplCommand::Logins { user } => CommandView::Logins { user: user@ },
            ReplCommand::Orders { user } => CommandView::Orders { user: user@ },
            ReplCommand::DumpAll => CommandView::DumpAll,
            ReplCommand::DirCreate { path } => CommandView::DirCreate { path: strings_view(path@) },
            ReplCommand::DirList { path } => CommandView::DirList { path: strings_view(path@) },
            ReplCommand::KeyPack { tuple } => CommandView::KeyPack { tuple: tuple@ },
            ReplCommand::KeyUnpack { hex } => CommandView::KeyUnpack { hex: hex@ },
            ReplCommand::ClearPrefix { path, tuple } => CommandView::ClearPrefix {
                path: strings_view(path@),
                tuple: tuple@,
            },
            ReplCommand::Range { path, tuple } => CommandView::Range {
                path: strings_view(path@),
                tuple: tuple@,
            },
            ReplCommand::DelKey { path, tuple } => CommandView::DelKey {
                path: strings_view(path@),
                tuple: tuple@,
            },
            ReplCommand::Usage { message } => CommandView::Usage { message: message@ },
            ReplCommand::Unknown { message } => CommandView::Unknown { message: message@ },
        }
    }
}

/// The texts of `list` joined by `sep`, as `[&str]::join` gives them.
pub open spec fn join_spec(list: Seq<Seq<char>>, sep: Seq<char>) -> Seq<char>
    decreases list.len(),
{
    if list.len() == 0 {
        Seq::empty()
    } else if list.len() == 1 {
        list[0]
    } else {
        join_spec(list.drop_last(), sep) + sep + list.last()
    }
}

/// A command that takes one user id: the command when it is there, else the
/// usage message.
pub open spec fn user_command(
    args: Seq<Seq<char>>,
    with_user: CommandView,
    usage: Seq<char>,
) -> CommandView {
    if args.len() > 0 {
        with_user
    } else {
        CommandView::Usage { message: usage }
    }
}

/// Which command the word `cmd` with the arguments `args` names.
pub open spec fn command_spec(cmd: Seq<char>, args: Seq<Seq<char>>) -> CommandView {
    if cmd == "init"@ {
        CommandView::Init
    } else if cmd == "seed"@ {
        CommandView::Seed {
            user: if args.len() > 0 {
                args[0]
            } else {
                "user-1"@
            },
        }
    } else if cmd == "show-user"@ {
        user_command(
            args,
            CommandView::ShowUser { user: args[0] },
            "Usage: show-user <user_id>"@,
        )
    } else if cmd == "show-wallet"@ {
        user_command(
            args,
            CommandView::ShowWallet { user: args[0] },
            "Usage: show-wallet <user_id>"@,
        )
    } else if cmd == "logins"@ {
        user_command(args, CommandView::Logins { user: args[0] }, "Usage: logins <user_id>"@)
    } else if cmd == "orders"@ {
        user_command(args, CommandView::Orders { user: args[0] }, "Usage: orders <user_id>"@)
    } else if cmd == "dump-all"@ {
        CommandView::DumpAll
    } else if cmd == "dircreate"@ {
        if args.len() == 0 {
            CommandView::Usage { message: "Usage: dircreate <path...>"@ }
        } else {
            CommandView::DirCreate { path: args }
        }
    } else if cmd == "dirlist"@ {
        CommandView::DirList { path: args }
    } else if cmd == "keypack"@ || cmd == "pack"@ {
        if args.len() == 0 {
            CommandView::Usage { message: "Usage: "@ + cmd + " (value)"@ }
        } else {
            CommandView::KeyPack { tuple: join_spec(args, " "@) }
        }
    } else if cmd == "keyunpack"@ || cmd == "unpack"@ {
        if args.len() > 0 {
            CommandView::KeyUnpack { hex: args[0] }
        } else {
            CommandView::Usage { message: "Usage: "@ + cmd + " <hex>"@ }
        }
    } else if cmd == "clearprefix"@ {
        if args.len() < 2 {
            CommandView::Usage { message: "Usage: clearprefix <path...> (tuple)"@ }
        } else {
            CommandView::ClearPrefix { path: args.drop_last(), tuple: args.last() }
        }
    } else if cmd == "range"@ {
        if args.len() < 2 {
            CommandView::Usage { message: "Usage: range <path...> (tuple)"@ }
        } else {
            CommandView::Range { path: args.drop_last(), tuple: args.last() }
        }
    } else if cmd == "delkey"@ {
        if args.len() < 2 {
            CommandView::Usage { message: "Usage: delkey <path...> (tuple)"@ }
        } else {
            CommandView::DelKey { path: args.drop_last(), tuple: args.last() }
        }
    } else {
        CommandView::Unknown { message: "Unknown command: "@ + cmd + ". Type 'help' for list."@ }
    }
}

/// The texts of `args` joined by single spaces.
pub fn join_with_spaces(args: &[&str]) -> (out: String)
    ensures
        out@ == join_spec(strs_view(args@), " "@),
{
    let ghost list = strs_view(args@);
    let mut out = String::new();
    let mut i: usize = 0;
    while i < args.len()
        invariant
            i <= args@.len(),
            list == strs_view(args@),
            out@ == join_spec(list.take(i as int), " "@),
        decreases args@.len() - i,
    {
        if i != 0 {
            out.append(" ");
        }
        out.append(args[i]);
        assert(list.take(i + 1).drop_last() =~= list.take(i as int));
        i = i + 1;
    }
    assert(list.take(args@.len() as int) =~= list);
    out
}

/// The first `keep` texts of `args`, as owned strings.
fn owned_prefix(args: &[&str], keep: usize) -> (out: Vec<String>)
    requires
        keep <= args@.len(),
    ensures
        strings_view(out@) == strs_view(args@).take(keep as int),
{
    let mut out: Vec<String> = Vec::new();
    let mut i: usize = 0;
    while i < keep
        invariant
            i <= keep <= args@.len(),
            strings_view(out@) == strs_view(args@).take(i as int),
        decreases keep - i,
    {
        let ghost before = out@;
        out.push(String::from_str(args[i]));
        assert(strings_view(out@) =~= strings_view(before).push(args@[i as int]@));
        assert(strs_view(args@).take(i + 1) =~= strs_view(args@).take(i as int).push(
            args@[i as int]@,
        ));
        i = i + 1;
    }
    out
}

/// A command that takes a directory path and a tuple text: the path is all
/// arguments but the last, the tuple text is the last.
fn path_and_tuple(args: &[&str]) -> (res: (Vec<String>, String))
    requires
        args@.len() >= 2,
    ensures
        strings_view(res.0@) == strs_view(args@).drop_last(),
        res.1@ == strs_view(args@).last(),
{
    let n = args.len();
    let path = owned_prefix(args, n - 1);
    let tuple = String::from_str(args[n - 1]);
    assert(strs_view(args@).take(n - 1) =~= strs_view(args@).drop_last());
    (path, tuple)
}

/// Which command the word `cmd` with the arguments `args` names; usage
/// messages for commands that lack arguments, and a message for unknown
/// command words.
pub fn parse_command(cmd: &str, args: &[&str]) -> (command: ReplCommand)
    ensures
        command@ == command_spec(cmd@, strs_view(args@)),
{
    let ghost a = strs_view(args@);
    let n = args.len();
    if str_eq(cmd, "init") {
        ReplCommand::Init
    } else if str_eq(cmd, "seed") {
        let user = if n > 0 {
            String::from_str(args[0])
        } else {
            String::from_str("user-1")
        };
        ReplCommand::Seed { user }
    } else if str_eq(cmd, "show-user") {
        if n > 0 {
            ReplCommand::ShowUser { user: String::from_str(args[0]) }
        } else {
            ReplCommand::Usage { message: String::from_str("Usage: show-user <user_id>") }
        }
    } else if str_eq(cmd, "show-wallet") {
        if n > 0 {
            ReplCommand::ShowWallet { user: String::from_str(args[0]) }
        } else {
            ReplCommand::Usage { message: String::from_str("Usage: show-wallet <user_id>") }
        }
    } else if str_eq(cmd, "logins") {
        if n > 0 {
            ReplCommand::Logins { user: String::from_str(args[0]) }
        } else {
            ReplCommand::Usage { message: String::from_str("Usage: logins <user_id>") }
        }
    } else if str_eq(cmd, "orders") {
        if n > 0 {
            ReplCommand::Orders { user: String::from_str(args[0]) }
        } else {
            ReplCommand::Usage { message: String::from_str("Usage: orders <user_id>") }
        }
    } else if str_eq(cmd, "dump-all") {
        ReplCommand::DumpAll
    } else if str_eq(cmd, "dircreate") {
        if n == 0 {
            ReplCommand::Usage { message: String::from_str("Usage: dircreate <path...>") }
        } else {
            let path = owned_prefix(args, n);
            assert(a.take(n as int) =~= a);
            ReplCommand::DirCreate { path }
        }
    } else if str_eq(cmd, "dirlist") {
        let path = owned_prefix(args, n);
        assert(a.take(n as int) =~= a);
        ReplCommand::DirList { path }
    } else if str_eq(cmd, "keypack") || str_eq(cmd, "pack") {
        if n == 0 {
            let mut message = String::from_str("Usage: ");
            message.append(cmd);
            message.append(" (value)");
            ReplCommand::Usage { message }
        } else {
            ReplCommand::KeyPack { tuple: join_with_spaces(args) }
        }
    } else if str_eq(cmd, "keyunpack") || str_eq(cmd, "unpack") {
        if n > 0 {
            ReplCommand::KeyUnpack { hex: String::from_str(args[0]) }
        } else {
            let mut message = String::from_str("Usage: ");
            message.append(cmd);
            message.append(" <hex>");
            ReplCommand::Usage { message }
        }
    } else if str_eq(cmd, "clearprefix") {
        if n < 2 {
            ReplCommand::Usage { message: String::from_str("Usage: clearprefix <path...> (tuple)") }
        } else {
            let (path, tuple) = path_and_tuple(args);
            ReplCommand::ClearPrefix { path, tuple }
        }
    } else if str_eq(cmd, "range") {
        if n < 2 {
            ReplCommand::Usage { message: String::from_str("Usage: range <path...> (tuple)") }
        } else {
            let (path, tuple) = path_and_tuple(args);
            ReplCommand::Range { path, tuple }
        }
    } else if str_eq(cmd, "delkey") {
        if n < 2 {
            ReplCommand::Usage { message: String::from_str("Usage: delkey <path...> (tuple)") }
        } else {
            let (path, tuple) = path_and_tuple(args);
            ReplCommand::DelKey { path, tuple }
        }
    } else {
        let mut message = String::from_str("Unknown command: ");
        message.append(cmd);
        message.append(". Type 'help' for list.");
        ReplCommand::Unknown { message }
    }
}

// ---------------------------------------------------------------------
// Tuple commands
// ---------------------------------------------------------------------

/// What `keypack` answers for the tuple text `tuple_str`: the hexadecimal
/// text of its encoding, or the parse error.
pub open spec fn keypack_spec(tuple_str: Seq<char>) -> Result<Seq<char>, Seq<char>> {
    match pack_tuple_text(tuple_str) {
        Ok(b) => Ok(hex_encoding(b)),
        Err(e) => Err(e),
    }
}

/// The answer of `keypack`: the hexadecimal text of the packed tuple (shown
/// as `Hex: ...`), or the error (shown as `Error: ...`).
pub fn keypack_reply(tuple_str: &str) -> (reply: Result<String, String>)
    requires
        packable_tuple_text(tuple_str@),
    ensures
        text_result(reply) == keypack_spec(tuple_str@),
{
    match tuple_pack_from_string(tuple_str) {
        Ok(bytes) => Ok(hex_string(bytes.as_slice())),
        Err(e) => Err(e),
    }
}

/// The answer of `keyunpack`.
#[derive(Debug)]
pub enum UnpackReply {
    /// The key holds this tuple text (shown as `Tuple: ...`).
    Tuple(String),
    /// The key is no one-element string tuple (shown as `Error: ...`).
    Error(String),
    /// The argument is no hexadecimal text (shown as `Invalid hex: ...`).
    InvalidHex(HexError),
}

/// The plain view of `UnpackReply`.
pub enum UnpackReplyView {
    Tuple(Seq<char>),
    Error(Seq<char>),
    InvalidHex(HexError),
}

impl View for UnpackReply {
    type V = UnpackReplyView;

    open spec fn view(&self) -> UnpackReplyView {
        match self {
            UnpackReply::Tuple(t) => UnpackReplyView::Tuple(t@),
            UnpackReply::Error(e) => UnpackReplyView::Error(e@),
            UnpackReply::InvalidHex(h) => UnpackReplyView::InvalidHex(*h),
        }
    }
}

/// What `keyunpack` answers for the hexadecimal text with bytes `hex_bytes`.
pub open spec fn keyunpack_spec(hex_bytes: Seq<u8>) -> UnpackReplyView {
    match hex_decoding(hex_bytes) {
        Err(h) => UnpackReplyView::InvalidHex(h),
        Ok(key) => match unpack_tuple_text(key) {
            Ok(t) => UnpackReplyView::Tuple(t),
            Err(e) => UnpackReplyView::Error(e),
        },
    }
}

/// The answer of `keyunpack` for the hexadecimal text `hexkey`.
pub fn keyunpack_reply(hexkey: &str) -> (reply: UnpackReply)
    ensures
        reply@ == keyunpack_spec(hexkey.spec_bytes()),
{
    match hex_decode(hexkey) {
        Err(h) => UnpackReply::InvalidHex(h),
        Ok(key) => match tuple_unpack_to_string(key.as_slice()) {
            Ok(t) => UnpackReply::Tuple(t),
            Err(e) => UnpackReply::Error(e),
        },
    }
}

// ---------------------------------------------------------------------
// History file
// ---------------------------------------------------------------------

/// Where the shell keeps its history: the path components, and whether the
/// directory of the file (all components but the last) is to be created.
pub open spec fn history_location_spec(
    data_home: Option<Seq<char>>,
    home: Option<Seq<char>>,
) -> (Seq<Seq<char>>, bool) {
    match data_home {
        Some(d) => (seq![d, "snm-fdbcli"@, "history.txt"@], true),
        None => match home {
            Some(h) => (seq![h, ".snm-fdbcli_history"@], false),
            None => (seq![".snm-fdbcli_history"@], false),
        },
    }
}

/// The plain view of an optional string slice.
pub open spec fn opt_text(o: Option<&str>) -> Option<Seq<char>> {
    match o {
        Some(t) => Some(t@),
        None => None,
    }
}

/// The path of the history file, from the values of `XDG_DATA_HOME` and
/// `HOME` where they are set: under the data directory if there is one,
/// else in the home directory, else in the current directory.
pub fn history_location(data_home: Option<&str>, home: Option<&str>) -> (res: (
    Vec<String>,
    bool,
))
    ensures
        (strings_view(res.0@), res.1) == history_location_spec(
            opt_text(data_home),
            opt_text(home),
        ),
{
    let mut parts: Vec<String> = Vec::new();
    let create = match data_home {
        Some(d) => {
            parts.push(String::from_str(d));
            parts.push(String::from_str("snm-fdbcli"));
            parts.push(String::from_str("history.txt"));
            true
        },
        None => {
            match home {
                Some(h) => {
                    parts.push(String::from_str(h));
                },
                None => {},
            }
            parts.push(String::from_str(".snm-fdbcli_history"));
            false
        },
    };
    proof {
        let v = strings_view(parts@);
        match data_home {
            Some(d) => {
                assert(v =~= seq![d@, "snm-fdbcli"@, "history.txt"@]);
            },
            None => match home {
                Some(h) => {
                    assert(v =~= seq![h@, ".snm-fdbcli_history"@]);
                },
                None => {
                    assert(v =~= seq![".snm-fdbcli_history"@]);
                },
            },
        }
    }
    (parts, create)
}

/// The hexadecimal text that `keypack` shows for tuple text unpacks, with
/// `keyunpack`, to the parsed value written as `(value)`.
pub proof fn law_keypack_then_keyunpack(s: Seq<char>)
    requires
        parse_tuple_text(s) is Ok,
    ensures
        keypack_spec(s) matches Ok(h) && keyunpack_spec(encode_utf8(h)) == UnpackReplyView::Tuple(
            "("@ + parse_tuple_text(s)->Ok_0 + ")"@,
        ),
{
    law_pack_then_unpack(s);
    let b = pack_tuple_text(s)->Ok_0;
    law_hex_roundtrip(b);
}

/// A line ending, `\r\n`, does not change how a line is read.
pub proof fn law_classify_ignores_line_ending(line: Seq<char>)
    ensures
        classify_line_spec(line + seq!['\r', '\n']) == classify_line_spec(line),
{
    law_trim_ignores_line_ending(line);
}

/// Joining a non-empty list with one more text puts exactly one separator
/// before that text; a single text joins to itself, no text to nothing.
pub proof fn law_join_one_separator_between_neighbours(
    list: Seq<Seq<char>>,
    x: Seq<char>,
    sep: Seq<char>,
)
    ensures
        list.len() > 0 ==> join_spec(list.push(x), sep) == join_spec(list, sep) + sep + x,
        join_spec(seq![x], sep) == x,
        join_spec(Seq::<Seq<char>>::empty(), sep) == Seq::<char>::empty(),
{
    assert(list.push(x).drop_last() =~= list);
}

/// The sum of the lengths of `list`.
pub open spec fn total_len(list: Seq<Seq<char>>) -> nat
    decreases list.len(),
{
    if list.len() == 0 {
        0
    } else {
        total_len(list.drop_last()) + list.last().len()
    }
}

/// Joining `n >= 1` texts gives the sum of their lengths plus `n - 1`
/// separators.
pub proof fn law_join_length(list: Seq<Seq<char>>, sep: Seq<char>)
    requires
        list.len() > 0,
    ensures
        join_spec(list, sep).len() == total_len(list) + (list.len() - 1) * sep.len(),
    decreases list.len(),
{
    if list.len() > 1 {
        law_join_length(list.drop_last(), sep);
        assert(join_spec(list, sep) == join_spec(list.drop_last(), sep) + sep + list.last());
        assert(total_len(list) == total_len(list.drop_last()) + list.last().len());
        assert((list.len() - 1) * sep.len() == (list.len() - 2) * sep.len() + sep.len())
            by (nonlinear_arith)
            requires
                list.len() > 1,
        ;
    } else {
        assert(list.drop_last().len() == 0);
        assert(total_len(list.drop_last()) == 0);
        assert(total_len(list) == list[0].len());
    }
}

proof fn lemma_command_words_distinct()
    ensures
        "init"@.len() == 4,
        "seed"@.len() == 4,
        "show-user"@.len() == 9,
        "show-wallet"@.len() == 11,
        "logins"@.len() == 6,
        "orders"@.len() == 6,
        "dump-all"@.len() == 8,
        "dircreate"@.len() == 9,
        "dirlist"@.len() == 7,
        "keypack"@.len() == 7,
        "pack"@.len() == 4,
        "keyunpack"@.len() == 9,
        "unpack"@.len() == 6,
        "clearprefix"@.len() == 11,
        "range"@.len() == 5,
        "delkey"@.len() == 6,
        "init"@[0] == 'i',
        "seed"@[0] == 's',
        "show-user"@[0] == 's',
        "show-wallet"@[0] == 's',
        "logins"@[0] == 'l',
        "orders"@[0] == 'o',
        "dump-all"@[0] == 'd',
        "dircreate"@[0] == 'd',
        "dirlist"@[0] == 'd',
        "keypack"@[0] == 'k',
        "pack"@[0] == 'p',
        "keyunpack"@[0] == 'k',
        "unpack"@[0] == 'u',
        "clearprefix"@[0] == 'c',
        "range"@[0] == 'r',
        "delkey"@[0] == 'd',
{
    reveal_strlit("init");
    reveal_strlit("seed");
    reveal_strlit("show-user");
    reveal_strlit("show-wallet");
    reveal_strlit("logins");
    reveal_strlit("orders");
    reveal_strlit("dump-all");
    reveal_strlit("dircreate");
    reveal_strlit("dirlist");
    reveal_strlit("keypack");
    reveal_strlit("pack");
    reveal_strlit("keyunpack");
    reveal_strlit("unpack");
    reveal_strlit("clearprefix");
    reveal_strlit("range");
    reveal_strlit("delkey");
}

/// The commands that act on a tuple inside a directory (`clearprefix`,
/// `range`, `delkey`), given two or more arguments, take the directory path
/// from all arguments but the last, in order, and the tuple text from the
/// last: the path followed by the tuple text is the argument list.
pub proof fn law_scoped_commands_split_arguments(args: Seq<Seq<char>>)
    requires
        args.len() >= 2,
    ensures
        command_spec("clearprefix"@, args) matches CommandView::ClearPrefix { path, tuple }
            && path.push(tuple) == args,
        command_spec("range"@, args) matches CommandView::Range { path, tuple } && path.push(
            tuple,
        ) == args,
        command_spec("delkey"@, args) matches CommandView::DelKey { path, tuple } && path.push(
            tuple,
        ) == args,
{
    lemma_command_words_distinct();
    assert(args.drop_last().push(args.last()) =~= args);
}

/// `dirlist` takes its whole argument list, in order, as the path (none
/// for the root); `dircreate` does so for one or more arguments.
pub proof fn law_directory_commands_take_all_arguments(args: Seq<Seq<char>>)
    ensures
        command_spec("dirlist"@, args) matches CommandView::DirList { path } && path == args,
        args.len() > 0 ==> (command_spec("dircreate"@, args) matches CommandView::DirCreate {
            path,
        } && path == args),
{
    lemma_command_words_distinct();
}

/// The user commands act on their first argument; `seed` falls back to
/// `user-1`; `keyunpack` and `unpack` decode their first argument; `keypack`
/// and `pack` pack all arguments joined by single spaces.
pub proof fn law_commands_take_their_arguments(args: Seq<Seq<char>>)
    ensures
        args.len() > 0 ==> command_spec("seed"@, args) == (CommandView::Seed { user: args[0] }),
        args.len() == 0 ==> command_spec("seed"@, args) == (CommandView::Seed { user: "user-1"@ }),
        args.len() > 0 ==> command_spec("show-user"@, args) == (CommandView::ShowUser {
            user: args[0],
        }),
        args.len() > 0 ==> command_spec("show-wallet"@, args) == (CommandView::ShowWallet {
            user: args[0],
        }),
        args.len() > 0 ==> command_spec("logins"@, args) == (CommandView::Logins {
            user: args[0],
        }),
        args.len() > 0 ==> command_spec("orders"@, args) == (CommandView::Orders {
            user: args[0],
        }),
        args.len() > 0 ==> command_spec("keyunpack"@, args) == (CommandView::KeyUnpack {
            hex: args[0],
        }),
        args.len() > 0 ==> command_spec("unpack"@, args) == (CommandView::KeyUnpack {
            hex: args[0],
        }),
        args.len() > 0 ==> command_spec("keypack"@, args) == (CommandView::KeyPack {
            tuple: join_spec(args, " "@),
        }),
        args.len() > 0 ==> command_spec("pack"@, args) == (CommandView::KeyPack {
            tuple: join_spec(args, " "@),
        }),
        command_spec("init"@, args) == CommandView::Init,
        command_spec("dump-all"@, args) == CommandView::DumpAll,
{
    lemma_command_words_distinct();
}

proof fn lemma_words_from_split_at_white(s: Seq<char>, t: Seq<char>, cur: Seq<char>)
    requires
        t.len() > 0,
        is_whitespace(t[0]),
    ensures
        words_from(s + t, cur) == words_from(s, cur) + words_from(t, Seq::empty()),
    decreases s.len(),
{
    if s.len() == 0 {
        assert(s + t =~= t);
        assert(t.drop_first() == t.drop_first());
        if cur.len() > 0 {
            assert(words_from(s, cur) == seq![cur]);
        } else {
            assert(words_from(s, cur) =~= Seq::<Seq<char>>::empty());
        }
        assert(words_from(t, cur) == (if cur.len() > 0 {
            seq![cur]
        } else {
            Seq::<Seq<char>>::empty()
        }) + words_from(t.drop_first(), Seq::empty()));
        assert(words_from(t, Seq::empty()) == Seq::<Seq<char>>::empty() + words_from(
            t.drop_first(),
            Seq::empty(),
        ));
        assert(Seq::<Seq<char>>::empty() + words_from(t.drop_first(), Seq::empty())
            =~= words_from(t.drop_first(), Seq::empty()));
        assert(words_from(s, cur) + words_from(t, Seq::empty()) =~= words_from(t, cur));
    } else {
        assert((s + t)[0] == s[0]);
        assert((s + t).drop_first() =~= s.drop_first() + t);
        if is_whitespace(s[0]) {
            lemma_words_from_split_at_white(s.drop_first(), t, Seq::empty());
            let head: Seq<Seq<char>> = if cur.len() > 0 {
                seq![cur]
            } else {
                Seq::empty()
            };
            assert(words_from(s + t, cur) == head + words_from(s.drop_first() + t, Seq::empty()));
            assert(words_from(s, cur) == head + words_from(s.drop_first(), Seq::empty()));
            assert(head + (words_from(s.drop_first(), Seq::empty()) + words_from(t, Seq::empty()))
                =~= (head + words_from(s.drop_first(), Seq::empty())) + words_from(
                t,
                Seq::empty(),
            ));
        } else {
            lemma_words_from_split_at_white(s.drop_first(), t, cur.push(s[0]));
        }
    }
}

proof fn lemma_words_from_word(x: Seq<char>, cur: Seq<char>)
    requires
        forall|k: int| 0 <= k < x.len() ==> !is_whitespace(#[trigger] x[k]),
        cur.len() + x.len() > 0,
    ensures
        words_from(x, cur) == seq![cur + x],
    decreases x.len(),
{
    if x.len() == 0 {
        assert(cur + x =~= cur);
    } else {
        assert(!is_whitespace(x[0]));
        let r = x.drop_first();
        assert forall|k: int| 0 <= k < r.len() implies !is_whitespace(#[trigger] r[k]) by {
            assert(r[k] == x[k + 1]);
        }
        lemma_words_from_word(r, cur.push(x[0]));
        assert(cur.push(x[0]) + r =~= cur + x);
    }
}

/// Splitting a text made of words joined by single spaces gives back the
/// words, in order.
pub proof fn law_split_undoes_join(list: Seq<Seq<char>>)
    requires
        forall|i: int| 0 <= i < list.len() ==> is_word(#[trigger] list[i]),
    ensures
        words(join_spec(list, " "@)) == list,
    decreases list.len(),
{
    reveal_strlit(" ");
    if list.len() == 0 {
        assert(words(Seq::<char>::empty()) =~= list);
    } else if list.len() == 1 {
        assert(is_word(list[0]));
        lemma_words_from_word(list[0], Seq::empty());
        assert(Seq::<char>::empty() + list[0] =~= list[0]);
        assert(seq![list[0]] =~= list);
    } else {
        let init = list.drop_last();
        let x = list.last();
        assert forall|i: int| 0 <= i < init.len() implies is_word(#[trigger] init[i]) by {
            assert(init[i] == list[i]);
        }
        assert(is_word(list[list.len() - 1]));
        law_split_undoes_join(init);
        let t = " "@ + x;
        assert(t[0] == ' ');
        assert(join_spec(list, " "@) =~= join_spec(init, " "@) + t);
        lemma_words_from_split_at_white(join_spec(init, " "@), t, Seq::empty());
        assert(t.drop_first() =~= x);
        lemma_words_from_word(x, Seq::empty());
        assert(Seq::<char>::empty() + x =~= x);
        assert(words_from(t, Seq::empty()) == Seq::<Seq<char>>::empty() + words_from(
            x,
            Seq::empty(),
        ));
        assert(init + seq![x] =~= list);
    }
}

proof fn lemma_usage_prefix_show_user()
    ensures
        "Usage: show-user <user_id>"@.take(17) == "Usage: "@ + "show-user"@ + " "@,
{
    reveal_strlit("Usage: show-user <user_id>");
    reveal_strlit("Usage: ");
    reveal_strlit("show-user");
    reveal_strlit(" ");
    assert("Usage: show-user <user_id>"@.take(17) =~= "Usage: "@ + "show-user"@ + " "@);
}

proof fn lemma_usage_prefix_show_wallet()
    ensures
        "Usage: show-wallet <user_id>"@.take(19) == "Usage: "@ + "show-wallet"@ + " "@,
{
    reveal_strlit("Usage: show-wallet <user_id>");
    reveal_strlit("Usage: ");
    reveal_strlit("show-wallet");
    reveal_strlit(" ");
    assert("Usage: show-wallet <user_id>"@.take(19) =~= "Usage: "@ + "show-wallet"@ + " "@);
}

proof fn lemma_usage_prefix_logins()
    ensures
        "Usage: logins <user_id>"@.take(14) == "Usage: "@ + "logins"@ + " "@,
{
    reveal_strlit("Usage: logins <user_id>");
    reveal_strlit("Usage: ");
    reveal_strlit("logins");
    reveal_strlit(" ");
    assert("Usage: logins <user_id>"@.take(14) =~= "Usage: "@ + "logins"@ + " "@);
}

proof fn lemma_usage_prefix_orders()
    ensures
        "Usage: orders <user_id>"@.take(14) == "Usage: "@ + "orders"@ + " "@,
{
    reveal_strlit("Usage: orders <user_id>");
    reveal_strlit("Usage: ");
    reveal_strlit("orders");
    reveal_strlit(" ");
    assert("Usage: orders <user_id>"@.take(14) =~= "Usage: "@ + "orders"@ + " "@);
}

proof fn lemma_usage_prefix_dircreate()
    ensures
        "Usage: dircreate <path...>"@.take(17) == "Usage: "@ + "dircreate"@ + " "@,
{
    reveal_strlit("Usage: dircreate <path...>");
    reveal_strlit("Usage: ");
    reveal_strlit("dircreate");
    reveal_strlit(" ");
    assert("Usage: dircreate <path...>"@.take(17) =~= "Usage: "@ + "dircreate"@ + " "@);
}

proof fn lemma_usage_prefix_clearprefix()
    ensures
        "Usage: clearprefix <path...> (tuple)"@.take(19) == "Usage: "@ + "clearprefix"@ + " "@,
{
    reveal_strlit("Usage: clearprefix <path...> (tuple)");
    reveal_strlit("Usage: ");
    reveal_strlit("clearprefix");
    reveal_strlit(" ");
    assert("Usage: clearprefix <path...> (tuple)"@.take(19) =~= "Usage: "@ + "clearprefix"@ + " "@);
}

proof fn lemma_usage_prefix_range()
    ensures
        "Usage: range <path...> (tuple)"@.take(13) == "Usage: "@ + "range"@ + " "@,
{
    reveal_strlit("Usage: range <path...> (tuple)");
    reveal_strlit("Usage: ");
    reveal_strlit("range");
    reveal_strlit(" ");
    assert("Usage: range <path...> (tuple)"@.take(13) =~= "Usage: "@ + "range"@ + " "@);
}

proof fn lemma_usage_prefix_delkey()
    ensures
        "Usage: delkey <path...> (tuple)"@.take(14) == "Usage: "@ + "delkey"@ + " "@,
{
    reveal_strlit("Usage: delkey <path...> (tuple)");
    reveal_strlit("Usage: ");
    reveal_strlit("delkey");
    reveal_strlit(" ");
    assert("Usage: delkey <path...> (tuple)"@.take(14) =~= "Usage: "@ + "delkey"@ + " "@);
}

/// A command word that lacks arguments gets a usage message that starts
/// with `Usage: ` and the command word, followed by a space.
pub proof fn law_usage_names_the_command(cmd: Seq<char>)
    requires
        cmd == "show-user"@ || cmd == "show-wallet"@ || cmd == "logins"@ || cmd == "orders"@
            || cmd == "dircreate"@ || cmd == "keypack"@ || cmd == "pack"@ || cmd == "keyunpack"@
            || cmd == "unpack"@ || cmd == "clearprefix"@ || cmd == "range"@ || cmd == "delkey"@,
    ensures
        command_spec(cmd, Seq::empty()) matches CommandView::Usage { message } && message.take(
            7 + cmd.len() as int + 1,
        ) == "Usage: "@ + cmd + " "@,
{
    lemma_command_words_distinct();
    reveal_strlit("Usage: ");
    reveal_strlit(" ");
    reveal_strlit(" (value)");
    reveal_strlit(" <hex>");
    let m = command_spec(cmd, Seq::empty())->Usage_message;
    let want = "Usage: "@ + cmd + " "@;
    if cmd == "keypack"@ || cmd == "pack"@ {
        assert(m == "Usage: "@ + cmd + " (value)"@);
        assert(m.take(want.len() as int) =~= want);
    } else if cmd == "keyunpack"@ || cmd == "unpack"@ {
        assert(m == "Usage: "@ + cmd + " <hex>"@);
        assert(m.take(want.len() as int) =~= want);
    } else if cmd == "show-user"@ {
        lemma_usage_prefix_show_user();
    } else if cmd == "show-wallet"@ {
        lemma_usage_prefix_show_wallet();
    } else if cmd == "logins"@ {
        lemma_usage_prefix_logins();
    } else if cmd == "orders"@ {
        lemma_usage_prefix_orders();
    } else if cmd == "dircreate"@ {
        lemma_usage_prefix_dircreate();
    } else if cmd == "clearprefix"@ {
        lemma_usage_prefix_clearprefix();
    } else if cmd == "range"@ {
        lemma_usage_prefix_range();
    } else if cmd == "delkey"@ {
        lemma_usage_prefix_delkey();
    }
}

/// A command word that names no command is answered with a message that
/// names that word.
pub proof fn law_unknown_names_the_word(cmd: Seq<char>, args: Seq<Seq<char>>)
    requires
        cmd != "init"@ && cmd != "seed"@ && cmd != "show-user"@ && cmd != "show-wallet"@ && cmd
            != "logins"@ && cmd != "orders"@ && cmd != "dump-all"@ && cmd != "dircreate"@ && cmd
            != "dirlist"@ && cmd != "keypack"@ && cmd != "pack"@ && cmd != "keyunpack"@ && cmd
            != "unpack"@ && cmd != "clearprefix"@ && cmd != "range"@ && cmd != "delkey"@,
    ensures
        command_spec(cmd, args) matches CommandView::Unknown { message } && message.take(
            17 + cmd.len() as int,
        ) == "Unknown command: "@ + cmd,
{
    reveal_strlit("Unknown command: ");
    let m = command_spec(cmd, args)->Unknown_message;
    assert(m.take(17 + cmd.len() as int) =~= "Unknown command: "@ + cmd);
}

/// `t` spells the lower-case ASCII word `w` with any of its letters written
/// in upper case.
pub open spec fn spells_in_any_case(t: Seq<char>, w: Seq<char>) -> bool {
    &&& t.len() == w.len()
    &&& forall|i: int|
        0 <= i < w.len() ==> #[trigger] t[i] == w[i] || (t[i] as u32) + 32 == (w[i] as u32)
}

proof fn lemma_spells_matches(t: Seq<char>, w: Seq<char>)
    requires
        forall|i: int| 0 <= i < w.len() ==> 'a' <= #[trigger] w[i] <= 'z',
    ensures
        spells_in_any_case(t, w) ==> crate::text::eq_ignore_ascii_case(t, w),
        crate::text::eq_ignore_ascii_case(t, w) ==> spells_in_any_case(t, w),
{
    if spells_in_any_case(t, w) {
        assert forall|i: int| 0 <= i < t.len() implies crate::text::ascii_lower(#[trigger] t[i])
            == crate::text::ascii_lower(w[i]) by {
            assert('a' <= w[i] <= 'z');
            if t[i] != w[i] {
                assert((t[i] as u32) + 32 == (w[i] as u32));
                assert(('a' as u32) <= (w[i] as u32) <= ('z' as u32));
                assert(0x41 <= (t[i] as u32) <= 0x5A);
                assert((((t[i] as u32) + 32) as char) == w[i]);
            }
        }
    }
    if crate::text::eq_ignore_ascii_case(t, w) {
        assert forall|i: int| 0 <= i < w.len() implies #[trigger] t[i] == w[i] || (t[i] as u32)
            + 32 == (w[i] as u32) by {
            assert(crate::text::ascii_lower(t[i]) == crate::text::ascii_lower(w[i]));
            assert('a' <= w[i] <= 'z');
            if 0x41 <= (t[i] as u32) <= 0x5A {
                assert(crate::text::ascii_lower(t[i]) == (((t[i] as u32) + 32) as char));
            }
        }
    }
}

/// A line that, trimmed, spells `quit` or `exit` in any ASCII case asks to
/// leave, and one that spells `help` asks for help; no other line does.
pub proof fn law_quit_and_help_in_any_case(line: Seq<char>)
    ensures
        (spells_in_any_case(trim(line), "quit"@) || spells_in_any_case(trim(line), "exit"@))
            <==> classify_line_spec(line) == ReplInputView::Quit,
        spells_in_any_case(trim(line), "help"@) <==> classify_line_spec(line)
            == ReplInputView::Help,
{
    reveal_strlit("quit");
    reveal_strlit("exit");
    reveal_strlit("help");
    lemma_spells_matches(trim(line), "quit"@);
    lemma_spells_matches(trim(line), "exit"@);
    lemma_spells_matches(trim(line), "help"@);
    if spells_in_any_case(trim(line), "help"@) {
        let t = trim(line);
        assert(t[0] == 'h' || (t[0] as u32) + 32 == ('h' as u32));
        assert(!spells_in_any_case(t, "quit"@) && !spells_in_any_case(t, "exit"@));
    }
}

/// `keypack` answers refused tuple text with the parse error itself; and
/// `keyunpack` answers text with an odd number of bytes with `OddLength`, and
/// a key that holds no one-element string tuple with an unpack error.
pub proof fn law_tuple_command_errors(s: Seq<char>, hex_bytes: Seq<u8>)
    ensures
        parse_tuple_text(s) is Err ==> keypack_spec(s) == Err::<Seq<char>, Seq<char>>(
            parse_tuple_text(s)->Err_0,
        ),
        hex_bytes.len() % 2 == 1 ==> keyunpack_spec(hex_bytes) == UnpackReplyView::InvalidHex(
            HexError::OddLength,
        ),
        hex_decoding(hex_bytes) matches Ok(key) ==> (!crate::tuple_text::is_string_tuple(key)
            ==> (keyunpack_spec(hex_bytes) matches UnpackReplyView::Error(e) && e.take(14)
            == "unpack error: "@)),
{
    reveal_strlit("unpack error: ");
    if hex_decoding(hex_bytes) matches Ok(key) && !crate::tuple_text::is_string_tuple(key) {
        let e = keyunpack_spec(hex_bytes)->Error_0;
        assert(e.take(14) =~= "unpack error: "@);
    }
}

/// With a data directory, the history is the file `history.txt` inside a
/// directory `snm-fdbcli` under it, which is to be created; without one, it
/// is the hidden file `.snm-fdbcli_history` in the home directory, or in the
/// current one, and nothing is created.
pub proof fn law_history_location(data_home: Option<Seq<char>>, home: Option<Seq<char>>)
    ensures
        data_home matches Some(d) ==> history_location_spec(data_home, home) == (
            seq![d, "snm-fdbcli"@, "history.txt"@],
            true,
        ),
        data_home is None ==> !history_location_spec(data_home, home).1
            && history_location_spec(data_home, home).0.last() == ".snm-fdbcli_history"@,
        data_home is None ==> (home matches Some(h) ==> history_location_spec(data_home, home).0
            == seq![h, ".snm-fdbcli_history"@]),
        data_home is None && home is None ==> history_location_spec(data_home, home).0 == seq![
            ".snm-fdbcli_history"@,
        ],
{
}

} // verus!
