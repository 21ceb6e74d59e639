//! The application's directories under `srotas/` and the sample records
//! that seeding writes into them.

use vstd::prelude::*;
use vstd::string::*;
use vstd::utf8::*;

use crate::directory::{
    in_key_range, law_user_range_selects_user, user_key_spec, subspace_pack_string_int, subspace_pack_string_pair, user_key, CoreSpaces, DirSpace,
};
use crate::tuple_text::{tuple_string_encoding, tuple_string_encoding_len};

verus! {

/// The paths of the four core directories: users, logins, orders, wallets.
pub open spec fn core_space_paths_spec() -> Seq<Seq<Seq<char>>> {
    seq![
        seq!["srotas"@, "users"@],
        seq!["srotas"@, "logins"@],
        seq!["srotas"@, "orders"@],
        seq!["srotas"@, "wallets"@],
    ]
}

/// The plain view of a list of paths.
pub open spec fn paths_view(p: Vec<Vec<String>>) -> Seq<Seq<Seq<char>>> {
    p@.map_values(|q: Vec<String>| q@.map_values(|s: String| s@))
}

fn two_part_path(a: &str, b: &str) -> (p: Vec<String>)
    ensures
        p@.map_values(|s: String| s@) == seq![a@, b@],
{
    let mut p: Vec<String> = Vec::new();
    p.push(String::from_str(a));
    p.push(String::from_str(b));
    assert(p@.map_values(|s: String| s@) =~= seq![a@, b@]);
    p
}

/// The paths of the four core spaces under `srotas/`: users, logins,
/// orders and wallets, in this order.
pub fn core_space_paths() -> (paths: Vec<Vec<String>>)
    ensures
        paths_view(paths) == core_space_paths_spec(),
{
    let mut paths: Vec<Vec<String>> = Vec::new();
    paths.push(two_part_path("srotas", "users"));
    paths.push(two_part_path("srotas", "logins"));
    paths.push(two_part_path("srotas", "orders"));
    paths.push(two_part_path("srotas", "wallets"));
    assert(paths_view(paths) =~= core_space_paths_spec());
    paths
}

/// A directory path given as string slices, as owned strings.
pub fn owned_path(path: &[&str]) -> (owned: Vec<String>)
    ensures
        owned@.len() == path@.len(),
        forall|i: int| 0 <= i < path@.len() ==> (#[trigger] owned@[i])@ == path@[i]@,
{
    let mut owned: Vec<String> = Vec::new();
    let mut i: usize = 0;
    while i < path.len()
        invariant
            i <= path@.len(),
            owned@.len() == i,
            forall|k: int| 0 <= k < i ==> (#[trigger] owned@[k])@ == path@[k]@,
        decreases path@.len() - i,
    {
        owned.push(String::from_str(path[i]));
        i = i + 1;
    }
    owned
}

/// The value stored for a seeded user: `{"name":"Alice","id":"<user_id>"}`.
pub open spec fn seed_user_value(user_id: Seq<char>) -> Seq<u8> {
    encode_utf8("{\"name\":\"Alice\",\"id\":\""@ + user_id + "\"}"@)
}

/// The records that seeding `user_id` writes, as (key, value) pairs, in the
/// order of writing: the user, the wallet, two logins and one order.
pub open spec fn seed_plan(spaces: CoreSpaces, user_id: Seq<char>) -> Seq<(Seq<u8>, Seq<u8>)> {
    let u = tuple_string_encoding(user_id);
    seq![
        (spaces.users.key_prefix() + u, seed_user_value(user_id)),
        (spaces.wallets.key_prefix() + u, encode_utf8("{\"balance\":1000,\"asset\":\"USDT\"}"@)),
        (spaces.logins.key_prefix() + u + seq![0x15u8, 1u8], encode_utf8("login from chrome"@)),
        (spaces.logins.key_prefix() + u + seq![0x15u8, 2u8], encode_utf8("login from mobile"@)),
        (
            spaces.orders.key_prefix() + u + tuple_string_encoding("ord-001"@),
            encode_utf8("{\"side\":\"BUY\",\"qty\":0.1,\"asset\":\"BTCUSDT\"}"@),
        ),
    ]
}

/// The four spaces are ordinary subspaces, as the directory layer gives them.
pub open spec fn core_spaces_ready(spaces: CoreSpaces) -> bool {
    &&& spaces.users.wf() && spaces.users is Subspace
    &&& spaces.logins.wf() && spaces.logins is Subspace
    &&& spaces.orders.wf() && spaces.orders is Subspace
    &&& spaces.wallets.wf() && spaces.wallets is Subspace
}

/// The plain view of (key, value) records.
pub open spec fn records_view(r: Vec<(Vec<u8>, Vec<u8>)>) -> Seq<(Seq<u8>, Seq<u8>)> {
    r@.map_values(|kv: (Vec<u8>, Vec<u8>)| (kv.0@, kv.1@))
}

fn prefix_bytes(dir: &DirSpace) -> (p: &[u8])
    requires
        dir is Subspace,
    ensures
        p@ == dir.key_prefix(),
{
    match dir {
        DirSpace::Subspace { prefix } => prefix.as_slice(),
        DirSpace::Partition => {
            assert(false);
            &[]
        },
    }
}

/// The keys that seeding `user_id` writes stay within what the tuple layer
/// allows; the longest is the order key `(user_id, "ord-001")`.
pub open spec fn seedable_user(user_id: Seq<char>) -> bool {
    tuple_string_encoding(user_id).len() + tuple_string_encoding("ord-001"@).len() <= u32::MAX
}

/// Decides whether seeding `user_id` stays within what the tuple layer allows.
pub fn seed_user_fits(user_id: &str) -> (ok: bool)
    ensures
        ok == seedable_user(user_id@),
{
    match (tuple_string_encoding_len(user_id), tuple_string_encoding_len("ord-001")) {
        (Some(a), Some(b)) => a + b <= u32::MAX as u64,
        _ => false,
    }
}

/// The sample records for `user_id`: a user, a wallet, two logins and one
/// order, each keyed by tuples that start with the user id.
pub fn seed_writes(spaces: &CoreSpaces, user_id: &str) -> (writes: Vec<(Vec<u8>, Vec<u8>)>)
    requires
        core_spaces_ready(*spaces),
        seedable_user(user_id@),
    ensures
        records_view(writes) == seed_plan(*spaces, user_id@),
{
    let logins = prefix_bytes(&spaces.logins);
    let orders = prefix_bytes(&spaces.orders);
    assert(tuple_string_encoding("ord-001"@).len() >= 2);
    let mut user_value = String::from_str("{\"name\":\"Alice\",\"id\":\"");
    user_value.append(user_id);
    user_value.append("\"}");

    let mut writes: Vec<(Vec<u8>, Vec<u8>)> = Vec::new();
    writes.push(
        (user_key(&spaces.users, user_id), user_value.as_str().as_bytes_vec()),
    );
    writes.push(
        (
            user_key(&spaces.wallets, user_id),
            "{\"balance\":1000,\"asset\":\"USDT\"}".as_bytes_vec(),
        ),
    );
    writes.push(
        (
            subspace_pack_string_int(logins, user_id, 1),
            "login from chrome".as_bytes_vec(),
        ),
    );
    writes.push(
        (
            subspace_pack_string_int(logins, user_id, 2),
            "login from mobile".as_bytes_vec(),
        ),
    );
    writes.push(
        (
            subspace_pack_string_pair(orders, user_id, "ord-001"),
            "{\"side\":\"BUY\",\"qty\":0.1,\"asset\":\"BTCUSDT\"}".as_bytes_vec(),
        ),
    );
    assert(records_view(writes) =~= seed_plan(*spaces, user_id@));
    writes
}

/// The records that seeding writes for a user are found by prefix ranges
/// of that user and of no other: the user and wallet records sit at the
/// user's key, the two logins in the user's prefix range of the logins
/// directory, and the order in the user's prefix range of the orders
/// directory.
pub proof fn law_seeded_records_in_user_ranges(spaces: CoreSpaces, user: Seq<char>, owner: Seq<char>)
    ensures
        seed_plan(spaces, user)[0].0 == user_key_spec(spaces.users.key_prefix(), user),
        seed_plan(spaces, user)[1].0 == user_key_spec(spaces.wallets.key_prefix(), user),
        in_key_range(
            seed_plan(spaces, user)[2].0,
            user_key_spec(spaces.logins.key_prefix(), owner),
            user_key_spec(spaces.logins.key_prefix(), owner).push(0xFFu8),
        ) <==> owner == user,
        in_key_range(
            seed_plan(spaces, user)[3].0,
            user_key_spec(spaces.logins.key_prefix(), owner),
            user_key_spec(spaces.logins.key_prefix(), owner).push(0xFFu8),
        ) <==> owner == user,
        in_key_range(
            seed_plan(spaces, user)[4].0,
            user_key_spec(spaces.orders.key_prefix(), owner),
            user_key_spec(spaces.orders.key_prefix(), owner).push(0xFFu8),
        ) <==> owner == user,
{
    let u = tuple_string_encoding(user);
    let lp = spaces.logins.key_prefix();
    let op = spaces.orders.key_prefix();
    law_user_range_selects_user(lp, owner, user, seq![0x15u8, 1u8]);
    law_user_range_selects_user(lp, owner, user, seq![0x15u8, 2u8]);
    law_user_range_selects_user(op, owner, user, tuple_string_encoding("ord-001"@));
    assert(lp + u + seq![0x15u8, 1u8] == user_key_spec(lp, user) + seq![0x15u8, 1u8]);
    assert(lp + u + seq![0x15u8, 2u8] == user_key_spec(lp, user) + seq![0x15u8, 2u8]);
    assert(op + u + tuple_string_encoding("ord-001"@) == user_key_spec(op, user)
        + tuple_string_encoding("ord-001"@));
}

/// The user record that seeding writes names the seeded user: its value
/// reads, as UTF-8, `{"name":"Alice","id":"<user>"}` for that user, so
/// seeding two different users writes two different user records. The two
/// seeded logins of a user have different keys.
pub proof fn law_seeded_user_record_names_user(
    spaces: CoreSpaces,
    user: Seq<char>,
    other: Seq<char>,
)
    ensures
        seed_plan(spaces, user).len() == 5,
        decode_utf8(seed_plan(spaces, user)[0].1) == "{\"name\":\"Alice\",\"id\":\""@ + user
            + "\"}"@,
        user != other ==> seed_plan(spaces, user)[0].1 != seed_plan(spaces, other)[0].1,
        seed_plan(spaces, user)[2].0 != seed_plan(spaces, user)[3].0,
{
    let pre = "{\"name\":\"Alice\",\"id\":\""@;
    let post = "\"}"@;
    encode_utf8_decode_utf8(pre + user + post);
    encode_utf8_decode_utf8(pre + other + post);
    if user != other {
        let a = pre + user + post;
        let b = pre + other + post;
        assert(a.subrange(pre.len() as int, a.len() - post.len()) =~= user);
        assert(b.subrange(pre.len() as int, b.len() - post.len()) =~= other);
    }
    let k2 = seed_plan(spaces, user)[2].0;
    let k3 = seed_plan(spaces, user)[3].0;
    assert(k2[k2.len() - 1] == 1u8);
    assert(k3[k3.len() - 1] == 2u8);
}

/// Each seeded record lies in the directory it belongs to and reads, as
/// UTF-8, as the sample data: the wallet, the two logins (chrome, then
/// mobile) and the order.
pub proof fn law_seeded_records_contents(spaces: CoreSpaces, user: Seq<char>)
    ensures
        seed_plan(spaces, user)[1].0.take(spaces.wallets.key_prefix().len() as int)
            == spaces.wallets.key_prefix(),
        seed_plan(spaces, user)[2].0.take(spaces.logins.key_prefix().len() as int)
            == spaces.logins.key_prefix(),
        seed_plan(spaces, user)[3].0.take(spaces.logins.key_prefix().len() as int)
            == spaces.logins.key_prefix(),
        seed_plan(spaces, user)[4].0.take(spaces.orders.key_prefix().len() as int)
            == spaces.orders.key_prefix(),
        decode_utf8(seed_plan(spaces, user)[1].1) == "{\"balance\":1000,\"asset\":\"USDT\"}"@,
        decode_utf8(seed_plan(spaces, user)[2].1) == "login from chrome"@,
        decode_utf8(seed_plan(spaces, user)[3].1) == "login from mobile"@,
        decode_utf8(seed_plan(spaces, user)[4].1)
            == "{\"side\":\"BUY\",\"qty\":0.1,\"asset\":\"BTCUSDT\"}"@,
{
    let u = tuple_string_encoding(user);
    assert((spaces.wallets.key_prefix() + u).take(spaces.wallets.key_prefix().len() as int)
        =~= spaces.wallets.key_prefix());
    assert((spaces.logins.key_prefix() + u + seq![0x15u8, 1u8]).take(
        spaces.logins.key_prefix().len() as int,
    ) =~= spaces.logins.key_prefix());
    assert((spaces.logins.key_prefix() + u + seq![0x15u8, 2u8]).take(
        spaces.logins.key_prefix().len() as int,
    ) =~= spaces.logins.key_prefix());
    assert((spaces.orders.key_prefix() + u + tuple_string_encoding("ord-001"@)).take(
        spaces.orders.key_prefix().len() as int,
    ) =~= spaces.orders.key_prefix());
    encode_utf8_decode_utf8("{\"balance\":1000,\"asset\":\"USDT\"}"@);
    encode_utf8_decode_utf8("login from chrome"@);
    encode_utf8_decode_utf8("login from mobile"@);
    encode_utf8_decode_utf8("{\"side\":\"BUY\",\"qty\":0.1,\"asset\":\"BTCUSDT\"}"@);
}

/// The four core paths are two components long, all under `srotas`, and
/// name four different directories.
pub proof fn law_core_paths_distinct_under_srotas()
    ensures
        core_space_paths_spec().len() == 4,
        forall|i: int|
            0 <= i < 4 ==> (#[trigger] core_space_paths_spec()[i]).len() == 2
                && core_space_paths_spec()[i][0] == "srotas"@,
        forall|i: int, j: int|
            0 <= i < 4 && 0 <= j < 4 && i != j ==> (#[trigger] core_space_paths_spec()[i])
                != (#[trigger] core_space_paths_spec()[j]),
{
    reveal_strlit("users");
    reveal_strlit("logins");
    reveal_strlit("orders");
    reveal_strlit("wallets");
    let p = core_space_paths_spec();
    assert(p[0][1] == "users"@ && "users"@.len() == 5);
    assert(p[1][1] == "logins"@ && "logins"@[0] == 'l');
    assert(p[2][1] == "orders"@ && "orders"@[0] == 'o');
    assert(p[3][1] == "wallets"@ && "wallets"@.len() == 7);
    assert(p[0][1] != p[1][1]);
    assert(p[0][1] != p[2][1]);
    assert(p[0][1] != p[3][1]);
    assert(p[1][1][0] != p[2][1][0]);
    assert(p[1][1] != p[2][1]);
    assert(p[1][1] != p[3][1]);
    assert(p[2][1] != p[3][1]);
}

} // verus!
