use snm_fdbcli::directory::{dump_dir_bounds, user_key};
use snm_fdbcli::spaces::{core_space_paths, owned_path, seed_writes};
use snm_fdbcli::{
    prefix_range_for_user, tuple_key_from_string, tuple_prefix_range, CoreSpaces, DirSpace,
};

fn subspace(prefix: &[u8]) -> DirSpace {
    DirSpace::Subspace { prefix: prefix.to_vec() }
}

fn enc(s: &str) -> Vec<u8> {
    let mut v = vec![0x02];
    v.extend_from_slice(s.as_bytes());
    v.push(0x00);
    v
}

#[test]
fn tuple_prefix_range_on_subspace() {
    let dir = subspace(&[0x15, 0x07]);
    let (begin, end) = tuple_prefix_range(&dir, "(alice)").expect("tuple_prefix_range");
    assert!(!begin.is_empty(), "begin should not be empty");
    assert!(begin.len() < end.len(), "end should be longer than begin");
    assert_eq!(end.last().copied(), Some(0xFF), "end should end with 0xFF");
    assert_eq!(begin, vec![0x15, 0x07, 0x02, b'a', b'l', b'i', b'c', b'e', 0x00]);
    let mut expected_end = begin.clone();
    expected_end.push(0xFF);
    assert_eq!(end, expected_end);
}

#[test]
fn tuple_prefix_range_errors() {
    let dir = subspace(&[0x15, 0x07]);
    assert_eq!(
        tuple_prefix_range(&dir, "alice").unwrap_err(),
        "Expected (value), got: alice"
    );
    assert_eq!(
        tuple_prefix_range(&DirSpace::Partition, "(alice)").unwrap_err(),
        "pack error: CannotPackDirectoryPartition"
    );
    // A parse error comes before the partition error.
    assert_eq!(
        tuple_prefix_range(&DirSpace::Partition, "alice").unwrap_err(),
        "Expected (value), got: alice"
    );
}

#[test]
fn tuple_key_is_range_begin() {
    let dir = subspace(&[0xFE]);
    let key = tuple_key_from_string(&dir, " (order-9) ").unwrap();
    let (begin, _) = tuple_prefix_range(&dir, " (order-9) ").unwrap();
    assert_eq!(key, begin);
    let mut expected = vec![0xFE];
    expected.extend(enc("order-9"));
    assert_eq!(key, expected);
    assert_eq!(
        tuple_key_from_string(&DirSpace::Partition, "(x)").unwrap_err(),
        "pack error: CannotPackDirectoryPartition"
    );
}

#[test]
fn prefix_range_for_user_bounds() {
    let dir = subspace(b"\x15\x01");
    let (begin, end) = prefix_range_for_user(&dir, "user-1");
    let mut expected = b"\x15\x01".to_vec();
    expected.extend(enc("user-1"));
    assert_eq!(begin, expected);
    expected.push(0xFF);
    assert_eq!(end, expected);
    assert_eq!(user_key(&dir, "user-1"), begin);
    // Empty prefix: the key is the bare tuple.
    let (begin, _) = prefix_range_for_user(&subspace(&[]), "u");
    assert_eq!(begin, enc("u"));
}

#[test]
fn user_range_selects_only_that_users_keys() {
    let dir = subspace(&[0x15, 0x02]);
    let (begin, end) = prefix_range_for_user(&dir, "alice");
    let in_range = |k: &Vec<u8>| begin <= *k && *k < end;
    // Keys of tuples that start with "alice".
    let mut k1 = begin.clone();
    k1.extend([0x15, 0x01]);
    assert!(in_range(&k1));
    assert!(in_range(&begin));
    // Keys of other users, also those whose id starts with "alice".
    for other in ["alicf", "alic", "alice\u{0}", "alice\u{0}x", "alicea", ""] {
        let mut k = vec![0x15, 0x02];
        k.extend(user_key(&subspace(&[]), other));
        k.extend([0x15, 0x01]);
        assert!(!in_range(&k), "{:?} should be outside", other);
    }
}

#[test]
fn dump_bounds_cover_the_subspace() {
    let (begin, end, limit) = dump_dir_bounds(&subspace(&[0x15, 0x09]), 1000);
    assert_eq!(begin, vec![0x15, 0x09, 0x00]);
    assert_eq!(end, vec![0x15, 0x09, 0xFF]);
    assert_eq!(limit, 1000);
}

#[test]
fn core_paths_are_under_srotas() {
    let paths = core_space_paths();
    assert_eq!(
        paths,
        vec![
            vec!["srotas".to_string(), "users".to_string()],
            vec!["srotas".to_string(), "logins".to_string()],
            vec!["srotas".to_string(), "orders".to_string()],
            vec!["srotas".to_string(), "wallets".to_string()],
        ]
    );
    assert_eq!(owned_path(&["a", "b c"]), vec!["a".to_string(), "b c".to_string()]);
    assert!(owned_path(&[]).is_empty());
}

#[test]
fn seed_writes_user_wallet_logins_and_order() {
    let spaces = CoreSpaces {
        users: subspace(&[0x15, 0x01]),
        logins: subspace(&[0x15, 0x02]),
        orders: subspace(&[0x15, 0x03]),
        wallets: subspace(&[0x15, 0x04]),
    };
    let writes = seed_writes(&spaces, "user-1");
    let key = |p: &[u8], rest: &[u8]| {
        let mut k = p.to_vec();
        k.extend(enc("user-1"));
        k.extend_from_slice(rest);
        k
    };
    assert_eq!(writes.len(), 5);
    assert_eq!(writes[0].0, key(&[0x15, 0x01], &[]));
    assert_eq!(writes[0].1, br#"{"name":"Alice","id":"user-1"}"#.to_vec());
    assert_eq!(writes[1].0, key(&[0x15, 0x04], &[]));
    assert_eq!(writes[1].1, br#"{"balance":1000,"asset":"USDT"}"#.to_vec());
    assert_eq!(writes[2].0, key(&[0x15, 0x02], &[0x15, 0x01]));
    assert_eq!(writes[2].1, b"login from chrome".to_vec());
    assert_eq!(writes[3].0, key(&[0x15, 0x02], &[0x15, 0x02]));
    assert_eq!(writes[3].1, b"login from mobile".to_vec());
    assert_eq!(writes[4].0, key(&[0x15, 0x03], &enc("ord-001")));
    assert_eq!(writes[4].1, br#"{"side":"BUY","qty":0.1,"asset":"BTCUSDT"}"#.to_vec());

    // The logins and the order are found by the user's prefix ranges.
    let (b, e) = prefix_range_for_user(&spaces.logins, "user-1");
    assert!(b <= writes[2].0 && writes[2].0 < e);
    assert!(b <= writes[3].0 && writes[3].0 < e);
    let (b, e) = prefix_range_for_user(&spaces.orders, "user-1");
    assert!(b <= writes[4].0 && writes[4].0 < e);
    let (b, e) = prefix_range_for_user(&spaces.logins, "user-2");
    assert!(!(b <= writes[2].0 && writes[2].0 < e));
}
