//! Keys inside a directory of the FoundationDB directory layer.
//!
//! A directory is opened by the directory layer (over the network); what the
//! key logic reads of it is kept here as plain values: an ordinary directory
//! is a subspace with a key prefix, and a directory partition cannot pack
//! keys itself.

use vstd::prelude::*;
use vstd::string::*;

use crate::tuple_text::{
    bytes_result, escape_nul, fits_tuple_limit, lemma_tuple_string_encoding_injective,
    lemma_wrapped_parses,
    packable_tuple_text, parse_simple_tuple_str, parse_tuple_text, tuple_string_encoding,
};
use vstd::utf8::encode_utf8;

use crate::text::trim;

verus! {

/// What the key logic needs of a directory of the directory layer.
#[derive(Debug)]
pub enum DirSpace {
    /// An ordinary directory: every key in it starts with `prefix`.
    Subspace { prefix: Vec<u8> },
    /// A directory partition, whose root cannot pack keys.
    Partition,
}

impl DirSpace {
    /// A subspace prefix is no longer than the tuple layer allows (`u32`),
    /// as for every directory that the directory layer hands out.
    pub open spec fn wf(&self) -> bool {
        self matches DirSpace::Subspace { prefix } ==> prefix@.len() <= u32::MAX
    }

    /// The key prefix of a subspace.
    pub open spec fn key_prefix(&self) -> Seq<u8> {
        match self {
            DirSpace::Subspace { prefix } => prefix@,
            DirSpace::Partition => Seq::empty(),
        }
    }
}

/// The four directories of the application, in the order of their paths in
/// `core_space_paths`.
pub struct CoreSpaces {
    pub users: DirSpace,
    pub logins: DirSpace,
    pub orders: DirSpace,
    pub wallets: DirSpace,
}

/// Calls `foundationdb_tuple::Subspace::pack` with the tuple `(s,)`, on the
/// subspace that `Subspace::from_bytes(prefix)` makes. Claims that the key is
/// the prefix followed by the encoding of `(s,)`. `from_bytes` panics on a
/// prefix longer than `u32`, and the encoder on an encoding longer than
/// `u32`; `requires` leaves both out.
#[verifier::external_body]
fn subspace_pack_string(prefix: &[u8], s: &str) -> (res: Vec<u8>)
    requires
        prefix@.len() <= u32::MAX,
        fits_tuple_limit(s@),
    ensures
        res@ == prefix@ + tuple_string_encoding(s@),
{
    foundationdb_tuple::Subspace::from_bytes(prefix).pack(&(s,))
}

/// Calls `foundationdb_tuple::Subspace::pack` with the tuple `(s, n)`, `n`
/// taken as an `i64`, on the subspace that `Subspace::from_bytes(prefix)`
/// makes. Claims that the key is the prefix, the encoding of `s`, and the
/// one-byte positive integer code `0x15` followed by `n`.
#[verifier::external_body]
pub(crate) fn subspace_pack_string_int(prefix: &[u8], s: &str, n: u8) -> (res: Vec<u8>)
    requires
        prefix@.len() <= u32::MAX,
        n >= 1,
        tuple_string_encoding(s@).len() + 2 <= u32::MAX,
    ensures
        res@ == prefix@ + tuple_string_encoding(s@) + seq![0x15u8, n],
{
    foundationdb_tuple::Subspace::from_bytes(prefix).pack(&(s, n as i64))
}

/// Calls `foundationdb_tuple::Subspace::pack` with the tuple `(a, b)` of two
/// strings, on the subspace that `Subspace::from_bytes(prefix)` makes.
/// Claims that the key is the prefix followed by the encodings of `a` and `b`.
#[verifier::external_body]
pub(crate) fn subspace_pack_string_pair(prefix: &[u8], a: &str, b: &str) -> (res: Vec<u8>)
    requires
        prefix@.len() <= u32::MAX,
        tuple_string_encoding(a@).len() + tuple_string_encoding(b@).len() <= u32::MAX,
    ensures
        res@ == prefix@ + tuple_string_encoding(a@) + tuple_string_encoding(b@),
{
    foundationdb_tuple::Subspace::from_bytes(prefix).pack(&(a, b))
}

/// Calls `foundationdb_tuple::Subspace::range` on the subspace that
/// `Subspace::from_bytes(prefix)` makes. Claims that the range runs from the
/// prefix followed by `0x00` to the prefix followed by `0xFF`.
#[verifier::external_body]
fn subspace_range(prefix: &[u8]) -> (res: (Vec<u8>, Vec<u8>))
    requires
        prefix@.len() <= u32::MAX,
    ensures
        res.0@ == prefix@.push(0x00u8),
        res.1@ == prefix@.push(0xFFu8),
{
    foundationdb_tuple::Subspace::from_bytes(prefix).range()
}

/// The key of the tuple `(user_id,)` in a subspace with key prefix `prefix`.
pub open spec fn user_key_spec(prefix: Seq<u8>, user_id: Seq<char>) -> Seq<u8> {
    prefix + tuple_string_encoding(user_id)
}

/// The key of the one-element tuple `(user_id,)` in the directory `dir`.
pub fn user_key(dir: &DirSpace, user_id: &str) -> (key: Vec<u8>)
    requires
        dir.wf(),
        dir is Subspace,
        fits_tuple_limit(user_id@),
    ensures
        key@ == user_key_spec(dir.key_prefix(), user_id@),
{
    match dir {
        DirSpace::Subspace { prefix } => subspace_pack_string(prefix.as_slice(), user_id),
        DirSpace::Partition => {
            assert(false);
            Vec::new()
        },
    }
}

/// Build a prefix range for "all keys starting with this user's id" in a
/// subspace: from the key of `(user_id,)` to that key followed by `0xFF`.
pub fn prefix_range_for_user(dir: &DirSpace, user_id: &str) -> (range: (Vec<u8>, Vec<u8>))
    requires
        dir.wf(),
        dir is Subspace,
        fits_tuple_limit(user_id@),
    ensures
        range.0@ == user_key_spec(dir.key_prefix(), user_id@),
        range.1@ == range.0@.push(0xFFu8),
{
    let prefix = user_key(dir, user_id);
    let mut end = prefix.clone();
    end.push(0xFF);
    (prefix, end)
}

/// The text of the error that packing in a directory partition gives.
pub open spec fn partition_pack_error() -> Seq<char> {
    "pack error: CannotPackDirectoryPartition"@
}

/// The key that the tuple text `s` names in the directory `dir`, or why
/// there is none.
pub open spec fn dir_tuple_key(dir: DirSpace, s: Seq<char>) -> Result<Seq<u8>, Seq<char>> {
    match parse_tuple_text(s) {
        Err(e) => Err(e),
        Ok(v) => match dir {
            DirSpace::Subspace { prefix } => Ok(prefix@ + tuple_string_encoding(v)),
            DirSpace::Partition => Err(partition_pack_error()),
        },
    }
}

/// Build a single key from a tuple string, e.g. `(user-1)`.
pub fn tuple_key_from_string(dir: &DirSpace, tuple_str: &str) -> (res: Result<Vec<u8>, String>)
    requires
        dir.wf(),
        packable_tuple_text(tuple_str@),
    ensures
        bytes_result(res) == dir_tuple_key(*dir, tuple_str@),
{
    let v = match parse_simple_tuple_str(tuple_str) {
        Ok(v) => v,
        Err(e) => return Err(e),
    };
    match dir {
        DirSpace::Subspace { prefix } => Ok(subspace_pack_string(prefix.as_slice(), v.as_str())),
        DirSpace::Partition => Err(
            String::from_str("pack error: CannotPackDirectoryPartition"),
        ),
    }
}

/// Generic prefix range: given a directory and a tuple string like
/// `(user-1)`, build `[begin, end)` so that one can scan by prefix. `begin` is
/// the key of the tuple and `end` is `begin` followed by `0xFF`.
pub fn tuple_prefix_range(dir: &DirSpace, tuple_str: &str) -> (res: Result<
    (Vec<u8>, Vec<u8>),
    String,
>)
    requires
        dir.wf(),
        packable_tuple_text(tuple_str@),
    ensures
        match res {
            Ok((begin, end)) => dir_tuple_key(*dir, tuple_str@) == Ok::<Seq<u8>, Seq<char>>(
                begin@,
            ) && end@ == begin@.push(0xFFu8),
            Err(e) => dir_tuple_key(*dir, tuple_str@) == Err::<Seq<u8>, Seq<char>>(e@),
        },
{
    match tuple_key_from_string(dir, tuple_str) {
        Ok(prefix) => {
            let mut end = prefix.clone();
            end.push(0xFF);
            Ok((prefix, end))
        },
        Err(e) => Err(e),
    }
}

/// What scanning a whole directory reads: from the prefix followed by
/// `0x00` to the prefix followed by `0xFF`, with the limit as a count.
pub fn dump_dir_bounds(dir: &DirSpace, limit: i32) -> (res: (Vec<u8>, Vec<u8>, usize))
    requires
        dir.wf(),
        dir is Subspace,
        limit >= 0,
    ensures
        res.0@ == dir.key_prefix().push(0x00u8),
        res.1@ == dir.key_prefix().push(0xFFu8),
        res.2 == limit,
{
    match dir {
        DirSpace::Subspace { prefix } => {
            let (begin, end) = subspace_range(prefix.as_slice());
            (begin, end, limit as usize)
        },
        DirSpace::Partition => {
            assert(false);
            (Vec::new(), Vec::new(), 0)
        },
    }
}

// ---------------------------------------------------------------------
// Key order and prefix ranges
// ---------------------------------------------------------------------

/// `a` sorts before `b` in the byte-wise order of FoundationDB keys.
pub open spec fn key_lt(a: Seq<u8>, b: Seq<u8>) -> bool
    decreases a.len(),
{
    if a.len() == 0 {
        b.len() > 0
    } else if b.len() == 0 {
        false
    } else if a[0] != b[0] {
        a[0] < b[0]
    } else {
        key_lt(a.drop_first(), b.drop_first())
    }
}

/// `k` lies in the key range `[begin, end)`.
pub open spec fn in_key_range(k: Seq<u8>, begin: Seq<u8>, end: Seq<u8>) -> bool {
    !key_lt(k, begin) && key_lt(k, end)
}

/// A common prefix does not change the order of two keys.
pub proof fn lemma_key_lt_common_prefix(p: Seq<u8>, a: Seq<u8>, b: Seq<u8>)
    ensures
        key_lt(p + a, p + b) == key_lt(a, b),
    decreases p.len(),
{
    if p.len() > 0 {
        assert((p + a).drop_first() =~= p.drop_first() + a);
        assert((p + b).drop_first() =~= p.drop_first() + b);
        lemma_key_lt_common_prefix(p.drop_first(), a, b);
    } else {
        assert(p + a =~= a);
        assert(p + b =~= b);
    }
}

/// A key in `[w, w + 0xFF)` starts with `w`, and the byte after `w`, if
/// any, is not `0xFF`.
proof fn lemma_in_prefix_range(z: Seq<u8>, w: Seq<u8>)
    requires
        in_key_range(z, w, w.push(0xFFu8)),
    ensures
        z.len() >= w.len(),
        z.take(w.len() as int) == w,
        z.len() == w.len() || z[w.len() as int] != 0xFFu8,
    decreases w.len(),
{
    let w2 = w.push(0xFFu8);
    if w.len() == 0 {
        assert(z.take(0) =~= w);
        if z.len() > 0 && z[0] == 0xFFu8 {
            assert(w2.drop_first() =~= Seq::<u8>::empty());
            assert(!key_lt(z.drop_first(), w2.drop_first()));
        }
    } else {
        assert(z.len() > 0);
        assert(z[0] == w[0]);
        assert(w2.drop_first() =~= w.drop_first().push(0xFFu8));
        lemma_in_prefix_range(z.drop_first(), w.drop_first());
        assert(z.take(w.len() as int) =~= w) by {
            assert forall|i: int| 0 <= i < w.len() implies z[i] == w[i] by {
                if i > 0 {
                    assert(z.drop_first().take(w.len() - 1)[i - 1] == z[i]);
                }
            }
        }
        if z.len() > w.len() {
            assert(z[w.len() as int] == z.drop_first()[w.len() - 1]);
        }
    }
}

/// Every `0x00` byte of `b` is followed by `0xFF`.
pub open spec fn nul_escaped(b: Seq<u8>) -> bool {
    forall|j: int| 0 <= j < b.len() && #[trigger] b[j] == 0u8 ==> j + 1 < b.len() && b[j + 1] == 0xFFu8
}

proof fn lemma_escape_nul_escaped(b: Seq<u8>)
    ensures
        nul_escaped(escape_nul(b)),
    decreases b.len(),
{
    if b.len() > 0 {
        let e = escape_nul(b);
        let r = escape_nul(b.drop_first());
        lemma_escape_nul_escaped(b.drop_first());
        let h: Seq<u8> = if b[0] == 0u8 {
            seq![0u8, 0xFFu8]
        } else {
            seq![b[0]]
        };
        assert(e == h + r);
        assert forall|j: int| 0 <= j < e.len() && #[trigger] e[j] == 0u8 implies j + 1 < e.len()
            && e[j + 1] == 0xFFu8 by {
            if j >= h.len() {
                assert(e[j] == r[j - h.len()]);
                assert(e[j + 1] == r[j + 1 - h.len()]);
            }
        }
    }
}

/// Of two escaped byte strings, a terminated one that is found at the start
/// of the other terminated one, with no `0xFF` right after it, is the same.
proof fn lemma_escaped_terminated_prefix(x: Seq<u8>, y: Seq<u8>, rest: Seq<u8>)
    requires
        nul_escaped(x),
        nul_escaped(y),
        rest.len() == 0 || rest[0] != 0xFFu8,
        ({
            let z = y + seq![0u8] + rest;
            let w = x + seq![0u8];
            &&& z.len() >= w.len()
            &&& z.take(w.len() as int) == w
            &&& z.len() == w.len() || z[w.len() as int] != 0xFFu8
        }),
    ensures
        x == y,
{
    let z = y + seq![0u8] + rest;
    let w = x + seq![0u8];
    assert(z.take(w.len() as int)[x.len() as int] == w[x.len() as int]);
    if y.len() > x.len() {
        assert(z[x.len() as int] == y[x.len() as int]);
        assert(y[x.len() as int] == 0u8);
        assert(z[x.len() as int + 1] == y[x.len() as int + 1]);
        assert(false);
    } else if y.len() < x.len() {
        assert(z.take(w.len() as int)[y.len() as int] == w[y.len() as int]);
        assert(x[y.len() as int] == 0u8);
        assert(z.take(w.len() as int)[y.len() as int + 1] == w[y.len() as int + 1]);
        assert(z[y.len() as int + 1] == rest[0]);
        assert(false);
    } else {
        assert forall|i: int| 0 <= i < x.len() implies x[i] == y[i] by {
            assert(z.take(w.len() as int)[i] == w[i]);
        }
        assert(x =~= y);
    }
}

/// The prefix range of a user holds, of the keys of tuples that start with a
/// user id and go on with bytes that do not start with `0xFF` (such as
/// further tuple elements, whose type codes are not `0xFF`), exactly those
/// of that user.
pub proof fn law_user_range_selects_user(
    prefix: Seq<u8>,
    user: Seq<char>,
    other: Seq<char>,
    rest: Seq<u8>,
)
    requires
        rest.len() == 0 || rest[0] != 0xFFu8,
    ensures
        in_key_range(
            user_key_spec(prefix, other) + rest,
            user_key_spec(prefix, user),
            user_key_spec(prefix, user).push(0xFFu8),
        ) <==> other == user,
{
    let x = escape_nul(encode_utf8(user));
    let y = escape_nul(encode_utf8(other));
    let p = prefix + seq![0x02u8];
    let z = y + seq![0u8] + rest;
    let w = x + seq![0u8];
    let w2 = w.push(0xFFu8);
    let k = user_key_spec(prefix, other) + rest;
    let begin = user_key_spec(prefix, user);
    assert(k =~= p + z);
    assert(begin =~= p + w);
    assert(begin.push(0xFFu8) =~= p + w2);
    lemma_key_lt_common_prefix(p, z, w);
    lemma_key_lt_common_prefix(p, z, w2);
    if other == user {
        assert(z =~= w + rest);
        assert(w2 =~= w + seq![0xFFu8]);
        lemma_key_lt_common_prefix(w, rest, Seq::empty());
        assert(w + Seq::<u8>::empty() =~= w);
        lemma_key_lt_common_prefix(w, rest, seq![0xFFu8]);
        if rest.len() > 0 {
            assert(rest.drop_first().len() >= 0);
        }
    } else {
        if in_key_range(z, w, w2) {
            lemma_in_prefix_range(z, w);
            lemma_escape_nul_escaped(encode_utf8(user));
            lemma_escape_nul_escaped(encode_utf8(other));
            lemma_escaped_terminated_prefix(x, y, rest);
            lemma_tuple_string_encoding_injective(user, other);
        }
    }
}

/// The tuple text `(user)` names, in a subspace, the key that begins the
/// user's prefix range, for a user id without surrounding whitespace.
pub proof fn law_tuple_text_names_user_key(dir: DirSpace, user: Seq<char>)
    requires
        dir is Subspace,
        trim(user) == user,
    ensures
        dir_tuple_key(dir, "("@ + user + ")"@) == Ok::<Seq<u8>, Seq<char>>(
            user_key_spec(dir.key_prefix(), user),
        ),
{
    lemma_wrapped_parses(user);
}

} // verus!
