//! Character-level helpers on strings: Unicode whitespace, trimming,
//! ASCII case-insensitive comparison and splitting into words.

use vstd::prelude::*;
use vstd::string::*;

verus! {

/// The characters with the Unicode `White_Space` property, the set that
/// `char::is_whitespace` and `str::trim` use.
pub open spec fn is_whitespace(c: char) -> bool {
    let u = c as u32;
    ||| 0x09 <= u <= 0x0D
    ||| u == 0x20
    ||| u == 0x85
    ||| u == 0xA0
    ||| u == 0x1680
    ||| 0x2000 <= u <= 0x200A
    ||| u == 0x2028
    ||| u == 0x2029
    ||| u == 0x202F
    ||| u == 0x205F
    ||| u == 0x3000
}

/// `s` without its leading whitespace.
pub open spec fn trim_start(s: Seq<char>) -> Seq<char>
    decreases s.len(),
{
    if s.len() > 0 && is_whitespace(s[0]) {
        trim_start(s.drop_first())
    } else {
        s
    }
}

/// `s` without its trailing whitespace.
pub open spec fn trim_end(s: Seq<char>) -> Seq<char>
    decreases s.len(),
{
    if s.len() > 0 && is_whitespace(s.last()) {
        trim_end(s.drop_last())
    } else {
        s
    }
}

/// `s` without leading and trailing whitespace.
pub open spec fn trim(s: Seq<char>) -> Seq<char> {
    trim_end(trim_start(s))
}

/// Decides whether `c` is Unicode whitespace.
pub fn char_is_whitespace(c: char) -> (b: bool)
    ensures
        b == is_whitespace(c),
{
    let u = c as u32;
    (0x09 <= u && u <= 0x0D) || u == 0x20 || u == 0x85 || u == 0xA0 || u == 0x1680 || (0x2000
        <= u && u <= 0x200A) || u == 0x2028 || u == 0x2029 || u == 0x202F || u == 0x205F || u
        == 0x3000
}

/// The characters of `s`, in order.
pub fn chars_of(s: &str) -> (v: Vec<char>)
    ensures
        v@ == s@,
{
    let mut v: Vec<char> = Vec::new();
    for c in it: s.chars()
        invariant
            v@ == it.seq().take(it.index() as int),
    {
        v.push(c);
    }
    assert(v@ =~= s@);
    v
}

proof fn lemma_trim_start_at(s: Seq<char>, i: int)
    requires
        0 <= i <= s.len(),
        forall|k: int| 0 <= k < i ==> is_whitespace(#[trigger] s[k]),
        i == s.len() || !is_whitespace(s[i]),
    ensures
        trim_start(s) == s.skip(i),
    decreases i,
{
    if i == 0 {
        if s.len() > 0 {
            assert(!is_whitespace(s[0]));
        }
        assert(s.skip(0) =~= s);
    } else {
        assert(is_whitespace(s[0]));
        let t = s.drop_first();
        assert forall|k: int| 0 <= k < i - 1 implies is_whitespace(#[trigger] t[k]) by {
            assert(t[k] == s[k + 1]);
        }
        if i < s.len() {
            assert(t[i - 1] == s[i]);
        }
        lemma_trim_start_at(t, i - 1);
        assert(t.skip(i - 1) =~= s.skip(i));
    }
}

proof fn lemma_trim_end_at(s: Seq<char>, j: int)
    requires
        0 <= j <= s.len(),
        forall|k: int| j <= k < s.len() ==> is_whitespace(#[trigger] s[k]),
        j == 0 || !is_whitespace(s[j - 1]),
    ensures
        trim_end(s) == s.take(j),
    decreases s.len() - j,
{
    if j == s.len() {
        if s.len() > 0 {
            assert(!is_whitespace(s.last()));
        }
        assert(s.take(j) =~= s);
    } else {
        assert(is_whitespace(s.last()));
        let t = s.drop_last();
        assert forall|k: int| j <= k < t.len() implies is_whitespace(#[trigger] t[k]) by {
            assert(t[k] == s[k]);
        }
        if j > 0 {
            assert(t[j - 1] == s[j - 1]);
        }
        lemma_trim_end_at(t, j);
        assert(t.take(j) =~= s.take(j));
    }
}

/// `s` without leading and trailing Unicode whitespace, as `str::trim` gives it.
pub fn trim_str(s: &str) -> (t: &str)
    ensures
        t@ == trim(s@),
{
    let v = chars_of(s);
    let n = v.len();
    let mut i: usize = 0;
    while i < n && char_is_whitespace(v[i])
        invariant
            n == v@.len(),
            v@ == s@,
            i <= n,
            forall|k: int| 0 <= k < i ==> is_whitespace(#[trigger] v@[k]),
        decreases n - i,
    {
        i = i + 1;
    }
    let mut j: usize = n;
    while j > i && char_is_whitespace(v[j - 1])
        invariant
            n == v@.len(),
            v@ == s@,
            i <= j <= n,
            forall|k: int| j <= k < n ==> is_whitespace(#[trigger] v@[k]),
        decreases j - i,
    {
        j = j - 1;
    }
    proof {
        lemma_trim_start_at(s@, i as int);
        let u = s@.skip(i as int);
        assert forall|k: int| j - i <= k < u.len() implies is_whitespace(#[trigger] u[k]) by {
            assert(u[k] == s@[k + i]);
        }
        if j - i > 0 {
            assert(u[j - i - 1] == s@[j - 1]);
        }
        lemma_trim_end_at(u, j - i);
        assert(u.take(j - i) =~= s@.subrange(i as int, j as int));
    }
    s.substring_char(i, j)
}

/// `c` with `A`..`Z` mapped to `a`..`z`, as `char::to_ascii_lowercase` does.
pub open spec fn ascii_lower(c: char) -> char {
    if 0x41 <= (c as u32) <= 0x5A {
        ((c as u32) + 32) as char
    } else {
        c
    }
}

/// Equality of two texts up to ASCII case, as `str::eq_ignore_ascii_case` decides it.
pub open spec fn eq_ignore_ascii_case(a: Seq<char>, b: Seq<char>) -> bool {
    &&& a.len() == b.len()
    &&& forall|i: int| 0 <= i < a.len() ==> ascii_lower(#[trigger] a[i]) == ascii_lower(b[i])
}

fn char_ascii_lower(c: char) -> (r: char)
    ensures
        r == ascii_lower(c),
{
    let code = c as u32;
    if 0x41 <= code && code <= 0x5A {
        let u = code + 32;
        // `u` lies in 'a'..='z', so it is a valid `char`.
        assert(0x61 <= u <= 0x7A);
        char_from_ascii(u)
    } else {
        c
    }
}

fn char_from_ascii(u: u32) -> (c: char)
    requires
        u < 0x80,
    ensures
        c == u as char,
{
    let b = u as u8;
    b as char
}

/// Decides whether `a` and `b` are equal up to ASCII case.
pub fn str_eq_ignore_ascii_case(a: &str, b: &str) -> (r: bool)
    ensures
        r == eq_ignore_ascii_case(a@, b@),
{
    let va = chars_of(a);
    let vb = chars_of(b);
    if va.len() != vb.len() {
        return false;
    }
    let n = va.len();
    let mut i: usize = 0;
    while i < n
        invariant
            n == va@.len(),
            n == vb@.len(),
            va@ == a@,
            vb@ == b@,
            i <= n,
            forall|k: int| 0 <= k < i ==> ascii_lower(#[trigger] va@[k]) == ascii_lower(vb@[k]),
        decreases n - i,
    {
        if char_ascii_lower(va[i]) != char_ascii_lower(vb[i]) {
            return false;
        }
        i = i + 1;
    }
    true
}

/// Decides whether `a` and `b` hold the same characters.
pub fn str_eq(a: &str, b: &str) -> (r: bool)
    ensures
        r == (a@ == b@),
{
    let va = chars_of(a);
    let vb = chars_of(b);
    if va.len() != vb.len() {
        return false;
    }
    let n = va.len();
    let mut i: usize = 0;
    while i < n
        invariant
            n == va@.len(),
            n == vb@.len(),
            va@ == a@,
            vb@ == b@,
            i <= n,
            forall|k: int| 0 <= k < i ==> #[trigger] va@[k] == vb@[k],
        decreases n - i,
    {
        if va[i] != vb[i] {
            return false;
        }
        i = i + 1;
    }
    assert(va@ =~= vb@);
    true
}

/// Trimming leaves text that is empty or starts and ends with a
/// non-whitespace character.
pub proof fn lemma_trim_shape(s: Seq<char>)
    ensures
        trim(s).len() == 0 || (!is_whitespace(trim(s)[0]) && !is_whitespace(trim(s).last())),
{
    lemma_trim_start_shape(s);
    lemma_trim_end_keeps_front(trim_start(s));
}

proof fn lemma_trim_start_shape(s: Seq<char>)
    ensures
        trim_start(s).len() == 0 || !is_whitespace(trim_start(s)[0]),
    decreases s.len(),
{
    if s.len() > 0 && is_whitespace(s[0]) {
        lemma_trim_start_shape(s.drop_first());
    }
}

proof fn lemma_trim_end_keeps_front(t: Seq<char>)
    requires
        t.len() == 0 || !is_whitespace(t[0]),
    ensures
        trim_end(t).len() == 0 || (!is_whitespace(trim_end(t)[0]) && !is_whitespace(
            trim_end(t).last(),
        )),
        trim_end(t).len() == 0 || trim_end(t)[0] == t[0],
    decreases t.len(),
{
    if t.len() > 0 && is_whitespace(t.last()) {
        let u = t.drop_last();
        if u.len() > 0 {
            assert(u[0] == t[0]);
        }
        lemma_trim_end_keeps_front(u);
    }
}

/// Text that is empty or has non-whitespace ends is left as it is by trimming.
pub proof fn lemma_trim_fixed(s: Seq<char>)
    requires
        s.len() == 0 || (!is_whitespace(s[0]) && !is_whitespace(s.last())),
    ensures
        trim(s) == s,
{
    assert(trim_start(s) == s);
    assert(trim_end(s) == s);
}

/// Trimming twice is trimming once.
pub proof fn lemma_trim_idempotent(s: Seq<char>)
    ensures
        trim(trim(s)) == trim(s),
{
    lemma_trim_shape(s);
    lemma_trim_fixed(trim(s));
}

proof fn lemma_trim_start_push(s: Seq<char>, c: char)
    ensures
        trim_start(s).len() > 0 ==> trim_start(s.push(c)) == trim_start(s).push(c),
        trim_start(s).len() == 0 ==> trim_start(s.push(c)) == trim_start(seq![c]),
    decreases s.len(),
{
    if s.len() == 0 {
        assert(s.push(c) =~= seq![c]);
    } else {
        assert(s.push(c)[0] == s[0]);
        assert(s.push(c).drop_first() =~= s.drop_first().push(c));
        if is_whitespace(s[0]) {
            lemma_trim_start_push(s.drop_first(), c);
        }
    }
}

proof fn lemma_trim_end_push_white(t: Seq<char>, c: char)
    requires
        is_whitespace(c),
    ensures
        trim_end(t.push(c)) == trim_end(t),
{
    assert(t.push(c).drop_last() =~= t);
}

/// Appending a whitespace character does not change what trimming gives.
pub proof fn law_trim_ignores_trailing_white(s: Seq<char>, c: char)
    requires
        is_whitespace(c),
    ensures
        trim(s.push(c)) == trim(s),
{
    lemma_trim_start_push(s, c);
    if trim_start(s).len() > 0 {
        lemma_trim_end_push_white(trim_start(s), c);
    } else {
        assert(seq![c].drop_first() =~= Seq::<char>::empty());
        assert(trim_start(seq![c]) == trim_start(Seq::<char>::empty()));
        assert(trim_start(s) =~= Seq::<char>::empty());
    }
}

/// Prepending a whitespace character does not change what trimming gives.
pub proof fn law_trim_ignores_leading_white(s: Seq<char>, c: char)
    requires
        is_whitespace(c),
    ensures
        trim(seq![c] + s) == trim(s),
{
    assert((seq![c] + s).drop_first() =~= s);
    assert((seq![c] + s)[0] == c);
}

/// Exactly the code points of the Unicode `White_Space` property are
/// trimmed away: U+0009..=U+000D, U+0020, U+0085, U+00A0, U+1680,
/// U+2000..=U+200A, U+2028, U+2029, U+202F, U+205F and U+3000. Such a
/// character alone trims to nothing, and can be added at either end of any
/// text without changing what trimming gives; any other character alone is
/// kept.
pub proof fn law_trim_removes_exactly_white_space(c: char, s: Seq<char>)
    ensures
        ({
            let u = c as u32;
            u == 0x09 || u == 0x0A || u == 0x0B || u == 0x0C || u == 0x0D || u == 0x20 || u
                == 0x85 || u == 0xA0 || u == 0x1680 || (0x2000 <= u && u <= 0x200A) || u == 0x2028
                || u == 0x2029 || u == 0x202F || u == 0x205F || u == 0x3000
        }) ==> trim(seq![c]).len() == 0 && trim(s.push(c)) == trim(s) && trim(seq![c] + s)
            == trim(s),
        !({
            let u = c as u32;
            u == 0x09 || u == 0x0A || u == 0x0B || u == 0x0C || u == 0x0D || u == 0x20 || u
                == 0x85 || u == 0xA0 || u == 0x1680 || (0x2000 <= u && u <= 0x200A) || u == 0x2028
                || u == 0x2029 || u == 0x202F || u == 0x205F || u == 0x3000
        }) ==> trim(seq![c]) == seq![c],
{
    let one = seq![c];
    if is_whitespace(c) {
        law_trim_ignores_trailing_white(s, c);
        law_trim_ignores_leading_white(s, c);
        law_trim_ignores_leading_white(Seq::empty(), c);
        assert(seq![c] + Seq::<char>::empty() =~= one);
        assert(trim_start(Seq::<char>::empty()) == Seq::<char>::empty());
    } else {
        assert(trim_start(one) == one);
        assert(one.last() == c);
        assert(trim_end(one) == one);
    }
}

/// A line ending, `\r\n` or `\n`, does not change what trimming gives.
pub proof fn law_trim_ignores_line_ending(s: Seq<char>)
    ensures
        trim(s + seq!['\r', '\n']) == trim(s),
        trim(s.push('\n')) == trim(s),
{
    assert(s + seq!['\r', '\n'] =~= s.push('\r').push('\n'));
    law_trim_ignores_trailing_white(s.push('\r'), '\n');
    law_trim_ignores_trailing_white(s, '\r');
    law_trim_ignores_trailing_white(s, '\n');
}

} // verus!
