//! Byte strings: big-endian numbers, searching, splitting, ASCII rules.
use vstd::prelude::*;
use vstd::slice::slice_subrange;
use vstd::utf8::encode_utf8;

verus! {

/// The number that a byte string stands for, most significant byte first.
pub open spec fn be_value(b: Seq<u8>) -> nat
    decreases b.len(),
{
    if b.len() == 0 {
        0
    } else {
        be_value(b.drop_last()) * 256 + b.last() as nat
    }
}

/// The last `k` base-256 digits of `n`, most significant first.
pub open spec fn be_bytes(n: nat, k: nat) -> Seq<u8>
    decreases k,
{
    if k == 0 {
        Seq::empty()
    } else {
        be_bytes(n / 256, (k - 1) as nat).push((n % 256) as u8)
    }
}

/// `256` to the power of `k`.
pub open spec fn pow256(k: nat) -> nat
    decreases k,
{
    if k == 0 {
        1
    } else {
        256 * pow256((k - 1) as nat)
    }
}

pub proof fn lemma_pow256_values()
    ensures
        pow256(1) == 0x100,
        pow256(2) == 0x1_0000,
        pow256(8) == 0x1_0000_0000_0000_0000,
{
    reveal_with_fuel(pow256, 10);
}

pub proof fn lemma_pow256_monotone(i: nat, j: nat)
    requires
        i <= j,
    ensures
        pow256(i) <= pow256(j),
    decreases j - i,
{
    if i < j {
        lemma_pow256_monotone(i, (j - 1) as nat);
    }
}

pub proof fn lemma_be_value_bound(b: Seq<u8>)
    ensures
        be_value(b) < pow256(b.len()),
    decreases b.len(),
{
    if b.len() > 0 {
        lemma_be_value_bound(b.drop_last());
    }
}

pub proof fn lemma_be_bytes_len(n: nat, k: nat)
    ensures
        be_bytes(n, k).len() == k,
    decreases k,
{
    if k > 0 {
        lemma_be_bytes_len(n / 256, (k - 1) as nat);
    }
}

/// Writing a number in `k` bytes and reading them back gives the number, if
/// `k` bytes can hold it.
pub proof fn law_be_round_trip(n: nat, k: nat)
    requires
        n < pow256(k),
    ensures
        be_bytes(n, k).len() == k,
        be_value(be_bytes(n, k)) == n,
    decreases k,
{
    lemma_be_bytes_len(n, k);
    if k > 0 {
        law_be_round_trip(n / 256, (k - 1) as nat);
        let b = be_bytes(n, k);
        assert(b.drop_last() =~= be_bytes(n / 256, (k - 1) as nat));
    }
}

/// Read up to eight bytes as a big-endian number.
pub fn read_be(b: &[u8]) -> (n: u64)
    requires
        b@.len() <= 8,
    ensures
        n == be_value(b@),
{
    let mut n: u64 = 0;
    let mut i: usize = 0;
    while i < b.len()
        invariant
            b@.len() <= 8,
            i <= b@.len(),
            n == be_value(b@.take(i as int)),
        decreases b@.len() - i,
    {
        proof {
            let next = b@.take(i + 1);
            assert(next.drop_last() =~= b@.take(i as int));
            assert(next.last() == b@[i as int]);
            lemma_be_value_bound(next);
            lemma_pow256_monotone((i + 1) as nat, 8);
            lemma_pow256_values();
        }
        n = n * 256 + b[i] as u64;
        i = i + 1;
    }
    assert(b@.take(i as int) =~= b@);
    n
}

/// Write the last `k` base-256 digits of `n`, most significant first.
pub fn to_be(n: u64, k: usize) -> (r: Vec<u8>)
    ensures
        r@ == be_bytes(n as nat, k as nat),
    decreases k,
{
    if k == 0 {
        Vec::new()
    } else {
        let mut r = to_be(n / 256, k - 1);
        r.push((n % 256) as u8);
        r
    }
}

/// Where `x` first occurs in `s`; the length of `s` if it does not.
pub open spec fn find<T>(s: Seq<T>, x: T) -> int
    decreases s.len(),
{
    if s.len() == 0 || s[0] == x {
        0
    } else {
        1 + find(s.skip(1), x)
    }
}

pub proof fn lemma_find<T>(s: Seq<T>, x: T)
    ensures
        0 <= find(s, x) <= s.len(),
        forall|k: int| 0 <= k < find(s, x) ==> s[k] != x,
        find(s, x) < s.len() ==> s[find(s, x)] == x,
    decreases s.len(),
{
    if s.len() > 0 && s[0] != x {
        lemma_find(s.skip(1), x);
        assert forall|k: int| 0 <= k < find(s, x) implies s[k] != x by {
            if k > 0 {
                assert(s[k] == s.skip(1)[k - 1]);
            }
        }
    }
}

/// A place before which `x` does not occur, and which holds it or is the end,
/// is where it first occurs.
pub proof fn lemma_find_is<T>(s: Seq<T>, x: T, i: int)
    requires
        0 <= i <= s.len(),
        forall|k: int| 0 <= k < i ==> s[k] != x,
        i < s.len() ==> s[i] == x,
    ensures
        find(s, x) == i,
{
    lemma_find(s, x);
}

/// Find the first `b` in `s` from `from` on; the length of `s` if there is
/// none.
pub fn find_byte(s: &[u8], b: u8, from: usize) -> (i: usize)
    requires
        from <= s@.len(),
    ensures
        from <= i <= s@.len(),
        i - from == find(s@.skip(from as int), b),
        forall|k: int| from <= k < i ==> s@[k] != b,
        i < s@.len() ==> s@[i as int] == b,
{
    let mut i: usize = from;
    while i < s.len() && s[i] != b
        invariant
            from <= i <= s@.len(),
            forall|k: int| from <= k < i ==> s@[k] != b,
        decreases s@.len() - i,
    {
        i = i + 1;
    }
    proof {
        lemma_find_is(s@.skip(from as int), b, i - from);
    }
    i
}

/// ASCII whitespace: space, tab, line feed, form feed, carriage return.
pub open spec fn is_ascii_space(b: u8) -> bool {
    b == 32 || b == 9 || b == 10 || b == 12 || b == 13
}

pub open spec fn trim_start(s: Seq<u8>) -> Seq<u8>
    decreases s.len(),
{
    if s.len() > 0 && is_ascii_space(s[0]) {
        trim_start(s.skip(1))
    } else {
        s
    }
}

pub open spec fn trim_end(s: Seq<u8>) -> Seq<u8>
    decreases s.len(),
{
    if s.len() > 0 && is_ascii_space(s.last()) {
        trim_end(s.drop_last())
    } else {
        s
    }
}

/// `s` without ASCII whitespace at either end.
pub open spec fn trimmed(s: Seq<u8>) -> Seq<u8> {
    trim_end(trim_start(s))
}

/// `s` without ASCII whitespace at either end.
pub fn trim_ascii(s: &[u8]) -> (r: &[u8])
    ensures
        r@ == trimmed(s@),
        r@.len() <= s@.len(),
{
    let mut i: usize = 0;
    assert(s@.skip(0) =~= s@);
    while i < s.len() && (s[i] == 32 || s[i] == 9 || s[i] == 10 || s[i] == 12 || s[i] == 13)
        invariant
            i <= s@.len(),
            trim_start(s@.skip(i as int)) == trim_start(s@),
        decreases s@.len() - i,
    {
        assert(s@.skip(i as int).skip(1) =~= s@.skip(i + 1));
        i = i + 1;
    }
    proof {
        assert(s@.skip(i as int) == trim_start(s@));
    }
    let mut j: usize = s.len();
    assert(s@.subrange(i as int, j as int) =~= trim_start(s@));
    while j > i && (s[j - 1] == 32 || s[j - 1] == 9 || s[j - 1] == 10 || s[j - 1] == 12 || s[j
        - 1] == 13)
        invariant
            i <= j <= s@.len(),
            trim_end(s@.subrange(i as int, j as int)) == trimmed(s@),
        decreases j,
    {
        assert(s@.subrange(i as int, j as int).drop_last() =~= s@.subrange(i as int, j - 1));
        j = j - 1;
    }
    slice_subrange(s, i, j)
}

/// The lower-case form of an ASCII letter; other bytes are themselves.
pub open spec fn ascii_lower(b: u8) -> u8 {
    if 65 <= b <= 90 {
        (b + 32) as u8
    } else {
        b
    }
}

/// Equal but for the case of ASCII letters.
pub open spec fn eq_no_case(a: Seq<u8>, b: Seq<u8>) -> bool {
    a.len() == b.len() && forall|i: int|
        0 <= i < a.len() ==> ascii_lower(#[trigger] a[i]) == ascii_lower(b[i])
}

fn to_lower(b: u8) -> (r: u8)
    ensures
        r == ascii_lower(b),
{
    if 65 <= b && b <= 90 {
        b + 32
    } else {
        b
    }
}

/// Whether two byte strings are equal but for the case of ASCII letters.
pub fn eq_ignore_ascii_case(a: &[u8], b: &[u8]) -> (r: bool)
    ensures
        r == eq_no_case(a@, b@),
{
    if a.len() != b.len() {
        return false;
    }
    let mut i: usize = 0;
    while i < a.len()
        invariant
            a@.len() == b@.len(),
            i <= a@.len(),
            forall|k: int| 0 <= k < i ==> ascii_lower(#[trigger] a@[k]) == ascii_lower(b@[k]),
        decreases a@.len() - i,
    {
        if to_lower(a[i]) != to_lower(b[i]) {
            assert(ascii_lower(a@[i as int]) != ascii_lower(b@[i as int]));
            return false;
        }
        i = i + 1;
    }
    true
}

/// Whether two byte strings are equal.
pub fn bytes_eq(a: &[u8], b: &[u8]) -> (r: bool)
    ensures
        r == (a@ == b@),
{
    if a.len() != b.len() {
        return false;
    }
    let mut i: usize = 0;
    while i < a.len()
        invariant
            a@.len() == b@.len(),
            i <= a@.len(),
            forall|k: int| 0 <= k < i ==> a@[k] == b@[k],
        decreases a@.len() - i,
    {
        if a[i] != b[i] {
            return false;
        }
        i = i + 1;
    }
    assert(a@ =~= b@);
    true
}

/// `prefix` stands at the front of `s`.
pub open spec fn has_prefix<T>(s: Seq<T>, prefix: Seq<T>) -> bool {
    s.len() >= prefix.len() && s.take(prefix.len() as int) == prefix
}

/// Whether `s` begins with `prefix`.
pub fn starts_with(s: &[u8], prefix: &[u8]) -> (r: bool)
    ensures
        r == has_prefix(s@, prefix@),
{
    if s.len() < prefix.len() {
        return false;
    }
    let head = slice_subrange(s, 0, prefix.len());
    assert(head@ =~= s@.take(prefix@.len() as int));
    bytes_eq(head, prefix)
}

/// Append a string to a byte buffer.
pub fn push_str(buf: &mut Vec<u8>, s: &str)
    ensures
        final(buf)@ == old(buf)@ + encode_utf8(s@),
{
    let bytes = s.as_bytes();
    buf.extend_from_slice(bytes);
    assert(buf@ =~= old(buf)@ + encode_utf8(s@));
}

/// Append bytes to a byte buffer.
pub fn push_bytes(buf: &mut Vec<u8>, bytes: &[u8])
    ensures
        final(buf)@ == old(buf)@ + bytes@,
{
    buf.extend_from_slice(bytes);
    assert(buf@ =~= old(buf)@ + bytes@);
}

/// Where `pat` first stands in `s`; -1 if it does not.
pub open spec fn find_sub(s: Seq<u8>, pat: Seq<u8>) -> int
    decreases s.len(),
{
    if has_prefix(s, pat) {
        0
    } else if s.len() == 0 {
        -1
    } else {
        let r = find_sub(s.skip(1), pat);
        if r < 0 {
            -1
        } else {
            r + 1
        }
    }
}

pub proof fn lemma_find_sub(s: Seq<u8>, pat: Seq<u8>)
    ensures
        find_sub(s, pat) >= -1,
        find_sub(s, pat) >= 0 ==> find_sub(s, pat) + pat.len() <= s.len() && s.subrange(
            find_sub(s, pat),
            find_sub(s, pat) + pat.len(),
        ) == pat,
    decreases s.len(),
{
    if has_prefix(s, pat) {
        assert(s.subrange(0, pat.len() as int) =~= s.take(pat.len() as int));
    } else if s.len() > 0 {
        lemma_find_sub(s.skip(1), pat);
        let r = find_sub(s.skip(1), pat);
        if r >= 0 {
            assert(s.subrange(r + 1, r + 1 + pat.len()) =~= s.skip(1).subrange(r, r + pat.len()));
        }
    }
}

/// Find where `pat` first stands in `s`, from `from` on.
pub fn find_subslice(s: &[u8], pat: &[u8], from: usize) -> (r: Option<usize>)
    requires
        from <= s@.len(),
    ensures
        match r {
            Some(i) => from <= i && i + pat@.len() <= s@.len() && i - from == find_sub(
                s@.skip(from as int),
                pat@,
            ),
            None => find_sub(s@.skip(from as int), pat@) == -1,
        },
{
    let mut i: usize = from;
    let ghost all = s@.skip(from as int);
    loop
        invariant
            from <= i <= s@.len(),
            all == s@.skip(from as int),
            ({
                let r = find_sub(s@.skip(i as int), pat@);
                find_sub(all, pat@) == (if r < 0 {
                    -1
                } else {
                    r + (i - from)
                })
            }),
        decreases s@.len() - i,
    {
        proof {
            lemma_find_sub(s@.skip(i as int), pat@);
        }
        let rest = slice_subrange(s, i, s.len());
        assert(rest@ =~= s@.skip(i as int));
        if starts_with(rest, pat) {
            return Some(i);
        }
        if i >= s.len() {
            return None;
        }
        assert(s@.skip(i as int).skip(1) =~= s@.skip(i + 1));
        i = i + 1;
    }
}

/// `pat` stands somewhere in `s`, whatever its case.
pub open spec fn contains_no_case(s: Seq<u8>, pat: Seq<u8>) -> bool {
    exists|i: int|
        0 <= i && i + pat.len() <= s.len() && eq_no_case(
            #[trigger] s.subrange(i, i + pat.len()),
            pat,
        )
}

/// Whether `pat` stands somewhere in `s`, whatever its case.
pub fn contains_ignore_ascii_case(s: &[u8], pat: &[u8]) -> (r: bool)
    ensures
        r == contains_no_case(s@, pat@),
{
    if s.len() < pat.len() {
        return false;
    }
    let last: usize = s.len() - pat.len();
    let mut i: usize = 0;
    loop
        invariant
            i <= last,
            last + pat@.len() == s@.len(),
            forall|k: int|
                0 <= k < i ==> !eq_no_case(#[trigger] s@.subrange(k, k + pat@.len()), pat@),
        decreases last - i,
    {
        assert(i + pat@.len() <= s.len());
        let window = slice_subrange(s, i, i + pat.len());
        if eq_ignore_ascii_case(window, pat) {
            assert(eq_no_case(s@.subrange(i as int, i + pat@.len()), pat@));
            return true;
        }
        if i == last {
            return false;
        }
        i = i + 1;
    }
}

/// The number that a byte string stands for, least significant byte first.
pub open spec fn le_value(b: Seq<u8>) -> nat
    decreases b.len(),
{
    if b.len() == 0 {
        0
    } else {
        b[0] as nat + 256 * le_value(b.skip(1))
    }
}

pub proof fn lemma_le_value_bound(b: Seq<u8>)
    ensures
        le_value(b) < pow256(b.len()),
    decreases b.len(),
{
    if b.len() > 0 {
        lemma_le_value_bound(b.skip(1));
    }
}

/// Read up to eight bytes as a little-endian number.
pub fn read_le(b: &[u8]) -> (n: u64)
    requires
        b@.len() <= 8,
    ensures
        n == le_value(b@),
{
    let mut n: u64 = 0;
    let mut i: usize = b.len();
    assert(b@.skip(b@.len() as int) =~= Seq::<u8>::empty());
    while i > 0
        invariant
            b@.len() <= 8,
            i <= b@.len(),
            n == le_value(b@.skip(i as int)),
        decreases i,
    {
        i = i - 1;
        proof {
            let next = b@.skip(i as int);
            assert(next.skip(1) =~= b@.skip(i + 1));
            lemma_le_value_bound(next);
            lemma_pow256_monotone(next.len(), 8);
            lemma_pow256_values();
        }
        n = b[i] as u64 + 256 * n;
    }
    assert(b@.skip(0) =~= b@);
    n
}

/// All pieces in a row.
pub open spec fn concat(pieces: Seq<Seq<u8>>) -> Seq<u8>
    decreases pieces.len(),
{
    if pieces.len() == 0 {
        Seq::empty()
    } else {
        pieces[0] + concat(pieces.skip(1))
    }
}

pub proof fn lemma_concat_last(pieces: Seq<Seq<u8>>)
    requires
        pieces.len() > 0,
    ensures
        concat(pieces) == concat(pieces.drop_last()) + pieces.last(),
    decreases pieces.len(),
{
    let init = pieces.drop_last();
    if pieces.len() == 1 {
        assert(init =~= Seq::<Seq<u8>>::empty());
        assert(pieces.skip(1) =~= Seq::<Seq<u8>>::empty());
        assert(concat(pieces.skip(1)) =~= Seq::<u8>::empty());
        assert(concat(init) =~= Seq::<u8>::empty());
        assert(concat(pieces) =~= concat(init) + pieces.last());
    } else {
        lemma_concat_last(pieces.skip(1));
        assert(pieces.skip(1).drop_last() =~= init.skip(1));
        assert(concat(pieces) =~= concat(init) + pieces.last());
    }
}

} // verus!
