//! Byte-string helpers shared by the codec and the tasks: copying, big-endian
//! words and NUL-delimited fields.

use vstd::prelude::*;

verus! {

/// The four bytes of `n`, most significant first.
pub open spec fn spec_be32(n: u32) -> Seq<u8> {
    seq![
        (n / 0x100_0000) as u8,
        ((n / 0x1_0000) % 0x100) as u8,
        ((n / 0x100) % 0x100) as u8,
        (n % 0x100) as u8,
    ]
}

/// The number that the first four bytes of `s` spell, most significant first.
pub open spec fn spec_from_be32(s: Seq<u8>) -> u32
    recommends
        s.len() >= 4,
{
    (s[0] * 0x100_0000 + s[1] * 0x1_0000 + s[2] * 0x100 + s[3]) as u32
}

/// Reading back what `spec_be32` wrote gives the number again, whatever follows.
pub proof fn lemma_be32_roundtrip(n: u32, tail: Seq<u8>)
    ensures
        spec_be32(n).len() == 4,
        spec_from_be32(spec_be32(n) + tail) == n,
{
    let s = spec_be32(n) + tail;
    assert(s[0] == spec_be32(n)[0]);
    assert(s[1] == spec_be32(n)[1]);
    assert(s[2] == spec_be32(n)[2]);
    assert(s[3] == spec_be32(n)[3]);
}

/// The digits of a number in base 256 are the bytes it was made of.
proof fn lemma_base_256(b0: int, b1: int, b2: int, b3: int)
    requires
        0 <= b0 < 0x100,
        0 <= b1 < 0x100,
        0 <= b2 < 0x100,
        0 <= b3 < 0x100,
    ensures
        ({
            let n = b0 * 0x100_0000 + b1 * 0x1_0000 + b2 * 0x100 + b3;
            &&& 0 <= n <= 0xffff_ffff
            &&& n / 0x100_0000 == b0
            &&& (n / 0x1_0000) % 0x100 == b1
            &&& (n / 0x100) % 0x100 == b2
            &&& n % 0x100 == b3
        }),
{
    let n = b0 * 0x100_0000 + b1 * 0x1_0000 + b2 * 0x100 + b3;
    let low = b1 * 0x1_0000 + b2 * 0x100 + b3;
    assert(0 <= low < 0x100_0000);
    assert(n / 0x100_0000 == b0) by {
        vstd::arithmetic::div_mod::lemma_fundamental_div_mod_converse(n, 0x100_0000, b0, low);
    }
    let low2 = b2 * 0x100 + b3;
    assert(n / 0x1_0000 == b0 * 0x100 + b1) by {
        vstd::arithmetic::div_mod::lemma_fundamental_div_mod_converse(
            n,
            0x1_0000,
            b0 * 0x100 + b1,
            low2,
        );
    }
    assert((b0 * 0x100 + b1) % 0x100 == b1) by {
        vstd::arithmetic::div_mod::lemma_fundamental_div_mod_converse(
            b0 * 0x100 + b1,
            0x100,
            b0,
            b1,
        );
    }
    assert(n / 0x100 == b0 * 0x1_0000 + b1 * 0x100 + b2) by {
        vstd::arithmetic::div_mod::lemma_fundamental_div_mod_converse(
            n,
            0x100,
            b0 * 0x1_0000 + b1 * 0x100 + b2,
            b3,
        );
    }
    assert((b0 * 0x1_0000 + b1 * 0x100 + b2) % 0x100 == b2) by {
        vstd::arithmetic::div_mod::lemma_fundamental_div_mod_converse(
            b0 * 0x1_0000 + b1 * 0x100 + b2,
            0x100,
            b0 * 0x100 + b1,
            b2,
        );
    }
}

/// Writing what `spec_from_be32` read gives the four bytes again.
pub proof fn lemma_from_be32_roundtrip(s: Seq<u8>)
    requires
        s.len() >= 4,
    ensures
        spec_be32(spec_from_be32(s)) == s.subrange(0, 4),
{
    lemma_base_256(s[0] as int, s[1] as int, s[2] as int, s[3] as int);
    assert(spec_be32(spec_from_be32(s)) =~= s.subrange(0, 4));
}

/// Appends the big-endian form of `n` to `out`.
pub fn push_be32(out: &mut Vec<u8>, n: u32)
    ensures
        final(out)@ == old(out)@ + spec_be32(n),
{
    out.push((n / 0x100_0000) as u8);
    out.push(((n / 0x1_0000) % 0x100) as u8);
    out.push(((n / 0x100) % 0x100) as u8);
    out.push((n % 0x100) as u8);
    assert(out@ =~= old(out)@ + spec_be32(n));
}

/// Reads a big-endian word at `at`.
pub fn read_be32(buf: &[u8], at: usize) -> (n: u32)
    requires
        at + 4 <= buf@.len(),
    ensures
        n == spec_from_be32(buf@.subrange(at as int, at + 4)),
{
    let b0: u32 = buf[at] as u32;
    let b1: u32 = buf[at + 1] as u32;
    let b2: u32 = buf[at + 2] as u32;
    let b3: u32 = buf[at + 3] as u32;
    b0 * 0x100_0000 + b1 * 0x1_0000 + b2 * 0x100 + b3
}

/// Appends a copy of `src` to `out`.
pub fn push_all(out: &mut Vec<u8>, src: &[u8])
    ensures
        final(out)@ == old(out)@ + src@,
{
    let mut i: usize = 0;
    while i < src.len()
        invariant
            i <= src@.len(),
            out@ == old(out)@ + src@.subrange(0, i as int),
        decreases src@.len() - i,
    {
        out.push(src[i]);
        i = i + 1;
        assert(out@ =~= old(out)@ + src@.subrange(0, i as int));
    }
    assert(src@.subrange(0, i as int) =~= src@);
}

/// A fresh vector holding `buf[from..to]`.
pub fn copy_range(buf: &[u8], from: usize, to: usize) -> (out: Vec<u8>)
    requires
        from <= to <= buf@.len(),
    ensures
        out@ == buf@.subrange(from as int, to as int),
{
    let mut out: Vec<u8> = Vec::new();
    let mut i: usize = from;
    while i < to
        invariant
            from <= i <= to <= buf@.len(),
            out@ == buf@.subrange(from as int, i as int),
        decreases to - i,
    {
        out.push(buf[i]);
        i = i + 1;
        assert(out@ =~= buf@.subrange(from as int, i as int));
    }
    out
}

/// A fresh vector holding the bytes of `src`.
pub fn copy_bytes(src: &[u8]) -> (out: Vec<u8>)
    ensures
        out@ == src@,
{
    let out = copy_range(src, 0, src.len());
    assert(src@.subrange(0, src@.len() as int) =~= src@);
    out
}

/// Whether two byte strings hold the same bytes.
pub fn same_bytes(a: &[u8], b: &[u8]) -> (same: bool)
    ensures
        same == (a@ == b@),
{
    if a.len() != b.len() {
        return false;
    }
    let mut i: usize = 0;
    while i < a.len()
        invariant
            i <= a@.len(),
            a@.len() == b@.len(),
            a@.subrange(0, i as int) == b@.subrange(0, i as int),
        decreases a@.len() - i,
    {
        if a[i] != b[i] {
            assert(a@[i as int] != b@[i as int]);
            return false;
        }
        i = i + 1;
        assert(a@.subrange(0, i as int) =~= a@.subrange(0, i - 1).push(a@[i - 1]));
        assert(b@.subrange(0, i as int) =~= b@.subrange(0, i - 1).push(b@[i - 1]));
    }
    assert(a@.subrange(0, i as int) =~= a@);
    assert(b@.subrange(0, i as int) =~= b@);
    true
}

/// The index of the first NUL byte of `s`, or the length of `s` if it holds none.
pub open spec fn spec_first_nul(s: Seq<u8>) -> int
    decreases s.len(),
{
    if s.len() == 0 {
        0
    } else if s[0] == 0 {
        0
    } else {
        1 + spec_first_nul(s.drop_first())
    }
}

/// Whether `s` holds no NUL byte.
pub open spec fn spec_nul_free(s: Seq<u8>) -> bool {
    spec_first_nul(s) == s.len()
}

/// `spec_first_nul` stays within the string, lands on a NUL when it stays
/// below the length, and passes no NUL on its way.
pub proof fn lemma_first_nul(s: Seq<u8>)
    ensures
        0 <= spec_first_nul(s) <= s.len(),
        spec_first_nul(s) < s.len() ==> s[spec_first_nul(s)] == 0,
        forall|j: int| 0 <= j < spec_first_nul(s) ==> s[j] != 0,
    decreases s.len(),
{
    if s.len() != 0 && s[0] != 0 {
        let t = s.drop_first();
        lemma_first_nul(t);
        assert forall|j: int| 0 <= j < spec_first_nul(s) implies s[j] != 0 by {
            if j > 0 {
                assert(s[j] == t[j - 1]);
            }
        }
    }
}

/// An index that no NUL precedes, and that is the end of the string or holds
/// a NUL, is the one `spec_first_nul` finds.
pub proof fn lemma_first_nul_is(s: Seq<u8>, i: int)
    requires
        0 <= i <= s.len(),
        forall|j: int| 0 <= j < i ==> s[j] != 0,
        i < s.len() ==> s[i] == 0,
    ensures
        spec_first_nul(s) == i,
{
    lemma_first_nul(s);
    let f = spec_first_nul(s);
    if f < i {
        assert(s[f] == 0);
    } else if f > i {
        assert(s[i] != 0);
    }
}

/// In `head + [0] + tail` the first NUL is the one after `head`, if `head`
/// holds none.
pub proof fn lemma_first_nul_joined(head: Seq<u8>, tail: Seq<u8>)
    requires
        spec_nul_free(head),
    ensures
        spec_first_nul(head + seq![0u8] + tail) == head.len(),
{
    lemma_first_nul(head);
    let s = head + seq![0u8] + tail;
    assert forall|j: int| 0 <= j < head.len() implies s[j] != 0 by {
        assert(s[j] == head[j]);
    }
    assert(s[head.len() as int] == 0);
    lemma_first_nul_is(s, head.len() as int);
}

/// A NUL-terminated field at the head of `s`: the bytes before the first NUL,
/// and what follows that NUL. `None` if `s` holds no NUL.
pub open spec fn spec_split_nul(s: Seq<u8>) -> Option<(Seq<u8>, Seq<u8>)> {
    let at = spec_first_nul(s);
    if at < s.len() {
        Some((s.subrange(0, at), s.subrange(at + 1, s.len() as int)))
    } else {
        None
    }
}

/// Splitting `head + [0] + tail` gives `head` and `tail` back, if `head`
/// holds no NUL.
pub proof fn lemma_split_nul_joined(head: Seq<u8>, tail: Seq<u8>)
    requires
        spec_nul_free(head),
    ensures
        spec_split_nul(head + seq![0u8] + tail) == Some((head, tail)),
{
    lemma_first_nul_joined(head, tail);
    let s = head + seq![0u8] + tail;
    assert(s.subrange(0, head.len() as int) =~= head);
    assert(s.subrange(head.len() as int + 1, s.len() as int) =~= tail);
}

/// What `spec_split_nul` splits off holds no NUL.
pub proof fn lemma_split_nul_head(s: Seq<u8>)
    requires
        spec_split_nul(s) is Some,
    ensures
        spec_nul_free(spec_split_nul(s).unwrap().0),
        s == spec_split_nul(s).unwrap().0 + seq![0u8] + spec_split_nul(s).unwrap().1,
{
    lemma_first_nul(s);
    let at = spec_first_nul(s);
    let head = s.subrange(0, at);
    assert forall|j: int| 0 <= j < at implies head[j] != 0 by {
        assert(head[j] == s[j]);
    }
    lemma_first_nul_is(head, at);
    assert(s =~= head + seq![0u8] + s.subrange(at + 1, s.len() as int));
}

/// The index of the first NUL byte at or after `from`, or the length of
/// `buf` if none follows.
pub fn find_nul(buf: &[u8], from: usize) -> (at: usize)
    requires
        from <= buf@.len(),
    ensures
        at == from + spec_first_nul(buf@.subrange(from as int, buf@.len() as int)),
        from <= at <= buf@.len(),
{
    let mut i: usize = from;
    while i < buf.len() && buf[i] != 0
        invariant
            from <= i <= buf@.len(),
            forall|j: int| from <= j < i ==> buf@[j] != 0,
        decreases buf@.len() - i,
    {
        i = i + 1;
    }
    proof {
        let s = buf@.subrange(from as int, buf@.len() as int);
        assert forall|j: int| 0 <= j < i - from implies s[j] != 0 by {
            assert(s[j] == buf@[from + j]);
        }
        lemma_first_nul_is(s, i - from);
    }
    i
}

/// Splits the NUL-terminated field that starts at `from` off `buf`: a copy of
/// the field, and the index after its NUL. `None` if no NUL follows.
pub fn split_nul(buf: &[u8], from: usize) -> (r: Option<(Vec<u8>, usize)>)
    requires
        from <= buf@.len(),
    ensures
        match r {
            Some((head, next)) => from < next <= buf@.len() && spec_split_nul(
                buf@.subrange(from as int, buf@.len() as int),
            ) == Some((head@, buf@.subrange(next as int, buf@.len() as int))),
            None => spec_split_nul(buf@.subrange(from as int, buf@.len() as int)) is None,
        },
{
    let at = find_nul(buf, from);
    if at < buf.len() {
        let head = copy_range(buf, from, at);
        proof {
            let s = buf@.subrange(from as int, buf@.len() as int);
            assert(s.subrange(0, at - from) =~= head@);
            assert(s.subrange(at - from + 1, s.len() as int) =~= buf@.subrange(
                at + 1,
                buf@.len() as int,
            ));
        }
        Some((head, at + 1))
    } else {
        None
    }
}

} // verus!
