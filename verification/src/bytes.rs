use vstd::prelude::*;
use vstd::slice::{slice_subrange, slice_to_vec};
use vstd::utf8::{encode_utf8, encode_utf8_decode_utf8};

verus! {

/// The lower-case form of an ASCII capital letter; every other byte is
/// left as it is.
pub open spec fn ascii_lower(b: u8) -> u8 {
    if 0x41 <= b && b <= 0x5a {
        (b + 0x20) as u8
    } else {
        b
    }
}

/// A byte string with every ASCII capital letter turned to lower case.
pub open spec fn lowered(s: Seq<u8>) -> Seq<u8> {
    Seq::new(s.len(), |i: int| ascii_lower(s[i]))
}

/// `n` zero bytes.
pub open spec fn zeros(n: nat) -> Seq<u8> {
    Seq::new(n, |i: int| 0u8)
}

/// Two texts are the same exactly when their UTF-8 bytes are.
pub proof fn lemma_same_text(a: Seq<char>, b: Seq<char>)
    ensures
        (encode_utf8(a) == encode_utf8(b)) == (a == b),
{
    encode_utf8_decode_utf8(a);
    encode_utf8_decode_utf8(b);
}

/// Whether two byte strings are the same.
pub fn same_bytes(a: &[u8], b: &[u8]) -> (same: bool)
    ensures
        same == (a@ == b@),
{
    if a.len() != b.len() {
        return false;
    }
    let mut i: usize = 0;
    while i < a.len()
        invariant
            i <= a.len(),
            a.len() == b.len(),
            a@.take(i as int) == b@.take(i as int),
        decreases a.len() - i,
    {
        if a[i] != b[i] {
            assert(a@[i as int] != b@[i as int]);
            return false;
        }
        assert(a@.take(i + 1) == a@.take(i as int).push(a@[i as int]));
        assert(b@.take(i + 1) == b@.take(i as int).push(b@[i as int]));
        i += 1;
    }
    assert(a@.take(i as int) == a@);
    assert(b@.take(i as int) == b@);
    true
}

/// Whether `a`, with its ASCII capitals turned to lower case, is `token`.
pub fn same_ignoring_case(a: &[u8], token: &[u8]) -> (same: bool)
    ensures
        same == (lowered(a@) == token@),
{
    if a.len() != token.len() {
        return false;
    }
    let mut i: usize = 0;
    while i < a.len()
        invariant
            i <= a.len(),
            a.len() == token.len(),
            lowered(a@).take(i as int) == token@.take(i as int),
        decreases a.len() - i,
    {
        let b: u8 = a[i];
        let low: u8 = if 0x41 <= b && b <= 0x5a { b + 0x20 } else { b };
        if low != token[i] {
            assert(lowered(a@)[i as int] != token@[i as int]);
            return false;
        }
        assert(lowered(a@).take(i + 1) == lowered(a@).take(i as int).push(lowered(a@)[i as int]));
        assert(token@.take(i + 1) == token@.take(i as int).push(token@[i as int]));
        i += 1;
    }
    assert(lowered(a@).take(i as int) == lowered(a@));
    assert(token@.take(i as int) == token@);
    true
}

/// Whether the bytes of `a` from `from` up to `to` are exactly `b`.
pub fn range_is(a: &[u8], from: usize, to: usize, b: &[u8]) -> (same: bool)
    requires
        from <= to <= a.len(),
    ensures
        same == (a@.subrange(from as int, to as int) == b@),
{
    same_bytes(slice_subrange(a, from, to), b)
}

/// Appends `src` to `out`.
pub fn append(out: &mut Vec<u8>, src: &[u8])
    ensures
        final(out)@ == old(out)@ + src@,
{
    let mut i: usize = 0;
    while i < src.len()
        invariant
            i <= src.len(),
            out@ == old(out)@ + src@.take(i as int),
        decreases src.len() - i,
    {
        out.push(src[i]);
        assert(src@.take(i + 1) == src@.take(i as int).push(src@[i as int]));
        i += 1;
    }
    assert(src@.take(i as int) == src@);
}

/// A copy of the bytes of `a` from `from` up to `to`.
pub fn copy_range(a: &[u8], from: usize, to: usize) -> (out: Vec<u8>)
    requires
        from <= to <= a.len(),
    ensures
        out@ == a@.subrange(from as int, to as int),
{
    slice_to_vec(slice_subrange(a, from, to))
}

} // verus!
