//! The part of DER that key containers are made of: definite lengths in
//! their shortest form, and values framed by a tag and a length.

use vstd::prelude::*;

verus! {

/// The tag of an integer.
pub const TAG_INTEGER: u8 = 0x02;

/// The tag of a bit string.
pub const TAG_BIT_STRING: u8 = 0x03;

/// The tag of an octet string.
pub const TAG_OCTET_STRING: u8 = 0x04;

/// The tag of an object identifier.
pub const TAG_OBJECT_IDENTIFIER: u8 = 0x06;

/// The tag of a sequence.
pub const TAG_SEQUENCE: u8 = 0x30;

/// One more than the longest content that a length of up to four octets
/// can announce.
pub open spec fn content_limit() -> nat {
    0x1_0000_0000
}

/// The length octets of a value with `n` content octets: one octet below
/// 128, else a count of up to four octets and then the length itself, most
/// significant octet first and without leading zeros.
pub open spec fn length_octets(n: nat) -> Seq<u8> {
    if n < 0x80 {
        seq![n as u8]
    } else if n < 0x100 {
        seq![0x81u8, n as u8]
    } else if n < 0x1_0000 {
        seq![0x82u8, (n / 0x100) as u8, (n % 0x100) as u8]
    } else if n < 0x100_0000 {
        seq![0x83u8, (n / 0x1_0000) as u8, (n / 0x100 % 0x100) as u8, (n % 0x100) as u8]
    } else {
        seq![
            0x84u8,
            (n / 0x100_0000) as u8,
            (n / 0x1_0000 % 0x100) as u8,
            (n / 0x100 % 0x100) as u8,
            (n % 0x100) as u8,
        ]
    }
}

/// Reads length octets from the front of `s`: the length they announce and
/// how many octets they take. `None` where `s` does not begin with a
/// length in its shortest form.
pub open spec fn read_length(s: Seq<u8>) -> Option<(nat, nat)> {
    if s.len() == 0 {
        None
    } else if s[0] < 0x80 {
        Some((s[0] as nat, 1))
    } else if s[0] == 0x81 {
        if s.len() >= 2 && s[1] >= 0x80 {
            Some((s[1] as nat, 2))
        } else {
            None
        }
    } else if s[0] == 0x82 {
        if s.len() >= 3 && s[1] != 0 {
            Some(((s[1] * 0x100 + s[2]) as nat, 3))
        } else {
            None
        }
    } else if s[0] == 0x83 {
        if s.len() >= 4 && s[1] != 0 {
            Some(((s[1] * 0x1_0000 + s[2] * 0x100 + s[3]) as nat, 4))
        } else {
            None
        }
    } else if s[0] == 0x84 {
        if s.len() >= 5 && s[1] != 0 {
            Some(((s[1] * 0x100_0000 + s[2] * 0x1_0000 + s[3] * 0x100 + s[4]) as nat, 5))
        } else {
            None
        }
    } else {
        None
    }
}

/// A value in its frame: the tag, the length of the content, the content.
pub open spec fn tlv(tag: u8, content: Seq<u8>) -> Seq<u8> {
    seq![tag] + length_octets(content.len()) + content
}

/// Reads one framed value with the given tag from the front of `s`: its
/// content and what follows it. `None` where `s` does not begin with such
/// a value in full.
pub open spec fn read_tlv(s: Seq<u8>, tag: u8) -> Option<(Seq<u8>, Seq<u8>)> {
    if s.len() == 0 || s[0] != tag {
        None
    } else {
        match read_length(s.skip(1)) {
            None => None,
            Some((n, k)) => if s.len() - 1 - k < n {
                None
            } else {
                Some((s.subrange(1 + k as int, 1 + k + n as int), s.skip(1 + k + n as int)))
            },
        }
    }
}

/// Length octets read back as the length they were made from, whatever
/// follows them.
pub proof fn length_octets_read_back(n: nat, rest: Seq<u8>)
    requires
        n < content_limit(),
    ensures
        read_length(length_octets(n) + rest) == Some((n, length_octets(n).len())),
        1 <= length_octets(n).len() <= 5,
{
    let s = length_octets(n) + rest;
    if n < 0x80 {
    } else if n < 0x100 {
        assert(s[1] == n as u8);
    } else if n < 0x1_0000 {
        assert(s[1] == (n / 0x100) as u8);
        assert(s[2] == (n % 0x100) as u8);
    } else if n < 0x100_0000 {
        assert(s[1] == (n / 0x1_0000) as u8);
        assert(s[2] == (n / 0x100 % 0x100) as u8);
        assert(s[3] == (n % 0x100) as u8);
    } else {
        assert(s[1] == (n / 0x100_0000) as u8);
        assert(s[2] == (n / 0x1_0000 % 0x100) as u8);
        assert(s[3] == (n / 0x100 % 0x100) as u8);
        assert(s[4] == (n % 0x100) as u8);
    }
}

/// A quotient and a remainder are found again by division.
proof fn quotient_and_remainder(q: int, r: int, d: int)
    requires
        0 <= r < d,
    ensures
        (q * d + r) / d == q,
        (q * d + r) % d == r,
{
    vstd::arithmetic::div_mod::lemma_fundamental_div_mod_converse(q * d + r, d, q, r);
}

/// The two digits of a number written in base 256.
proof fn two_digits(c: int, d: int)
    requires
        0 <= c < 0x100,
        0 <= d < 0x100,
    ensures
        (c * 0x100 + d) / 0x100 == c,
        (c * 0x100 + d) % 0x100 == d,
{
    quotient_and_remainder(c, d, 0x100);
}

/// The three digits of a number written in base 256.
proof fn three_digits(b: int, c: int, d: int)
    requires
        0 <= b < 0x100,
        0 <= c < 0x100,
        0 <= d < 0x100,
    ensures
        (b * 0x1_0000 + c * 0x100 + d) / 0x1_0000 == b,
        (b * 0x1_0000 + c * 0x100 + d) / 0x100 % 0x100 == c,
        (b * 0x1_0000 + c * 0x100 + d) % 0x100 == d,
{
    let n = b * 0x1_0000 + c * 0x100 + d;
    assert(n == b * 0x1_0000 + (c * 0x100 + d));
    quotient_and_remainder(b, c * 0x100 + d, 0x1_0000);
    assert(n == (b * 0x100 + c) * 0x100 + d);
    quotient_and_remainder(b * 0x100 + c, d, 0x100);
    quotient_and_remainder(b, c, 0x100);
}

/// The four digits of a number written in base 256.
proof fn four_digits(a: int, b: int, c: int, d: int)
    requires
        0 <= a < 0x100,
        0 <= b < 0x100,
        0 <= c < 0x100,
        0 <= d < 0x100,
    ensures
        (a * 0x100_0000 + b * 0x1_0000 + c * 0x100 + d) / 0x100_0000 == a,
        (a * 0x100_0000 + b * 0x1_0000 + c * 0x100 + d) / 0x1_0000 % 0x100 == b,
        (a * 0x100_0000 + b * 0x1_0000 + c * 0x100 + d) / 0x100 % 0x100 == c,
        (a * 0x100_0000 + b * 0x1_0000 + c * 0x100 + d) % 0x100 == d,
{
    let n = a * 0x100_0000 + b * 0x1_0000 + c * 0x100 + d;
    assert(n == a * 0x100_0000 + (b * 0x1_0000 + c * 0x100 + d));
    quotient_and_remainder(a, b * 0x1_0000 + c * 0x100 + d, 0x100_0000);
    assert(n == (a * 0x100 + b) * 0x1_0000 + (c * 0x100 + d));
    quotient_and_remainder(a * 0x100 + b, c * 0x100 + d, 0x1_0000);
    quotient_and_remainder(a, b, 0x100);
    assert(n == (a * 0x1_0000 + b * 0x100 + c) * 0x100 + d);
    quotient_and_remainder(a * 0x1_0000 + b * 0x100 + c, d, 0x100);
    assert(a * 0x1_0000 + b * 0x100 + c == (a * 0x100 + b) * 0x100 + c);
    quotient_and_remainder(a * 0x100 + b, c, 0x100);
}

/// Only the shortest form is read: what `read_length` accepts is the
/// length octets of the length it gives.
pub proof fn read_length_is_canonical(s: Seq<u8>)
    ensures
        match read_length(s) {
            Some((n, k)) => k <= s.len() && n < content_limit() && s.take(k as int)
                == length_octets(n),
            None => true,
        },
{
    match read_length(s) {
        Some((n, k)) => {
            if s[0] < 0x80 {
            } else if s[0] == 0x81 {
            } else if s[0] == 0x82 {
                two_digits(s[1] as int, s[2] as int);
            } else if s[0] == 0x83 {
                three_digits(s[1] as int, s[2] as int, s[3] as int);
            } else {
                four_digits(s[1] as int, s[2] as int, s[3] as int, s[4] as int);
            }
            assert(s.take(k as int) =~= length_octets(n));
        },
        None => {},
    }
}

/// A framed value reads back as its content, with what followed it left
/// over.
pub proof fn tlv_reads_back(tag: u8, content: Seq<u8>, rest: Seq<u8>)
    requires
        content.len() < content_limit(),
    ensures
        read_tlv(tlv(tag, content) + rest, tag) == Some((content, rest)),
{
    let s = tlv(tag, content) + rest;
    let n = content.len();
    let k = length_octets(n).len();
    length_octets_read_back(n, content + rest);
    assert(s.skip(1) =~= length_octets(n) + (content + rest));
    assert(s.subrange(1 + k as int, 1 + k + n as int) =~= content);
    assert(s.skip(1 + k + n as int) =~= rest);
}

/// What `read_tlv` accepts is a framed value in its one canonical form,
/// followed by the rest.
pub proof fn read_tlv_is_canonical(s: Seq<u8>, tag: u8)
    ensures
        match read_tlv(s, tag) {
            Some((content, rest)) => s == tlv(tag, content) + rest && content.len()
                < content_limit(),
            None => true,
        },
{
    match read_tlv(s, tag) {
        Some((content, rest)) => {
            read_length_is_canonical(s.skip(1));
            let (n, k) = read_length(s.skip(1)).unwrap();
            assert(s.skip(1).take(k as int) =~= s.subrange(1, 1 + k as int));
            assert(s =~= seq![tag] + s.subrange(1, 1 + k as int) + content + rest);
        },
        None => {},
    }
}

/// The number of octets that the tag and length of a value with `n`
/// content octets take.
pub fn header_len(n: usize) -> (len: usize)
    ensures
        len == 1 + length_octets(n as nat).len(),
        2 <= len <= 6,
{
    if n < 0x80 {
        2
    } else if n < 0x100 {
        3
    } else if n < 0x1_0000 {
        4
    } else if n < 0x100_0000 {
        5
    } else {
        6
    }
}

/// Appends the tag and the length octets of a value with `n` content
/// octets.
pub fn put_header(out: &mut Vec<u8>, tag: u8, n: usize)
    requires
        n < content_limit(),
    ensures
        final(out)@ == old(out)@ + seq![tag] + length_octets(n as nat),
{
    out.push(tag);
    if n < 0x80 {
        out.push(n as u8);
    } else if n < 0x100 {
        out.push(0x81);
        out.push(n as u8);
    } else if n < 0x1_0000 {
        out.push(0x82);
        out.push((n / 0x100) as u8);
        out.push((n % 0x100) as u8);
    } else if n < 0x100_0000 {
        out.push(0x83);
        out.push((n / 0x1_0000) as u8);
        out.push((n / 0x100 % 0x100) as u8);
        out.push((n % 0x100) as u8);
    } else {
        out.push(0x84);
        out.push((n / 0x100_0000) as u8);
        out.push((n / 0x1_0000 % 0x100) as u8);
        out.push((n / 0x100 % 0x100) as u8);
        out.push((n % 0x100) as u8);
    }
    assert(out@ =~= old(out)@ + seq![tag] + length_octets(n as nat));
}

/// Reads one framed value with the given tag from `input[from..to]`. On
/// success the content is `input[start..end]` and the rest of the range
/// begins at `end`.
pub fn take_tlv(input: &[u8], from: usize, to: usize, tag: u8) -> (found: Option<(usize, usize)>)
    requires
        from <= to <= input.len(),
    ensures
        match found {
            Some((start, end)) => from < start <= end <= to && read_tlv(
                input@.subrange(from as int, to as int),
                tag,
            ) == Some(
                (
                    input@.subrange(start as int, end as int),
                    input@.subrange(end as int, to as int),
                ),
            ),
            None => read_tlv(input@.subrange(from as int, to as int), tag) is None,
        },
{
    let ghost s = input@.subrange(from as int, to as int);
    let ghost t = s.skip(1);
    if from >= to {
        return None;
    }
    assert(s[0] == input@[from as int]);
    if input[from] != tag {
        return None;
    }
    let p: usize = from + 1;
    if p >= to {
        return None;
    }
    let avail: usize = to - p;
    assert(t.len() == avail);
    assert(forall|i: int| 0 <= i < avail ==> t[i] == input@[p + i]);
    let first: u8 = input[p];
    assert(t[0] == first);
    let mut n: u64 = 0;
    let mut k: usize = 1;
    if first < 0x80 {
        n = first as u64;
    } else if first == 0x81 {
        if avail < 2 {
            return None;
        }
        let b1: u8 = input[p + 1];
        assert(t[1] == b1);
        if b1 < 0x80 {
            return None;
        }
        n = b1 as u64;
        k = 2;
    } else if first == 0x82 {
        if avail < 3 {
            return None;
        }
        let b1: u8 = input[p + 1];
        let b2: u8 = input[p + 2];
        assert(t[1] == b1 && t[2] == b2);
        if b1 == 0 {
            return None;
        }
        n = (b1 as u64) * 0x100 + (b2 as u64);
        k = 3;
    } else if first == 0x83 {
        if avail < 4 {
            return None;
        }
        let b1: u8 = input[p + 1];
        let b2: u8 = input[p + 2];
        let b3: u8 = input[p + 3];
        assert(t[1] == b1 && t[2] == b2 && t[3] == b3);
        if b1 == 0 {
            return None;
        }
        n = (b1 as u64) * 0x1_0000 + (b2 as u64) * 0x100 + (b3 as u64);
        k = 4;
    } else if first == 0x84 {
        if avail < 5 {
            return None;
        }
        let b1: u8 = input[p + 1];
        let b2: u8 = input[p + 2];
        let b3: u8 = input[p + 3];
        let b4: u8 = input[p + 4];
        assert(t[1] == b1 && t[2] == b2 && t[3] == b3 && t[4] == b4);
        if b1 == 0 {
            return None;
        }
        n = (b1 as u64) * 0x100_0000 + (b2 as u64) * 0x1_0000 + (b3 as u64) * 0x100 + (b4 as u64);
        k = 5;
    } else {
        return None;
    }
    assert(read_length(t) == Some((n as nat, k as nat)));
    let start: usize = p + k;
    let left: usize = to - start;
    if (left as u64) < n {
        return None;
    }
    let end: usize = start + (n as usize);
    assert(s.subrange(1 + k, 1 + k + n) =~= input@.subrange(start as int, end as int));
    assert(s.skip(1 + k + n) =~= input@.subrange(end as int, to as int));
    Some((start, end))
}

} // verus!
