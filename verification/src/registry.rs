//! The fixed table of the three security levels: byte lengths, object
//! identifiers and the marker bytes of the nested private key.

use crate::bytes::{lemma_same_text, range_is, same_bytes};
use crate::commands::arg_enums::Algorithm;
use vstd::prelude::*;

verus! {

/// The byte lengths that belong to one security level.
#[derive(Debug, Copy, Clone, PartialEq, Eq, Structural)]
pub struct KeyLengths {
    /// Secret key followed by public key.
    pub keypair_len: usize,
    pub secret_len: usize,
    pub public_len: usize,
    pub signature_len: usize,
}

/// The lengths of each level, as the signature scheme fixes them.
pub open spec fn lengths(algorithm: Algorithm) -> KeyLengths {
    match algorithm {
        Algorithm::Dilithium2 => KeyLengths {
            keypair_len: 3840,
            secret_len: 2528,
            public_len: 1312,
            signature_len: 2420,
        },
        Algorithm::Dilithium3 => KeyLengths {
            keypair_len: 5952,
            secret_len: 4000,
            public_len: 1952,
            signature_len: 3293,
        },
        Algorithm::Dilithium5 => KeyLengths {
            keypair_len: 7456,
            secret_len: 4864,
            public_len: 2592,
            signature_len: 4595,
        },
    }
}

/// The object identifier of each level, in dotted decimal.
pub open spec fn oid(algorithm: Algorithm) -> Seq<char> {
    match algorithm {
        Algorithm::Dilithium2 => "1.3.6.1.4.1.2.267.7.4.4"@,
        Algorithm::Dilithium3 => "1.3.6.1.4.1.2.267.7.6.5"@,
        Algorithm::Dilithium5 => "1.3.6.1.4.1.2.267.7.8.7"@,
    }
}

/// The object identifier of each level as it stands in a container: the
/// content octets of its DER encoding.
pub open spec fn oid_octets(algorithm: Algorithm) -> Seq<u8> {
    match algorithm {
        Algorithm::Dilithium2 => seq![
            0x2bu8, 0x06, 0x01, 0x04, 0x01, 0x02, 0x82, 0x0b, 0x07, 0x04, 0x04,
        ],
        Algorithm::Dilithium3 => seq![
            0x2bu8, 0x06, 0x01, 0x04, 0x01, 0x02, 0x82, 0x0b, 0x07, 0x06, 0x05,
        ],
        Algorithm::Dilithium5 => seq![
            0x2bu8, 0x06, 0x01, 0x04, 0x01, 0x02, 0x82, 0x0b, 0x07, 0x08, 0x07,
        ],
    }
}

/// The two marker bytes that follow the nested private key's first two
/// bytes. They are a table agreed with the decoder, not computed.
pub open spec fn sub_tag(algorithm: Algorithm) -> (u8, u8) {
    match algorithm {
        Algorithm::Dilithium2 => (0x0fu8, 0x00u8),
        Algorithm::Dilithium3 => (0x17u8, 0x40u8),
        Algorithm::Dilithium5 => (0x1du8, 0x20u8),
    }
}

/// The level that a dotted identifier names, if any.
pub open spec fn level_of(text: Seq<char>) -> Option<Algorithm> {
    if text == oid(Algorithm::Dilithium2) {
        Some(Algorithm::Dilithium2)
    } else if text == oid(Algorithm::Dilithium3) {
        Some(Algorithm::Dilithium3)
    } else if text == oid(Algorithm::Dilithium5) {
        Some(Algorithm::Dilithium5)
    } else {
        None
    }
}

/// The level whose identifier has these content octets, if any.
pub open spec fn level_of_octets(octets: Seq<u8>) -> Option<Algorithm> {
    if octets == oid_octets(Algorithm::Dilithium2) {
        Some(Algorithm::Dilithium2)
    } else if octets == oid_octets(Algorithm::Dilithium3) {
        Some(Algorithm::Dilithium3)
    } else if octets == oid_octets(Algorithm::Dilithium5) {
        Some(Algorithm::Dilithium5)
    } else {
        None
    }
}

/// The first level, in ascending order, whose key pair has `n` bytes.
pub open spec fn level_of_length(n: nat) -> Option<Algorithm> {
    if n == lengths(Algorithm::Dilithium2).keypair_len {
        Some(Algorithm::Dilithium2)
    } else if n == lengths(Algorithm::Dilithium3).keypair_len {
        Some(Algorithm::Dilithium3)
    } else if n == lengths(Algorithm::Dilithium5).keypair_len {
        Some(Algorithm::Dilithium5)
    } else {
        None
    }
}

/// The lengths of a level.
pub fn lengths_for(algorithm: Algorithm) -> (l: KeyLengths)
    ensures
        l == lengths(algorithm),
{
    match algorithm {
        Algorithm::Dilithium2 => KeyLengths {
            keypair_len: 3840,
            secret_len: 2528,
            public_len: 1312,
            signature_len: 2420,
        },
        Algorithm::Dilithium3 => KeyLengths {
            keypair_len: 5952,
            secret_len: 4000,
            public_len: 1952,
            signature_len: 3293,
        },
        Algorithm::Dilithium5 => KeyLengths {
            keypair_len: 7456,
            secret_len: 4864,
            public_len: 2592,
            signature_len: 4595,
        },
    }
}

/// The dotted identifier of a level.
pub fn oid_for(algorithm: Algorithm) -> (text: &'static str)
    ensures
        text@ == oid(algorithm),
{
    match algorithm {
        Algorithm::Dilithium2 => "1.3.6.1.4.1.2.267.7.4.4",
        Algorithm::Dilithium3 => "1.3.6.1.4.1.2.267.7.6.5",
        Algorithm::Dilithium5 => "1.3.6.1.4.1.2.267.7.8.7",
    }
}

/// The level that a dotted identifier names; `None` for any other text.
pub fn level_for(text: &str) -> (level: Option<Algorithm>)
    ensures
        level == level_of(text@),
{
    proof {
        lemma_same_text(text@, oid(Algorithm::Dilithium2));
        lemma_same_text(text@, oid(Algorithm::Dilithium3));
        lemma_same_text(text@, oid(Algorithm::Dilithium5));
    }
    let b = text.as_bytes();
    if same_bytes(b, oid_for(Algorithm::Dilithium2).as_bytes()) {
        Some(Algorithm::Dilithium2)
    } else if same_bytes(b, oid_for(Algorithm::Dilithium3).as_bytes()) {
        Some(Algorithm::Dilithium3)
    } else if same_bytes(b, oid_for(Algorithm::Dilithium5).as_bytes()) {
        Some(Algorithm::Dilithium5)
    } else {
        None
    }
}

/// The content octets of a level's identifier.
pub fn oid_octets_for(algorithm: Algorithm) -> (octets: Vec<u8>)
    ensures
        octets@ == oid_octets(algorithm),
{
    let octets = match algorithm {
        Algorithm::Dilithium2 => vec![
            0x2bu8, 0x06, 0x01, 0x04, 0x01, 0x02, 0x82, 0x0b, 0x07, 0x04, 0x04,
        ],
        Algorithm::Dilithium3 => vec![
            0x2bu8, 0x06, 0x01, 0x04, 0x01, 0x02, 0x82, 0x0b, 0x07, 0x06, 0x05,
        ],
        Algorithm::Dilithium5 => vec![
            0x2bu8, 0x06, 0x01, 0x04, 0x01, 0x02, 0x82, 0x0b, 0x07, 0x08, 0x07,
        ],
    };
    assert(octets@ =~= oid_octets(algorithm));
    octets
}

/// The level whose identifier stands in `input` from `from` up to `to`;
/// `None` where those octets are no identifier of the table.
pub fn level_for_octets(input: &[u8], from: usize, to: usize) -> (level: Option<Algorithm>)
    requires
        from <= to <= input.len(),
    ensures
        level == level_of_octets(input@.subrange(from as int, to as int)),
{
    let d2 = oid_octets_for(Algorithm::Dilithium2);
    let d3 = oid_octets_for(Algorithm::Dilithium3);
    let d5 = oid_octets_for(Algorithm::Dilithium5);
    if range_is(input, from, to, d2.as_slice()) {
        Some(Algorithm::Dilithium2)
    } else if range_is(input, from, to, d3.as_slice()) {
        Some(Algorithm::Dilithium3)
    } else if range_is(input, from, to, d5.as_slice()) {
        Some(Algorithm::Dilithium5)
    } else {
        None
    }
}

/// The marker bytes of a level's nested private key.
pub fn sub_tag_for(algorithm: Algorithm) -> (tag: (u8, u8))
    ensures
        tag == sub_tag(algorithm),
{
    match algorithm {
        Algorithm::Dilithium2 => (0x0f, 0x00),
        Algorithm::Dilithium3 => (0x17, 0x40),
        Algorithm::Dilithium5 => (0x1d, 0x20),
    }
}

/// The level of a key pair of `n` bytes, for input that carries no
/// identifier. Where two levels had the same length the lower one would
/// win; `None` where no level has that length.
pub fn level_for_length(n: usize) -> (level: Option<Algorithm>)
    ensures
        level == level_of_length(n as nat),
{
    if n == lengths_for(Algorithm::Dilithium2).keypair_len {
        Some(Algorithm::Dilithium2)
    } else if n == lengths_for(Algorithm::Dilithium3).keypair_len {
        Some(Algorithm::Dilithium3)
    } else if n == lengths_for(Algorithm::Dilithium5).keypair_len {
        Some(Algorithm::Dilithium5)
    } else {
        None
    }
}

/// A key pair is a secret key followed by a public key: the lengths of a
/// level add up.
pub proof fn keypair_is_secret_then_public(algorithm: Algorithm)
    ensures
        lengths(algorithm).keypair_len == lengths(algorithm).secret_len + lengths(
            algorithm,
        ).public_len,
{
}

/// Every level has an identifier and reading it gives the level back; no
/// two levels share an identifier, and a text that names a level is that
/// level's identifier.
pub proof fn identifiers_pair_with_levels(algorithm: Algorithm, text: Seq<char>)
    ensures
        level_of(oid(algorithm)) == Some(algorithm),
        level_of(text) == Some(algorithm) <==> text == oid(algorithm),
{
    reveal_strlit("1.3.6.1.4.1.2.267.7.4.4");
    reveal_strlit("1.3.6.1.4.1.2.267.7.6.5");
    reveal_strlit("1.3.6.1.4.1.2.267.7.8.7");
    let d2 = oid(Algorithm::Dilithium2);
    let d3 = oid(Algorithm::Dilithium3);
    let d5 = oid(Algorithm::Dilithium5);
    assert(d2[20] == '4' && d3[20] == '6' && d5[20] == '8');
}

/// The same for the identifiers' octets: reading a level's octets gives
/// the level back, and octets that name a level are that level's.
pub proof fn octets_pair_with_levels(algorithm: Algorithm, octets: Seq<u8>)
    ensures
        level_of_octets(oid_octets(algorithm)) == Some(algorithm),
        level_of_octets(octets) == Some(algorithm) <==> octets == oid_octets(algorithm),
        oid_octets(algorithm).len() == 11,
{
    let d2 = oid_octets(Algorithm::Dilithium2);
    let d3 = oid_octets(Algorithm::Dilithium3);
    let d5 = oid_octets(Algorithm::Dilithium5);
    assert(d2[9] == 4 && d3[9] == 6 && d5[9] == 8);
}

/// A length names at most one level, and each level's key pair length
/// names that level: the three lengths differ.
pub proof fn lengths_pair_with_levels(algorithm: Algorithm, n: nat)
    ensures
        level_of_length(lengths(algorithm).keypair_len as nat) == Some(algorithm),
        level_of_length(n) == Some(algorithm) <==> n == lengths(algorithm).keypair_len,
{
}

} // verus!
