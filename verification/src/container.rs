//! The two key containers as structured bytes: a versioned private key
//! record that holds a key pair, and a public key record.

use crate::asn1::{
    content_limit, header_len, put_header, read_tlv, read_tlv_is_canonical,
    take_tlv, tlv, tlv_reads_back, TAG_BIT_STRING, TAG_INTEGER, TAG_OBJECT_IDENTIFIER,
    TAG_OCTET_STRING, TAG_SEQUENCE,
};
use crate::bytes::{append, copy_range};
use crate::commands::arg_enums::Algorithm;
use crate::commands::error::{key_outcome, CryptoError, Fault};
use crate::registry::{
    lengths, lengths_for, level_for_octets, level_of_octets, octets_pair_with_levels, oid_octets,
    oid_octets_for, sub_tag, sub_tag_for,
};
use vstd::prelude::*;
use vstd::slice::slice_subrange;

verus! {

/// The dotted text that the `der` crate gives for the content octets of an
/// object identifier; `None` where it refuses them as no identifier.
pub uninterp spec fn dotted_identifier(octets: Seq<u8>) -> Option<Seq<char>>;

/// Calls `ObjectIdentifier::from_bytes` of the `der` crate and, where it
/// accepts the octets, gives the identifier's `Display` text. The result is
/// taken to depend on the octets alone; nothing else is claimed of it.
#[verifier::external_body]
fn identifier_text(octets: &[u8]) -> (text: Option<String>)
    ensures
        match text {
            Some(t) => dotted_identifier(octets@) == Some(t@),
            None => dotted_identifier(octets@) is None,
        },
{
    der::asn1::ObjectIdentifier::from_bytes(octets).ok().map(|oid| oid.to_string())
}

/// The fault of input that is no well-formed container.
pub open spec fn malformed() -> Fault {
    Fault::InvalidFormat("malformed key container"@)
}

/// The text of the fault of a public key with the wrong length.
pub open spec fn public_length_text(algorithm: Algorithm) -> Seq<char> {
    match algorithm {
        Algorithm::Dilithium2 => "A public key of length 1312 is expected a signature of length 2420"@,
        Algorithm::Dilithium3 => "A public key of length 1952 is expected a signature of length 3293"@,
        Algorithm::Dilithium5 => "A public key of length 2592 is expected a signature of length 4595"@,
    }
}

/// The algorithm identifier of a level: a sequence that holds the object
/// identifier and nothing else.
pub open spec fn algorithm_identifier(algorithm: Algorithm) -> Seq<u8> {
    tlv(TAG_SEQUENCE, tlv(TAG_OBJECT_IDENTIFIER, oid_octets(algorithm)))
}

/// The nested private key: `04 82`, the level's two marker bytes, then the
/// key pair.
pub open spec fn nested_key(algorithm: Algorithm, keypair: Seq<u8>) -> Seq<u8> {
    seq![0x04u8, 0x82u8, sub_tag(algorithm).0, sub_tag(algorithm).1] + keypair
}

/// A private key record around any private key octets: version 0, the
/// algorithm identifier, and the octets as an octet string.
#[verifier::opaque]
pub open spec fn private_frame(algorithm: Algorithm, blob: Seq<u8>) -> Seq<u8> {
    tlv(
        TAG_SEQUENCE,
        tlv(TAG_INTEGER, seq![0u8]) + algorithm_identifier(algorithm) + tlv(TAG_OCTET_STRING, blob),
    )
}

/// A public key record around any bit string content: the algorithm
/// identifier and the content as a bit string.
#[verifier::opaque]
pub open spec fn public_frame(algorithm: Algorithm, bits: Seq<u8>) -> Seq<u8> {
    tlv(TAG_SEQUENCE, algorithm_identifier(algorithm) + tlv(TAG_BIT_STRING, bits))
}

/// The private key container of a key pair: the record around the nested
/// private key.
pub open spec fn private_der(algorithm: Algorithm, keypair: Seq<u8>) -> Seq<u8> {
    private_frame(algorithm, nested_key(algorithm, keypair))
}

/// The public key container of a public key: the record around the key
/// as a bit string with no unused bits.
pub open spec fn public_der(algorithm: Algorithm, key: Seq<u8>) -> Seq<u8> {
    public_frame(algorithm, seq![0u8] + key)
}

/// Reads an algorithm identifier from the front of `s`: the content octets
/// of its object identifier, and what follows the identifier.
pub open spec fn read_identifier(s: Seq<u8>) -> Option<(Seq<u8>, Seq<u8>)> {
    match read_tlv(s, TAG_SEQUENCE) {
        None => None,
        Some((inner, rest)) => match read_tlv(inner, TAG_OBJECT_IDENTIFIER) {
            None => None,
            Some((octets, more)) => if more.len() != 0 {
                None
            } else {
                Some((octets, rest))
            },
        },
    }
}

/// The frame of a private key container: the identifier's octets and the
/// private key octets, where `der` is one sequence of version 0, an
/// algorithm identifier and an octet string, with nothing beside them.
#[verifier::opaque]
pub open spec fn private_fields(der: Seq<u8>) -> Option<(Seq<u8>, Seq<u8>)> {
    match read_tlv(der, TAG_SEQUENCE) {
        None => None,
        Some((body, rest)) => if rest.len() != 0 {
            None
        } else {
            match read_tlv(body, TAG_INTEGER) {
                None => None,
                Some((version, after_version)) => if version != seq![0u8] {
                    None
                } else {
                    match read_identifier(after_version) {
                        None => None,
                        Some((octets, after_identifier)) => match read_tlv(
                            after_identifier,
                            TAG_OCTET_STRING,
                        ) {
                            None => None,
                            Some((blob, end)) => if end.len() != 0 {
                                None
                            } else {
                                Some((octets, blob))
                            },
                        },
                    }
                },
            }
        },
    }
}

/// The frame of a public key container: the identifier's octets and the
/// content of the bit string, where `der` is one sequence of an algorithm
/// identifier and a bit string, with nothing beside them.
#[verifier::opaque]
pub open spec fn public_fields(der: Seq<u8>) -> Option<(Seq<u8>, Seq<u8>)> {
    match read_tlv(der, TAG_SEQUENCE) {
        None => None,
        Some((body, rest)) => if rest.len() != 0 {
            None
        } else {
            match read_identifier(body) {
                None => None,
                Some((octets, after_identifier)) => match read_tlv(
                    after_identifier,
                    TAG_BIT_STRING,
                ) {
                    None => None,
                    Some((bits, end)) => if end.len() != 0 {
                        None
                    } else {
                        Some((octets, bits))
                    },
                },
            }
        },
    }
}

/// The level that an identifier's octets name. Octets of an identifier
/// that is not in the table are an unsupported algorithm, named by its
/// dotted text; octets that are no identifier at all are malformed.
pub open spec fn classify(octets: Seq<u8>) -> Result<Algorithm, Fault> {
    match level_of_octets(octets) {
        Some(algorithm) => Ok(algorithm),
        None => Err(unknown(dotted_identifier(octets))),
    }
}

/// The fault of identifier octets that name no level, given what the text
/// of the identifier is.
pub open spec fn unknown(text: Option<Seq<char>>) -> Fault {
    match text {
        Some(t) => Fault::InvalidAlgorithm(t),
        None => malformed(),
    }
}

/// The key pair in a nested private key. The length is held against the
/// level's before the marker bytes are: a key pair of another length is a
/// length fault, whatever its markers say.
pub open spec fn read_nested_key(algorithm: Algorithm, blob: Seq<u8>) -> Result<Seq<u8>, Fault> {
    if blob.len() < 4 || blob[0] != 0x04 || blob[1] != 0x82 {
        Err(malformed())
    } else if blob.len() - 4 != lengths(algorithm).keypair_len {
        Err(Fault::InvalidLengthSecretKey((blob.len() - 4) as nat))
    } else if blob[2] != sub_tag(algorithm).0 || blob[3] != sub_tag(algorithm).1 {
        Err(malformed())
    } else {
        Ok(blob.skip(4))
    }
}

/// The public key in the content of a bit string.
pub open spec fn read_bit_string_key(algorithm: Algorithm, bits: Seq<u8>) -> Result<
    Seq<u8>,
    Fault,
> {
    if bits.len() < 1 || bits[0] != 0 {
        Err(malformed())
    } else if bits.len() - 1 != lengths(algorithm).public_len {
        Err(Fault::InvalidLengthPublicKey(public_length_text(algorithm)))
    } else {
        Ok(bits.skip(1))
    }
}

/// What a private key container holds: its level and key pair, or the
/// fault that it is refused with.
pub open spec fn read_private(der: Seq<u8>) -> Result<(Algorithm, Seq<u8>), Fault> {
    match private_fields(der) {
        None => Err(malformed()),
        Some((octets, blob)) => match classify(octets) {
            Err(fault) => Err(fault),
            Ok(algorithm) => match read_nested_key(algorithm, blob) {
                Err(fault) => Err(fault),
                Ok(keypair) => Ok((algorithm, keypair)),
            },
        },
    }
}

/// What a public key container holds: its level and public key, or the
/// fault that it is refused with.
pub open spec fn read_public(der: Seq<u8>) -> Result<(Algorithm, Seq<u8>), Fault> {
    match public_fields(der) {
        None => Err(malformed()),
        Some((octets, bits)) => match classify(octets) {
            Err(fault) => Err(fault),
            Ok(algorithm) => match read_bit_string_key(algorithm, bits) {
                Err(fault) => Err(fault),
                Ok(key) => Ok((algorithm, key)),
            },
        },
    }
}

/// The error of input that is no well-formed container.
pub fn malformed_error() -> (e: CryptoError)
    ensures
        e@ == malformed(),
{
    CryptoError::InvalidFormat("malformed key container".to_owned())
}

/// The error of a public key with the wrong length for its level.
pub fn public_length_error(algorithm: Algorithm) -> (e: CryptoError)
    ensures
        e@ == Fault::InvalidLengthPublicKey(public_length_text(algorithm)),
{
    let text = match algorithm {
        Algorithm::Dilithium2 => "A public key of length 1312 is expected a signature of length 2420",
        Algorithm::Dilithium3 => "A public key of length 1952 is expected a signature of length 3293",
        Algorithm::Dilithium5 => "A public key of length 2592 is expected a signature of length 4595",
    };
    CryptoError::InvalidLengthPublicKey(text.to_owned())
}

/// The error of identifier octets that name no level, given the text that
/// the identifier has, if it is one.
pub fn unknown_identifier(text: Option<String>) -> (e: CryptoError)
    ensures
        e@ == unknown(
            match text {
                Some(t) => Some(t@),
                None => None,
            },
        ),
{
    match text {
        Some(t) => CryptoError::InvalidAlgorithm(t),
        None => malformed_error(),
    }
}

/// The level that the identifier octets `input[from..to]` name.
pub fn classify_identifier(input: &[u8], from: usize, to: usize) -> (r: Result<
    Algorithm,
    CryptoError,
>)
    requires
        from <= to <= input.len(),
    ensures
        match r {
            Ok(algorithm) => classify(input@.subrange(from as int, to as int)) == Ok::<
                Algorithm,
                Fault,
            >(algorithm),
            Err(e) => classify(input@.subrange(from as int, to as int)) == Err::<
                Algorithm,
                Fault,
            >(e@),
        },
{
    match level_for_octets(input, from, to) {
        Some(algorithm) => Ok(algorithm),
        None => Err(unknown_identifier(identifier_text(slice_subrange(input, from, to)))),
    }
}

/// Appends the algorithm identifier of a level.
fn put_identifier(out: &mut Vec<u8>, algorithm: Algorithm)
    ensures
        final(out)@ == old(out)@ + algorithm_identifier(algorithm),
        algorithm_identifier(algorithm).len() == 15,
{
    let octets = oid_octets_for(algorithm);
    proof {
        octets_pair_with_levels(algorithm, octets@);
    }
    put_header(out, TAG_SEQUENCE, 13);
    put_header(out, TAG_OBJECT_IDENTIFIER, 11);
    append(out, octets.as_slice());
    assert(out@ =~= old(out)@ + algorithm_identifier(algorithm));
}

/// Builds the private key container of a key pair. A key pair whose
/// length is not its level's is refused as `InvalidLengthSecretKey`,
/// which carries the length.
pub fn private_container(algorithm: Algorithm, keypair: &[u8]) -> (r: Result<
    Vec<u8>,
    CryptoError,
>)
    ensures
        match r {
            Ok(der) => keypair@.len() == lengths(algorithm).keypair_len && der@ == private_der(
                algorithm,
                keypair@,
            ),
            Err(e) => keypair@.len() != lengths(algorithm).keypair_len && e@
                == Fault::InvalidLengthSecretKey(keypair@.len()),
        },
{
    if keypair.len() != lengths_for(algorithm).keypair_len {
        return Err(CryptoError::InvalidLengthSecretKey(keypair.len()));
    }
    let marks = sub_tag_for(algorithm);
    let nested_len: usize = 4 + keypair.len();
    let blob_len: usize = header_len(nested_len) + nested_len;
    let body_len: usize = 3 + 15 + blob_len;
    let mut out: Vec<u8> = Vec::new();
    put_header(&mut out, TAG_SEQUENCE, body_len);
    put_header(&mut out, TAG_INTEGER, 1);
    out.push(0);
    put_identifier(&mut out, algorithm);
    put_header(&mut out, TAG_OCTET_STRING, nested_len);
    out.push(0x04);
    out.push(0x82);
    out.push(marks.0);
    out.push(marks.1);
    append(&mut out, keypair);
    proof {
        reveal(private_frame);
        let nested = nested_key(algorithm, keypair@);
        let body = tlv(TAG_INTEGER, seq![0u8]) + algorithm_identifier(algorithm) + tlv(
            TAG_OCTET_STRING,
            nested,
        );
        assert(nested.len() == nested_len);
        assert(body.len() == body_len);
        assert(out@ =~= private_der(algorithm, keypair@));
    }
    Ok(out)
}

/// Builds the public key container of a public key. A key whose length is
/// not its level's is refused as `InvalidLengthPublicKey`.
pub fn public_container(algorithm: Algorithm, key: &[u8]) -> (r: Result<Vec<u8>, CryptoError>)
    ensures
        match r {
            Ok(der) => key@.len() == lengths(algorithm).public_len && der@ == public_der(
                algorithm,
                key@,
            ),
            Err(e) => key@.len() != lengths(algorithm).public_len && e@
                == Fault::InvalidLengthPublicKey(public_length_text(algorithm)),
        },
{
    if key.len() != lengths_for(algorithm).public_len {
        return Err(public_length_error(algorithm));
    }
    let bits_len: usize = 1 + key.len();
    let bit_string_len: usize = header_len(bits_len) + bits_len;
    let body_len: usize = 15 + bit_string_len;
    let mut out: Vec<u8> = Vec::new();
    put_header(&mut out, TAG_SEQUENCE, body_len);
    put_identifier(&mut out, algorithm);
    put_header(&mut out, TAG_BIT_STRING, bits_len);
    out.push(0);
    append(&mut out, key);
    proof {
        reveal(public_frame);
        let bits = seq![0u8] + key@;
        let body = algorithm_identifier(algorithm) + tlv(TAG_BIT_STRING, bits);
        assert(bits.len() == bits_len);
        assert(body.len() == body_len);
        assert(out@ =~= public_der(algorithm, key@));
    }
    Ok(out)
}

/// Reads an algorithm identifier from `input[from..to]`. On success the
/// identifier's octets are `input[start..end]` and what follows the
/// identifier begins at `next`.
fn take_identifier(input: &[u8], from: usize, to: usize) -> (found: Option<(usize, usize, usize)>)
    requires
        from <= to <= input.len(),
    ensures
        match found {
            Some((start, end, next)) => from <= start <= end <= next <= to && read_identifier(
                input@.subrange(from as int, to as int),
            ) == Some(
                (
                    input@.subrange(start as int, end as int),
                    input@.subrange(next as int, to as int),
                ),
            ),
            None => read_identifier(input@.subrange(from as int, to as int)) is None,
        },
{
    match take_tlv(input, from, to, TAG_SEQUENCE) {
        None => None,
        Some((inner_start, inner_end)) => match take_tlv(
            input,
            inner_start,
            inner_end,
            TAG_OBJECT_IDENTIFIER,
        ) {
            None => None,
            Some((start, end)) => if end != inner_end {
                None
            } else {
                assert(input@.subrange(end as int, inner_end as int).len() == 0);
                Some((start, end, inner_end))
            },
        },
    }
}

/// Finds the two fields of a private key container: on success the
/// identifier's octets are `der[a..b]` and the private key octets
/// `der[c..d]`.
fn take_private_fields(der: &[u8]) -> (found: Option<(usize, usize, usize, usize)>)
    ensures
        match found {
            Some((a, b, c, d)) => a <= b <= c <= d <= der.len() && private_fields(der@) == Some(
                (der@.subrange(a as int, b as int), der@.subrange(c as int, d as int)),
            ),
            None => private_fields(der@) is None,
        },
{
    proof {
        reveal(private_fields);
    }
    let n: usize = der.len();
    assert(der@.subrange(0, n as int) =~= der@);
    let (body_start, body_end) = match take_tlv(der, 0, n, TAG_SEQUENCE) {
        None => { return None; },
        Some(found) => found,
    };
    if body_end != n {
        return None;
    }
    let (version_start, version_end) = match take_tlv(der, body_start, body_end, TAG_INTEGER) {
        None => { return None; },
        Some(found) => found,
    };
    let ghost version = der@.subrange(version_start as int, version_end as int);
    if version_end - version_start != 1 {
        assert(version.len() != seq![0u8].len());
        return None;
    }
    assert(version[0] == der@[version_start as int]);
    if der[version_start] != 0 {
        assert(version[0] != seq![0u8][0]);
        return None;
    }
    assert(version =~= seq![0u8]);
    let (oid_start, oid_end, next) = match take_identifier(der, version_end, body_end) {
        None => { return None; },
        Some(found) => found,
    };
    let (blob_start, blob_end) = match take_tlv(der, next, body_end, TAG_OCTET_STRING) {
        None => { return None; },
        Some(found) => found,
    };
    if blob_end != body_end {
        return None;
    }
    Some((oid_start, oid_end, blob_start, blob_end))
}

/// Finds the two fields of a public key container: on success the
/// identifier's octets are `der[a..b]` and the bit string's content
/// `der[c..d]`.
fn take_public_fields(der: &[u8]) -> (found: Option<(usize, usize, usize, usize)>)
    ensures
        match found {
            Some((a, b, c, d)) => a <= b <= c <= d <= der.len() && public_fields(der@) == Some(
                (der@.subrange(a as int, b as int), der@.subrange(c as int, d as int)),
            ),
            None => public_fields(der@) is None,
        },
{
    proof {
        reveal(public_fields);
    }
    let n: usize = der.len();
    assert(der@.subrange(0, n as int) =~= der@);
    let (body_start, body_end) = match take_tlv(der, 0, n, TAG_SEQUENCE) {
        None => { return None; },
        Some(found) => found,
    };
    if body_end != n {
        return None;
    }
    let (oid_start, oid_end, next) = match take_identifier(der, body_start, body_end) {
        None => { return None; },
        Some(found) => found,
    };
    let (bits_start, bits_end) = match take_tlv(der, next, body_end, TAG_BIT_STRING) {
        None => { return None; },
        Some(found) => found,
    };
    if bits_end != body_end {
        return None;
    }
    Some((oid_start, oid_end, bits_start, bits_end))
}

/// Takes the key pair out of the nested private key `der[from..to]`.
fn take_nested_key(algorithm: Algorithm, der: &[u8], from: usize, to: usize) -> (r: Result<
    Vec<u8>,
    CryptoError,
>)
    requires
        from <= to <= der.len(),
    ensures
        match r {
            Ok(keypair) => read_nested_key(algorithm, der@.subrange(from as int, to as int))
                == Ok::<Seq<u8>, Fault>(keypair@),
            Err(e) => read_nested_key(algorithm, der@.subrange(from as int, to as int)) == Err::<
                Seq<u8>,
                Fault,
            >(e@),
        },
{
    let ghost blob = der@.subrange(from as int, to as int);
    let blob_len: usize = to - from;
    if blob_len < 4 {
        return Err(malformed_error());
    }
    assert(blob[0] == der@[from as int] && blob[1] == der@[from + 1] && blob[2] == der@[from + 2]
        && blob[3] == der@[from + 3]);
    if der[from] != 0x04 || der[from + 1] != 0x82 {
        return Err(malformed_error());
    }
    let key_len: usize = blob_len - 4;
    if key_len != lengths_for(algorithm).keypair_len {
        return Err(CryptoError::InvalidLengthSecretKey(key_len));
    }
    let marks = sub_tag_for(algorithm);
    if der[from + 2] != marks.0 || der[from + 3] != marks.1 {
        return Err(malformed_error());
    }
    let keypair = copy_range(der, from + 4, to);
    assert(keypair@ =~= blob.skip(4));
    Ok(keypair)
}

/// Takes the public key out of the bit string content `der[from..to]`.
fn take_bit_string_key(algorithm: Algorithm, der: &[u8], from: usize, to: usize) -> (r: Result<
    Vec<u8>,
    CryptoError,
>)
    requires
        from <= to <= der.len(),
    ensures
        match r {
            Ok(key) => read_bit_string_key(algorithm, der@.subrange(from as int, to as int))
                == Ok::<Seq<u8>, Fault>(key@),
            Err(e) => read_bit_string_key(algorithm, der@.subrange(from as int, to as int))
                == Err::<Seq<u8>, Fault>(e@),
        },
{
    let ghost bits = der@.subrange(from as int, to as int);
    let bits_len: usize = to - from;
    if bits_len < 1 {
        return Err(malformed_error());
    }
    assert(bits[0] == der@[from as int]);
    if der[from] != 0 {
        return Err(malformed_error());
    }
    if bits_len - 1 != lengths_for(algorithm).public_len {
        return Err(public_length_error(algorithm));
    }
    let key = copy_range(der, from + 1, to);
    assert(key@ =~= bits.skip(1));
    Ok(key)
}

/// Reads a private key container: the level that its identifier names and
/// the key pair in it, or the error that `read_private` gives for it.
pub fn read_private_container(der: &[u8]) -> (r: Result<(Algorithm, Vec<u8>), CryptoError>)
    ensures
        key_outcome(r) == read_private(der@),
{
    let (oid_start, oid_end, blob_start, blob_end) = match take_private_fields(der) {
        None => { return Err(malformed_error()); },
        Some(found) => found,
    };
    let algorithm = match classify_identifier(der, oid_start, oid_end) {
        Err(e) => { return Err(e); },
        Ok(algorithm) => algorithm,
    };
    match take_nested_key(algorithm, der, blob_start, blob_end) {
        Err(e) => Err(e),
        Ok(keypair) => Ok((algorithm, keypair)),
    }
}

/// Reads a public key container: the level that its identifier names and
/// the public key in it, or the error that `read_public` gives for it.
pub fn read_public_container(der: &[u8]) -> (r: Result<(Algorithm, Vec<u8>), CryptoError>)
    ensures
        key_outcome(r) == read_public(der@),
{
    let (oid_start, oid_end, bits_start, bits_end) = match take_public_fields(der) {
        None => { return Err(malformed_error()); },
        Some(found) => found,
    };
    let algorithm = match classify_identifier(der, oid_start, oid_end) {
        Err(e) => { return Err(e); },
        Ok(algorithm) => algorithm,
    };
    match take_bit_string_key(algorithm, der, bits_start, bits_end) {
        Err(e) => Err(e),
        Ok(key) => Ok((algorithm, key)),
    }
}

/// An algorithm identifier reads back as its level's octets, whatever
/// follows it.
proof fn identifier_reads_back(algorithm: Algorithm, rest: Seq<u8>)
    ensures
        read_identifier(algorithm_identifier(algorithm) + rest) == Some(
            (oid_octets(algorithm), rest),
        ),
        algorithm_identifier(algorithm).len() == 15,
{
    let octets = oid_octets(algorithm);
    let inner = tlv(TAG_OBJECT_IDENTIFIER, octets);
    octets_pair_with_levels(algorithm, octets);
    tlv_reads_back(TAG_SEQUENCE, inner, rest);
    tlv_reads_back(TAG_OBJECT_IDENTIFIER, octets, Seq::empty());
    assert(inner + Seq::<u8>::empty() =~= inner);
}

/// What `read_identifier` accepts with a level's octets is that level's
/// algorithm identifier, followed by the rest.
proof fn read_identifier_is_canonical(s: Seq<u8>, algorithm: Algorithm)
    ensures
        match read_identifier(s) {
            Some((octets, rest)) => octets == oid_octets(algorithm) ==> s == algorithm_identifier(
                algorithm,
            ) + rest,
            None => true,
        },
{
    match read_identifier(s) {
        Some((octets, rest)) => {
            read_tlv_is_canonical(s, TAG_SEQUENCE);
            let (inner, rest1) = read_tlv(s, TAG_SEQUENCE).unwrap();
            read_tlv_is_canonical(inner, TAG_OBJECT_IDENTIFIER);
            let (octets1, more) = read_tlv(inner, TAG_OBJECT_IDENTIFIER).unwrap();
            assert(inner =~= tlv(TAG_OBJECT_IDENTIFIER, octets));
        },
        None => {},
    }
}

/// The record around any private key octets is read as the identifier's
/// octets and those octets.
pub proof fn private_frame_reads_back(algorithm: Algorithm, blob: Seq<u8>)
    requires
        blob.len() + 32 < content_limit(),
    ensures
        private_fields(private_frame(algorithm, blob)) == Some((oid_octets(algorithm), blob)),
{
    reveal(private_frame);
    reveal(private_fields);
    let version = tlv(TAG_INTEGER, seq![0u8]);
    let identifier = algorithm_identifier(algorithm);
    let wrapped = tlv(TAG_OCTET_STRING, blob);
    let body = version + identifier + wrapped;
    let der = private_frame(algorithm, blob);
    identifier_reads_back(algorithm, wrapped);
    assert(wrapped.len() <= blob.len() + 6);
    tlv_reads_back(TAG_SEQUENCE, body, Seq::empty());
    assert(der + Seq::<u8>::empty() =~= der);
    tlv_reads_back(TAG_INTEGER, seq![0u8], identifier + wrapped);
    assert(body =~= version + (identifier + wrapped));
    tlv_reads_back(TAG_OCTET_STRING, blob, Seq::empty());
    assert(wrapped + Seq::<u8>::empty() =~= wrapped);
}

/// The record around any bit string content is read as the identifier's
/// octets and that content.
pub proof fn public_frame_reads_back(algorithm: Algorithm, bits: Seq<u8>)
    requires
        bits.len() + 32 < content_limit(),
    ensures
        public_fields(public_frame(algorithm, bits)) == Some((oid_octets(algorithm), bits)),
{
    reveal(public_frame);
    reveal(public_fields);
    let identifier = algorithm_identifier(algorithm);
    let wrapped = tlv(TAG_BIT_STRING, bits);
    let body = identifier + wrapped;
    let der = public_frame(algorithm, bits);
    identifier_reads_back(algorithm, wrapped);
    assert(wrapped.len() <= bits.len() + 6);
    tlv_reads_back(TAG_SEQUENCE, body, Seq::empty());
    assert(der + Seq::<u8>::empty() =~= der);
    tlv_reads_back(TAG_BIT_STRING, bits, Seq::empty());
    assert(wrapped + Seq::<u8>::empty() =~= wrapped);
}

/// Reading the private key container of a key pair of the right length
/// gives back the level and the key pair, byte for byte.
pub proof fn private_container_reads_back(algorithm: Algorithm, keypair: Seq<u8>)
    requires
        keypair.len() == lengths(algorithm).keypair_len,
    ensures
        read_private(private_der(algorithm, keypair)) == Ok::<(Algorithm, Seq<u8>), Fault>(
            (algorithm, keypair),
        ),
{
    let blob = nested_key(algorithm, keypair);
    private_frame_reads_back(algorithm, blob);
    octets_pair_with_levels(algorithm, oid_octets(algorithm));
    assert(blob.skip(4) =~= keypair);
}

/// Reading the public key container of a public key of the right length
/// gives back the level and the key, byte for byte.
pub proof fn public_container_reads_back(algorithm: Algorithm, key: Seq<u8>)
    requires
        key.len() == lengths(algorithm).public_len,
    ensures
        read_public(public_der(algorithm, key)) == Ok::<(Algorithm, Seq<u8>), Fault>(
            (algorithm, key),
        ),
{
    let bits = seq![0u8] + key;
    public_frame_reads_back(algorithm, bits);
    octets_pair_with_levels(algorithm, oid_octets(algorithm));
    assert(bits.skip(1) =~= key);
}

/// Only one byte string is read as a given level and key pair: the
/// private key container that is built from them. So building and reading
/// are inverse to each other.
pub proof fn private_container_is_canonical(der: Seq<u8>, algorithm: Algorithm, keypair: Seq<u8>)
    requires
        read_private(der) == Ok::<(Algorithm, Seq<u8>), Fault>((algorithm, keypair)),
    ensures
        der == private_der(algorithm, keypair),
        keypair.len() == lengths(algorithm).keypair_len,
{
    let (octets, blob) = private_fields(der).unwrap();
    octets_pair_with_levels(algorithm, octets);
    assert(blob =~= nested_key(algorithm, keypair));
    private_fields_are_canonical(der, algorithm, blob);
}

/// Only the record of a level around given private key octets is read as
/// that level's octets and those octets.
proof fn private_fields_are_canonical(der: Seq<u8>, algorithm: Algorithm, blob: Seq<u8>)
    requires
        private_fields(der) == Some((oid_octets(algorithm), blob)),
    ensures
        der == private_frame(algorithm, blob),
{
    reveal(private_frame);
    reveal(private_fields);
    read_tlv_is_canonical(der, TAG_SEQUENCE);
    let (body, rest) = read_tlv(der, TAG_SEQUENCE).unwrap();
    read_tlv_is_canonical(body, TAG_INTEGER);
    let (version, after_version) = read_tlv(body, TAG_INTEGER).unwrap();
    read_identifier_is_canonical(after_version, algorithm);
    let (octets1, after_identifier) = read_identifier(after_version).unwrap();
    read_tlv_is_canonical(after_identifier, TAG_OCTET_STRING);
    assert(after_identifier =~= tlv(TAG_OCTET_STRING, blob));
    assert(body =~= tlv(TAG_INTEGER, seq![0u8]) + algorithm_identifier(algorithm) + tlv(
        TAG_OCTET_STRING,
        blob,
    ));
    assert(der =~= tlv(TAG_SEQUENCE, body));
}

/// Only one byte string is read as a given level and public key: the
/// public key container that is built from them.
pub proof fn public_container_is_canonical(der: Seq<u8>, algorithm: Algorithm, key: Seq<u8>)
    requires
        read_public(der) == Ok::<(Algorithm, Seq<u8>), Fault>((algorithm, key)),
    ensures
        der == public_der(algorithm, key),
        key.len() == lengths(algorithm).public_len,
{
    let (octets, bits) = public_fields(der).unwrap();
    octets_pair_with_levels(algorithm, octets);
    assert(bits =~= seq![0u8] + key);
    public_fields_are_canonical(der, algorithm, bits);
}

/// Only the record of a level around a given bit string content is read
/// as that level's octets and that content.
proof fn public_fields_are_canonical(der: Seq<u8>, algorithm: Algorithm, bits: Seq<u8>)
    requires
        public_fields(der) == Some((oid_octets(algorithm), bits)),
    ensures
        der == public_frame(algorithm, bits),
{
    reveal(public_frame);
    reveal(public_fields);
    read_tlv_is_canonical(der, TAG_SEQUENCE);
    let (body, rest) = read_tlv(der, TAG_SEQUENCE).unwrap();
    read_identifier_is_canonical(body, algorithm);
    let (octets1, after_identifier) = read_identifier(body).unwrap();
    read_tlv_is_canonical(after_identifier, TAG_BIT_STRING);
    assert(after_identifier =~= tlv(TAG_BIT_STRING, bits));
    assert(body =~= algorithm_identifier(algorithm) + tlv(TAG_BIT_STRING, bits));
    assert(der =~= tlv(TAG_SEQUENCE, body));
}

/// A record whose identifier names one level around a nested key pair of
/// another length is refused with the length fault, whatever marker bytes
/// the nested key carries: it is read neither as the level it names nor as
/// the level whose length it has.
pub proof fn mismatched_length_is_refused(
    claimed: Algorithm,
    first: u8,
    second: u8,
    keypair: Seq<u8>,
)
    requires
        keypair.len() != lengths(claimed).keypair_len,
        keypair.len() + 64 < content_limit(),
    ensures
        read_private(private_frame(claimed, seq![0x04u8, 0x82u8, first, second] + keypair))
            == Err::<(Algorithm, Seq<u8>), Fault>(Fault::InvalidLengthSecretKey(keypair.len())),
{
    let blob = seq![0x04u8, 0x82u8, first, second] + keypair;
    private_frame_reads_back(claimed, blob);
    octets_pair_with_levels(claimed, oid_octets(claimed));
}

/// A private key container is no public key container, whatever it holds:
/// where a public key record has its algorithm identifier, a private one
/// has its version.
pub proof fn private_is_not_read_as_public(algorithm: Algorithm, content: Seq<u8>)
    requires
        content.len() + 32 < content_limit(),
    ensures
        read_public(private_frame(algorithm, content)) == Err::<(Algorithm, Seq<u8>), Fault>(
            malformed(),
        ),
{
    reveal(private_frame);
    reveal(public_fields);
    let version = tlv(TAG_INTEGER, seq![0u8]);
    let rest = algorithm_identifier(algorithm) + tlv(TAG_OCTET_STRING, content);
    let body = version + rest;
    let der = private_frame(algorithm, content);
    identifier_reads_back(algorithm, Seq::empty());
    assert(body =~= version + algorithm_identifier(algorithm) + tlv(TAG_OCTET_STRING, content));
    tlv_reads_back(TAG_SEQUENCE, body, Seq::empty());
    assert(der + Seq::<u8>::empty() =~= der);
    assert(version[0] == TAG_INTEGER);
    assert(body[0] == version[0]);
    assert(read_tlv(body, TAG_SEQUENCE) is None);
}

/// A public key container is no private key container, whatever it holds:
/// where a private key record has its version, a public one has its
/// algorithm identifier.
pub proof fn public_is_not_read_as_private(algorithm: Algorithm, content: Seq<u8>)
    requires
        content.len() + 32 < content_limit(),
    ensures
        read_private(public_frame(algorithm, content)) == Err::<(Algorithm, Seq<u8>), Fault>(
            malformed(),
        ),
{
    reveal(public_frame);
    reveal(private_fields);
    let identifier = algorithm_identifier(algorithm);
    let body = identifier + tlv(TAG_BIT_STRING, content);
    let der = public_frame(algorithm, content);
    identifier_reads_back(algorithm, Seq::empty());
    tlv_reads_back(TAG_SEQUENCE, body, Seq::empty());
    assert(der + Seq::<u8>::empty() =~= der);
    assert(identifier[0] == TAG_SEQUENCE);
    assert(body[0] == identifier[0]);
    assert(read_tlv(body, TAG_INTEGER) is None);
}

} // verus!
