//! The 32-byte seed of key generation: fresh random bytes, or entropy that
//! the caller gives as base64 text.

use crate::bytes::zeros;
use crate::commands::error::{CryptoError, Fault};
use base64::Engine;
use rand::RngCore;
use vstd::prelude::*;

verus! {

/// The number of bytes of a seed.
pub const SEED_LEN: usize = 32;

/// What the `base64` crate's standard engine decodes a text to: the bytes,
/// or the text of its error.
pub uninterp spec fn base64_decoded(text: Seq<char>) -> Result<Seq<u8>, Seq<char>>;

/// Calls `decode` of the `base64` crate's `STANDARD` engine, and gives the
/// error as its `Display` text. The result is taken to depend on the text
/// alone; nothing else is claimed of it.
#[verifier::external_body]
fn base64_decode(text: &str) -> (decoded: Result<Vec<u8>, String>)
    ensures
        match decoded {
            Ok(bytes) => base64_decoded(text@) == Ok::<Seq<u8>, Seq<char>>(bytes@),
            Err(message) => base64_decoded(text@) == Err::<Seq<u8>, Seq<char>>(message@),
        },
{
    base64::engine::general_purpose::STANDARD.decode(text).map_err(|e| e.to_string())
}

/// Calls `fill_bytes` of the `rand` crate's thread-local generator on 32
/// bytes. Nothing is known of the bytes: every call may give others.
#[verifier::external_body]
pub(crate) fn random_seed() -> (seed: [u8; 32])
{
    let mut seed = [0u8; 32];
    rand::thread_rng().fill_bytes(&mut seed);
    seed
}

/// Entropy filled up to 32 bytes with zeros on the right.
pub open spec fn padded(entropy: Seq<u8>) -> Seq<u8> {
    entropy + zeros((SEED_LEN - entropy.len()) as nat)
}

/// The fault of entropy that does not fit into a seed.
pub open spec fn too_long() -> Fault {
    Fault::RequestQrngError("entropy is longer than 32 bytes"@)
}

/// The seed that entropy gives: the entropy itself, zero-padded where it is
/// shorter than a seed. Longer entropy is a fault.
pub open spec fn seed_of(entropy: Seq<u8>) -> Result<Seq<u8>, Fault> {
    if entropy.len() <= SEED_LEN {
        Ok(padded(entropy))
    } else {
        Err(too_long())
    }
}

/// The seed that base64 text gives, from what the text decodes to: text
/// that does not decode is a fault that carries the decoder's words.
pub open spec fn seed_of_decoded(decoded: Result<Seq<u8>, Seq<char>>) -> Result<Seq<u8>, Fault> {
    match decoded {
        Ok(entropy) => seed_of(entropy),
        Err(message) => Err(Fault::RequestQrngError(message)),
    }
}

/// What making a seed comes to, in mathematical terms.
pub open spec fn seed_outcome(r: Result<[u8; 32], CryptoError>) -> Result<Seq<u8>, Fault> {
    match r {
        Ok(seed) => Ok(seed@),
        Err(e) => Err(e@),
    }
}

/// The mathematical content of what the base64 decoder hands back.
pub open spec fn decoded_view(decoded: Result<Vec<u8>, String>) -> Result<Seq<u8>, Seq<char>> {
    match decoded {
        Ok(bytes) => Ok(bytes@),
        Err(message) => Err(message@),
    }
}

/// Makes a seed of up to 32 bytes of entropy: the entropy, then zeros.
pub fn seed_from_entropy(entropy: &[u8]) -> (r: Result<[u8; 32], CryptoError>)
    ensures
        seed_outcome(r) == seed_of(entropy@),
{
    if entropy.len() > SEED_LEN {
        return Err(CryptoError::RequestQrngError("entropy is longer than 32 bytes".to_owned()));
    }
    let mut seed: [u8; 32] = [0u8; 32];
    let mut i: usize = 0;
    while i < entropy.len()
        invariant
            i <= entropy.len() <= SEED_LEN,
            forall|j: int| 0 <= j < i ==> seed@[j] == entropy@[j],
            forall|j: int| i <= j < SEED_LEN ==> seed@[j] == 0u8,
        decreases entropy.len() - i,
    {
        seed[i] = entropy[i];
        i += 1;
    }
    assert(seed@ =~= padded(entropy@));
    Ok(seed)
}

/// Makes a seed from what base64 text was decoded to.
pub fn seed_from_decoded(decoded: Result<Vec<u8>, String>) -> (r: Result<[u8; 32], CryptoError>)
    ensures
        seed_outcome(r) == seed_of_decoded(decoded_view(decoded)),
{
    match decoded {
        Ok(entropy) => seed_from_entropy(entropy.as_slice()),
        Err(message) => Err(CryptoError::RequestQrngError(message)),
    }
}

/// Makes a seed from entropy given as base64 text.
pub fn seed_from_text(text: &str) -> (r: Result<[u8; 32], CryptoError>)
    ensures
        seed_outcome(r) == seed_of_decoded(base64_decoded(text@)),
{
    seed_from_decoded(base64_decode(text))
}

/// Entropy of up to 32 bytes stands at the front of its seed unchanged,
/// and every byte after it is zero.
pub proof fn short_entropy_is_zero_padded(entropy: Seq<u8>)
    requires
        entropy.len() <= SEED_LEN,
    ensures
        seed_of(entropy) == Ok::<Seq<u8>, Fault>(padded(entropy)),
        padded(entropy).len() == SEED_LEN,
        padded(entropy).take(entropy.len() as int) == entropy,
        forall|i: int| entropy.len() <= i < SEED_LEN ==> padded(entropy)[i] == 0u8,
{
    assert(padded(entropy).take(entropy.len() as int) =~= entropy);
}

} // verus!
