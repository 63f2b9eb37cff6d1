//! The signature scheme itself, which the `crystals_dilithium` crate
//! computes: key pairs from seeds, signatures, and their verification.
//! What is known of its results is their length, and that they depend on
//! what goes in and on nothing else.

use crate::bytes::copy_range;
use crate::commands::arg_enums::Algorithm;
use crate::commands::error::{CryptoError, Fault};
use crate::container::{public_length_error, public_length_text};
use crate::registry::{lengths, lengths_for};
use crystals_dilithium::{dilithium2, dilithium3, dilithium5};
use vstd::prelude::*;

verus! {

/// The key pair that Dilithium2 derives from a seed: secret key, then
/// public key.
pub uninterp spec fn dilithium2_keypair(seed: Seq<u8>) -> Seq<u8>;

/// The key pair that Dilithium3 derives from a seed.
pub uninterp spec fn dilithium3_keypair(seed: Seq<u8>) -> Seq<u8>;

/// The key pair that Dilithium5 derives from a seed.
pub uninterp spec fn dilithium5_keypair(seed: Seq<u8>) -> Seq<u8>;

/// The signature that Dilithium2 gives a message under a secret key.
pub uninterp spec fn dilithium2_signature(secret: Seq<u8>, message: Seq<u8>) -> Seq<u8>;

/// The signature that Dilithium3 gives a message under a secret key.
pub uninterp spec fn dilithium3_signature(secret: Seq<u8>, message: Seq<u8>) -> Seq<u8>;

/// The signature that Dilithium5 gives a message under a secret key.
pub uninterp spec fn dilithium5_signature(secret: Seq<u8>, message: Seq<u8>) -> Seq<u8>;

/// Whether Dilithium2 takes a signature for that of a message under a
/// public key.
pub uninterp spec fn dilithium2_verifies(
    public: Seq<u8>,
    message: Seq<u8>,
    signature: Seq<u8>,
) -> bool;

/// Whether Dilithium3 takes a signature for that of a message under a
/// public key.
pub uninterp spec fn dilithium3_verifies(
    public: Seq<u8>,
    message: Seq<u8>,
    signature: Seq<u8>,
) -> bool;

/// Whether Dilithium5 takes a signature for that of a message under a
/// public key.
pub uninterp spec fn dilithium5_verifies(
    public: Seq<u8>,
    message: Seq<u8>,
    signature: Seq<u8>,
) -> bool;

/// Calls `dilithium2::Keypair::generate` with the seed and gives the key
/// pair's bytes. The crate copies the seed into 32 bytes, so any other
/// length is kept out; with a seed it draws no randomness, and the bytes
/// are an array of `KEYPAIRBYTES`, which is 3840.
#[verifier::external_body]
fn keypair2(seed: &[u8]) -> (keypair: Vec<u8>)
    requires
        seed@.len() == 32,
    ensures
        keypair@ == dilithium2_keypair(seed@),
        keypair@.len() == 3840,
{
    dilithium2::Keypair::generate(Some(seed)).to_bytes().to_vec()
}

/// Calls `dilithium3::Keypair::generate` with the seed and gives the key
/// pair's bytes, an array of `KEYPAIRBYTES`, which is 5952.
#[verifier::external_body]
fn keypair3(seed: &[u8]) -> (keypair: Vec<u8>)
    requires
        seed@.len() == 32,
    ensures
        keypair@ == dilithium3_keypair(seed@),
        keypair@.len() == 5952,
{
    dilithium3::Keypair::generate(Some(seed)).to_bytes().to_vec()
}

/// Calls `dilithium5::Keypair::generate` with the seed and gives the key
/// pair's bytes, an array of `KEYPAIRBYTES`, which is 7456.
#[verifier::external_body]
fn keypair5(seed: &[u8]) -> (keypair: Vec<u8>)
    requires
        seed@.len() == 32,
    ensures
        keypair@ == dilithium5_keypair(seed@),
        keypair@.len() == 7456,
{
    dilithium5::Keypair::generate(Some(seed)).to_bytes().to_vec()
}

/// Calls `dilithium2::SecretKey::from_bytes`, which takes 2528 bytes and
/// nothing else, and then `sign`, which signs without randomness and gives
/// an array of `SIGNBYTES`, which is 2420.
#[verifier::external_body]
fn sign2(secret: &[u8], message: &[u8]) -> (signature: Vec<u8>)
    requires
        secret@.len() == 2528,
    ensures
        signature@ == dilithium2_signature(secret@, message@),
        signature@.len() == 2420,
{
    dilithium2::SecretKey::from_bytes(secret).sign(message).to_vec()
}

/// Calls `dilithium3::SecretKey::from_bytes`, which takes 4000 bytes and
/// nothing else, and then `sign`, which signs without randomness and gives
/// an array of `SIGNBYTES`, which is 3293.
#[verifier::external_body]
fn sign3(secret: &[u8], message: &[u8]) -> (signature: Vec<u8>)
    requires
        secret@.len() == 4000,
    ensures
        signature@ == dilithium3_signature(secret@, message@),
        signature@.len() == 3293,
{
    dilithium3::SecretKey::from_bytes(secret).sign(message).to_vec()
}

/// Calls `dilithium5::SecretKey::from_bytes`, which takes 4864 bytes and
/// nothing else, and then `sign`, which signs without randomness and gives
/// an array of `SIGNBYTES`, which is 4595.
#[verifier::external_body]
fn sign5(secret: &[u8], message: &[u8]) -> (signature: Vec<u8>)
    requires
        secret@.len() == 4864,
    ensures
        signature@ == dilithium5_signature(secret@, message@),
        signature@.len() == 4595,
{
    dilithium5::SecretKey::from_bytes(secret).sign(message).to_vec()
}

/// Calls `dilithium2::PublicKey::from_bytes`, which takes 1312 bytes and
/// nothing else, and then `verify`.
#[verifier::external_body]
fn verify2(public: &[u8], message: &[u8], signature: &[u8]) -> (valid: bool)
    requires
        public@.len() == 1312,
    ensures
        valid == dilithium2_verifies(public@, message@, signature@),
{
    dilithium2::PublicKey::from_bytes(public).verify(message, signature)
}

/// Calls `dilithium3::PublicKey::from_bytes`, which takes 1952 bytes and
/// nothing else, and then `verify`.
#[verifier::external_body]
fn verify3(public: &[u8], message: &[u8], signature: &[u8]) -> (valid: bool)
    requires
        public@.len() == 1952,
    ensures
        valid == dilithium3_verifies(public@, message@, signature@),
{
    dilithium3::PublicKey::from_bytes(public).verify(message, signature)
}

/// Calls `dilithium5::PublicKey::from_bytes`, which takes 2592 bytes and
/// nothing else, and then `verify`.
#[verifier::external_body]
fn verify5(public: &[u8], message: &[u8], signature: &[u8]) -> (valid: bool)
    requires
        public@.len() == 2592,
    ensures
        valid == dilithium5_verifies(public@, message@, signature@),
{
    dilithium5::PublicKey::from_bytes(public).verify(message, signature)
}

/// The key pair of a level from a seed.
pub open spec fn keypair_of(algorithm: Algorithm, seed: Seq<u8>) -> Seq<u8> {
    match algorithm {
        Algorithm::Dilithium2 => dilithium2_keypair(seed),
        Algorithm::Dilithium3 => dilithium3_keypair(seed),
        Algorithm::Dilithium5 => dilithium5_keypair(seed),
    }
}

/// The signature of a level for a message under a secret key.
pub open spec fn signature_of(algorithm: Algorithm, secret: Seq<u8>, message: Seq<u8>) -> Seq<u8> {
    match algorithm {
        Algorithm::Dilithium2 => dilithium2_signature(secret, message),
        Algorithm::Dilithium3 => dilithium3_signature(secret, message),
        Algorithm::Dilithium5 => dilithium5_signature(secret, message),
    }
}

/// Whether a level takes a signature for that of a message under a public
/// key.
pub open spec fn verifies(
    algorithm: Algorithm,
    public: Seq<u8>,
    message: Seq<u8>,
    signature: Seq<u8>,
) -> bool {
    match algorithm {
        Algorithm::Dilithium2 => dilithium2_verifies(public, message, signature),
        Algorithm::Dilithium3 => dilithium3_verifies(public, message, signature),
        Algorithm::Dilithium5 => dilithium5_verifies(public, message, signature),
    }
}

/// The secret key of a key pair: its first bytes.
pub open spec fn secret_part(algorithm: Algorithm, keypair: Seq<u8>) -> Seq<u8> {
    keypair.take(lengths(algorithm).secret_len as int)
}

/// The public key of a key pair: what follows the secret key.
pub open spec fn public_part(algorithm: Algorithm, keypair: Seq<u8>) -> Seq<u8> {
    keypair.skip(lengths(algorithm).secret_len as int)
}

/// One half of a key pair, or the fault of a key pair of the wrong length.
pub open spec fn half(algorithm: Algorithm, keypair: Seq<u8>, part: Seq<u8>) -> Result<
    Seq<u8>,
    Fault,
> {
    if keypair.len() != lengths(algorithm).keypair_len {
        Err(Fault::InvalidLengthSecretKey(keypair.len()))
    } else {
        Ok(part)
    }
}

/// What signing comes to: the signature, or the fault of a secret key of
/// the wrong length.
pub open spec fn signed(algorithm: Algorithm, secret: Seq<u8>, message: Seq<u8>) -> Result<
    Seq<u8>,
    Fault,
> {
    if secret.len() != lengths(algorithm).secret_len {
        Err(Fault::InvalidLengthSecretKey(secret.len()))
    } else {
        Ok(signature_of(algorithm, secret, message))
    }
}

/// What verifying comes to: the scheme's verdict, or the fault of a public
/// key or a signature of the wrong length. The key is looked at first.
pub open spec fn verified(
    algorithm: Algorithm,
    public: Seq<u8>,
    message: Seq<u8>,
    signature: Seq<u8>,
) -> Result<bool, Fault> {
    if public.len() != lengths(algorithm).public_len {
        Err(Fault::InvalidLengthPublicKey(public_length_text(algorithm)))
    } else if signature.len() != lengths(algorithm).signature_len {
        Err(Fault::InvalidLengthSignature(signature.len()))
    } else {
        Ok(verifies(algorithm, public, message, signature))
    }
}

/// Derives the key pair of a level from a seed. It has the level's key
/// pair length.
pub fn generate_keypair(algorithm: Algorithm, seed: &[u8; 32]) -> (keypair: Vec<u8>)
    ensures
        keypair@ == keypair_of(algorithm, seed@),
        keypair@.len() == lengths(algorithm).keypair_len,
{
    match algorithm {
        Algorithm::Dilithium2 => keypair2(seed.as_slice()),
        Algorithm::Dilithium3 => keypair3(seed.as_slice()),
        Algorithm::Dilithium5 => keypair5(seed.as_slice()),
    }
}

/// The secret key of a key pair. A key pair whose length is not its
/// level's is refused as `InvalidLengthSecretKey`.
pub fn secret_half(algorithm: Algorithm, keypair: &[u8]) -> (r: Result<Vec<u8>, CryptoError>)
    ensures
        match r {
            Ok(secret) => half(algorithm, keypair@, secret_part(algorithm, keypair@)) == Ok::<
                Seq<u8>,
                Fault,
            >(secret@) && secret@.len() == lengths(algorithm).secret_len,
            Err(e) => half(algorithm, keypair@, secret_part(algorithm, keypair@)) == Err::<
                Seq<u8>,
                Fault,
            >(e@),
        },
{
    let l = lengths_for(algorithm);
    if keypair.len() != l.keypair_len {
        return Err(CryptoError::InvalidLengthSecretKey(keypair.len()));
    }
    let secret = copy_range(keypair, 0, l.secret_len);
    assert(secret@ =~= secret_part(algorithm, keypair@));
    Ok(secret)
}

/// The public key of a key pair. A key pair whose length is not its
/// level's is refused as `InvalidLengthSecretKey`.
pub fn public_half(algorithm: Algorithm, keypair: &[u8]) -> (r: Result<Vec<u8>, CryptoError>)
    ensures
        match r {
            Ok(public) => half(algorithm, keypair@, public_part(algorithm, keypair@)) == Ok::<
                Seq<u8>,
                Fault,
            >(public@) && public@.len() == lengths(algorithm).public_len,
            Err(e) => half(algorithm, keypair@, public_part(algorithm, keypair@)) == Err::<
                Seq<u8>,
                Fault,
            >(e@),
        },
{
    let l = lengths_for(algorithm);
    if keypair.len() != l.keypair_len {
        return Err(CryptoError::InvalidLengthSecretKey(keypair.len()));
    }
    let public = copy_range(keypair, l.secret_len, keypair.len());
    assert(public@ =~= public_part(algorithm, keypair@));
    Ok(public)
}

/// Signs a message under a secret key. The signature has the level's
/// signature length.
pub fn sign(algorithm: Algorithm, secret: &[u8], message: &[u8]) -> (r: Result<
    Vec<u8>,
    CryptoError,
>)
    ensures
        match r {
            Ok(signature) => signed(algorithm, secret@, message@) == Ok::<Seq<u8>, Fault>(
                signature@,
            ) && signature@.len() == lengths(algorithm).signature_len,
            Err(e) => signed(algorithm, secret@, message@) == Err::<Seq<u8>, Fault>(e@),
        },
{
    if secret.len() != lengths_for(algorithm).secret_len {
        return Err(CryptoError::InvalidLengthSecretKey(secret.len()));
    }
    Ok(
        match algorithm {
            Algorithm::Dilithium2 => sign2(secret, message),
            Algorithm::Dilithium3 => sign3(secret, message),
            Algorithm::Dilithium5 => sign5(secret, message),
        },
    )
}

/// Verifies a signature of a message under a public key.
pub fn verify(algorithm: Algorithm, public: &[u8], message: &[u8], signature: &[u8]) -> (r: Result<
    bool,
    CryptoError,
>)
    ensures
        match r {
            Ok(valid) => verified(algorithm, public@, message@, signature@) == Ok::<bool, Fault>(
                valid,
            ),
            Err(e) => verified(algorithm, public@, message@, signature@) == Err::<bool, Fault>(
                e@,
            ),
        },
{
    let l = lengths_for(algorithm);
    if public.len() != l.public_len {
        return Err(public_length_error(algorithm));
    }
    if signature.len() != l.signature_len {
        return Err(CryptoError::InvalidLengthSignature(signature.len()));
    }
    Ok(
        match algorithm {
            Algorithm::Dilithium2 => verify2(public, message, signature),
            Algorithm::Dilithium3 => verify3(public, message, signature),
            Algorithm::Dilithium5 => verify5(public, message, signature),
        },
    )
}

} // verus!
