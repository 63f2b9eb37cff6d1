use super::arg_enums::{Algorithm, Format};
use super::error::{bytes_outcome, CryptoError, Fault};
use crate::asn1::content_limit;
use crate::container::private_frame;
use crate::envelope::{
    decode_private, decoded_private, encoded_private, envelops,
    mismatched_length_is_refused_in_either_envelope, private_label, private_round_trip,
};
use crate::oracle::{secret_half, secret_part, sign, signature_of};
use crate::registry::lengths;
use vstd::prelude::*;

verus! {

/// Sign the file.
#[derive(Debug, Clone)]
pub struct SignCmd {
    /// The envelope that the private key container is said to be in. The
    /// envelope is found from the input itself, so this has no part in the
    /// outcome.
    pub inform: Format,
    /// Where the private key container is read from.
    pub in_path: String,
    /// Where the signature is to be written; printed where there is none.
    pub out_path: Option<String>,
    /// The file to sign.
    pub file_path: String,
}

/// The signature of a file digest under an encoded private key container,
/// in whichever envelope the container is: input that does not decode is
/// the fault of decoding it, and nothing is signed; else the digest is
/// signed under the secret half of the key pair, as the level of the
/// container signs.
pub open spec fn signature_for(key: Seq<u8>, digest: Seq<u8>) -> Result<Seq<u8>, Fault> {
    match decoded_private(key) {
        Err(fault) => Err(fault),
        Ok((algorithm, keypair)) => Ok(
            signature_of(algorithm, secret_part(algorithm, keypair), digest),
        ),
    }
}

impl SignCmd {
    /// Runs the command on the contents of the key file and the digest of
    /// the file to sign: hands out the signature, bare, with the length of
    /// the key's level.
    pub fn run(&self, key: &[u8], digest: &[u8; 32]) -> (r: Result<Vec<u8>, CryptoError>)
        ensures
            bytes_outcome(r) == signature_for(key@, digest@),
            match r {
                Ok(signature) => match decoded_private(key@) {
                    Ok((algorithm, _)) => signature@.len() == lengths(algorithm).signature_len,
                    Err(_) => false,
                },
                Err(_) => true,
            },
    {
        let (algorithm, keypair) = match decode_private(key) {
            Err(e) => { return Err(e); },
            Ok(found) => found,
        };
        let secret = match secret_half(algorithm, keypair.as_slice()) {
            Err(e) => { return Err(e); },
            Ok(secret) => secret,
        };
        sign(algorithm, secret.as_slice(), digest.as_slice())
    }
}

/// The envelope of the key makes no difference: under whatever
/// `encode_private` hands out for a key pair, in either envelope, Sign
/// makes the one signature that the level gives the digest under the key
/// pair's secret half.
pub proof fn signature_under_an_encoded_key_pair(
    algorithm: Algorithm,
    keypair: Seq<u8>,
    format: Format,
    key: Seq<u8>,
    digest: Seq<u8>,
)
    requires
        encoded_private(algorithm, keypair, format) == Ok::<Seq<u8>, Fault>(key),
    ensures
        signature_for(key, digest) == Ok::<Seq<u8>, Fault>(
            signature_of(algorithm, secret_part(algorithm, keypair), digest),
        ),
{
    private_round_trip(algorithm, keypair, format, key);
}

/// Under a record whose identifier names one level around a nested key
/// pair of another length, in either envelope, nothing is signed: the
/// outcome is the length fault.
pub proof fn mismatched_length_is_not_signed(
    key: Seq<u8>,
    digest: Seq<u8>,
    claimed: Algorithm,
    first: u8,
    second: u8,
    keypair: Seq<u8>,
)
    requires
        keypair.len() != lengths(claimed).keypair_len,
        keypair.len() + 64 < content_limit(),
        envelops(
            key,
            private_label(),
            private_frame(claimed, seq![0x04u8, 0x82u8, first, second] + keypair),
        ),
    ensures
        signature_for(key, digest) == Err::<Seq<u8>, Fault>(
            Fault::InvalidLengthSecretKey(keypair.len()),
        ),
{
    mismatched_length_is_refused_in_either_envelope(key, claimed, first, second, keypair);
}

} // verus!
