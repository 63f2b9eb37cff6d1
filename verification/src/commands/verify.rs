use super::arg_enums::{Algorithm, Format};
use super::error::{CryptoError, Fault};
use super::public::public_of;
use super::sign::signature_for;
use crate::envelope::{
    decode_public, decoded_public, encoded_private, encoded_public, private_round_trip,
    public_round_trip,
};
use crate::oracle::{public_part, secret_part, signature_of, verified, verifies, verify};
use crate::registry::lengths;
use vstd::prelude::*;

verus! {

/// Signature verification.
#[derive(Debug, Clone)]
pub struct VerifyCmd {
    /// The envelope that the public key container is said to be in. The
    /// envelope is found from the input itself, so this has no part in the
    /// outcome.
    pub inform: Format,
    /// Where the public key container is read from.
    pub pub_path: String,
    /// Where the signature is read from.
    pub sig_path: String,
    /// The file that was signed.
    pub file_path: String,
}

/// The verdict on a signature of a file digest under an encoded public key
/// container, in whichever envelope the container is: input that does not
/// decode is the fault of decoding it, and a signature that has not the
/// length of the container's level is a length fault; else the verdict is
/// the level's.
pub open spec fn verdict(key: Seq<u8>, signature: Seq<u8>, digest: Seq<u8>) -> Result<bool, Fault> {
    match decoded_public(key) {
        Err(fault) => Err(fault),
        Ok((algorithm, public)) => verified(algorithm, public, digest, signature),
    }
}

/// What verifying comes to, in mathematical terms.
pub open spec fn verdict_outcome(r: Result<bool, CryptoError>) -> Result<bool, Fault> {
    match r {
        Ok(valid) => Ok(valid),
        Err(e) => Err(e@),
    }
}

impl VerifyCmd {
    /// Runs the command on the contents of the key file, the signature
    /// file and the digest of the signed file: hands out the verdict.
    pub fn run(&self, key: &[u8], signature: &[u8], digest: &[u8; 32]) -> (r: Result<
        bool,
        CryptoError,
    >)
        ensures
            verdict_outcome(r) == verdict(key@, signature@, digest@),
    {
        let (algorithm, public) = match decode_public(key) {
            Err(e) => { return Err(e); },
            Ok(found) => found,
        };
        verify(algorithm, public.as_slice(), digest.as_slice(), signature)
    }
}

/// The envelope of the key makes no difference: under whatever
/// `encode_public` hands out for a public key, in either envelope, Verify
/// gives what the level gives for that key: its verdict, or the fault of
/// a signature of another length.
pub proof fn verdict_under_an_encoded_public_key(
    algorithm: Algorithm,
    public: Seq<u8>,
    format: Format,
    key: Seq<u8>,
    signature: Seq<u8>,
    digest: Seq<u8>,
)
    requires
        encoded_public(algorithm, public, format) == Ok::<Seq<u8>, Fault>(key),
    ensures
        verdict(key, signature, digest) == verified(algorithm, public, digest, signature),
{
    public_round_trip(algorithm, public, format, key);
}

/// The commands add nothing of their own between the key pair and the
/// verdict. Take a private key container as Generate hands it out for a
/// key pair, the public key container that Public makes of it, and the
/// signature that Sign makes with it for a digest, of the level's length,
/// each in any envelope. Then the verdict of Verify on that digest is the
/// scheme's own: whether the signature that the scheme makes under the
/// secret half verifies under the public half. And on any other digest it
/// is the scheme's verdict on that digest.
pub proof fn verdict_is_the_scheme_s_on_its_own_signature(
    algorithm: Algorithm,
    keypair: Seq<u8>,
    digest: Seq<u8>,
    other_digest: Seq<u8>,
    key_format: Format,
    public_format: Format,
    private_file: Seq<u8>,
    public_file: Seq<u8>,
    signature: Seq<u8>,
)
    requires
        encoded_private(algorithm, keypair, key_format) == Ok::<Seq<u8>, Fault>(private_file),
        public_of(public_format, private_file) == Ok::<Seq<u8>, Fault>(public_file),
        signature_for(private_file, digest) == Ok::<Seq<u8>, Fault>(signature),
        signature.len() == lengths(algorithm).signature_len,
    ensures
        signature == signature_of(algorithm, secret_part(algorithm, keypair), digest),
        verdict(public_file, signature, digest) == Ok::<bool, Fault>(
            verifies(algorithm, public_part(algorithm, keypair), digest, signature),
        ),
        verdict(public_file, signature, other_digest) == Ok::<bool, Fault>(
            verifies(algorithm, public_part(algorithm, keypair), other_digest, signature),
        ),
{
    private_round_trip(algorithm, keypair, key_format, private_file);
    public_round_trip(algorithm, public_part(algorithm, keypair), public_format, public_file);
}

} // verus!
