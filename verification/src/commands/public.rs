use super::arg_enums::Format;
use super::error::{bytes_outcome, CryptoError, Fault};
use super::arg_enums::Algorithm;
use crate::asn1::content_limit;
use crate::container::private_frame;
use crate::envelope::{
    decode_private, decoded_private, encode_public, encoded_private, encoded_public, envelops,
    mismatched_length_is_refused_in_either_envelope, private_label, private_round_trip,
};
use crate::registry::lengths;
use crate::oracle::{public_half, public_part};
use vstd::prelude::*;

verus! {

/// Extracts the public key from the private key.
#[derive(Debug, Clone)]
pub struct PublicCmd {
    /// The envelope that the input is said to be in. The envelope is found
    /// from the input itself, so this has no part in the outcome.
    pub inform: Format,
    /// Where the private key container is read from.
    pub in_path: String,
    /// The envelope of the public key container that is handed out.
    pub outform: Format,
    /// Where the container is to be written; printed where there is none.
    pub out_path: Option<String>,
}

/// The public key container of an encoded private key container, in
/// whichever envelope the input is: input that does not decode is the
/// fault of decoding it; else the public half of the key pair is encoded
/// for its level.
pub open spec fn public_of(outform: Format, input: Seq<u8>) -> Result<Seq<u8>, Fault> {
    match decoded_private(input) {
        Err(fault) => Err(fault),
        Ok((algorithm, keypair)) => encoded_public(
            algorithm,
            public_part(algorithm, keypair),
            outform,
        ),
    }
}

impl PublicCmd {
    /// Runs the command on the contents of the input file: hands out the
    /// encoded public key container.
    pub fn run(&self, input: &[u8]) -> (r: Result<Vec<u8>, CryptoError>)
        ensures
            bytes_outcome(r) == public_of(self.outform, input@),
    {
        let (algorithm, keypair) = match decode_private(input) {
            Err(e) => { return Err(e); },
            Ok(found) => found,
        };
        match public_half(algorithm, keypair.as_slice()) {
            Err(e) => Err(e),
            Ok(public) => encode_public(algorithm, public.as_slice(), self.outform),
        }
    }
}

/// The envelope of the input makes no difference: of whatever
/// `encode_private` hands out for a key pair, in either envelope, Public
/// makes the public key container of the key pair's public half.
pub proof fn public_of_an_encoded_key_pair(
    algorithm: Algorithm,
    keypair: Seq<u8>,
    format: Format,
    outform: Format,
    input: Seq<u8>,
)
    requires
        encoded_private(algorithm, keypair, format) == Ok::<Seq<u8>, Fault>(input),
    ensures
        public_of(outform, input) == encoded_public(
            algorithm,
            public_part(algorithm, keypair),
            outform,
        ),
{
    private_round_trip(algorithm, keypair, format, input);
}

/// Of a record whose identifier names one level around a nested key pair
/// of another length, in either envelope, no public key is handed out: the
/// outcome is the length fault.
pub proof fn mismatched_length_gives_no_public_key(
    input: Seq<u8>,
    outform: Format,
    claimed: Algorithm,
    first: u8,
    second: u8,
    keypair: Seq<u8>,
)
    requires
        keypair.len() != lengths(claimed).keypair_len,
        keypair.len() + 64 < content_limit(),
        envelops(
            input,
            private_label(),
            private_frame(claimed, seq![0x04u8, 0x82u8, first, second] + keypair),
        ),
    ensures
        public_of(outform, input) == Err::<Seq<u8>, Fault>(
            Fault::InvalidLengthSecretKey(keypair.len()),
        ),
{
    mismatched_length_is_refused_in_either_envelope(input, claimed, first, second, keypair);
}

} // verus!
