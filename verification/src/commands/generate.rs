use super::arg_enums::{Algorithm, Format};
use super::error::{bytes_outcome, CryptoError, Fault};
use crate::entropy::{base64_decoded, random_seed, seed_from_text, seed_of_decoded};
use crate::envelope::{decoded_private, encode_private, encoded_private, private_round_trip};
use crate::oracle::{generate_keypair, keypair_of};
use vstd::prelude::*;

verus! {

/// Generate a key pair.
#[derive(Debug, Clone)]
pub struct GenerateCmd {
    /// The level to generate a key pair for.
    pub algorithm: Algorithm,
    /// The envelope of the private key container that is handed out.
    pub outform: Format,
    /// Where the container is to be written; printed where there is none.
    pub secret_output_path: Option<String>,
    /// Entropy for the seed, as base64 text of up to 32 bytes; where there
    /// is none the seed is drawn at random.
    pub entropy: Option<String>,
}

impl GenerateCmd {
    /// What the command hands out for a seed: the private key container of
    /// the key pair that the level derives from the seed.
    pub open spec fn from_seed(&self, seed: Seq<u8>) -> Result<Seq<u8>, Fault> {
        encoded_private(self.algorithm, keypair_of(self.algorithm, seed), self.outform)
    }

    /// What the command hands out for given entropy, from what the text
    /// decodes to.
    pub open spec fn from_decoded(&self, decoded: Result<Seq<u8>, Seq<char>>) -> Result<
        Seq<u8>,
        Fault,
    > {
        match seed_of_decoded(decoded) {
            Ok(seed) => self.from_seed(seed),
            Err(fault) => Err(fault),
        }
    }

    /// Whether what was handed out, if anything, decodes to the level and
    /// the key pair of a seed.
    pub open spec fn holds_keypair_of(&self, r: Result<Vec<u8>, CryptoError>, seed: Seq<u8>) -> bool {
        match r {
            Ok(encoded) => decoded_private(encoded@) == Ok::<(Algorithm, Seq<u8>), Fault>(
                (self.algorithm, keypair_of(self.algorithm, seed)),
            ),
            Err(_) => true,
        }
    }

    /// Whether the seed can be made: always where it is drawn at random,
    /// and where entropy is given, if the text decodes to no more than 32
    /// bytes.
    pub open spec fn seed_is_owed(&self) -> bool {
        match self.entropy {
            Some(text) => seed_of_decoded(base64_decoded(text@)) is Ok,
            None => true,
        }
    }

    /// Generates the key pair of a seed and encodes it. The binary envelope
    /// is always handed out; and what is handed out, in either envelope,
    /// decodes to the level and the key pair that was generated.
    pub fn run_with_seed(&self, seed: &[u8; 32]) -> (r: Result<Vec<u8>, CryptoError>)
        ensures
            bytes_outcome(r) == self.from_seed(seed@),
            self.outform == Format::Der ==> r is Ok,
            self.holds_keypair_of(r, seed@),
    {
        let keypair = generate_keypair(self.algorithm, seed);
        match encode_private(self.algorithm, keypair.as_slice(), self.outform) {
            Ok(encoded) => {
                proof {
                    private_round_trip(self.algorithm, keypair@, self.outform, encoded@);
                }
                Ok(encoded)
            },
            Err(e) => Err(e),
        }
    }

    /// Runs the command: makes the seed, of the entropy where some is
    /// given and at random where none is, and hands out the encoded
    /// private key container of the seed's key pair. Where the seed can be
    /// made, the binary envelope is always handed out; and what is handed
    /// out, in either envelope, decodes to the level and the key pair of
    /// the seed.
    pub fn run(&self) -> (r: Result<Vec<u8>, CryptoError>)
        ensures
            match self.entropy {
                Some(text) => bytes_outcome(r) == self.from_decoded(base64_decoded(text@))
                    && match seed_of_decoded(base64_decoded(text@)) {
                    Ok(seed) => self.holds_keypair_of(r, seed),
                    Err(_) => r is Err,
                },
                None => exists|seed: Seq<u8>|
                    seed.len() == 32 && bytes_outcome(r) == #[trigger] self.from_seed(seed)
                        && self.holds_keypair_of(r, seed),
            },
            self.outform == Format::Der && self.seed_is_owed() ==> r is Ok,
    {
        match &self.entropy {
            Some(text) => match seed_from_text(text.as_str()) {
                Ok(seed) => self.run_with_seed(&seed),
                Err(e) => Err(e),
            },
            None => {
                let seed = random_seed();
                let r = self.run_with_seed(&seed);
                assert(bytes_outcome(r) == self.from_seed(seed@) && self.holds_keypair_of(
                    r,
                    seed@,
                ));
                r
            },
        }
    }
}

} // verus!
