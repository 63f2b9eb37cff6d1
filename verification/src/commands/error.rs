use super::arg_enums::Algorithm;
use vstd::prelude::*;

verus! {

/// An I/O failure of the standard library, carried through unchanged.
#[verifier::external_type_specification]
#[verifier::external_body]
pub struct ExIoError(std::io::Error);

/// What a command can fail with.
#[derive(Debug)]
pub enum CryptoError {
    /// The entropy for key generation could not be obtained or decoded.
    RequestQrngError(String),
    /// An algorithm name or identifier that is not one of the three levels.
    InvalidAlgorithm(String),
    /// A format name that is not known, or input that is not well formed.
    InvalidFormat(String),
    /// A key pair whose length is not the one its level asks for.
    InvalidLengthSecretKey(usize),
    /// A public key whose length is not the one its level asks for.
    InvalidLengthPublicKey(String),
    /// A signature whose length is not the one its level asks for.
    InvalidLengthSignature(usize),
    /// A file could not be opened, read or written.
    Io(std::io::Error),
}

/// The mathematical content of a [`CryptoError`]: its variant and what it
/// carries, texts as sequences of characters.
pub enum Fault {
    RequestQrngError(Seq<char>),
    InvalidAlgorithm(Seq<char>),
    InvalidFormat(Seq<char>),
    InvalidLengthSecretKey(nat),
    InvalidLengthPublicKey(Seq<char>),
    InvalidLengthSignature(nat),
    Io,
}

impl View for CryptoError {
    type V = Fault;

    open spec fn view(&self) -> Fault {
        match self {
            CryptoError::RequestQrngError(text) => Fault::RequestQrngError(text@),
            CryptoError::InvalidAlgorithm(text) => Fault::InvalidAlgorithm(text@),
            CryptoError::InvalidFormat(text) => Fault::InvalidFormat(text@),
            CryptoError::InvalidLengthSecretKey(n) => Fault::InvalidLengthSecretKey(*n as nat),
            CryptoError::InvalidLengthPublicKey(text) => Fault::InvalidLengthPublicKey(text@),
            CryptoError::InvalidLengthSignature(n) => Fault::InvalidLengthSignature(*n as nat),
            CryptoError::Io(_) => Fault::Io,
        }
    }
}

/// What a command that gives bytes comes to, in mathematical terms.
pub open spec fn bytes_outcome(r: Result<Vec<u8>, CryptoError>) -> Result<Seq<u8>, Fault> {
    match r {
        Ok(bytes) => Ok(bytes@),
        Err(e) => Err(e@),
    }
}

/// What reading a key container comes to, in mathematical terms.
pub open spec fn key_outcome(r: Result<(Algorithm, Vec<u8>), CryptoError>) -> Result<
    (Algorithm, Seq<u8>),
    Fault,
> {
    match r {
        Ok((algorithm, key)) => Ok((algorithm, key@)),
        Err(e) => Err(e@),
    }
}

} // verus!
