use super::error::{CryptoError, Fault};
use crate::bytes::{lemma_same_text, lowered, same_bytes, same_ignoring_case};
use std::str::FromStr;
use vstd::prelude::*;
use vstd::utf8::encode_utf8;

verus! {

/// The three parameter sets of the signature scheme, by security level.
#[derive(Debug, Copy, Clone, PartialEq, Eq, Structural)]
pub enum Algorithm {
    Dilithium2,
    Dilithium3,
    Dilithium5,
}

/// The two envelopes a key container can be written in.
#[derive(Debug, Copy, Clone, PartialEq, Eq, Structural)]
pub enum Format {
    /// Text: base64 in lines of 80 characters between boundary lines.
    Pem,
    /// Binary: the structured bytes themselves.
    Der,
}

impl Algorithm {
    /// The algorithm that a name on the command line stands for. Capital
    /// and small letters count alike: `dilithium2`, `dil2` and `2` name the
    /// first level, and so on for `3` and `5`.
    pub open spec fn named(name: Seq<char>) -> Option<Algorithm> {
        let low = lowered(encode_utf8(name));
        if low == encode_utf8("dilithium2"@) || low == encode_utf8("dil2"@) || low == encode_utf8(
            "2"@,
        ) {
            Some(Algorithm::Dilithium2)
        } else if low == encode_utf8("dilithium3"@) || low == encode_utf8("dil3"@) || low
            == encode_utf8("3"@) {
            Some(Algorithm::Dilithium3)
        } else if low == encode_utf8("dilithium5"@) || low == encode_utf8("dil5"@) || low
            == encode_utf8("5"@) {
            Some(Algorithm::Dilithium5)
        } else {
            None
        }
    }

    /// Reads an algorithm name. Any other name is refused as
    /// `InvalidAlgorithm`, which carries the name.
    pub fn parse(name: &str) -> (r: Result<Algorithm, CryptoError>)
        ensures
            match r {
                Ok(algorithm) => Algorithm::named(name@) == Some(algorithm),
                Err(e) => Algorithm::named(name@) is None && e@ == Fault::InvalidAlgorithm(name@),
            },
    {
        let b = name.as_bytes();
        if same_ignoring_case(b, "dilithium2".as_bytes()) || same_ignoring_case(
            b,
            "dil2".as_bytes(),
        ) || same_ignoring_case(b, "2".as_bytes()) {
            Ok(Algorithm::Dilithium2)
        } else if same_ignoring_case(b, "dilithium3".as_bytes()) || same_ignoring_case(
            b,
            "dil3".as_bytes(),
        ) || same_ignoring_case(b, "3".as_bytes()) {
            Ok(Algorithm::Dilithium3)
        } else if same_ignoring_case(b, "dilithium5".as_bytes()) || same_ignoring_case(
            b,
            "dil5".as_bytes(),
        ) || same_ignoring_case(b, "5".as_bytes()) {
            Ok(Algorithm::Dilithium5)
        } else {
            Err(CryptoError::InvalidAlgorithm(name.to_owned()))
        }
    }
}

impl FromStr for Algorithm {
    type Err = CryptoError;

    /// Reads an algorithm name, as `parse` does.
    fn from_str(s: &str) -> (r: Result<Self, CryptoError>)
        ensures
            match r {
                Ok(algorithm) => Algorithm::named(s@) == Some(algorithm),
                Err(e) => Algorithm::named(s@) is None && e@ == Fault::InvalidAlgorithm(s@),
            },
    {
        Algorithm::parse(s)
    }
}

impl Format {
    /// The format that a name on the command line stands for: `PEM` or
    /// `TEXT` for the text envelope, `DER` or `BIN` for the binary one, in
    /// capitals.
    pub open spec fn named(name: Seq<char>) -> Option<Format> {
        if name == "PEM"@ || name == "TEXT"@ {
            Some(Format::Pem)
        } else if name == "DER"@ || name == "BIN"@ {
            Some(Format::Der)
        } else {
            None
        }
    }

    /// Reads a format name. Any other name is refused as `InvalidFormat`,
    /// which carries the name.
    pub fn parse(name: &str) -> (r: Result<Format, CryptoError>)
        ensures
            match r {
                Ok(format) => Format::named(name@) == Some(format),
                Err(e) => Format::named(name@) is None && e@ == Fault::InvalidFormat(name@),
            },
    {
        proof {
            lemma_same_text(name@, "PEM"@);
            lemma_same_text(name@, "TEXT"@);
            lemma_same_text(name@, "DER"@);
            lemma_same_text(name@, "BIN"@);
        }
        let b = name.as_bytes();
        if same_bytes(b, "PEM".as_bytes()) || same_bytes(b, "TEXT".as_bytes()) {
            Ok(Format::Pem)
        } else if same_bytes(b, "DER".as_bytes()) || same_bytes(b, "BIN".as_bytes()) {
            Ok(Format::Der)
        } else {
            Err(CryptoError::InvalidFormat(name.to_owned()))
        }
    }
}

impl FromStr for Format {
    type Err = CryptoError;

    /// Reads a format name, as `parse` does.
    fn from_str(s: &str) -> (r: Result<Self, CryptoError>)
        ensures
            match r {
                Ok(format) => Format::named(s@) == Some(format),
                Err(e) => Format::named(s@) is None && e@ == Fault::InvalidFormat(s@),
            },
    {
        Format::parse(s)
    }
}

} // verus!
