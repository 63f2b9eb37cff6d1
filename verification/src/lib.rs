//! Key containers for CRYSTALS-Dilithium keys and the four commands that
//! work on them: generate a key pair, extract the public key, sign a file
//! and verify a signature.
//!
//! A key is kept in a container that names its security level by an object
//! identifier: [`container`] builds and reads the containers as structured
//! bytes, on the framing of [`asn1`] and the table of [`registry`], and
//! [`envelope`] hands them out as those bytes or as text. Reading is the
//! inverse of building, and what is handed out is always read back as what
//! went in. Files are signed by their SHA-256 digest, which [`digest`]
//! takes in chunk by chunk; [`oracle`] is the signature scheme and
//! [`entropy`] makes its seeds. [`commands`] puts these together, from the
//! contents of the input files to the bytes of the output.

pub mod asn1;
pub mod bytes;
pub mod commands;
pub mod container;
pub mod digest;
pub mod entropy;
pub mod envelope;
pub mod oracle;
pub mod registry;
