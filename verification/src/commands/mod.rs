//! The four commands, from the contents of their input files to the bytes
//! that they hand out, and the names and errors that they share.

pub mod arg_enums;
pub mod error;
pub mod generate;
pub mod public;
pub mod sign;
pub mod utils;
pub mod verify;

pub use self::arg_enums::{Algorithm, Format};
pub use self::error::{bytes_outcome, key_outcome, CryptoError, Fault};
pub use self::generate::GenerateCmd;
pub use self::public::PublicCmd;
pub use self::sign::SignCmd;
pub use self::verify::VerifyCmd;
