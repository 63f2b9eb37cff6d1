use dilithium_keys::commands::arg_enums::{Algorithm, Format};
use dilithium_keys::commands::error::CryptoError;
use std::str::FromStr;

#[test]
fn algorithm_names_are_read() {
    assert_eq!(Algorithm::parse("dilithium2").unwrap(), Algorithm::Dilithium2);
    assert_eq!(Algorithm::parse("dil2").unwrap(), Algorithm::Dilithium2);
    assert_eq!(Algorithm::parse("2").unwrap(), Algorithm::Dilithium2);
    assert_eq!(Algorithm::parse("dilithium3").unwrap(), Algorithm::Dilithium3);
    assert_eq!(Algorithm::parse("dil3").unwrap(), Algorithm::Dilithium3);
    assert_eq!(Algorithm::parse("3").unwrap(), Algorithm::Dilithium3);
    assert_eq!(Algorithm::parse("dilithium5").unwrap(), Algorithm::Dilithium5);
    assert_eq!(Algorithm::parse("dil5").unwrap(), Algorithm::Dilithium5);
    assert_eq!(Algorithm::parse("5").unwrap(), Algorithm::Dilithium5);
}

#[test]
fn algorithm_names_ignore_case() {
    assert_eq!(Algorithm::parse("DIL2").unwrap(), Algorithm::Dilithium2);
    assert_eq!(Algorithm::parse("Dilithium3").unwrap(), Algorithm::Dilithium3);
    assert_eq!(Algorithm::parse("dILITHIUM5").unwrap(), Algorithm::Dilithium5);
}

#[test]
fn unknown_algorithm_names_are_refused_with_the_name() {
    for name in ["dil4", "", "dilithium", "dil2 ", " dil2", "4", "d\u{131}l2", "dil\u{ff12}"] {
        match Algorithm::parse(name) {
            Err(CryptoError::InvalidAlgorithm(text)) => assert_eq!(text, name),
            other => panic!("{:?}", other),
        }
    }
}

#[test]
fn algorithm_from_str_is_parse() {
    assert_eq!(Algorithm::from_str("dil3").unwrap(), Algorithm::Dilithium3);
    assert_eq!("DIL5".parse::<Algorithm>().unwrap(), Algorithm::Dilithium5);
    assert!(matches!("dil9".parse::<Algorithm>(), Err(CryptoError::InvalidAlgorithm(_))));
}

#[test]
fn format_names_are_read() {
    assert_eq!(Format::parse("PEM").unwrap(), Format::Pem);
    assert_eq!(Format::parse("TEXT").unwrap(), Format::Pem);
    assert_eq!(Format::parse("DER").unwrap(), Format::Der);
    assert_eq!(Format::parse("BIN").unwrap(), Format::Der);
}

#[test]
fn unknown_format_names_are_refused_with_the_name() {
    for name in ["pem", "der", "", "PEM ", "DERR", "Text"] {
        match Format::parse(name) {
            Err(CryptoError::InvalidFormat(text)) => assert_eq!(text, name),
            other => panic!("{:?}", other),
        }
    }
}

#[test]
fn format_from_str_is_parse() {
    assert_eq!(Format::from_str("PEM").unwrap(), Format::Pem);
    assert_eq!("DER".parse::<Format>().unwrap(), Format::Der);
    assert!(matches!("der".parse::<Format>(), Err(CryptoError::InvalidFormat(_))));
}
