use crystals_dilithium::{dilithium2, dilithium3, dilithium5};
use dilithium_keys::commands::arg_enums::Algorithm;
use dilithium_keys::commands::error::CryptoError;
use dilithium_keys::oracle::{generate_keypair, public_half, secret_half, sign, verify};
use dilithium_keys::registry::lengths_for;

fn levels() -> [Algorithm; 3] {
    [Algorithm::Dilithium2, Algorithm::Dilithium3, Algorithm::Dilithium5]
}

fn seed(salt: u8) -> [u8; 32] {
    let mut seed = [0u8; 32];
    for (i, b) in seed.iter_mut().enumerate() {
        *b = (i as u8).wrapping_mul(13) ^ salt;
    }
    seed
}

#[test]
fn key_pairs_are_those_of_the_scheme() {
    let s = seed(1);
    assert_eq!(
        generate_keypair(Algorithm::Dilithium2, &s),
        dilithium2::Keypair::generate(Some(&s)).to_bytes().to_vec()
    );
    assert_eq!(
        generate_keypair(Algorithm::Dilithium3, &s),
        dilithium3::Keypair::generate(Some(&s)).to_bytes().to_vec()
    );
    assert_eq!(
        generate_keypair(Algorithm::Dilithium5, &s),
        dilithium5::Keypair::generate(Some(&s)).to_bytes().to_vec()
    );
}

#[test]
fn key_pairs_have_their_level_s_length_and_depend_on_the_seed() {
    for a in levels() {
        let first = generate_keypair(a, &seed(2));
        assert_eq!(first.len(), lengths_for(a).keypair_len);
        assert_eq!(first, generate_keypair(a, &seed(2)));
        assert_ne!(first, generate_keypair(a, &seed(3)));
        assert_ne!(&first[..32], &seed(2)[..]);
    }
}

#[test]
fn halves_split_the_key_pair() {
    for a in levels() {
        let l = lengths_for(a);
        let keypair = generate_keypair(a, &seed(4));
        let secret = secret_half(a, &keypair).unwrap();
        let public = public_half(a, &keypair).unwrap();
        assert_eq!(secret, keypair[..l.secret_len].to_vec());
        assert_eq!(public, keypair[l.secret_len..].to_vec());
        assert_eq!(secret.len() + public.len(), keypair.len());
    }
    let s = seed(4);
    let keypair = dilithium2::Keypair::generate(Some(&s));
    let bytes = keypair.to_bytes();
    assert_eq!(public_half(Algorithm::Dilithium2, &bytes).unwrap(), keypair.public.bytes.to_vec());
    assert_eq!(secret_half(Algorithm::Dilithium2, &bytes).unwrap(), keypair.secret.bytes.to_vec());
}

#[test]
fn halves_of_a_key_pair_of_another_length_are_refused() {
    for a in levels() {
        let n = lengths_for(a).keypair_len - 1;
        let short = vec![0u8; n];
        match secret_half(a, &short) {
            Err(CryptoError::InvalidLengthSecretKey(len)) => assert_eq!(len, n),
            other => panic!("{:?}", other),
        }
        match public_half(a, &short) {
            Err(CryptoError::InvalidLengthSecretKey(len)) => assert_eq!(len, n),
            other => panic!("{:?}", other),
        }
    }
}

#[test]
fn signatures_are_those_of_the_scheme() {
    let s = seed(5);
    let message = [0x42u8; 32];
    let keypair = dilithium2::Keypair::generate(Some(&s));
    assert_eq!(
        sign(Algorithm::Dilithium2, &keypair.secret.bytes, &message).unwrap(),
        keypair.sign(&message).to_vec()
    );
    let keypair = dilithium3::Keypair::generate(Some(&s));
    assert_eq!(
        sign(Algorithm::Dilithium3, &keypair.secret.bytes, &message).unwrap(),
        keypair.sign(&message).to_vec()
    );
    let keypair = dilithium5::Keypair::generate(Some(&s));
    assert_eq!(
        sign(Algorithm::Dilithium5, &keypair.secret.bytes, &message).unwrap(),
        keypair.sign(&message).to_vec()
    );
}

#[test]
fn a_signature_verifies_under_the_public_half_and_for_its_message_only() {
    for a in levels() {
        let keypair = generate_keypair(a, &seed(6));
        let secret = secret_half(a, &keypair).unwrap();
        let public = public_half(a, &keypair).unwrap();
        let message = [0x10u8; 32];
        let signature = sign(a, &secret, &message).unwrap();
        assert_eq!(signature.len(), lengths_for(a).signature_len);
        assert_ne!(signature, secret);
        assert_eq!(signature, sign(a, &secret, &message).unwrap());
        assert!(verify(a, &public, &message, &signature).unwrap());
        let mut other = message;
        other[31] ^= 1;
        assert!(!verify(a, &public, &other, &signature).unwrap());
        let mut forged = signature.clone();
        forged[100] ^= 1;
        assert!(!verify(a, &public, &message, &forged).unwrap());
        let stranger = public_half(a, &generate_keypair(a, &seed(7))).unwrap();
        assert!(!verify(a, &stranger, &message, &signature).unwrap());
    }
}

#[test]
fn verdicts_are_those_of_the_scheme() {
    let s = seed(8);
    let message = b"any message";
    let keypair = dilithium3::Keypair::generate(Some(&s));
    let signature = keypair.sign(message);
    assert!(verify(Algorithm::Dilithium3, &keypair.public.bytes, message, &signature).unwrap());
    assert!(!verify(Algorithm::Dilithium3, &keypair.public.bytes, b"another", &signature).unwrap());
}

#[test]
fn keys_and_signatures_of_another_length_are_refused() {
    for a in levels() {
        let l = lengths_for(a);
        let keypair = generate_keypair(a, &seed(9));
        let secret = secret_half(a, &keypair).unwrap();
        let public = public_half(a, &keypair).unwrap();
        let message = [1u8; 32];
        let signature = sign(a, &secret, &message).unwrap();
        match sign(a, &keypair, &message) {
            Err(CryptoError::InvalidLengthSecretKey(len)) => assert_eq!(len, l.keypair_len),
            other => panic!("{:?}", other),
        }
        match sign(a, &[], &message) {
            Err(CryptoError::InvalidLengthSecretKey(len)) => assert_eq!(len, 0),
            other => panic!("{:?}", other),
        }
        assert!(matches!(
            verify(a, &public[1..], &message, &signature),
            Err(CryptoError::InvalidLengthPublicKey(_))
        ));
        match verify(a, &public, &message, &signature[1..]) {
            Err(CryptoError::InvalidLengthSignature(len)) => assert_eq!(len, l.signature_len - 1),
            other => panic!("{:?}", other),
        }
        match verify(a, &public, &message, &[]) {
            Err(CryptoError::InvalidLengthSignature(len)) => assert_eq!(len, 0),
            other => panic!("{:?}", other),
        }
        assert!(matches!(
            verify(a, &public[1..], &message, &[]),
            Err(CryptoError::InvalidLengthPublicKey(_))
        ));
    }
}
