use der::asn1::ObjectIdentifier;
use dilithium_keys::commands::arg_enums::Algorithm;
use dilithium_keys::registry::{
    lengths_for, level_for, level_for_length, level_for_octets, oid_for, oid_octets_for,
    sub_tag_for,
};

fn levels() -> [Algorithm; 3] {
    [Algorithm::Dilithium2, Algorithm::Dilithium3, Algorithm::Dilithium5]
}

#[test]
fn lengths_agree_with_the_signature_scheme() {
    let l2 = lengths_for(Algorithm::Dilithium2);
    assert_eq!(l2.secret_len, crystals_dilithium::dilithium2::SECRETKEYBYTES);
    assert_eq!(l2.public_len, crystals_dilithium::dilithium2::PUBLICKEYBYTES);
    assert_eq!(l2.keypair_len, crystals_dilithium::dilithium2::KEYPAIRBYTES);
    assert_eq!(l2.signature_len, crystals_dilithium::dilithium2::SIGNBYTES);
    let l3 = lengths_for(Algorithm::Dilithium3);
    assert_eq!(l3.secret_len, crystals_dilithium::dilithium3::SECRETKEYBYTES);
    assert_eq!(l3.public_len, crystals_dilithium::dilithium3::PUBLICKEYBYTES);
    assert_eq!(l3.keypair_len, crystals_dilithium::dilithium3::KEYPAIRBYTES);
    assert_eq!(l3.signature_len, crystals_dilithium::dilithium3::SIGNBYTES);
    let l5 = lengths_for(Algorithm::Dilithium5);
    assert_eq!(l5.secret_len, crystals_dilithium::dilithium5::SECRETKEYBYTES);
    assert_eq!(l5.public_len, crystals_dilithium::dilithium5::PUBLICKEYBYTES);
    assert_eq!(l5.keypair_len, crystals_dilithium::dilithium5::KEYPAIRBYTES);
    assert_eq!(l5.signature_len, crystals_dilithium::dilithium5::SIGNBYTES);
}

#[test]
fn lengths_have_their_exact_values() {
    let l2 = lengths_for(Algorithm::Dilithium2);
    assert_eq!((l2.keypair_len, l2.secret_len, l2.public_len, l2.signature_len), (3840, 2528, 1312, 2420));
    let l3 = lengths_for(Algorithm::Dilithium3);
    assert_eq!((l3.keypair_len, l3.secret_len, l3.public_len, l3.signature_len), (5952, 4000, 1952, 3293));
    let l5 = lengths_for(Algorithm::Dilithium5);
    assert_eq!((l5.keypair_len, l5.secret_len, l5.public_len, l5.signature_len), (7456, 4864, 2592, 4595));
    for a in levels() {
        let l = lengths_for(a);
        assert_eq!(l.keypair_len, l.secret_len + l.public_len);
    }
}

#[test]
fn identifiers_and_levels_pair_up() {
    for a in levels() {
        assert_eq!(level_for(oid_for(a)), Some(a));
        assert_eq!(level_for_length(lengths_for(a).keypair_len), Some(a));
        let octets = oid_octets_for(a);
        assert_eq!(level_for_octets(&octets, 0, octets.len()), Some(a));
    }
    assert_eq!(oid_for(Algorithm::Dilithium2), "1.3.6.1.4.1.2.267.7.4.4");
    assert_eq!(oid_for(Algorithm::Dilithium3), "1.3.6.1.4.1.2.267.7.6.5");
    assert_eq!(oid_for(Algorithm::Dilithium5), "1.3.6.1.4.1.2.267.7.8.7");
    assert_eq!(level_for("1.3.6.1.4.1.2.267.7.4.5"), None);
    assert_eq!(level_for("1.3.6.1.4.1.2.267.7.4.4 "), None);
    assert_eq!(level_for(""), None);
    assert_eq!(level_for_length(3841), None);
    assert_eq!(level_for_length(0), None);
    assert_eq!(level_for_length(2528), None);
}

#[test]
fn identifiers_are_distinct() {
    assert_ne!(oid_for(Algorithm::Dilithium2), oid_for(Algorithm::Dilithium3));
    assert_ne!(oid_for(Algorithm::Dilithium3), oid_for(Algorithm::Dilithium5));
    assert_ne!(oid_for(Algorithm::Dilithium2), oid_for(Algorithm::Dilithium5));
    assert_ne!(oid_octets_for(Algorithm::Dilithium2), oid_octets_for(Algorithm::Dilithium3));
    assert_ne!(oid_octets_for(Algorithm::Dilithium3), oid_octets_for(Algorithm::Dilithium5));
    assert_ne!(oid_octets_for(Algorithm::Dilithium2), oid_octets_for(Algorithm::Dilithium5));
}

#[test]
fn identifier_octets_encode_the_dotted_text() {
    for a in levels() {
        let oid = ObjectIdentifier::new(oid_for(a)).unwrap();
        assert_eq!(oid.as_bytes(), oid_octets_for(a).as_slice());
        let back = ObjectIdentifier::from_bytes(&oid_octets_for(a)).unwrap();
        assert_eq!(back.to_string(), oid_for(a));
    }
}

#[test]
fn octets_are_looked_up_in_a_range() {
    let mut input = vec![0xffu8, 0xff];
    input.extend_from_slice(&oid_octets_for(Algorithm::Dilithium3));
    input.push(0xff);
    assert_eq!(level_for_octets(&input, 2, 13), Some(Algorithm::Dilithium3));
    assert_eq!(level_for_octets(&input, 2, 12), None);
    assert_eq!(level_for_octets(&input, 1, 13), None);
    assert_eq!(level_for_octets(&input, 3, 3), None);
}

#[test]
fn marker_bytes_are_the_table() {
    assert_eq!(sub_tag_for(Algorithm::Dilithium2), (0x0f, 0x00));
    assert_eq!(sub_tag_for(Algorithm::Dilithium3), (0x17, 0x40));
    assert_eq!(sub_tag_for(Algorithm::Dilithium5), (0x1d, 0x20));
}
