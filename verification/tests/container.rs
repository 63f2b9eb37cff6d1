use der::asn1::{BitStringRef, ObjectIdentifier, OctetStringRef};
use der::{Decode, Reader, SliceReader};
use dilithium_keys::asn1::put_header;
use dilithium_keys::commands::arg_enums::Algorithm;
use dilithium_keys::commands::error::CryptoError;
use dilithium_keys::container::{
    classify_identifier, malformed_error, private_container, public_container,
    public_length_error, read_private_container, read_public_container, unknown_identifier,
};
use dilithium_keys::registry::{lengths_for, oid_for, oid_octets_for, sub_tag_for};

fn levels() -> [Algorithm; 3] {
    [Algorithm::Dilithium2, Algorithm::Dilithium3, Algorithm::Dilithium5]
}

fn pattern(n: usize, salt: u8) -> Vec<u8> {
    (0..n).map(|i| (i * 31 + i / 251) as u8 ^ salt).collect()
}

fn tlv(tag: u8, content: &[u8]) -> Vec<u8> {
    let mut out = Vec::new();
    put_header(&mut out, tag, content.len());
    out.extend_from_slice(content);
    out
}

fn identifier(octets: &[u8]) -> Vec<u8> {
    tlv(0x30, &tlv(0x06, octets))
}

fn private_record(octets: &[u8], blob: &[u8]) -> Vec<u8> {
    let mut body = vec![0x02, 0x01, 0x00];
    body.extend_from_slice(&identifier(octets));
    body.extend_from_slice(&tlv(0x04, blob));
    tlv(0x30, &body)
}

fn public_record(octets: &[u8], bits: &[u8]) -> Vec<u8> {
    let mut body = identifier(octets);
    body.extend_from_slice(&tlv(0x03, bits));
    tlv(0x30, &body)
}

fn nested(first: u8, second: u8, keypair: &[u8]) -> Vec<u8> {
    let mut blob = vec![0x04, 0x82, first, second];
    blob.extend_from_slice(keypair);
    blob
}

fn is_malformed(e: &CryptoError) -> bool {
    matches!(e, CryptoError::InvalidFormat(text) if text == "malformed key container")
}

#[test]
fn private_container_has_its_exact_bytes() {
    let keypair = pattern(3840, 0x11);
    let der = private_container(Algorithm::Dilithium2, &keypair).unwrap();
    let head = [
        0x30, 0x82, 0x0f, 0x1a, 0x02, 0x01, 0x00, 0x30, 0x0d, 0x06, 0x0b, 0x2b, 0x06, 0x01, 0x04,
        0x01, 0x02, 0x82, 0x0b, 0x07, 0x04, 0x04, 0x04, 0x82, 0x0f, 0x04, 0x04, 0x82, 0x0f, 0x00,
    ];
    assert_eq!(der.len(), 3870);
    assert_eq!(&der[..30], &head[..]);
    assert_eq!(&der[30..], &keypair[..]);

    let keypair = pattern(5952, 0x22);
    let der = private_container(Algorithm::Dilithium3, &keypair).unwrap();
    let head = [
        0x30, 0x82, 0x17, 0x5a, 0x02, 0x01, 0x00, 0x30, 0x0d, 0x06, 0x0b, 0x2b, 0x06, 0x01, 0x04,
        0x01, 0x02, 0x82, 0x0b, 0x07, 0x06, 0x05, 0x04, 0x82, 0x17, 0x44, 0x04, 0x82, 0x17, 0x40,
    ];
    assert_eq!(&der[..30], &head[..]);
    assert_eq!(&der[30..], &keypair[..]);

    let keypair = pattern(7456, 0x33);
    let der = private_container(Algorithm::Dilithium5, &keypair).unwrap();
    let head = [
        0x30, 0x82, 0x1d, 0x3a, 0x02, 0x01, 0x00, 0x30, 0x0d, 0x06, 0x0b, 0x2b, 0x06, 0x01, 0x04,
        0x01, 0x02, 0x82, 0x0b, 0x07, 0x08, 0x07, 0x04, 0x82, 0x1d, 0x24, 0x04, 0x82, 0x1d, 0x20,
    ];
    assert_eq!(&der[..30], &head[..]);
    assert_eq!(&der[30..], &keypair[..]);
}

#[test]
fn public_container_has_its_exact_bytes() {
    let key = pattern(1312, 0x44);
    let der = public_container(Algorithm::Dilithium2, &key).unwrap();
    let head = [
        0x30, 0x82, 0x05, 0x34, 0x30, 0x0d, 0x06, 0x0b, 0x2b, 0x06, 0x01, 0x04, 0x01, 0x02, 0x82,
        0x0b, 0x07, 0x04, 0x04, 0x03, 0x82, 0x05, 0x21, 0x00,
    ];
    assert_eq!(der.len(), 1336);
    assert_eq!(&der[..24], &head[..]);
    assert_eq!(&der[24..], &key[..]);
}

#[test]
fn private_container_is_what_a_der_reader_expects() {
    for a in levels() {
        let keypair = pattern(lengths_for(a).keypair_len, 0x55);
        let der = private_container(a, &keypair).unwrap();
        let mut reader = SliceReader::new(&der).unwrap();
        let (version, oid, blob) = reader
            .sequence(|r| {
                let version: u8 = r.decode()?;
                let oid: ObjectIdentifier = r.sequence(|inner| inner.decode())?;
                let blob: OctetStringRef = r.decode()?;
                Ok((version, oid, blob))
            })
            .unwrap();
        reader.finish(()).unwrap();
        assert_eq!(version, 0);
        assert_eq!(oid.to_string(), oid_for(a));
        let inner = OctetStringRef::from_der(blob.as_bytes()).unwrap();
        assert_eq!(inner.as_bytes(), &keypair[..]);
    }
}

#[test]
fn public_container_is_what_a_der_reader_expects() {
    for a in levels() {
        let key = pattern(lengths_for(a).public_len, 0x66);
        let der = public_container(a, &key).unwrap();
        let mut reader = SliceReader::new(&der).unwrap();
        let (oid, bits) = reader
            .sequence(|r| {
                let oid: ObjectIdentifier = r.sequence(|inner| inner.decode())?;
                let bits: BitStringRef = r.decode()?;
                Ok((oid, bits))
            })
            .unwrap();
        reader.finish(()).unwrap();
        assert_eq!(oid.to_string(), oid_for(a));
        assert_eq!(bits.unused_bits(), 0);
        assert_eq!(bits.as_bytes().unwrap(), &key[..]);
    }
}

#[test]
fn containers_read_back_as_what_went_in() {
    for a in levels() {
        let keypair = pattern(lengths_for(a).keypair_len, 0x77);
        let der = private_container(a, &keypair).unwrap();
        let (level, back) = read_private_container(&der).unwrap();
        assert_eq!(level, a);
        assert_eq!(back, keypair);
        let key = pattern(lengths_for(a).public_len, 0x88);
        let der = public_container(a, &key).unwrap();
        let (level, back) = read_public_container(&der).unwrap();
        assert_eq!(level, a);
        assert_eq!(back, key);
    }
}

#[test]
fn key_pairs_of_another_length_are_not_encoded() {
    for (a, n) in [
        (Algorithm::Dilithium2, 0usize),
        (Algorithm::Dilithium2, 3839),
        (Algorithm::Dilithium2, 3841),
        (Algorithm::Dilithium2, 7456),
        (Algorithm::Dilithium3, 3840),
        (Algorithm::Dilithium5, 5952),
    ] {
        match private_container(a, &pattern(n, 1)) {
            Err(CryptoError::InvalidLengthSecretKey(len)) => assert_eq!(len, n),
            other => panic!("{:?}", other),
        }
    }
}

#[test]
fn public_keys_of_another_length_are_not_encoded() {
    match public_container(Algorithm::Dilithium2, &pattern(1311, 1)) {
        Err(CryptoError::InvalidLengthPublicKey(text)) => assert_eq!(
            text,
            "A public key of length 1312 is expected a signature of length 2420"
        ),
        other => panic!("{:?}", other),
    }
    match public_container(Algorithm::Dilithium3, &pattern(1312, 1)) {
        Err(CryptoError::InvalidLengthPublicKey(text)) => assert_eq!(
            text,
            "A public key of length 1952 is expected a signature of length 3293"
        ),
        other => panic!("{:?}", other),
    }
    match public_container(Algorithm::Dilithium5, &pattern(0, 1)) {
        Err(CryptoError::InvalidLengthPublicKey(text)) => assert_eq!(
            text,
            "A public key of length 2592 is expected a signature of length 4595"
        ),
        other => panic!("{:?}", other),
    }
}

#[test]
fn a_level_2_identifier_around_a_level_5_key_pair_is_a_length_fault() {
    let keypair = pattern(7456, 0x99);
    let marks = sub_tag_for(Algorithm::Dilithium5);
    let der = private_record(
        &oid_octets_for(Algorithm::Dilithium2),
        &nested(marks.0, marks.1, &keypair),
    );
    match read_private_container(&der) {
        Err(CryptoError::InvalidLengthSecretKey(len)) => assert_eq!(len, 7456),
        other => panic!("{:?}", other),
    }
    let marks = sub_tag_for(Algorithm::Dilithium2);
    let der = private_record(
        &oid_octets_for(Algorithm::Dilithium2),
        &nested(marks.0, marks.1, &keypair),
    );
    match read_private_container(&der) {
        Err(CryptoError::InvalidLengthSecretKey(len)) => assert_eq!(len, 7456),
        other => panic!("{:?}", other),
    }
}

#[test]
fn marker_bytes_of_another_level_are_malformed() {
    let keypair = pattern(3840, 0xaa);
    let der = private_record(&oid_octets_for(Algorithm::Dilithium2), &nested(0x17, 0x40, &keypair));
    assert!(is_malformed(&read_private_container(&der).unwrap_err()));
    let der = private_record(&oid_octets_for(Algorithm::Dilithium2), &nested(0x0f, 0x01, &keypair));
    assert!(is_malformed(&read_private_container(&der).unwrap_err()));
    let der = private_record(&oid_octets_for(Algorithm::Dilithium2), &nested(0x0f, 0x00, &keypair));
    assert!(read_private_container(&der).is_ok());
}

#[test]
fn a_nested_key_without_its_first_bytes_is_malformed() {
    let keypair = pattern(3840, 0xbb);
    let octets = oid_octets_for(Algorithm::Dilithium2);
    let mut blob = nested(0x0f, 0x00, &keypair);
    blob[0] = 0x03;
    assert!(is_malformed(&read_private_container(&private_record(&octets, &blob)).unwrap_err()));
    let mut blob = nested(0x0f, 0x00, &keypair);
    blob[1] = 0x81;
    assert!(is_malformed(&read_private_container(&private_record(&octets, &blob)).unwrap_err()));
    for short in [&[][..], &[0x04][..], &[0x04, 0x82][..], &[0x04, 0x82, 0x0f][..]] {
        assert!(is_malformed(
            &read_private_container(&private_record(&octets, short)).unwrap_err()
        ));
    }
    match read_private_container(&private_record(&octets, &[0x04, 0x82, 0x0f, 0x00])) {
        Err(CryptoError::InvalidLengthSecretKey(len)) => assert_eq!(len, 0),
        other => panic!("{:?}", other),
    }
}

#[test]
fn an_identifier_outside_the_table_is_an_unsupported_algorithm() {
    let rsa = [0x2a, 0x86, 0x48, 0x86, 0xf7, 0x0d, 0x01, 0x01, 0x01];
    let keypair = pattern(3840, 0xcc);
    match read_private_container(&private_record(&rsa, &nested(0x0f, 0x00, &keypair))) {
        Err(CryptoError::InvalidAlgorithm(text)) => assert_eq!(text, "1.2.840.113549.1.1.1"),
        other => panic!("{:?}", other),
    }
    match read_public_container(&public_record(&rsa, &[0u8; 1313])) {
        Err(CryptoError::InvalidAlgorithm(text)) => assert_eq!(text, "1.2.840.113549.1.1.1"),
        other => panic!("{:?}", other),
    }
    let near = [0x2b, 0x06, 0x01, 0x04, 0x01, 0x02, 0x82, 0x0b, 0x07, 0x04, 0x05];
    match classify_identifier(&near, 0, near.len()) {
        Err(CryptoError::InvalidAlgorithm(text)) => assert_eq!(text, "1.3.6.1.4.1.2.267.7.4.5"),
        other => panic!("{:?}", other),
    }
}

#[test]
fn octets_that_are_no_identifier_are_malformed() {
    for bad in [&[][..], &[0x2b][..], &[0x2b, 0x06][..], &[0x2b, 0x06, 0x81][..]] {
        let der = private_record(bad, &nested(0x0f, 0x00, &pattern(3840, 1)));
        assert!(is_malformed(&read_private_container(&der).unwrap_err()));
        assert!(is_malformed(&classify_identifier(bad, 0, bad.len()).unwrap_err()));
    }
}

#[test]
fn identifiers_are_classified_in_a_range() {
    let mut input = vec![0u8; 3];
    input.extend_from_slice(&oid_octets_for(Algorithm::Dilithium5));
    input.push(0);
    assert_eq!(classify_identifier(&input, 3, 14).unwrap(), Algorithm::Dilithium5);
    assert!(classify_identifier(&input, 3, 15).is_err());
}

#[test]
fn errors_of_the_container_carry_their_texts() {
    assert!(is_malformed(&malformed_error()));
    assert!(is_malformed(&unknown_identifier(None)));
    match unknown_identifier(Some("1.2.3".to_string())) {
        CryptoError::InvalidAlgorithm(text) => assert_eq!(text, "1.2.3"),
        other => panic!("{:?}", other),
    }
    match public_length_error(Algorithm::Dilithium3) {
        CryptoError::InvalidLengthPublicKey(text) => assert_eq!(
            text,
            "A public key of length 1952 is expected a signature of length 3293"
        ),
        other => panic!("{:?}", other),
    }
}

#[test]
fn broken_frames_are_malformed() {
    let keypair = pattern(3840, 0xdd);
    let good = private_container(Algorithm::Dilithium2, &keypair).unwrap();

    assert!(is_malformed(&read_private_container(&[]).unwrap_err()));
    assert!(is_malformed(&read_private_container(&[0x30]).unwrap_err()));
    assert!(is_malformed(&read_private_container(&good[..good.len() - 1]).unwrap_err()));
    let mut longer = good.clone();
    longer.push(0);
    assert!(is_malformed(&read_private_container(&longer).unwrap_err()));

    let mut other_tag = good.clone();
    other_tag[0] = 0x31;
    assert!(is_malformed(&read_private_container(&other_tag).unwrap_err()));
    let mut version_one = good.clone();
    version_one[6] = 0x01;
    assert!(is_malformed(&read_private_container(&version_one).unwrap_err()));
    let mut not_an_integer = good.clone();
    not_an_integer[4] = 0x04;
    assert!(is_malformed(&read_private_container(&not_an_integer).unwrap_err()));
    let mut not_an_octet_string = good.clone();
    not_an_octet_string[22] = 0x03;
    assert!(is_malformed(&read_private_container(&not_an_octet_string).unwrap_err()));

    let octets = oid_octets_for(Algorithm::Dilithium2);
    let blob = nested(0x0f, 0x00, &keypair);
    let mut body = vec![0x02, 0x02, 0x00, 0x00];
    body.extend_from_slice(&identifier(&octets));
    body.extend_from_slice(&tlv(0x04, &blob));
    assert!(is_malformed(&read_private_container(&tlv(0x30, &body)).unwrap_err()));

    let mut with_parameters = tlv(0x06, &octets);
    with_parameters.extend_from_slice(&[0x05, 0x00]);
    let mut body = vec![0x02, 0x01, 0x00];
    body.extend_from_slice(&tlv(0x30, &with_parameters));
    body.extend_from_slice(&tlv(0x04, &blob));
    assert!(is_malformed(&read_private_container(&tlv(0x30, &body)).unwrap_err()));

    let mut body = vec![0x02, 0x01, 0x00];
    body.extend_from_slice(&identifier(&octets));
    body.extend_from_slice(&tlv(0x04, &blob));
    body.extend_from_slice(&[0x05, 0x00]);
    assert!(is_malformed(&read_private_container(&tlv(0x30, &body)).unwrap_err()));

    assert!(is_malformed(&read_private_container(&public_container(Algorithm::Dilithium2, &pattern(1312, 1)).unwrap()).unwrap_err()));
    assert!(is_malformed(&read_public_container(&good).unwrap_err()));
}

#[test]
fn broken_public_keys_are_refused() {
    let octets = oid_octets_for(Algorithm::Dilithium2);
    let key = pattern(1312, 0xee);
    let mut bits = vec![0u8];
    bits.extend_from_slice(&key);
    assert!(read_public_container(&public_record(&octets, &bits)).is_ok());
    bits[0] = 1;
    assert!(is_malformed(&read_public_container(&public_record(&octets, &bits)).unwrap_err()));
    assert!(is_malformed(&read_public_container(&public_record(&octets, &[])).unwrap_err()));
    let mut short = vec![0u8];
    short.extend_from_slice(&key[..1311]);
    match read_public_container(&public_record(&octets, &short)) {
        Err(CryptoError::InvalidLengthPublicKey(text)) => assert_eq!(
            text,
            "A public key of length 1312 is expected a signature of length 2420"
        ),
        other => panic!("{:?}", other),
    }
    let mut level_3 = vec![0u8];
    level_3.extend_from_slice(&pattern(1952, 1));
    match read_public_container(&public_record(&octets, &level_3)) {
        Err(CryptoError::InvalidLengthPublicKey(_)) => {}
        other => panic!("{:?}", other),
    }
    assert!(read_public_container(&public_record(&oid_octets_for(Algorithm::Dilithium3), &level_3)).is_ok());
}
