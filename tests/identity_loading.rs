use salix::identity::{
    file_encoding, load_certificate_chain, load_credentials, load_private_key, Encoding,
    IdentityError, KeyFormat,
};

#[test]
fn der_extension_selects_binary_encoding() {
    assert_eq!(file_encoding(b"der"), Encoding::Der);
    assert_eq!(file_encoding(b"pem"), Encoding::Pem);
    assert_eq!(file_encoding(b"DER"), Encoding::Pem);
    assert_eq!(file_encoding(b""), Encoding::Pem);
}

#[test]
fn der_key_is_taken_whole_as_pkcs8() {
    let key = load_private_key(Encoding::Der, vec![1, 2, 3]).unwrap();
    assert_eq!(key.format, KeyFormat::Pkcs8);
    assert_eq!(key.der, vec![1, 2, 3]);
}

#[test]
fn der_certificate_is_one_link() {
    assert_eq!(load_certificate_chain(Encoding::Der, vec![4, 5]).unwrap(), vec![vec![4, 5]]);
}

#[test]
fn pem_without_key_is_no_private_key_found() {
    let r = load_private_key(Encoding::Pem, b"nothing here\n".to_vec());
    assert_eq!(r.unwrap_err(), IdentityError::NoPrivateKeyFound);
}

#[test]
fn pem_with_bad_certificate_is_invalid_chain() {
    let pem = b"-----BEGIN CERTIFICATE-----\n!!!!\n-----END CERTIFICATE-----\n".to_vec();
    let r = load_certificate_chain(Encoding::Pem, pem);
    assert_eq!(r.unwrap_err(), IdentityError::InvalidCertificateChain);
}

#[test]
fn pem_and_der_give_the_same_material() {
    let certified = rcgen::generate_simple_self_signed(vec!["localhost".to_owned()]).unwrap();
    let cert_der = certified.cert.der().to_vec();
    let key_der = certified.key_pair.serialize_der();
    let from_pem = load_credentials(
        Encoding::Pem,
        certified.key_pair.serialize_pem().into_bytes(),
        Encoding::Pem,
        certified.cert.pem().into_bytes(),
    )
    .unwrap();
    let from_der =
        load_credentials(Encoding::Der, key_der.clone(), Encoding::Der, cert_der.clone()).unwrap();
    assert_eq!(from_pem.chain, vec![cert_der.clone()]);
    assert_eq!(from_der.chain, vec![cert_der]);
    assert_eq!(from_pem.key.format, KeyFormat::Pkcs8);
    assert_eq!(from_pem.key.der, key_der);
    assert_eq!(from_der.key.der, key_der);
}

#[test]
fn key_failure_comes_before_certificate_failure() {
    let r = load_credentials(
        Encoding::Pem,
        b"no key".to_vec(),
        Encoding::Pem,
        b"-----BEGIN CERTIFICATE-----\n!!!!\n-----END CERTIFICATE-----\n".to_vec(),
    );
    assert_eq!(r.unwrap_err(), IdentityError::NoPrivateKeyFound);
}
