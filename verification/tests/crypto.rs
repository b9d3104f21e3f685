use sdupi_core::crypto::{
    random_nonce, sha256, verify_transaction_signature, KeyPair, PublicKey,
};
use sdupi_core::error::SDUPIError;

#[test]
fn test_keypair_generation() {
    let keypair = KeyPair::generate();
    let public_key = keypair.public_key();

    assert_eq!(public_key.to_bytes().len(), 32);
}

#[test]
fn test_message_signing_and_verification() {
    let keypair = KeyPair::generate();
    let message = b"Hello, SDUPI!";

    let signature = keypair.sign(message);
    let public_key = keypair.public_key();

    assert!(public_key.verify(message, &signature).is_ok());
}

#[test]
fn test_invalid_signature_rejection() {
    let keypair = KeyPair::generate();
    let public_key = keypair.public_key();
    let message = b"Hello, SDUPI!";

    let invalid_signature = vec![0u8; 64];

    assert!(public_key.verify(message, &invalid_signature).is_err());
}

#[test]
fn test_keypair_serialization() {
    let keypair = KeyPair::generate();
    let public_key = keypair.public_key();

    let serialized = public_key.to_hex();
    let bytes = hex::decode(&serialized).unwrap();
    let deserialized = PublicKey::from_bytes(&bytes).unwrap();

    assert_eq!(public_key, deserialized);
}

#[test]
fn sha256_of_abc_is_the_known_digest() {
    assert_eq!(
        hex::encode(sha256(b"abc")),
        "ba7816bf8f01cfea414140de5dae2223b00361a396177a9cb410ff61f20015ad"
    );
    assert_eq!(sha256(b"").len(), 32);
}

#[test]
fn key_pair_of_a_known_secret_has_the_known_public_key() {
    // First test vector of RFC 8032, section 7.1.
    let secret =
        hex::decode("9d61b19deffd5a60ba844af492ec2cc44449c5697b326919703bac031cae7f60").unwrap();
    let pair = KeyPair::from_secret_key_bytes(&secret).unwrap();
    assert_eq!(
        pair.public_key().to_hex(),
        "d75a980182b10ab7d54bfed3c964073a0ee172f3daa62325af021a68f707511a"
    );
    assert_eq!(pair.secret_key_bytes().to_vec(), secret);
    let signature = pair.sign(b"");
    assert_eq!(
        hex::encode(&signature),
        "e5564300c360ac729086e2cc806e828a84877f1eb8e5d974d873e065224901555fb8821590a33bacc61e39701cf9b46bd25bf5f0595bbe24655141438e7a100b"
    );
    assert!(verify_transaction_signature(&pair.public_key(), b"", &signature).is_ok());
    assert_eq!(pair.sign_transaction(b""), signature);
    assert_eq!(
        pair.describe(),
        "KeyPair(d75a980182b10ab7d54bfed3c964073a0ee172f3daa62325af021a68f707511a)"
    );
}

#[test]
fn secret_keys_must_have_32_bytes() {
    match KeyPair::from_secret_key_bytes(&[1u8; 31]) {
        Err(SDUPIError::Crypto(text)) => assert_eq!(
            text,
            format!(
                "Invalid secret key: {}",
                ed25519_dalek::SecretKey::from_bytes(&[1u8; 31]).unwrap_err()
            )
        ),
        other => panic!("unexpected answer {:?}", other.map(|_| ())),
    }
}

#[test]
fn public_keys_must_be_points() {
    match PublicKey::from_bytes(&[1u8; 5]) {
        Err(SDUPIError::Crypto(text)) => {
            assert!(text.starts_with("Invalid public key bytes: signature error: "), "{}", text)
        }
        other => panic!("unexpected answer {:?}", other),
    }
    let pair = KeyPair::from_secret_key_bytes(&[7u8; 32]).unwrap();
    let key = PublicKey::from_bytes(&pair.public_key().to_bytes()).unwrap();
    assert!(key.same_key(&pair.public_key()));
    let other = KeyPair::from_secret_key_bytes(&[8u8; 32]).unwrap().public_key();
    assert!(!key.same_key(&other));
}

#[test]
fn a_signature_of_another_message_is_refused() {
    let pair = KeyPair::from_secret_key_bytes(&[7u8; 32]).unwrap();
    let signature = pair.sign(b"one");
    match pair.public_key().verify(b"two", &signature) {
        Err(e) => assert_eq!(
            e.message(),
            "Cryptographic error: Signature verification failed: signature error: Verification equation was not satisfied"
        ),
        Ok(()) => panic!("accepted"),
    }
    assert!(pair.public_key().verify(b"one", &signature[..63]).is_err());
}

#[test]
fn nonces_have_32_bytes_and_differ() {
    let first = random_nonce();
    let second = random_nonce();
    assert_eq!(first.len(), 32);
    assert_ne!(first, second);
}

#[test]
fn bytes_without_the_form_of_a_signature_are_refused() {
    let pair = KeyPair::from_secret_key_bytes(&[7u8; 32]).unwrap();
    let message = b"payment";
    let signature = pair.sign_transaction(message);
    assert_eq!(signature.len(), 64);
    assert!(sdupi_core::crypto::has_signature_form(&signature));
    assert!(pair.public_key().verify(message, &signature).is_ok());
    assert!(pair.public_key().verify(b"another payment", &signature).is_err());
    let mut marked = signature.clone();
    marked[63] |= 0x20;
    assert!(!sdupi_core::crypto::has_signature_form(&marked));
    assert!(pair.public_key().verify(message, &marked).is_err());
    assert!(!sdupi_core::crypto::has_signature_form(&signature[..63]));
    assert!(pair.public_key().verify(message, &signature[..63]).is_err());
    assert!(pair.public_key().verify(message, &[]).is_err());
}

#[test]
fn a_refusal_says_whether_the_form_or_the_verification_failed() {
    let pair = KeyPair::from_secret_key_bytes(&[9u8; 32]).unwrap();
    let signature = pair.sign_transaction(b"payment");
    match pair.public_key().verify(b"payment", &signature[..10]) {
        Err(SDUPIError::Crypto(text)) => assert_eq!(text, "Invalid signature: signature error"),
        other => panic!("unexpected answer {:?}", other),
    }
    let mut marked = signature.clone();
    marked[63] |= 0x80;
    match pair.public_key().verify(b"payment", &marked) {
        Err(SDUPIError::Crypto(text)) => assert_eq!(text, "Invalid signature: signature error"),
        other => panic!("unexpected answer {:?}", other),
    }
    match pair.public_key().verify(b"another payment", &signature) {
        Err(SDUPIError::Crypto(text)) => {
            assert!(text.starts_with("Signature verification failed: signature error"))
        }
        other => panic!("unexpected answer {:?}", other),
    }
    assert!(pair.public_key().verify(b"payment", &signature).is_ok());
}
