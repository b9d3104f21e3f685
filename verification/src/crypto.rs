//! Keys, signatures and digests.
//!
//! Ed25519 and SHA-256 are computed by outside code. What a key derivation, a
//! signature or a digest returns is named here by uninterpreted functions; the
//! contracts of this module are stated over those names.

use vstd::prelude::*;
use ed25519_dalek::{Signer, Verifier};
use rand::RngCore;
use sha2::Digest;
use crate::error::SDUPIError;

verus! {

/// Length in bytes of an Ed25519 public or secret key.
pub const KEY_LENGTH: usize = 32;

/// Length in bytes of an Ed25519 signature.
pub const SIGNATURE_LENGTH: usize = 64;

/// The SHA-256 digest of a byte string.
pub uninterp spec fn sha256_digest(data: Seq<u8>) -> Seq<u8>;

/// The Ed25519 public key that belongs to a 32-byte secret key.
pub uninterp spec fn ed25519_public_key_of(secret: Seq<u8>) -> Seq<u8>;

/// The Ed25519 signature of a message under a 32-byte secret key.
pub uninterp spec fn ed25519_signature_of(secret: Seq<u8>, message: Seq<u8>) -> Seq<u8>;

/// What decoding a byte string as a public key answers: nothing when the
/// bytes are the encoding of a point that serves as a public key, and else
/// the words in which the failure is reported.
pub uninterp spec fn ed25519_key_verdict(bytes: Seq<u8>) -> Option<Seq<char>>;

/// Whether a byte string is the encoding of a point that serves as a public key.
pub open spec fn ed25519_point_encoding(bytes: Seq<u8>) -> bool {
    ed25519_key_verdict(bytes) is None
}

/// Whether bytes have the form of a signature: 64 bytes, of which the
/// last has its three highest bits unset.
pub open spec fn ed25519_signature_form(bytes: Seq<u8>) -> bool {
    bytes.len() == 64 && bytes[63] < 32
}

/// What verification answers for a public key that decodes and a
/// signature of the right form on a message: nothing when the signature
/// verifies, and else the words in which the failure is reported.
pub uninterp spec fn ed25519_verdict(key: Seq<u8>, message: Seq<u8>, signature: Seq<u8>) -> Option<
    Seq<char>,
>;

/// Whether a public key that decodes verifies a signature of the right
/// form on a message.
pub open spec fn ed25519_verifies(key: Seq<u8>, message: Seq<u8>, signature: Seq<u8>) -> bool {
    ed25519_verdict(key, message, signature) is None
}

/// Whether a signature is accepted on a message under a public key: the key
/// decodes, the signature has the form of one, and the key verifies it.
pub open spec fn ed25519_accepts(key: Seq<u8>, message: Seq<u8>, signature: Seq<u8>) -> bool {
    ed25519_point_encoding(key) && ed25519_signature_form(signature) && ed25519_verifies(
        key,
        message,
        signature,
    )
}

/// The lowercase hexadecimal digit of a value below 16.
pub open spec fn hex_digit(nibble: int) -> char {
    if nibble == 0 {
        '0'
    } else if nibble == 1 {
        '1'
    } else if nibble == 2 {
        '2'
    } else if nibble == 3 {
        '3'
    } else if nibble == 4 {
        '4'
    } else if nibble == 5 {
        '5'
    } else if nibble == 6 {
        '6'
    } else if nibble == 7 {
        '7'
    } else if nibble == 8 {
        '8'
    } else if nibble == 9 {
        '9'
    } else if nibble == 10 {
        'a'
    } else if nibble == 11 {
        'b'
    } else if nibble == 12 {
        'c'
    } else if nibble == 13 {
        'd'
    } else if nibble == 14 {
        'e'
    } else {
        'f'
    }
}

/// Lowercase hexadecimal text of a byte string: two digits per byte, high
/// nibble first.
pub open spec fn hex_text(bytes: Seq<u8>) -> Seq<char> {
    Seq::new(
        2 * bytes.len(),
        |i: int|
            if i % 2 == 0 {
                hex_digit(bytes[i / 2] as int / 16)
            } else {
                hex_digit(bytes[i / 2] as int % 16)
            },
    )
}

/// Draws a fresh secret key from the operating system's random source
/// (`ed25519_dalek::Keypair::generate` with `OsRng`). Nothing is claimed of
/// the bytes drawn.
#[verifier::external_body]
fn generate_secret_key() -> (secret: [u8; 32]) {
    ed25519_dalek::Keypair::generate(&mut rand::rngs::OsRng).secret.to_bytes()
}

/// Derives the public key of a secret key (`ed25519_dalek::PublicKey::from`
/// on a `SecretKey`). The derivation is a function of the secret bytes
/// alone.
#[verifier::external_body]
fn derive_public_key(secret: &[u8; 32]) -> (public: [u8; 32])
    ensures
        public@ == ed25519_public_key_of(secret@),
{
    let secret_key = ed25519_dalek::SecretKey::from_bytes(secret).unwrap();
    ed25519_dalek::PublicKey::from(&secret_key).to_bytes()
}

/// Signs a message (`ed25519_dalek::Signer::sign` on a `Keypair` rebuilt from
/// the secret bytes). Ed25519 signing is deterministic; a signature has 64
/// bytes.
#[verifier::external_body]
fn ed25519_sign(secret: &[u8; 32], message: &[u8]) -> (signature: Vec<u8>)
    ensures
        signature@ == ed25519_signature_of(secret@, message@),
        signature@.len() == 64,
{
    let secret_key = ed25519_dalek::SecretKey::from_bytes(secret).unwrap();
    let public_key = ed25519_dalek::PublicKey::from(&secret_key);
    let keypair = ed25519_dalek::Keypair { secret: secret_key, public: public_key };
    keypair.sign(message).to_bytes().to_vec()
}

/// Decodes bytes as a public key (`ed25519_dalek::PublicKey::from_bytes`)
/// and hands back nothing when they decode, and else the words of the error
/// (its `Display`). Every input that is not 32 bytes long is refused.
#[verifier::external_body]
fn decode_point(bytes: &[u8]) -> (refusal: Option<String>)
    ensures
        refusal is None <==> ed25519_key_verdict(bytes@) is None,
        refusal matches Some(words) ==> Some(words@) == ed25519_key_verdict(bytes@),
        refusal is None ==> bytes@.len() == 32,
{
    match ed25519_dalek::PublicKey::from_bytes(bytes) {
        Ok(_) => None,
        Err(e) => Some(format!("{}", e)),
    }
}

/// Whether bytes have the form of a signature, as
/// `ed25519_dalek::Signature::from_bytes` asks for it.
pub fn has_signature_form(bytes: &[u8]) -> (ok: bool)
    ensures
        ok == ed25519_signature_form(bytes@),
{
    bytes.len() == 64 && bytes[63] < 32
}

/// Verifies a signature (`ed25519_dalek::Verifier::verify` on a
/// `PublicKey`) and hands back nothing when it verifies, and else the words
/// of the error (its `Display`). The key must decode and the signature must
/// have the form of one; the answer is a function of the key, the message
/// and the signature alone.
#[verifier::external_body]
fn ed25519_verify(key: &[u8; 32], message: &[u8], signature: &[u8]) -> (refusal: Option<String>)
    requires
        ed25519_point_encoding(key@),
        ed25519_signature_form(signature@),
    ensures
        refusal is None <==> ed25519_verdict(key@, message@, signature@) is None,
        refusal matches Some(words) ==> Some(words@) == ed25519_verdict(
            key@,
            message@,
            signature@,
        ),
{
    let key = ed25519_dalek::PublicKey::from_bytes(key).unwrap();
    let signature = ed25519_dalek::Signature::from_bytes(signature).unwrap();
    match key.verify(message, &signature) {
        Ok(()) => None,
        Err(e) => Some(format!("{}", e)),
    }
}

/// Renders bytes as lowercase hexadecimal text (`hex::encode`).
#[verifier::external_body]
fn hex_encode(bytes: &[u8]) -> (text: String)
    ensures
        text@ == hex_text(bytes@),
{
    hex::encode(bytes)
}

/// Public key of an account or validator.
#[derive(Debug, Clone, Copy, PartialEq, Eq, Hash)]
pub struct PublicKey {
    bytes: [u8; 32],
}

impl View for PublicKey {
    type V = Seq<u8>;

    closed spec fn view(&self) -> Seq<u8> {
        self.bytes@
    }
}

impl PublicKey {
    /// Every key has exactly 32 bytes.
    pub proof fn lemma_length(self)
        ensures
            self@.len() == 32,
    {
    }

    /// The text of the error for bytes that do not encode a public key.
    pub open spec fn key_refusal_text(bytes: Seq<u8>) -> Seq<char> {
        "Invalid public key bytes: "@ + ed25519_key_verdict(bytes)->Some_0
    }

    /// Accepts the bytes if and only if they encode a public key.
    pub fn from_bytes(bytes: &[u8]) -> (result: Result<PublicKey, SDUPIError>)
        ensures
            result is Ok <==> ed25519_point_encoding(bytes@),
            result matches Ok(key) ==> key@ == bytes@,
            result matches Err(e) ==> e matches SDUPIError::Crypto(m) && m@
                == PublicKey::key_refusal_text(bytes@),
    {
        if let Some(words) = decode_point(bytes) {
            return Err(
                SDUPIError::Crypto(
                    String::from_str("Invalid public key bytes: ").concat(words.as_str()),
                ),
            );
        }
        let mut key: [u8; 32] = [0u8; 32];
        let mut i: usize = 0;
        while i < 32
            invariant
                i <= 32,
                bytes@.len() == 32,
                forall|j: int| 0 <= j < i ==> key@[j] == bytes@[j],
            decreases 32 - i,
        {
            key[i] = bytes[i];
            i += 1;
        }
        assert(key@ =~= bytes@);
        Ok(PublicKey { bytes: key })
    }

    /// The key's 32 bytes.
    pub fn to_bytes(&self) -> (bytes: [u8; 32])
        ensures
            bytes@ == self@,
    {
        self.bytes
    }

    /// Whether two keys hold the same bytes.
    pub fn same_key(&self, other: &PublicKey) -> (same: bool)
        ensures
            same == (self@ == other@),
    {
        let mut i: usize = 0;
        while i < 32
            invariant
                i <= 32,
                forall|j: int| 0 <= j < i ==> self.bytes@[j] == other.bytes@[j],
            decreases 32 - i,
        {
            if self.bytes[i] != other.bytes[i] {
                return false;
            }
            i += 1;
        }
        assert(self.bytes@ =~= other.bytes@);
        true
    }

    /// The text of the error for a signature that is not accepted on a
    /// message under a key. Bytes that have not the form of a signature are
    /// an invalid signature; a signature that does not verify is a failed
    /// verification, reported in the words of the verification.
    pub open spec fn refusal_text(key: Seq<u8>, message: Seq<u8>, signature: Seq<u8>) -> Seq<
        char,
    > {
        if !ed25519_signature_form(signature) {
            "Invalid signature: signature error"@
        } else if !ed25519_point_encoding(key) {
            PublicKey::key_refusal_text(key)
        } else {
            "Signature verification failed: "@ + ed25519_verdict(key, message, signature)->Some_0
        }
    }

    /// Succeeds exactly when the signature verifies on the message under
    /// this key.
    pub fn verify(&self, message: &[u8], signature: &[u8]) -> (result: Result<(), SDUPIError>)
        ensures
            result is Ok <==> ed25519_accepts(self@, message@, signature@),
            result matches Err(e) ==> e matches SDUPIError::Crypto(m) && m@
                == PublicKey::refusal_text(self@, message@, signature@),
    {
        if !has_signature_form(signature) {
            return Err(
                SDUPIError::Crypto(String::from_str("Invalid signature: signature error")),
            );
        }
        if let Some(words) = decode_point(self.bytes.as_slice()) {
            return Err(
                SDUPIError::Crypto(
                    String::from_str("Invalid public key bytes: ").concat(words.as_str()),
                ),
            );
        }
        match ed25519_verify(&self.bytes, message, signature) {
            None => Ok(()),
            Some(words) => Err(
                SDUPIError::Crypto(
                    String::from_str("Signature verification failed: ").concat(words.as_str()),
                ),
            ),
        }
    }

    /// The key as lowercase hexadecimal text.
    pub fn to_hex(&self) -> (text: String)
        ensures
            text@ == hex_text(self@),
    {
        hex_encode(self.bytes.as_slice())
    }
}

/// A secret key together with the public key derived from it.
#[derive(Debug, Clone, Copy)]
pub struct KeyPair {
    secret: [u8; 32],
    public: PublicKey,
}

impl KeyPair {
    #[verifier::type_invariant]
    spec fn derived(self) -> bool {
        self.public@ == ed25519_public_key_of(self.secret@)
    }

    /// The secret key's bytes, as a sequence.
    pub closed spec fn secret_view(self) -> Seq<u8> {
        self.secret@
    }

    /// The public half, as a sequence of bytes.
    pub closed spec fn public_view(self) -> Seq<u8> {
        self.public@
    }

    /// Generates a fresh key pair from the system's random source.
    pub fn generate() -> (pair: KeyPair)
        ensures
            pair.public_view() == ed25519_public_key_of(pair.secret_view()),
    {
        let secret = generate_secret_key();
        let public = derive_public_key(&secret);
        KeyPair { secret, public: PublicKey { bytes: public } }
    }

    /// Builds the pair of a given secret key, which must have 32 bytes.
    pub fn from_secret_key_bytes(bytes: &[u8]) -> (result: Result<KeyPair, SDUPIError>)
        ensures
            result is Ok <==> bytes@.len() == 32,
            result matches Ok(pair) ==> pair.secret_view() == bytes@ && pair.public_view()
                == ed25519_public_key_of(bytes@),
            result matches Err(e) ==> e matches SDUPIError::Crypto(m) && m@
                == "Invalid secret key: signature error: SecretKey must be 32 bytes in length"@,
    {
        if bytes.len() != 32 {
            return Err(
                SDUPIError::Crypto(
                    String::from_str(
                        "Invalid secret key: signature error: SecretKey must be 32 bytes in length",
                    ),
                ),
            );
        }
        let mut secret: [u8; 32] = [0u8; 32];
        let mut i: usize = 0;
        while i < 32
            invariant
                i <= 32,
                bytes@.len() == 32,
                forall|j: int| 0 <= j < i ==> secret@[j] == bytes@[j],
            decreases 32 - i,
        {
            secret[i] = bytes[i];
            i += 1;
        }
        assert(secret@ =~= bytes@);
        let public = derive_public_key(&secret);
        Ok(KeyPair { secret, public: PublicKey { bytes: public } })
    }

    /// The public key of this pair.
    pub fn public_key(&self) -> (key: PublicKey)
        ensures
            key@ == self.public_view(),
            key@ == ed25519_public_key_of(self.secret_view()),
    {
        proof {
            use_type_invariant(self);
        }
        self.public
    }

    /// The secret key's 32 bytes.
    pub fn secret_key_bytes(&self) -> (bytes: [u8; 32])
        ensures
            bytes@ == self.secret_view(),
    {
        self.secret
    }

    /// Signs a message with the secret key.
    pub fn sign(&self, message: &[u8]) -> (signature: Vec<u8>)
        ensures
            signature@ == ed25519_signature_of(self.secret_view(), message@),
            signature@.len() == 64,
    {
        ed25519_sign(&self.secret, message)
    }

    /// Signs the hash of a transaction.
    pub fn sign_transaction(&self, transaction_hash: &[u8]) -> (signature: Vec<u8>)
        ensures
            signature@ == ed25519_signature_of(self.secret_view(), transaction_hash@),
            signature@.len() == 64,
    {
        self.sign(transaction_hash)
    }

    /// Text that names the pair by its public key.
    pub fn describe(&self) -> (text: String)
        ensures
            text@ == "KeyPair("@ + hex_text(self.public_view()) + ")"@,
    {
        let inner = self.public.to_hex();
        String::from_str("KeyPair(").concat(inner.as_str()).concat(")")
    }
}

/// Renders bytes as lowercase hexadecimal text.
pub fn hex_string(bytes: &[u8]) -> (text: String)
    ensures
        text@ == hex_text(bytes@),
{
    hex_encode(bytes)
}

/// Hashes data with SHA-256 (`sha2::Sha256`). A digest has 32 bytes.
#[verifier::external_body]
pub fn sha256(data: &[u8]) -> (digest: Vec<u8>)
    ensures
        digest@ == sha256_digest(data@),
        digest@.len() == 32,
{
    let mut hasher = sha2::Sha256::new();
    hasher.update(data);
    hasher.finalize().to_vec()
}

/// Draws 32 random bytes from the operating system (`OsRng`). Nothing is
/// claimed of the bytes drawn.
#[verifier::external_body]
pub fn random_nonce() -> (nonce: [u8; 32]) {
    let mut nonce = [0u8; 32];
    rand::rngs::OsRng.fill_bytes(&mut nonce);
    nonce
}

/// Checks the signature of a transaction hash under a public key.
pub fn verify_transaction_signature(
    public_key: &PublicKey,
    transaction_hash: &[u8],
    signature: &[u8],
) -> (result: Result<(), SDUPIError>)
    ensures
        result is Ok <==> ed25519_accepts(public_key@, transaction_hash@, signature@),
        result matches Err(e) ==> e matches SDUPIError::Crypto(m) && m@
            == PublicKey::refusal_text(public_key@, transaction_hash@, signature@),
{
    public_key.verify(transaction_hash, signature)
}

} // verus!
