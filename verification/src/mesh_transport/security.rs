//! Cryptographic security for mesh transport: signing, key agreement,
//! authenticated encryption and access control.

use ed25519_dalek::{Signature, Signer, SigningKey, Verifier, VerifyingKey};
use x25519_dalek::{PublicKey, StaticSecret};
use chacha20poly1305::aead::{Aead, NewAead};
use chacha20poly1305::{ChaCha20Poly1305, Key, Nonce};
use rand_core::{OsRng, RngCore};
use vstd::prelude::*;
use crate::common::{AgentId, AgentIdentity};
use crate::digest::{sha256, sha256_digest};

verus! {

/// Errors that can occur during security operations.
#[derive(Debug)]
pub enum SecurityError {
    /// The signature does not verify.
    InvalidSignature,
    /// Serialization failed, with its description.
    Serialization(String),
    /// Key generation failed.
    KeyGeneration,
    /// Encryption failed.
    Encryption,
    /// Decryption or authentication failed.
    Decryption,
    /// A key has the wrong length.
    InvalidKeyLength,
    /// A nonce has the wrong length.
    InvalidNonceLength,
}

/// The ChaCha20-Poly1305 sealing of `plaintext` (ciphertext followed by the
/// 16-byte tag) under a 32-byte key and 12-byte nonce, with no associated data.
pub uninterp spec fn chacha_seal(key: Seq<u8>, nonce: Seq<u8>, plaintext: Seq<u8>) -> Seq<u8>;

/// Trusted: `ChaCha20Poly1305::encrypt` (chacha20poly1305 0.9) seals the
/// plaintext deterministically from key, nonce and plaintext, appending
/// the 16-byte Poly1305 tag to a ciphertext as long as the plaintext; it
/// fails only when the message spans `u32::MAX` or more 64-byte blocks.
#[verifier::external_body]
fn chacha_encrypt(key: &[u8], nonce: &[u8], plaintext: &[u8]) -> (r: Result<Vec<u8>, SecurityError>)
    requires
        key@.len() == 32,
        nonce@.len() == 12,
    ensures
        r is Ok <==> plaintext@.len() / 64 < u32::MAX,
        r matches Ok(c) ==> c@ == chacha_seal(key@, nonce@, plaintext@),
        r matches Ok(c) ==> c@.len() == plaintext@.len() + 16,
{
    let cipher = ChaCha20Poly1305::new(Key::from_slice(key));
    cipher.encrypt(Nonce::from_slice(nonce), plaintext).map_err(|_| SecurityError::Encryption)
}

/// Trusted: `ChaCha20Poly1305::decrypt` (chacha20poly1305 0.9) opens a
/// ciphertext exactly when it is the sealing of some plaintext under the
/// same key and nonce, and then returns that plaintext.
#[verifier::external_body]
fn chacha_decrypt(key: &[u8], nonce: &[u8], ciphertext: &[u8]) -> (r: Result<Vec<u8>, SecurityError>)
    requires
        key@.len() == 32,
        nonce@.len() == 12,
    ensures
        r matches Ok(m) ==> ciphertext@ == chacha_seal(key@, nonce@, m@),
        r matches Ok(m) ==> (forall|p: Seq<u8>| ciphertext@ == #[trigger] chacha_seal(key@, nonce@, p) ==> m@ == p),
        r is Err ==> (forall|p: Seq<u8>| ciphertext@ == #[trigger] chacha_seal(key@, nonce@, p) ==> p.len() / 64 >= u32::MAX),
        r matches Err(e) ==> e is Decryption,
{
    let cipher = ChaCha20Poly1305::new(Key::from_slice(key));
    cipher.decrypt(Nonce::from_slice(nonce), ciphertext).map_err(|_| SecurityError::Decryption)
}

/// Trusted: fills 12 bytes from the operating system's random source
/// (`OsRng::fill_bytes`); nothing is promised of the bytes.
#[verifier::external_body]
fn os_random_nonce() -> (r: [u8; 12]) {
    let mut nonce = [0u8; 12];
    OsRng.fill_bytes(&mut nonce);
    nonce
}

/// Trusted: fills 32 bytes from the operating system's random source
/// (`OsRng::fill_bytes`); nothing is promised of the bytes.
#[verifier::external_body]
fn os_random_key() -> (r: [u8; 32]) {
    let mut key = [0u8; 32];
    OsRng.fill_bytes(&mut key);
    key
}

/// The Ed25519 public key of a 32-byte secret key.
pub uninterp spec fn ed25519_public_key(secret: Seq<u8>) -> Seq<u8>;

/// The Ed25519 signature of a message under a 32-byte secret key.
pub uninterp spec fn ed25519_signature(secret: Seq<u8>, message: Seq<u8>) -> Seq<u8>;

/// Whether a 64-byte Ed25519 signature over a message verifies under a
/// 32-byte public key.
pub uninterp spec fn ed25519_accepts(public_key: Seq<u8>, message: Seq<u8>, signature: Seq<u8>) -> bool;

/// Trusted: `SigningKey::generate` (ed25519-dalek 2) from the operating
/// system's random source, taken as its 32 secret bytes; nothing is
/// promised of them.
#[verifier::external_body]
fn random_signing_secret() -> (r: [u8; 32]) {
    SigningKey::generate(&mut OsRng).to_bytes()
}

/// Trusted: `SigningKey::from_bytes(secret).verifying_key().to_bytes()`
/// (ed25519-dalek 2) depends on the secret alone; the contract names it.
#[verifier::external_body]
fn ed25519_public(secret: &[u8; 32]) -> (r: [u8; 32])
    ensures
        r@ == ed25519_public_key(secret@),
{
    SigningKey::from_bytes(secret).verifying_key().to_bytes()
}

/// Trusted: `SigningKey::sign` (ed25519-dalek 2) signs deterministically,
/// as RFC 8032 prescribes, and a signature it makes verifies under the
/// key's public key; the contract names the signature and states that it
/// verifies.
#[verifier::external_body]
fn ed25519_sign(secret: &[u8; 32], message: &[u8]) -> (r: [u8; 64])
    ensures
        r@ == ed25519_signature(secret@, message@),
        ed25519_accepts(ed25519_public_key(secret@), message@, r@) == true,
{
    SigningKey::from_bytes(secret).sign(message).to_bytes()
}

/// Trusted: `VerifyingKey::from_bytes` followed by `verify` (ed25519-dalek
/// 2), a key that does not decode failing; the outcome depends on key,
/// message and signature alone and is named.
#[verifier::external_body]
fn ed25519_verify(public_key: &[u8], message: &[u8], signature: &[u8]) -> (r: bool)
    requires
        public_key@.len() == 32,
        signature@.len() == 64,
    ensures
        r == ed25519_accepts(public_key@, message@, signature@),
{
    let pk: [u8; 32] = public_key.try_into().unwrap();
    let sig: [u8; 64] = signature.try_into().unwrap();
    match VerifyingKey::from_bytes(&pk) {
        Ok(vk) => vk.verify(message, &Signature::from_bytes(&sig)).is_ok(),
        Err(_) => false,
    }
}

/// A key pair for signing messages, held as its 32 secret bytes.
pub struct KeyPair {
    secret: [u8; 32],
}

impl KeyPair {
    /// The secret key bytes.
    pub closed spec fn secret_view(&self) -> Seq<u8> {
        self.secret@
    }

    /// Generates a new random key pair.
    pub fn generate() -> (r: Self)
        ensures
            r.secret_view().len() == 32,
    {
        KeyPair { secret: random_signing_secret() }
    }

    /// The verifying (public) key.
    pub fn verifying_key(&self) -> (r: [u8; 32])
        ensures
            r@ == ed25519_public_key(self.secret_view()),
    {
        ed25519_public(&self.secret)
    }

    /// Signs a message; the signature verifies under `verifying_key`.
    pub fn sign(&self, message: &[u8]) -> (r: [u8; 64])
        ensures
            r@ == ed25519_signature(self.secret_view(), message@),
            ed25519_accepts(ed25519_public_key(self.secret_view()), message@, r@),
    {
        ed25519_sign(&self.secret, message)
    }
}

/// Whether the signature of a signed message verifies under its public key.
pub open spec fn signature_valid(m: SignedMessage) -> bool {
    &&& m.public_key@.len() == 32
    &&& m.signature@.len() == 64
    &&& ed25519_accepts(m.public_key@, m.payload@, m.signature@)
}

/// A signed message that can be sent over the network.
#[derive(Debug, Clone)]
pub struct SignedMessage {
    /// The message payload.
    pub payload: Vec<u8>,
    /// The signature of the payload.
    pub signature: Vec<u8>,
    /// The public key of the sender.
    pub public_key: Vec<u8>,
}

impl SignedMessage {
    /// Signs a payload with a key pair; the message carries the signature
    /// and the key pair's public key, and verifies.
    pub fn new(payload: Vec<u8>, key_pair: &KeyPair) -> (r: Self)
        ensures
            r.payload@ == payload@,
            r.signature@ == ed25519_signature(key_pair.secret_view(), payload@),
            r.public_key@ == ed25519_public_key(key_pair.secret_view()),
            signature_valid(r),
    {
        let signature = key_pair.sign(payload.as_slice());
        let public_key = key_pair.verifying_key();
        SignedMessage {
            payload,
            signature: vstd::slice::slice_to_vec(signature.as_slice()),
            public_key: vstd::slice::slice_to_vec(public_key.as_slice()),
        }
    }

    /// Verifies the signature of this message: a 32-byte public key and a
    /// 64-byte signature that verifies over the payload.
    pub fn verify(&self) -> (r: Result<(), SecurityError>)
        ensures
            r is Ok <==> signature_valid(*self),
            r matches Err(e) ==> e is InvalidSignature,
    {
        if self.public_key.len() != 32 || self.signature.len() != 64 {
            return Err(SecurityError::InvalidSignature);
        }
        if ed25519_verify(self.public_key.as_slice(), self.payload.as_slice(), self.signature.as_slice()) {
            Ok(())
        } else {
            Err(SecurityError::InvalidSignature)
        }
    }
}

/// Signs and verifies messages with one key pair.
pub struct SecurityManager {
    key_pair: KeyPair,
}

impl SecurityManager {
    /// The secret bytes of the manager's key pair.
    pub closed spec fn secret_view(&self) -> Seq<u8> {
        self.key_pair.secret_view()
    }

    /// A manager signing with the given key pair.
    pub fn new(key_pair: KeyPair) -> (r: Self)
        ensures
            r.secret_view() == key_pair.secret_view(),
    {
        SecurityManager { key_pair }
    }

    /// A manager with a fresh random key pair.
    pub fn generate() -> (r: Self)
        ensures
            r.secret_view().len() == 32,
    {
        Self::new(KeyPair::generate())
    }

    /// The key pair.
    pub fn key_pair(&self) -> (r: &KeyPair)
        ensures
            r.secret_view() == self.secret_view(),
    {
        &self.key_pair
    }

    /// Signs a payload.
    pub fn sign(&self, payload: Vec<u8>) -> (r: SignedMessage)
        ensures
            r.payload@ == payload@,
            r.signature@ == ed25519_signature(self.secret_view(), payload@),
            r.public_key@ == ed25519_public_key(self.secret_view()),
            signature_valid(r),
    {
        SignedMessage::new(payload, &self.key_pair)
    }

    /// Verifies a signed message.
    pub fn verify(&self, signed: &SignedMessage) -> (r: Result<(), SecurityError>)
        ensures
            r is Ok <==> signature_valid(*signed),
            r matches Err(e) ==> e is InvalidSignature,
    {
        signed.verify()
    }
}

/// Byte-wise equality of two byte strings.
pub fn bytes_eq(a: &[u8], b: &[u8]) -> (r: bool)
    ensures
        r == (a@ == b@),
{
    if a.len() != b.len() {
        return false;
    }
    let n = a.len();
    let mut i: usize = 0;
    while i < n
        invariant
            n == a@.len(),
            n == b@.len(),
            i <= n,
            forall|j: int| 0 <= j < i ==> a@[j] == b@[j],
        decreases n - i,
    {
        if a[i] != b[i] {
            return false;
        }
        i = i + 1;
    }
    assert(a@ =~= b@);
    true
}

/// Verifies that a message is signed by a specific agent identity.
pub struct Authenticator;

impl Authenticator {
    /// Accepts a signed message when it carries the identity's public key
    /// and its signature verifies.
    pub fn verify_signed_message(signed: &SignedMessage, identity: &AgentIdentity) -> (r: Result<(), SecurityError>)
        ensures
            r is Ok <==> (signed.public_key@ == identity.public_key@ && signature_valid(*signed)),
            r matches Err(e) ==> e is InvalidSignature,
    {
        if !bytes_eq(signed.public_key.as_slice(), identity.public_key.as_slice()) {
            return Err(SecurityError::InvalidSignature);
        }
        signed.verify()
    }

    /// Signs a payload for an identity, when the key pair's public key is
    /// the identity's.
    pub fn sign_message(payload: Vec<u8>, key_pair: &KeyPair, identity: &AgentIdentity) -> (r: Result<SignedMessage, SecurityError>)
        ensures
            ed25519_public_key(key_pair.secret_view()) == identity.public_key@ ==> (r matches Ok(m) && m.payload@ == payload@
                && m.signature@ == ed25519_signature(key_pair.secret_view(), payload@)
                && m.public_key@ == identity.public_key@ && signature_valid(m)),
            ed25519_public_key(key_pair.secret_view()) != identity.public_key@ ==> (r matches Err(e) && e is InvalidSignature),
    {
        let public_key = key_pair.verifying_key();
        if !bytes_eq(public_key.as_slice(), identity.public_key.as_slice()) {
            return Err(SecurityError::InvalidSignature);
        }
        Ok(SignedMessage::new(payload, key_pair))
    }
}

/// The X25519 public key of a 32-byte secret.
pub uninterp spec fn x25519_public_key(secret: Seq<u8>) -> Seq<u8>;

/// The X25519 shared secret of a 32-byte secret and a 32-byte public key.
pub uninterp spec fn x25519_shared(secret: Seq<u8>, public_key: Seq<u8>) -> Seq<u8>;

/// Trusted: `StaticSecret::random_from_rng(OsRng)` (x25519-dalek 2), taken
/// as its 32 bytes; nothing is promised of them.
#[verifier::external_body]
fn random_dh_secret() -> (r: [u8; 32]) {
    StaticSecret::random_from_rng(OsRng).to_bytes()
}

/// Trusted: `PublicKey::from(&StaticSecret::from(secret))` (x25519-dalek 2)
/// depends on the secret alone; the contract names it.
#[verifier::external_body]
fn x25519_public(secret: &[u8; 32]) -> (r: [u8; 32])
    ensures
        r@ == x25519_public_key(secret@),
{
    PublicKey::from(&StaticSecret::from(*secret)).to_bytes()
}

/// Trusted: `StaticSecret::diffie_hellman` (x25519-dalek 2) depends on the
/// secret and the other public key alone, and two parties agree: when the
/// other key is the public key of a 32-byte secret, the result is what that
/// secret computes with this secret's public key.
#[verifier::external_body]
fn x25519_dh(secret: &[u8], their_public: &[u8]) -> (r: [u8; 32])
    requires
        secret@.len() == 32,
        their_public@.len() == 32,
    ensures
        r@ == x25519_shared(secret@, their_public@) && forall|other: Seq<u8>|
            other.len() == 32 && their_public@ == #[trigger] x25519_public_key(other)
                ==> r@ == x25519_shared(other, x25519_public_key(secret@)),
{
    let s: [u8; 32] = secret.try_into().unwrap();
    let p: [u8; 32] = their_public.try_into().unwrap();
    StaticSecret::from(s).diffie_hellman(&PublicKey::from(p)).to_bytes()
}

/// An X25519 key pair, held as its secret and public bytes.
pub struct DhKeyPair {
    secret: [u8; 32],
    public: [u8; 32],
}

impl DhKeyPair {
    /// The secret bytes.
    pub closed spec fn secret_view(&self) -> Seq<u8> {
        self.secret@
    }

    /// The public key bytes.
    pub closed spec fn public_view(&self) -> Seq<u8> {
        self.public@
    }

    /// Generates a random key pair.
    pub fn generate() -> (r: Self)
        ensures
            r.secret_view().len() == 32,
            r.public_view() == x25519_public_key(r.secret_view()),
    {
        let secret = random_dh_secret();
        let public = x25519_public(&secret);
        DhKeyPair { secret, public }
    }

    /// The public key.
    pub fn public_key(&self) -> (r: [u8; 32])
        ensures
            r@ == self.public_view(),
    {
        self.public
    }

    /// The secret key.
    pub fn secret(&self) -> (r: &[u8; 32])
        ensures
            r@ == self.secret_view(),
    {
        &self.secret
    }

    /// Computes the shared secret with another public key.
    pub fn diffie_hellman(&self, other_public: &[u8; 32]) -> (r: [u8; 32])
        ensures
            r@ == x25519_shared(self.secret_view(), other_public@),
            forall|other: Seq<u8>|
                other.len() == 32 && other_public@ == #[trigger] x25519_public_key(other)
                    ==> r@ == x25519_shared(other, x25519_public_key(self.secret_view())),
    {
        x25519_dh(self.secret.as_slice(), other_public.as_slice())
    }
}

/// Generates a random 256-bit key for symmetric encryption.
pub fn generate_symmetric_key() -> (r: [u8; 32])
    ensures
        r@.len() == 32,
{
    os_random_key()
}

/// Generates a random 96-bit nonce.
pub fn generate_nonce() -> (r: [u8; 12])
    ensures
        r@.len() == 12,
{
    os_random_nonce()
}

/// Encrypts a message with ChaCha20-Poly1305.
pub fn encrypt(key: &[u8; 32], nonce: &[u8; 12], plaintext: &[u8]) -> (r: Result<Vec<u8>, SecurityError>)
    ensures
        r is Ok <==> plaintext@.len() / 64 < u32::MAX,
        r matches Ok(c) ==> c@ == chacha_seal(key@, nonce@, plaintext@),
        r matches Ok(c) ==> c@.len() == plaintext@.len() + 16,
        r matches Err(e) ==> e is Encryption,
{
    match chacha_encrypt(key.as_slice(), nonce.as_slice(), plaintext) {
        Ok(c) => Ok(c),
        Err(_) => Err(SecurityError::Encryption),
    }
}

/// Decrypts a message with ChaCha20-Poly1305.
pub fn decrypt(key: &[u8; 32], nonce: &[u8; 12], ciphertext: &[u8]) -> (r: Result<Vec<u8>, SecurityError>)
    ensures
        forall|p: Seq<u8>|
            ciphertext@ == #[trigger] chacha_seal(key@, nonce@, p) && p.len() / 64 < u32::MAX
                ==> (r matches Ok(m) && m@ == p),
        r matches Ok(m) ==> ciphertext@ == chacha_seal(key@, nonce@, m@),
        r matches Err(e) ==> e is Decryption,
{
    chacha_decrypt(key.as_slice(), nonce.as_slice(), ciphertext)
}

/// An encrypted message that includes the nonce and optional sender's
/// ephemeral public key.
#[derive(Debug, Clone)]
pub struct EncryptedMessage {
    /// Nonce used for encryption.
    pub nonce: Vec<u8>,
    /// Ephemeral public key for key exchange (if using ECDH).
    pub ephemeral_public_key: Option<Vec<u8>>,
    /// The ciphertext.
    pub ciphertext: Vec<u8>,
}

/// `m` is `plaintext` sealed under `key`: a 12-byte nonce, no ephemeral key,
/// and the ChaCha20-Poly1305 sealing under that nonce.
pub open spec fn sealed_message(m: EncryptedMessage, key: Seq<u8>, plaintext: Seq<u8>) -> bool {
    &&& m.nonce@.len() == 12
    &&& m.ephemeral_public_key is None
    &&& m.ciphertext@ == chacha_seal(key, m.nonce@, plaintext)
    &&& m.ciphertext@.len() == plaintext.len() + 16
}

/// `r` is what opening `m` with `key` returns: an error for a nonce that is
/// not 12 bytes long; otherwise the plaintext whenever the ciphertext is a
/// sealing under this key and nonce, and a decryption error or a plaintext
/// that seals to the ciphertext in any case.
pub open spec fn opened_message(m: EncryptedMessage, key: Seq<u8>, r: Result<Vec<u8>, SecurityError>) -> bool {
    &&& m.nonce@.len() != 12 ==> (r matches Err(SecurityError::InvalidNonceLength))
    &&& m.nonce@.len() == 12 ==> {
        &&& forall|p: Seq<u8>|
            m.ciphertext@ == #[trigger] chacha_seal(key, m.nonce@, p) && p.len() / 64 < u32::MAX
                ==> (r matches Ok(x) && x@ == p)
        &&& (r matches Ok(x) ==> m.ciphertext@ == chacha_seal(key, m.nonce@, x@))
        &&& (r matches Err(e) ==> e is Decryption)
    }
}

impl EncryptedMessage {
    /// Encrypts `plaintext` under `key` with the given nonce.
    pub fn encrypt_with_nonce(plaintext: &[u8], key: &[u8; 32], nonce: &[u8; 12]) -> (r: Result<Self, SecurityError>)
        ensures
            r is Ok <==> plaintext@.len() / 64 < u32::MAX,
            r matches Ok(m) ==> {
                &&& m.nonce@ == nonce@
                &&& m.ephemeral_public_key is None
                &&& m.ciphertext@ == chacha_seal(key@, nonce@, plaintext@)
                &&& m.ciphertext@.len() == plaintext@.len() + 16
            },
            r matches Err(e) ==> e is Encryption,
    {
        let ciphertext = encrypt(key, nonce, plaintext)?;
        let mut nonce_bytes: Vec<u8> = Vec::new();
        let mut i: usize = 0;
        while i < 12
            invariant
                i <= 12,
                nonce@.len() == 12,
                nonce_bytes@ == nonce@.subrange(0, i as int),
            decreases 12 - i,
        {
            nonce_bytes.push(nonce[i]);
            assert(nonce_bytes@ =~= nonce@.subrange(0, i + 1));
            i = i + 1;
        }
        assert(nonce_bytes@ =~= nonce@);
        Ok(EncryptedMessage { nonce: nonce_bytes, ephemeral_public_key: None, ciphertext })
    }

    /// Encrypts a plaintext with a symmetric key under a fresh random nonce.
    pub fn encrypt_with_key(plaintext: &[u8], key: &[u8; 32]) -> (r: Result<Self, SecurityError>)
        ensures
            r is Ok <==> plaintext@.len() / 64 < u32::MAX,
            r matches Ok(m) ==> sealed_message(m, key@, plaintext@),
            r matches Err(e) ==> e is Encryption,
    {
        let nonce = generate_nonce();
        Self::encrypt_with_nonce(plaintext, key, &nonce)
    }

    /// Decrypts with a symmetric key: the nonce must be 12 bytes long, and
    /// the ciphertext must be the sealing of a plaintext under this key and
    /// nonce.
    pub fn decrypt_with_key(&self, key: &[u8; 32]) -> (r: Result<Vec<u8>, SecurityError>)
        ensures
            opened_message(*self, key@, r),
    {
        if self.nonce.len() != 12 {
            return Err(SecurityError::InvalidNonceLength);
        }
        chacha_decrypt(key.as_slice(), self.nonce.as_slice(), self.ciphertext.as_slice())
    }
}

/// The symmetric key of a hybrid message: the SHA-256 digest of the X25519
/// shared secret.
pub open spec fn hybrid_key(secret: Seq<u8>, public_key: Seq<u8>) -> Seq<u8> {
    sha256_digest(x25519_shared(secret, public_key))
}

/// `m` seals `plaintext` for the holder of the secret whose public key is
/// `recipient_public`, under the 32-byte ephemeral secret `ephemeral`.
pub open spec fn hybrid_sealed(m: EncryptedMessage, ephemeral: Seq<u8>, recipient_public: Seq<u8>, plaintext: Seq<u8>) -> bool {
    &&& ephemeral.len() == 32
    &&& m.nonce@.len() == 12
    &&& m.ephemeral_public_key matches Some(k) && k@ == x25519_public_key(ephemeral) && k@.len() == 32
    &&& m.ciphertext@ == chacha_seal(hybrid_key(ephemeral, recipient_public), m.nonce@, plaintext)
    &&& m.ciphertext@.len() == plaintext.len() + 16
}

/// `r` is what opening the hybrid message `m` with `recipient_secret`
/// returns.
pub open spec fn hybrid_opened(m: EncryptedMessage, recipient_secret: Seq<u8>, r: Result<Vec<u8>, SecurityError>) -> bool {
    match m.ephemeral_public_key {
        None => r matches Err(SecurityError::Decryption),
        Some(k) => if k@.len() != 32 {
            r matches Err(SecurityError::InvalidKeyLength)
        } else if m.nonce@.len() != 12 {
            r matches Err(SecurityError::InvalidNonceLength)
        } else {
            &&& forall|e: Seq<u8>, p: Seq<u8>|
                e.len() == 32 && k@ == x25519_public_key(e) && m.ciphertext@ == #[trigger] chacha_seal(
                    hybrid_key(e, x25519_public_key(recipient_secret)),
                    m.nonce@,
                    p,
                ) && p.len() / 64 < u32::MAX ==> (r matches Ok(x) && x@ == p)
            &&& (r matches Ok(x) ==> m.ciphertext@ == chacha_seal(hybrid_key(recipient_secret, k@), m.nonce@, x@))
            &&& (r matches Err(e) ==> e is Decryption)
        },
    }
}

impl EncryptedMessage {
    /// Encrypts for the holder of `recipient_public` under a fresh
    /// ephemeral key pair, which is returned with the message.
    pub fn encrypt_hybrid(plaintext: &[u8], recipient_public: &[u8; 32]) -> (r: Result<(Self, DhKeyPair), SecurityError>)
        ensures
            r is Ok <==> plaintext@.len() / 64 < u32::MAX,
            r matches Ok((m, eph)) ==> eph.public_view() == x25519_public_key(eph.secret_view())
                && hybrid_sealed(m, eph.secret_view(), recipient_public@, plaintext@),
            r matches Err(e) ==> e is Encryption,
    {
        let ephemeral = DhKeyPair::generate();
        let shared = ephemeral.diffie_hellman(recipient_public);
        let key = sha256(shared.as_slice());
        let nonce = generate_nonce();
        let ciphertext = match chacha_encrypt(key.as_slice(), nonce.as_slice(), plaintext) {
            Ok(c) => c,
            Err(_) => {
                return Err(SecurityError::Encryption);
            },
        };
        let public = ephemeral.public_key();
        let message = EncryptedMessage {
            nonce: vstd::slice::slice_to_vec(nonce.as_slice()),
            ephemeral_public_key: Some(vstd::slice::slice_to_vec(public.as_slice())),
            ciphertext,
        };
        Ok((message, ephemeral))
    }

    /// Decrypts a hybrid message with the recipient's secret: the message
    /// must carry a 32-byte ephemeral public key and a 12-byte nonce.
    pub fn decrypt_hybrid(&self, recipient_secret: &[u8; 32]) -> (r: Result<Vec<u8>, SecurityError>)
        ensures
            hybrid_opened(*self, recipient_secret@, r),
    {
        let ephemeral_public = match &self.ephemeral_public_key {
            Some(k) => k,
            None => {
                return Err(SecurityError::Decryption);
            },
        };
        if ephemeral_public.len() != 32 {
            return Err(SecurityError::InvalidKeyLength);
        }
        let shared = x25519_dh(recipient_secret.as_slice(), ephemeral_public.as_slice());
        let key = sha256(shared.as_slice());
        if self.nonce.len() != 12 {
            return Err(SecurityError::InvalidNonceLength);
        }
        let r = chacha_decrypt(key.as_slice(), self.nonce.as_slice(), self.ciphertext.as_slice());
        proof {
            assert forall|e: Seq<u8>, p: Seq<u8>|
                e.len() == 32 && ephemeral_public@ == x25519_public_key(e) && self.ciphertext@ == #[trigger] chacha_seal(
                    hybrid_key(e, x25519_public_key(recipient_secret@)),
                    self.nonce@,
                    p,
                ) && p.len() / 64 < u32::MAX implies (r matches Ok(x) && x@ == p) by {
                assert(shared@ == x25519_shared(e, x25519_public_key(recipient_secret@)));
                assert(key@ == hybrid_key(e, x25519_public_key(recipient_secret@)));
            }
        }
        r
    }
}

/// Access control list (ACL) entry.
#[derive(Debug, Clone)]
pub struct AccessControlEntry {
    /// Agent ID allowed.
    pub agent_id: AgentId,
    /// Permissions: "read", "write", "admin", etc.
    pub permissions: Vec<String>,
    /// Resource pattern (e.g., "crdt/*"): a resource, or a prefix followed
    /// by `*`, which covers every resource that starts with that prefix.
    pub resource: String,
}

/// Whether a resource pattern covers a resource: the pattern is the
/// resource, or it ends in `*` and the resource starts with what comes
/// before the `*`.
pub open spec fn pattern_covers(pattern: Seq<char>, resource: Seq<char>) -> bool {
    ||| pattern == resource
    ||| (pattern.len() > 0 && pattern.last() == '*' && pattern.len() - 1 <= resource.len()
        && resource.subrange(0, pattern.len() - 1) == pattern.drop_last())
}

/// Whether a resource pattern covers a resource.
pub fn covers(pattern: &str, resource: &str) -> (r: bool)
    ensures
        r == pattern_covers(pattern@, resource@),
{
    if crate::text::str_eq(pattern, resource) {
        return true;
    }
    let n = pattern.unicode_len();
    if n == 0 || pattern.get_char(n - 1) != '*' {
        return false;
    }
    let m = resource.unicode_len();
    let p = n - 1;
    if p > m {
        return false;
    }
    let mut k: usize = 0;
    while k < p
        invariant
            n == pattern@.len(),
            m == resource@.len(),
            p == n - 1,
            p <= m,
            k <= p,
            forall|q: int| 0 <= q < k ==> resource@[q] == pattern@[q],
        decreases p - k,
    {
        if pattern.get_char(k) != resource.get_char(k) {
            assert(resource@.subrange(0, p as int)[k as int] != pattern@.drop_last()[k as int]);
            return false;
        }
        k = k + 1;
    }
    assert(resource@.subrange(0, p as int) =~= pattern@.drop_last());
    true
}

/// Whether `entry` lets `agent` perform `action` on `resource`: the agent
/// matches, the entry's pattern covers the resource, and the action is
/// among the entry's permissions.
pub open spec fn entry_grants(entry: AccessControlEntry, agent: AgentId, resource: Seq<char>, action: Seq<char>) -> bool {
    &&& entry.agent_id == agent
    &&& pattern_covers(entry.resource@, resource)
    &&& exists|k: int| 0 <= k < entry.permissions@.len() && (#[trigger] entry.permissions@[k])@ == action
}

/// Whether some entry of `entries` lets `agent` perform `action` on `resource`.
pub open spec fn acl_allows(entries: Seq<AccessControlEntry>, agent: AgentId, resource: Seq<char>, action: Seq<char>) -> bool {
    exists|i: int| 0 <= i < entries.len() && entry_grants(#[trigger] entries[i], agent, resource, action)
}

/// Simple ACL manager.
pub struct AccessControlList {
    entries: Vec<AccessControlEntry>,
}

impl AccessControlList {
    /// The entries, in insertion order.
    pub closed spec fn entries_view(&self) -> Seq<AccessControlEntry> {
        self.entries@
    }

    /// Creates an empty ACL.
    pub fn new() -> (r: Self)
        ensures
            r.entries_view() == Seq::<AccessControlEntry>::empty(),
    {
        AccessControlList { entries: Vec::new() }
    }

    /// Adds an entry.
    pub fn add_entry(&mut self, entry: AccessControlEntry)
        ensures
            final(self).entries_view() == old(self).entries_view().push(entry),
    {
        self.entries.push(entry);
    }

    /// Checks whether some entry lets the agent perform `action` on `resource`.
    pub fn check_permission(&self, agent_id: AgentId, resource: &str, action: &str) -> (r: bool)
        ensures
            r == acl_allows(self.entries_view(), agent_id, resource@, action@),
    {
        let n = self.entries.len();
        let mut i: usize = 0;
        while i < n
            invariant
                n == self.entries@.len(),
                i <= n,
                forall|j: int| 0 <= j < i ==> !entry_grants(#[trigger] self.entries@[j], agent_id, resource@, action@),
            decreases n - i,
        {
            let entry = &self.entries[i];
            assert(entry.agent_id.0 == agent_id.0 ==> entry.agent_id == agent_id);
            if entry.agent_id.0 == agent_id.0
                && covers(entry.resource.as_str(), resource)
                && Self::has_permission(&entry.permissions, action) {
                assert(entry.agent_id == agent_id);
                assert(entry_grants(self.entries_view()[i as int], agent_id, resource@, action@));
                return true;
            }
            i = i + 1;
        }
        false
    }

    fn has_permission(permissions: &Vec<String>, action: &str) -> (r: bool)
        ensures
            r == exists|k: int| 0 <= k < permissions@.len() && (#[trigger] permissions@[k])@ == action@,
    {
        let n = permissions.len();
        let mut k: usize = 0;
        while k < n
            invariant
                n == permissions@.len(),
                k <= n,
                forall|j: int| 0 <= j < k ==> (#[trigger] permissions@[j])@ != action@,
            decreases n - k,
        {
            if crate::text::str_eq(permissions[k].as_str(), action) {
                return true;
            }
            k = k + 1;
        }
        false
    }
}

} // verus!
