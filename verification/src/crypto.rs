//! AES-256-GCM encryption at rest for sensitive local data (clipboard
//! contents, rescued text).
//!
//! A blob is `nonce || ciphertext`: a fresh 96-bit nonce, then the AES-GCM
//! ciphertext with its 16-byte tag. The 256-bit data key is kept, Base64
//! encoded, in the OS credential store; reading and writing that store is the
//! caller's business, everything from the stored text on happens here.

use aes_gcm::aead::{Aead, AeadCore, KeyInit, OsRng};
use aes_gcm::{Aes256Gcm, Key, Nonce};
use base64::engine::general_purpose::STANDARD;
use base64::Engine;
use rand::RngCore;
use vstd::prelude::*;
use vstd::string::StringSliceAdditionalSpecFns;
use vstd::utf8::{decode_utf8, encode_utf8_decode_utf8, encode_utf8_valid_utf8, valid_utf8};

use crate::text::trim_str;

verus! {

/// Key length in bytes (AES-256).
pub const KEY_LEN: usize = 32;

/// Nonce length in bytes (96 bits).
pub const NONCE_LEN: usize = 12;

/// Authentication tag length in bytes.
pub const TAG_LEN: usize = 16;

/// Longest plaintext AES-GCM accepts (`aes_gcm::P_MAX`, 2^36 bytes).
pub const MAX_PLAINTEXT: u64 = 0x10_0000_0000;

// ---------------------------------------------------------------------------
// Names for what the outside crates compute
// ---------------------------------------------------------------------------

/// AES-256-GCM ciphertext-with-tag of `plaintext` under `key` and `nonce`, no associated data.
pub uninterp spec fn aes256gcm_seal(key: Seq<u8>, nonce: Seq<u8>, plaintext: Seq<u8>) -> Seq<u8>;

/// AES-256-GCM decryption of `ciphertext` (with its tag); `None` when it does not authenticate.
pub uninterp spec fn aes256gcm_open(key: Seq<u8>, nonce: Seq<u8>, ciphertext: Seq<u8>) -> Option<
    Seq<u8>,
>;

/// Standard (padded) Base64 encoding of `bytes`.
pub uninterp spec fn base64_encode(bytes: Seq<u8>) -> Seq<char>;

/// Standard (padded) Base64 decoding of `text`; `None` when it is not valid Base64.
pub uninterp spec fn base64_decode(text: Seq<char>) -> Option<Seq<u8>>;

/// `Aes256Gcm::new(key).encrypt(nonce, plaintext)`.
///
/// The crate fails exactly when the plaintext is longer than `P_MAX`;
/// otherwise the ciphertext is the plaintext's length plus the 16-byte tag,
/// and decrypting it under the same key and nonce gives the plaintext back
/// (the AEAD contract the crate documents).
#[verifier::external_body]
fn aes_encrypt(key: &[u8], nonce: &[u8], plaintext: &[u8]) -> (r: Option<Vec<u8>>)
    requires
        key.len() == KEY_LEN,
        nonce.len() == NONCE_LEN,
    ensures
        r is Some <==> plaintext.len() <= MAX_PLAINTEXT,
        r matches Some(c) ==> {
            &&& c@ == aes256gcm_seal(key@, nonce@, plaintext@)
            &&& c.len() == plaintext.len() + TAG_LEN
            &&& aes256gcm_open(key@, nonce@, c@) == Some(plaintext@)
        },
{
    let cipher = Aes256Gcm::new(Key::<Aes256Gcm>::from_slice(key));
    cipher.encrypt(Nonce::from_slice(nonce), plaintext).ok()
}

/// `Aes256Gcm::new(key).decrypt(nonce, ciphertext)` (aes-gcm). Claimed: the
/// result is exactly the named opening `aes256gcm_open`: the plaintext when the
/// ciphertext authenticates under the key and nonce, nothing otherwise.
#[verifier::external_body]
fn aes_decrypt(key: &[u8], nonce: &[u8], ciphertext: &[u8]) -> (r: Option<Vec<u8>>)
    requires
        key.len() == KEY_LEN,
        nonce.len() == NONCE_LEN,
    ensures
        r matches Some(p) ==> aes256gcm_open(key@, nonce@, ciphertext@) == Some(p@),
        r is None ==> aes256gcm_open(key@, nonce@, ciphertext@) is None,
{
    let cipher = Aes256Gcm::new(Key::<Aes256Gcm>::from_slice(key));
    cipher.decrypt(Nonce::from_slice(nonce), ciphertext).ok()
}

/// `Aes256Gcm::generate_nonce(&mut OsRng)` (aes-gcm). Claimed: 12 bytes; they
/// are random and nothing more is said of them.
#[verifier::external_body]
fn fresh_nonce() -> (n: Vec<u8>)
    ensures
        n.len() == NONCE_LEN,
{
    Aes256Gcm::generate_nonce(&mut OsRng).to_vec()
}

/// `OsRng.fill_bytes` (rand) on a 32-byte buffer. Claimed: 32 bytes; they are
/// random and nothing more is said of them.
#[verifier::external_body]
fn fresh_key() -> (k: Vec<u8>)
    ensures
        k.len() == KEY_LEN,
{
    let mut key = [0u8; 32];
    OsRng.fill_bytes(&mut key);
    key.to_vec()
}

/// A character of the standard Base64 alphabet, or the `=` padding.
pub open spec fn is_base64_char(c: char) -> bool {
    ('A' <= c <= 'Z') || ('a' <= c <= 'z') || ('0' <= c <= '9') || c == '+' || c == '/' || c == '='
}

/// `STANDARD.encode(bytes)`: text over the Base64 alphabet that decodes to
/// the bytes again.
#[verifier::external_body]
fn b64_encode(bytes: &[u8]) -> (s: String)
    ensures
        s@ == base64_encode(bytes@),
        forall|i: int| 0 <= i < s@.len() ==> is_base64_char(#[trigger] s@[i]),
        base64_decode(s@) == Some(bytes@),
{
    STANDARD.encode(bytes)
}

/// `STANDARD.decode(text)` (base64). Claimed: the result is exactly the named
/// decoding `base64_decode` of the text.
#[verifier::external_body]
fn b64_decode(text: &str) -> (r: Option<Vec<u8>>)
    ensures
        r matches Some(v) ==> base64_decode(text@) == Some(v@),
        r is None ==> base64_decode(text@) is None,
{
    STANDARD.decode(text).ok()
}

/// `String::from_utf8`: succeeds exactly on valid UTF-8, decoding it.
#[verifier::external_body]
fn utf8_string(bytes: Vec<u8>) -> (r: Option<String>)
    ensures
        r is Some <==> valid_utf8(bytes@),
        r matches Some(s) ==> s@ == decode_utf8(bytes@),
{
    String::from_utf8(bytes).ok()
}

// ---------------------------------------------------------------------------
// The cipher
// ---------------------------------------------------------------------------

#[derive(Clone, Copy, Debug, PartialEq, Eq, Structural)]
pub enum CryptoError {
    /// The vaulted key is not valid Base64.
    KeyNotBase64,
    /// The vaulted key does not decode to 32 bytes.
    KeyWrongLength,
    /// The plaintext is too long for AES-GCM.
    EncryptionFailed,
    /// The blob is shorter than a nonce.
    CiphertextTooShort,
    /// The blob does not authenticate under the key.
    DecryptionFailed,
    /// The decrypted bytes are not UTF-8.
    NotUtf8,
}

/// The text shown for each cipher error.
pub open spec fn crypto_message(e: CryptoError) -> Seq<char> {
    match e {
        CryptoError::KeyNotBase64 => "decode vaulted data key"@,
        CryptoError::KeyWrongLength => "corrupted data key in OS vault (wrong length)"@,
        CryptoError::EncryptionFailed => "encryption failed"@,
        CryptoError::CiphertextTooShort => "ciphertext too short"@,
        CryptoError::DecryptionFailed => "decryption failed (key changed?)"@,
        CryptoError::NotUtf8 => "invalid utf-8 in decrypted data"@,
    }
}

impl CryptoError {
    pub fn message(&self) -> (s: &'static str)
        ensures
            s@ == crypto_message(*self),
    {
        match self {
            CryptoError::KeyNotBase64 => "decode vaulted data key",
            CryptoError::KeyWrongLength => "corrupted data key in OS vault (wrong length)",
            CryptoError::EncryptionFailed => "encryption failed",
            CryptoError::CiphertextTooShort => "ciphertext too short",
            CryptoError::DecryptionFailed => "decryption failed (key changed?)",
            CryptoError::NotUtf8 => "invalid utf-8 in decrypted data",
        }
    }
}

/// The data cipher: a 256-bit AES-GCM key.
pub struct Crypto {
    key: Vec<u8>,
}

impl View for Crypto {
    type V = Seq<u8>;

    closed spec fn view(&self) -> Seq<u8> {
        self.key@
    }
}

/// What decrypting `blob` under `key` gives: the bytes after the nonce,
/// opened with that nonce.
pub open spec fn open_blob(key: Seq<u8>, blob: Seq<u8>) -> Result<Seq<u8>, CryptoError> {
    if blob.len() < NONCE_LEN {
        Err(CryptoError::CiphertextTooShort)
    } else {
        match aes256gcm_open(key, blob.take(NONCE_LEN as int), blob.skip(NONCE_LEN as int)) {
            Some(p) => Ok(p),
            None => Err(CryptoError::DecryptionFailed),
        }
    }
}

/// What decrypting `blob` to text gives.
pub open spec fn open_blob_text(key: Seq<u8>, blob: Seq<u8>) -> Result<Seq<char>, CryptoError> {
    match open_blob(key, blob) {
        Ok(p) => if valid_utf8(p) {
            Ok(decode_utf8(p))
        } else {
            Err(CryptoError::NotUtf8)
        },
        Err(e) => Err(e),
    }
}

/// What loading the vaulted key text gives: its trimmed Base64 decoding,
/// which must be 32 bytes.
pub open spec fn vaulted_key_spec(stored: Seq<char>) -> Result<Seq<u8>, CryptoError> {
    match base64_decode(crate::text::trim_seq(stored)) {
        None => Err(CryptoError::KeyNotBase64),
        Some(k) => if k.len() == KEY_LEN {
            Ok(k)
        } else {
            Err(CryptoError::KeyWrongLength)
        },
    }
}

impl Crypto {
    #[verifier::type_invariant]
    spec fn key_is_256_bits(&self) -> bool {
        self.key.len() == KEY_LEN
    }

    /// The cipher for a key read back from the credential store.
    pub fn from_vaulted_key(stored: &str) -> (r: Result<Crypto, CryptoError>)
        ensures
            match r {
                Ok(c) => vaulted_key_spec(stored@) == Ok::<Seq<u8>, CryptoError>(c@),
                Err(e) => vaulted_key_spec(stored@) == Err::<Seq<u8>, CryptoError>(e),
            },
    {
        let trimmed = trim_str(stored);
        match b64_decode(trimmed.as_str()) {
            None => Err(CryptoError::KeyNotBase64),
            Some(k) => {
                if k.len() == KEY_LEN {
                    Ok(Crypto { key: k })
                } else {
                    Err(CryptoError::KeyWrongLength)
                }
            },
        }
    }

    /// A cipher with a fresh random key, and the text to store for it.
    pub fn generate() -> (r: (Crypto, String))
        ensures
            r.0@.len() == KEY_LEN,
            r.1@ == base64_encode(r.0@),
            vaulted_key_spec(r.1@) == Ok::<Seq<u8>, CryptoError>(r.0@),
    {
        let key = fresh_key();
        let encoded = b64_encode(key.as_slice());
        proof {
            lemma_base64_has_no_outer_space(encoded@, key@);
        }
        (Crypto { key }, encoded)
    }

    /// Loads the data key from what the credential store holds, or creates
    /// one when it holds nothing. On creation, the second part is the text
    /// the caller must store.
    pub fn load_or_create(stored: Option<&str>) -> (r: Result<(Crypto, Option<String>), CryptoError>)
        ensures
            match stored {
                Some(s) => match r {
                    Ok(p) => p.1 is None && vaulted_key_spec(s@) == Ok::<Seq<u8>, CryptoError>(p.0@),
                    Err(e) => vaulted_key_spec(s@) == Err::<Seq<u8>, CryptoError>(e),
                },
                None => r matches Ok(p) && p.1 matches Some(t) && vaulted_key_spec(t@) == Ok::<
                    Seq<u8>,
                    CryptoError,
                >(p.0@),
            },
    {
        match stored {
            Some(s) => match Crypto::from_vaulted_key(s) {
                Ok(c) => Ok((c, None)),
                Err(e) => Err(e),
            },
            None => {
                let (c, text) = Crypto::generate();
                Ok((c, Some(text)))
            },
        }
    }

    /// Encrypts with a fresh random nonce; the blob is `nonce || ciphertext`.
    pub fn encrypt(&self, plaintext: &[u8]) -> (r: Result<Vec<u8>, CryptoError>)
        ensures
            r is Ok <==> plaintext.len() <= MAX_PLAINTEXT,
            r is Err ==> r == Err::<Vec<u8>, CryptoError>(CryptoError::EncryptionFailed),
            r matches Ok(blob) ==> {
                &&& blob.len() == NONCE_LEN + plaintext.len() + TAG_LEN
                &&& blob@.skip(NONCE_LEN as int) == aes256gcm_seal(
                    self@,
                    blob@.take(NONCE_LEN as int),
                    plaintext@,
                )
                &&& open_blob(self@, blob@) == Ok::<Seq<u8>, CryptoError>(plaintext@)
            },
    {
        proof {
            use_type_invariant(self);
        }
        let nonce = fresh_nonce();
        match aes_encrypt(self.key.as_slice(), nonce.as_slice(), plaintext) {
            None => Err(CryptoError::EncryptionFailed),
            Some(ct) => {
                let mut out = nonce;
                let mut ct = ct;
                let ghost n = out@;
                let ghost c = ct@;
                out.append(&mut ct);
                assert(out@.take(NONCE_LEN as int) =~= n);
                assert(out@.skip(NONCE_LEN as int) =~= c);
                Ok(out)
            },
        }
    }

    /// Decrypts a `nonce || ciphertext` blob.
    pub fn decrypt(&self, blob: &[u8]) -> (r: Result<Vec<u8>, CryptoError>)
        ensures
            match r {
                Ok(p) => open_blob(self@, blob@) == Ok::<Seq<u8>, CryptoError>(p@),
                Err(e) => open_blob(self@, blob@) == Err::<Seq<u8>, CryptoError>(e),
            },
    {
        proof {
            use_type_invariant(self);
        }
        if blob.len() < NONCE_LEN {
            return Err(CryptoError::CiphertextTooShort);
        }
        let nonce = slice_range(blob, 0, NONCE_LEN);
        let ct = slice_range(blob, NONCE_LEN, blob.len());
        assert(nonce@ =~= blob@.take(NONCE_LEN as int));
        assert(ct@ =~= blob@.skip(NONCE_LEN as int));
        match aes_decrypt(self.key.as_slice(), nonce.as_slice(), ct.as_slice()) {
            Some(p) => Ok(p),
            None => Err(CryptoError::DecryptionFailed),
        }
    }

    /// Encrypts the UTF-8 bytes of a string.
    pub fn encrypt_str(&self, s: &str) -> (r: Result<Vec<u8>, CryptoError>)
        ensures
            r is Ok <==> s.spec_bytes().len() <= MAX_PLAINTEXT,
            r is Err ==> r == Err::<Vec<u8>, CryptoError>(CryptoError::EncryptionFailed),
            r matches Ok(blob) ==> {
                &&& blob.len() == NONCE_LEN + s.spec_bytes().len() + TAG_LEN
                &&& open_blob(self@, blob@) == Ok::<Seq<u8>, CryptoError>(s.spec_bytes())
                &&& open_blob_text(self@, blob@) == Ok::<Seq<char>, CryptoError>(s@)
            },
    {
        let r = self.encrypt(s.as_bytes());
        proof {
            encode_utf8_valid_utf8(s@);
            encode_utf8_decode_utf8(s@);
        }
        r
    }

    /// Decrypts a blob and reads it as UTF-8 text.
    pub fn decrypt_str(&self, blob: &[u8]) -> (r: Result<String, CryptoError>)
        ensures
            match r {
                Ok(s) => open_blob_text(self@, blob@) == Ok::<Seq<char>, CryptoError>(s@),
                Err(e) => open_blob_text(self@, blob@) == Err::<Seq<char>, CryptoError>(e),
            },
    {
        match self.decrypt(blob) {
            Err(e) => Err(e),
            Ok(p) => match utf8_string(p) {
                Some(s) => Ok(s),
                None => Err(CryptoError::NotUtf8),
            },
        }
    }
}

proof fn lemma_base64_has_no_outer_space(s: Seq<char>, key: Seq<u8>)
    requires
        forall|i: int| 0 <= i < s.len() ==> is_base64_char(#[trigger] s[i]),
        base64_decode(s) == Some(key),
        key.len() == KEY_LEN,
    ensures
        vaulted_key_spec(s) == Ok::<Seq<u8>, CryptoError>(key),
{
    if s.len() > 0 {
        assert(is_base64_char(s[0]));
        assert(is_base64_char(s[s.len() - 1]));
    }
    assert(crate::text::lead_ws(s) == 0);
    assert(s.skip(0) =~= s);
    assert(crate::text::trail_ws(s) == 0);
    assert(s.take(s.len() as int) =~= s);
}

/// The bytes `s[from..to]` as a vector.
fn slice_range(s: &[u8], from: usize, to: usize) -> (r: Vec<u8>)
    requires
        from <= to <= s.len(),
    ensures
        r@ == s@.subrange(from as int, to as int),
{
    let mut r: Vec<u8> = Vec::new();
    let mut i = from;
    while i < to
        invariant
            from <= i <= to <= s.len(),
            r@ == s@.subrange(from as int, i as int),
        decreases to - i,
    {
        r.push(s[i]);
        i = i + 1;
    }
    r
}

} // verus!
