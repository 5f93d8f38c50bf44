//! Encryption of stored credentials with AES-256-GCM.
//!
//! The key is the base64 text of 32 bytes (the `ENCRYPTION_KEY` setting,
//! read by the application). A sealed value is the base64 text of a fresh
//! 12-byte nonce followed by the ciphertext.
use vstd::prelude::*;
use aes_gcm::aead::{Aead, KeyInit};
use base64::Engine;
use rand::RngCore;
use crate::json::{distinct_keys, json_view, JsonView, JsonValue, JsonMember, JsonNumber};
use crate::services::split_provider::superjson::{json_text, json_to_text};
use crate::text::{is_ws, owned, push_str, trim, trimmed, u64_text, nat_digits};

verus! {

// ───────────────────────────── outside calls ─────────────────────────────

/// What the STANDARD base64 engine decodes from `text`: the bytes, or the
/// text of its error.
pub uninterp spec fn base64_decoded(text: Seq<char>) -> Result<Seq<u8>, Seq<char>>;

/// What the STANDARD base64 engine encodes `bytes` as.
pub uninterp spec fn base64_text(bytes: Seq<u8>) -> Seq<char>;

/// The characters of the standard base64 alphabet, with padding.
pub open spec fn base64_char(c: char) -> bool {
    ('A' <= c <= 'Z') || ('a' <= c <= 'z') || ('0' <= c <= '9') || c == '+' || c == '/' || c == '='
}

/// Whether `text` decodes to `bytes`.
pub open spec fn decodes_to(text: Seq<char>, bytes: Seq<u8>) -> bool {
    base64_decoded(text) == Ok::<Seq<u8>, Seq<char>>(bytes)
}

pub open spec fn all_base64_chars(s: Seq<char>) -> bool {
    forall|i: int| 0 <= i < s.len() ==> base64_char(#[trigger] s[i])
}

/// `STANDARD.encode(bytes)`. Its text is named by `base64_text`; it is made
/// of the standard alphabet, and decoding it gives the bytes back.
#[verifier::external_body]
pub(crate) fn base64_encode(bytes: &[u8]) -> (res: String)
    requires
        bytes@.len() <= usize::MAX / 2,
    ensures
        res@ == base64_text(bytes@),
        all_base64_chars(res@),
        decodes_to(res@, bytes@),
{
    base64::engine::general_purpose::STANDARD.encode(bytes)
}

/// `STANDARD.decode(text)`, its error as text (`Display`).
#[verifier::external_body]
pub(crate) fn base64_decode(text: &str) -> (res: Result<Vec<u8>, String>)
    ensures
        match res {
            Ok(b) => base64_decoded(text@) == Ok::<Seq<u8>, Seq<char>>(b@),
            Err(m) => base64_decoded(text@) == Err::<Seq<u8>, Seq<char>>(m@),
        },
{
    base64::engine::general_purpose::STANDARD.decode(text).map_err(|e| e.to_string())
}

/// The ciphertext AES-256-GCM makes of `plaintext` with `key` and `nonce`
/// (`None` where it refuses).
pub uninterp spec fn aes_gcm_sealed(key: Seq<u8>, nonce: Seq<u8>, plaintext: Seq<u8>) -> Option<Seq<u8>>;

/// The plaintext AES-256-GCM recovers from `ciphertext` with `key` and
/// `nonce` (`None` where the tag does not check out).
pub uninterp spec fn aes_gcm_opened(key: Seq<u8>, nonce: Seq<u8>, ciphertext: Seq<u8>) -> Option<Seq<u8>>;

/// The longest plaintext AES-GCM encrypts (`P_MAX`, 2^36 bytes).
pub open spec fn aes_gcm_plaintext_max() -> int {
    68719476736
}

/// `Aes256Gcm::new_from_slice(key)` then `encrypt(nonce, plaintext)`; the
/// error is aead's `Display` ("aead::Error"). What the ciphertext is is
/// named by `aes_gcm_sealed`; opening it with the same key and nonce gives
/// the plaintext back. Encryption refuses only a plaintext longer than
/// `P_MAX`; the ciphertext is the plaintext's length plus the 16-byte tag.
#[verifier::external_body]
pub(crate) fn aes_gcm_seal(key: &[u8], nonce: &[u8], plaintext: &[u8]) -> (res: Result<Vec<u8>, String>)
    requires
        key@.len() == 32,
        nonce@.len() == 12,
    ensures
        match res {
            Ok(c) => aes_gcm_sealed(key@, nonce@, plaintext@) == Some(c@) && aes_gcm_opened(key@, nonce@, c@)
                == Some(plaintext@) && c@.len() == plaintext@.len() + 16,
            Err(m) => aes_gcm_sealed(key@, nonce@, plaintext@) is None && m@ == "aead::Error"@,
        },
        plaintext@.len() <= aes_gcm_plaintext_max() ==> res is Ok,
{
    let cipher = aes_gcm::Aes256Gcm::new_from_slice(key).map_err(|e| e.to_string())?;
    cipher.encrypt(aes_gcm::Nonce::from_slice(nonce), plaintext).map_err(|e| e.to_string())
}

/// `Aes256Gcm::new_from_slice(key)` then `decrypt(nonce, ciphertext)`.
#[verifier::external_body]
pub(crate) fn aes_gcm_open(key: &[u8], nonce: &[u8], ciphertext: &[u8]) -> (res: Result<Vec<u8>, String>)
    requires
        key@.len() == 32,
        nonce@.len() == 12,
    ensures
        match res {
            Ok(p) => aes_gcm_opened(key@, nonce@, ciphertext@) == Some(p@),
            Err(m) => aes_gcm_opened(key@, nonce@, ciphertext@) is None && m@ == "aead::Error"@,
        },
{
    let cipher = aes_gcm::Aes256Gcm::new_from_slice(key).map_err(|e| e.to_string())?;
    cipher.decrypt(aes_gcm::Nonce::from_slice(nonce), ciphertext).map_err(|e| e.to_string())
}

/// `n` bytes from the operating system's random source (`OsRng`); nothing
/// is promised of their values.
#[verifier::external_body]
pub(crate) fn random_bytes(n: usize) -> (res: Vec<u8>)
    ensures
        res@.len() == n,
{
    let mut bytes = vec![0u8; n];
    rand::rngs::OsRng.fill_bytes(&mut bytes);
    bytes
}

/// What `serde_json::from_slice` reads from `bytes`: the value, or the text
/// of its error.
pub uninterp spec fn parsed_json(bytes: Seq<u8>) -> Result<JsonView, Seq<char>>;

/// `serde_json::from_slice::<serde_json::Value>(bytes)`, as a `JsonValue`.
/// An object's members come from a `serde_json::Map`, whose keys are
/// distinct.
#[verifier::external_body]
pub(crate) fn parse_json(bytes: &[u8]) -> (res: Result<JsonValue, String>)
    ensures
        match res {
            Ok(v) => parsed_json(bytes@) == Ok::<JsonView, Seq<char>>(json_view(v)) && distinct_keys(json_view(v)),
            Err(m) => parsed_json(bytes@) == Err::<JsonView, Seq<char>>(m@),
        },
{
    serde_json::from_slice::<serde_json::Value>(bytes).map(|v| from_serde(&v)).map_err(|e| e.to_string())
}

#[verifier::external_type_specification]
#[verifier::external_body]
pub struct ExSerdeValue(serde_json::Value);

#[verifier::external_type_specification]
#[verifier::external_body]
pub struct ExSerdeNumber(serde_json::Number);

/// A `serde_json::Number` as a `JsonNumber`: an `i64`, else a `u64`, else
/// its text.
#[verifier::external_body]
fn number_from_serde(n: &serde_json::Number) -> JsonNumber {
    match (n.as_i64(), n.as_u64()) {
        (Some(i), _) => JsonNumber::Int(i),
        (None, Some(u)) => JsonNumber::UInt(u),
        _ => JsonNumber::Real(n.to_string()),
    }
}

/// A `serde_json::Value` as a `JsonValue`, member for member.
#[verifier::external_body]
fn from_serde(v: &serde_json::Value) -> JsonValue {
    match v {
        serde_json::Value::Null => JsonValue::Null,
        serde_json::Value::Bool(b) => JsonValue::Bool(*b),
        serde_json::Value::Number(n) => JsonValue::Number(number_from_serde(n)),
        serde_json::Value::String(s) => JsonValue::String(s.clone()),
        serde_json::Value::Array(a) => JsonValue::Array(a.iter().map(from_serde).collect()),
        serde_json::Value::Object(m) => JsonValue::Object(
            m.iter().map(|(k, x)| JsonMember { key: k.clone(), value: from_serde(x) }).collect(),
        ),
    }
}

// ───────────────────────────── sealing ─────────────────────────────

/// Why credentials could not be sealed or opened.
#[derive(Debug, Clone)]
pub enum EncryptionError {
    KeyNotConfigured,
    InvalidKeyFormat(String),
    EncryptionFailed(String),
    DecryptionFailed(String),
    JsonError(String),
}

pub enum EncryptionErrorView {
    KeyNotConfigured,
    InvalidKeyFormat(Seq<char>),
    EncryptionFailed(Seq<char>),
    DecryptionFailed(Seq<char>),
    JsonError(Seq<char>),
}

pub open spec fn encryption_error_view(e: EncryptionError) -> EncryptionErrorView {
    match e {
        EncryptionError::KeyNotConfigured => EncryptionErrorView::KeyNotConfigured,
        EncryptionError::InvalidKeyFormat(m) => EncryptionErrorView::InvalidKeyFormat(m@),
        EncryptionError::EncryptionFailed(m) => EncryptionErrorView::EncryptionFailed(m@),
        EncryptionError::DecryptionFailed(m) => EncryptionErrorView::DecryptionFailed(m@),
        EncryptionError::JsonError(m) => EncryptionErrorView::JsonError(m@),
    }
}

impl EncryptionError {
    /// The error's message.
    pub fn message(&self) -> (res: String)
        ensures
            res@ == encryption_error_message(encryption_error_view(*self)),
    {
        match self {
            EncryptionError::KeyNotConfigured => owned("Encryption key not configured. Set ENCRYPTION_KEY environment variable"),
            EncryptionError::InvalidKeyFormat(m) => {
                let mut s = owned("Invalid encryption key format: ");
                push_str(&mut s, m.as_str());
                s
            },
            EncryptionError::EncryptionFailed(m) => {
                let mut s = owned("Encryption failed: ");
                push_str(&mut s, m.as_str());
                s
            },
            EncryptionError::DecryptionFailed(m) => {
                let mut s = owned("Decryption failed: ");
                push_str(&mut s, m.as_str());
                s
            },
            EncryptionError::JsonError(m) => {
                let mut s = owned("JSON serialization error: ");
                push_str(&mut s, m.as_str());
                s
            },
        }
    }
}

pub open spec fn encryption_error_message(e: EncryptionErrorView) -> Seq<char> {
    match e {
        EncryptionErrorView::KeyNotConfigured => "Encryption key not configured. Set ENCRYPTION_KEY environment variable"@,
        EncryptionErrorView::InvalidKeyFormat(m) => "Invalid encryption key format: "@ + m,
        EncryptionErrorView::EncryptionFailed(m) => "Encryption failed: "@ + m,
        EncryptionErrorView::DecryptionFailed(m) => "Decryption failed: "@ + m,
        EncryptionErrorView::JsonError(m) => "JSON serialization error: "@ + m,
    }
}

/// The key bytes a setting gives: the base64 text (trimmed) decoded to
/// exactly 32 bytes.
pub open spec fn key_of(setting: Option<Seq<char>>) -> Result<Seq<u8>, EncryptionErrorView> {
    match setting {
        None => Err(EncryptionErrorView::KeyNotConfigured),
        Some(t) => match base64_decoded(trimmed(t)) {
            Err(m) => Err(EncryptionErrorView::InvalidKeyFormat(m)),
            Ok(k) => if k.len() == 32 {
                Ok(k)
            } else {
                Err(EncryptionErrorView::InvalidKeyFormat("Key must be 32 bytes, got "@ + nat_digits(k.len())))
            },
        },
    }
}

pub open spec fn opt_view(o: Option<&str>) -> Option<Seq<char>> {
    match o {
        Some(s) => Some(s@),
        None => None,
    }
}

/// The 32 key bytes of the `ENCRYPTION_KEY` setting (`key_of`).
pub fn encryption_key(setting: Option<&str>) -> (res: Result<Vec<u8>, EncryptionError>)
    ensures
        match key_of(opt_view(setting)) {
            Ok(k) => res matches Ok(b) && b@ == k,
            Err(v) => res matches Err(e) && encryption_error_view(e) == v,
        },
{
    let text = match setting {
        Some(t) => t,
        None => {
            return Err(EncryptionError::KeyNotConfigured);
        },
    };
    let trimmed_text = trim(text);
    let key = match base64_decode(trimmed_text.as_str()) {
        Ok(k) => k,
        Err(m) => {
            return Err(EncryptionError::InvalidKeyFormat(m));
        },
    };
    if key.len() != 32 {
        let mut m = owned("Key must be 32 bytes, got ");
        push_str(&mut m, u64_text(key.len() as u64).as_str());
        return Err(EncryptionError::InvalidKeyFormat(m));
    }
    Ok(key)
}

/// What opening a sealed text gives: the plaintext, or why it fails.
pub open spec fn opened_text(setting: Option<Seq<char>>, encrypted: Seq<char>) -> Result<Seq<u8>, EncryptionErrorView> {
    match key_of(setting) {
        Err(e) => Err(e),
        Ok(key) => match base64_decoded(trimmed(encrypted)) {
            Err(m) => Err(EncryptionErrorView::DecryptionFailed("Base64 decode error: "@ + m)),
            Ok(bytes) => if bytes.len() < 12 {
                Err(EncryptionErrorView::DecryptionFailed("Encrypted data too short"@))
            } else {
                match aes_gcm_opened(key, bytes.subrange(0, 12), bytes.subrange(12, bytes.len() as int)) {
                    Some(p) => Ok(p),
                    None => Err(EncryptionErrorView::DecryptionFailed("aead::Error"@)),
                }
            },
        },
    }
}

/// Seals `plaintext` with the key of the setting: a fresh random nonce,
/// then the ciphertext, as base64. Opening the result with the same key
/// gives the plaintext back.
pub fn seal_bytes(setting: Option<&str>, plaintext: &[u8]) -> (res: Result<String, EncryptionError>)
    requires
        plaintext@.len() <= usize::MAX / 4,
    ensures
        key_of(opt_view(setting)) matches Err(v) ==> (res matches Err(e) && encryption_error_view(e) == v),
        res matches Ok(s) ==> opened_text(opt_view(setting), s@) == Ok::<Seq<u8>, EncryptionErrorView>(plaintext@),
        key_of(opt_view(setting)) is Ok && plaintext@.len() <= aes_gcm_plaintext_max() ==> res is Ok,
{
    let key = match encryption_key(setting) {
        Ok(k) => k,
        Err(e) => {
            return Err(e);
        },
    };
    let nonce = random_bytes(12);
    let ciphertext = match aes_gcm_seal(key.as_slice(), nonce.as_slice(), plaintext) {
        Ok(c) => c,
        Err(m) => {
            return Err(EncryptionError::EncryptionFailed(m));
        },
    };
    let mut sealed = nonce;
    let mut rest = ciphertext;
    let ghost n = sealed@;
    let ghost c = rest@;
    sealed.append(&mut rest);
    let text = base64_encode(sealed.as_slice());
    proof {
        assert(sealed@.subrange(0, 12) =~= n);
        assert(sealed@.subrange(12, sealed@.len() as int) =~= c);
        crate::text::lemma_trim_no_ws(text@);
    }
    Ok(text)
}

/// Opens a sealed text with the key of the setting (`opened_text`).
pub fn open_bytes(setting: Option<&str>, encrypted: &str) -> (res: Result<Vec<u8>, EncryptionError>)
    ensures
        match opened_text(opt_view(setting), encrypted@) {
            Ok(p) => res matches Ok(b) && b@ == p,
            Err(v) => res matches Err(e) && encryption_error_view(e) == v,
        },
{
    let key = match encryption_key(setting) {
        Ok(k) => k,
        Err(e) => {
            return Err(e);
        },
    };
    let trimmed_text = trim(encrypted);
    let bytes = match base64_decode(trimmed_text.as_str()) {
        Ok(b) => b,
        Err(m) => {
            let mut s = owned("Base64 decode error: ");
            push_str(&mut s, m.as_str());
            return Err(EncryptionError::DecryptionFailed(s));
        },
    };
    if bytes.len() < 12 {
        return Err(EncryptionError::DecryptionFailed(owned("Encrypted data too short")));
    }
    let mut nonce = bytes;
    let ciphertext = nonce.split_off(12);
    match aes_gcm_open(key.as_slice(), nonce.as_slice(), ciphertext.as_slice()) {
        Ok(p) => Ok(p),
        Err(m) => Err(EncryptionError::DecryptionFailed(m)),
    }
}

/// Opens sealed credentials and reads them as JSON.
pub fn decrypt_credentials(setting: Option<&str>, encrypted: &str) -> (res: Result<JsonValue, EncryptionError>)
    ensures
        match opened_text(opt_view(setting), encrypted@) {
            Ok(p) => match parsed_json(p) {
                Ok(j) => res matches Ok(v) && json_view(v) == j,
                Err(m) => res matches Err(e) && encryption_error_view(e) == EncryptionErrorView::JsonError(m),
            },
            Err(v) => res matches Err(e) && encryption_error_view(e) == v,
        },
{
    let bytes = match open_bytes(setting, encrypted) {
        Ok(b) => b,
        Err(e) => {
            return Err(e);
        },
    };
    match parse_json(bytes.as_slice()) {
        Ok(v) => Ok(v),
        Err(m) => Err(EncryptionError::JsonError(m)),
    }
}

/// Seals credentials: their JSON text (`json_text`) sealed with the key of
/// the setting (`seal_bytes`). Opening the result gives that text back.
pub fn encrypt_credentials(setting: Option<&str>, credentials: &JsonValue) -> (res: Result<String, EncryptionError>)
    ensures
        key_of(opt_view(setting)) matches Err(v) ==> (res matches Err(e) && encryption_error_view(e) == v),
        res matches Ok(s) ==> opened_text(opt_view(setting), s@) == Ok::<Seq<u8>, EncryptionErrorView>(
            vstd::utf8::encode_utf8(json_text(json_view(*credentials))),
        ),
        ({
            let n = vstd::utf8::encode_utf8(json_text(json_view(*credentials))).len();
            key_of(opt_view(setting)) is Ok && n <= aes_gcm_plaintext_max() && n <= usize::MAX / 4 ==> res is Ok
        }),
        ({
            let n = vstd::utf8::encode_utf8(json_text(json_view(*credentials))).len();
            key_of(opt_view(setting)) is Ok && n > usize::MAX / 4 ==> (res matches Err(e) && encryption_error_view(e)
                == EncryptionErrorView::EncryptionFailed("aead::Error"@))
        }),
{
    match encryption_key(setting) {
        Ok(_) => {},
        Err(e) => {
            return Err(e);
        },
    }
    let text = json_to_text(credentials);
    let bytes = text.as_str().as_bytes();
    if bytes.len() > usize::MAX / 4 {
        return Err(EncryptionError::EncryptionFailed(owned("aead::Error")));
    }
    seal_bytes(setting, bytes)
}

} // verus!
