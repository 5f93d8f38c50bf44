//! Signed OAuth `state` parameters.
//!
//! A state carries the user's ID through the provider's redirect, sealed
//! with AES-256-GCM under the credentials key so that it cannot be forged:
//! base64url (no padding) of a 12-byte nonce followed by the sealed text
//! `"<user id>:<32 random hex digits>"`.
use vstd::prelude::*;
use base64::Engine;
use crate::text::{owned, push_char, push_str, trim, trimmed, is_ws, lemma_trim_no_ws};
use crate::utils::encryption::{
    aes_gcm_open, aes_gcm_opened, aes_gcm_seal, encryption_key, key_of, opt_view, random_bytes,
    EncryptionError, EncryptionErrorView,
};

verus! {

// ───────────────────────────── outside calls ─────────────────────────────

/// What the URL_SAFE_NO_PAD base64 engine decodes from `text`.
pub uninterp spec fn base64url_decoded(text: Seq<char>) -> Result<Seq<u8>, Seq<char>>;

/// What the URL_SAFE_NO_PAD base64 engine encodes `bytes` as.
pub uninterp spec fn base64url_text(bytes: Seq<u8>) -> Seq<char>;

/// The characters of the URL-safe base64 alphabet.
pub open spec fn base64url_char(c: char) -> bool {
    ('A' <= c <= 'Z') || ('a' <= c <= 'z') || ('0' <= c <= '9') || c == '-' || c == '_'
}

pub open spec fn all_base64url_chars(s: Seq<char>) -> bool {
    forall|i: int| 0 <= i < s.len() ==> base64url_char(#[trigger] s[i])
}

pub open spec fn url_decodes_to(text: Seq<char>, bytes: Seq<u8>) -> bool {
    base64url_decoded(text) == Ok::<Seq<u8>, Seq<char>>(bytes)
}

/// `URL_SAFE_NO_PAD.encode(bytes)`: named by `base64url_text`; made of the
/// URL-safe alphabet; decoding it gives the bytes back.
#[verifier::external_body]
pub(crate) fn base64url_encode(bytes: &[u8]) -> (res: String)
    requires
        bytes@.len() <= usize::MAX / 2,
    ensures
        res@ == base64url_text(bytes@),
        all_base64url_chars(res@),
        url_decodes_to(res@, bytes@),
{
    base64::engine::general_purpose::URL_SAFE_NO_PAD.encode(bytes)
}

/// `URL_SAFE_NO_PAD.decode(text)`, its error as text.
#[verifier::external_body]
pub(crate) fn base64url_decode(text: &str) -> (res: Result<Vec<u8>, String>)
    ensures
        match res {
            Ok(b) => base64url_decoded(text@) == Ok::<Seq<u8>, Seq<char>>(b@),
            Err(m) => base64url_decoded(text@) == Err::<Seq<u8>, Seq<char>>(m@),
        },
{
    base64::engine::general_purpose::URL_SAFE_NO_PAD.decode(text).map_err(|e| e.to_string())
}

/// The `k`-th hexadecimal digit of `id`, from the most significant.
pub open spec fn uuid_digit(id: u128, k: int) -> char {
    hex_lower((id as int / vstd::arithmetic::power::pow(16, (31 - k) as nat)) % 16)
}

/// The hyphenated lower-case text of a UUID (`Uuid::to_string`): its 32
/// hexadecimal digits, most significant first, in groups of 8, 4, 4, 4
/// and 12.
pub open spec fn uuid_text(id: u128) -> Seq<char> {
    let h = Seq::new(32, |k: int| uuid_digit(id, k));
    h.subrange(0, 8) + seq!['-'] + h.subrange(8, 12) + seq!['-'] + h.subrange(12, 16) + seq!['-'] + h.subrange(16, 20)
        + seq!['-'] + h.subrange(20, 32)
}

/// The UUID `Uuid::parse_str` reads from `s`.
pub uninterp spec fn uuid_parsed(s: Seq<char>) -> Option<u128>;

/// A character of a hyphenated UUID: a lower-case hexadecimal digit or `-`.
pub open spec fn uuid_char(c: char) -> bool {
    ('0' <= c <= '9') || ('a' <= c <= 'f') || c == '-'
}

pub open spec fn all_uuid_chars(s: Seq<char>) -> bool {
    forall|i: int| 0 <= i < s.len() ==> uuid_char(#[trigger] s[i])
}

pub open spec fn reads_back(s: Seq<char>, id: u128) -> bool {
    uuid_parsed(s) == Some(id)
}

/// `Uuid::from_u128(id).to_string()`: the hyphenated lower-case text
/// `uuid_text`; `Uuid::parse_str` reads it back.
#[verifier::external_body]
pub(crate) fn uuid_to_text(id: u128) -> (res: String)
    ensures
        res@ == uuid_text(id),
        reads_back(res@, id),
{
    uuid::Uuid::from_u128(id).to_string()
}

/// The text of a UUID has 36 characters, each a lower-case hexadecimal
/// digit or `-`.
pub proof fn lemma_uuid_text(id: u128)
    ensures
        uuid_text(id).len() == 36,
        all_uuid_chars(uuid_text(id)),
{
    let h = Seq::new(32, |k: int| uuid_digit(id, k));
    assert forall|k: int| 0 <= k < 32 implies uuid_char(#[trigger] h[k]) by {
        let d = (id as int / vstd::arithmetic::power::pow(16, (31 - k) as nat)) % 16;
        assert(0 <= d < 16);
    }
    let t = uuid_text(id);
    assert forall|i: int| 0 <= i < t.len() implies uuid_char(#[trigger] t[i]) by {
        if i < 8 {
            assert(t[i] == h[i]);
        } else if i == 8 || i == 13 || i == 18 || i == 23 {
        } else if i < 13 {
            assert(t[i] == h[i - 1]);
        } else if i < 18 {
            assert(t[i] == h[i - 2]);
        } else if i < 23 {
            assert(t[i] == h[i - 3]);
        } else {
            assert(t[i] == h[i - 4]);
        }
    }
}

/// `Uuid::parse_str(s)`.
#[verifier::external_body]
pub(crate) fn parse_uuid(s: &str) -> (res: Option<u128>)
    ensures
        res == uuid_parsed(s@),
{
    uuid::Uuid::parse_str(s).ok().map(|u| u.as_u128())
}

/// `String::from_utf8(bytes)`: the text when the bytes are valid UTF-8.
#[verifier::external_body]
pub(crate) fn utf8_string(bytes: Vec<u8>) -> (res: Option<String>)
    ensures
        match res {
            Some(s) => vstd::utf8::valid_utf8(bytes@) && s@ == vstd::utf8::decode_utf8(bytes@),
            None => !vstd::utf8::valid_utf8(bytes@),
        },
{
    String::from_utf8(bytes).ok()
}

// ───────────────────────────── states ─────────────────────────────

/// Why a state could not be made or read.
#[derive(Debug, Clone)]
pub enum OAuthStateError {
    KeyNotConfigured,
    InvalidKeyFormat(String),
    CreationFailed(String),
    ValidationFailed(String),
}

pub enum OAuthStateErrorView {
    KeyNotConfigured,
    InvalidKeyFormat(Seq<char>),
    CreationFailed(Seq<char>),
    ValidationFailed(Seq<char>),
}

pub open spec fn oauth_error_view(e: OAuthStateError) -> OAuthStateErrorView {
    match e {
        OAuthStateError::KeyNotConfigured => OAuthStateErrorView::KeyNotConfigured,
        OAuthStateError::InvalidKeyFormat(m) => OAuthStateErrorView::InvalidKeyFormat(m@),
        OAuthStateError::CreationFailed(m) => OAuthStateErrorView::CreationFailed(m@),
        OAuthStateError::ValidationFailed(m) => OAuthStateErrorView::ValidationFailed(m@),
    }
}

/// The key error of a state.
pub open spec fn key_error(e: EncryptionErrorView) -> OAuthStateErrorView {
    match e {
        EncryptionErrorView::InvalidKeyFormat(m) => OAuthStateErrorView::InvalidKeyFormat(m),
        _ => OAuthStateErrorView::KeyNotConfigured,
    }
}

fn state_key(setting: Option<&str>) -> (res: Result<Vec<u8>, OAuthStateError>)
    ensures
        match key_of(opt_view(setting)) {
            Ok(k) => res matches Ok(b) && b@ == k,
            Err(v) => res matches Err(e) && oauth_error_view(e) == key_error(v),
        },
{
    match encryption_key(setting) {
        Ok(k) => Ok(k),
        Err(EncryptionError::InvalidKeyFormat(m)) => Err(OAuthStateError::InvalidKeyFormat(m)),
        Err(_) => Err(OAuthStateError::KeyNotConfigured),
    }
}

/// A lower-case hexadecimal digit (0 ≤ d < 16).
pub open spec fn hex_lower(d: int) -> char {
    if d == 0 {
        '0'
    } else if d == 1 {
        '1'
    } else if d == 2 {
        '2'
    } else if d == 3 {
        '3'
    } else if d == 4 {
        '4'
    } else if d == 5 {
        '5'
    } else if d == 6 {
        '6'
    } else if d == 7 {
        '7'
    } else if d == 8 {
        '8'
    } else if d == 9 {
        '9'
    } else if d == 10 {
        'a'
    } else if d == 11 {
        'b'
    } else if d == 12 {
        'c'
    } else if d == 13 {
        'd'
    } else if d == 14 {
        'e'
    } else {
        'f'
    }
}

/// Two lower-case hexadecimal digits per byte (`format!("{:02x}", b)`).
pub open spec fn hex_of(bytes: Seq<u8>) -> Seq<char>
    decreases bytes.len(),
{
    if bytes.len() == 0 {
        Seq::empty()
    } else {
        hex_of(bytes.drop_last()) + seq![hex_lower(bytes.last() as int / 16), hex_lower(bytes.last() as int % 16)]
    }
}

fn hex_digit_lower(d: u8) -> (res: char)
    requires
        d < 16,
    ensures
        res == hex_lower(d as int),
{
    if d == 0 {
        '0'
    } else if d == 1 {
        '1'
    } else if d == 2 {
        '2'
    } else if d == 3 {
        '3'
    } else if d == 4 {
        '4'
    } else if d == 5 {
        '5'
    } else if d == 6 {
        '6'
    } else if d == 7 {
        '7'
    } else if d == 8 {
        '8'
    } else if d == 9 {
        '9'
    } else if d == 10 {
        'a'
    } else if d == 11 {
        'b'
    } else if d == 12 {
        'c'
    } else if d == 13 {
        'd'
    } else if d == 14 {
        'e'
    } else {
        'f'
    }
}

/// The hexadecimal text of `bytes` (`hex_of`).
fn hex_string(bytes: &Vec<u8>) -> (res: String)
    ensures
        res@ == hex_of(bytes@),
{
    let mut s = String::new();
    let mut k: usize = 0;
    while k < bytes.len()
        invariant
            k <= bytes@.len(),
            s@ == hex_of(bytes@.take(k as int)),
        decreases bytes@.len() - k,
    {
        let b = bytes[k];
        assert(bytes@.take(k + 1).drop_last() == bytes@.take(k as int));
        push_char(&mut s, hex_digit_lower(b / 16));
        push_char(&mut s, hex_digit_lower(b % 16));
        k = k + 1;
    }
    assert(bytes@.take(bytes@.len() as int) == bytes@);
    s
}

proof fn lemma_hex_ascii(bytes: Seq<u8>)
    ensures
        hex_of(bytes).len() == 2 * bytes.len(),
        vstd::utf8::is_ascii_chars(hex_of(bytes)),
    decreases bytes.len(),
{
    if bytes.len() > 0 {
        lemma_hex_ascii(bytes.drop_last());
        let prev = hex_of(bytes.drop_last());
        let h = hex_of(bytes);
        assert forall|i: int| 0 <= i < h.len() implies '\0' <= #[trigger] h[i] <= '\u{7f}' by {
            if i < prev.len() {
                assert(h[i] == prev[i]);
            } else if i == prev.len() {
                assert(h[i] == hex_lower(bytes.last() as int / 16));
            } else {
                assert(h[i] == hex_lower(bytes.last() as int % 16));
            }
        }
    }
}

proof fn lemma_hex_no_colon(bytes: Seq<u8>)
    ensures
        forall|i: int| 0 <= i < hex_of(bytes).len() ==> #[trigger] hex_of(bytes)[i] != ':',
    decreases bytes.len(),
{
    if bytes.len() > 0 {
        lemma_hex_no_colon(bytes.drop_last());
        let prev = hex_of(bytes.drop_last());
        let h = hex_of(bytes);
        assert forall|i: int| 0 <= i < h.len() implies #[trigger] h[i] != ':' by {
            if i < prev.len() {
                assert(h[i] == prev[i]);
            } else if i == prev.len() {
                assert(h[i] == hex_lower(bytes.last() as int / 16));
            } else {
                assert(h[i] == hex_lower(bytes.last() as int % 16));
            }
        }
    }
}

/// The position of the last `c` in `s`.
pub open spec fn last_index_of(s: Seq<char>, c: char, n: int) -> Option<int>
    decreases n,
{
    if n <= 0 {
        None
    } else if s[n - 1] == c {
        Some(n - 1)
    } else {
        last_index_of(s, c, n - 1)
    }
}

/// `str::rfind(c)` (`last_index_of`).
fn rfind_char(s: &str, c: char) -> (res: Option<usize>)
    ensures
        match res {
            Some(k) => last_index_of(s@, c, s@.len() as int) == Some(k as int) && k < s@.len(),
            None => last_index_of(s@, c, s@.len() as int) is None,
        },
{
    let n = s.unicode_len();
    let mut k: usize = n;
    while k > 0
        invariant
            n == s@.len(),
            k <= n,
            last_index_of(s@, c, n as int) == last_index_of(s@, c, k as int),
        decreases k,
    {
        if s.get_char(k - 1) == c {
            return Some(k - 1);
        }
        k = k - 1;
    }
    None
}

/// What reading `state` gives: the user ID, or why it fails.
pub open spec fn state_reading(setting: Option<Seq<char>>, state: Seq<char>) -> Result<u128, OAuthStateErrorView> {
    match key_of(setting) {
        Err(e) => Err(key_error(e)),
        Ok(key) => match base64url_decoded(trimmed(state)) {
            Err(m) => Err(OAuthStateErrorView::ValidationFailed("Base64 decode error: "@ + m)),
            Ok(bytes) => if bytes.len() < 12 {
                Err(OAuthStateErrorView::ValidationFailed("State too short"@))
            } else {
                match aes_gcm_opened(key, bytes.subrange(0, 12), bytes.subrange(12, bytes.len() as int)) {
                    None => Err(OAuthStateErrorView::ValidationFailed("Decryption failed - invalid or tampered state"@)),
                    Some(p) => if !vstd::utf8::valid_utf8(p) {
                        Err(OAuthStateErrorView::ValidationFailed("Invalid UTF-8 in state"@))
                    } else {
                        let text = vstd::utf8::decode_utf8(p);
                        match last_index_of(text, ':', text.len() as int) {
                            None => Err(OAuthStateErrorView::ValidationFailed("Invalid state format"@)),
                            Some(k) => match uuid_parsed(text.subrange(0, k)) {
                                Some(id) => Ok(id),
                                None => Err(OAuthStateErrorView::ValidationFailed("Invalid user_id in state"@)),
                            },
                        }
                    },
                }
            },
        },
    }
}

/// Makes a state that carries `user_id`: the text `"<id>:<random hex>"`
/// sealed under the credentials key, as base64url. Reading it back with the
/// same key gives the user ID.
pub fn create_signed_state(setting: Option<&str>, user_id: u128) -> (res: Result<String, OAuthStateError>)
    ensures
        key_of(opt_view(setting)) matches Err(v) ==> (res matches Err(e) && oauth_error_view(e) == key_error(v)),
        res matches Ok(s) ==> state_reading(opt_view(setting), s@) == Ok::<u128, OAuthStateErrorView>(user_id),
        key_of(opt_view(setting)) is Ok ==> res is Ok,
{
    let key = match state_key(setting) {
        Ok(k) => k,
        Err(e) => {
            return Err(e);
        },
    };
    let nonce = random_bytes(12);
    let pad = random_bytes(16);
    let id_text = uuid_to_text(user_id);
    let hex = hex_string(&pad);
    let mut plain = id_text;
    push_char(&mut plain, ':');
    push_str(&mut plain, hex.as_str());
    let ghost text = plain@;
    proof {
        let idt = uuid_text(user_id);
        lemma_uuid_text(user_id);
        lemma_hex_ascii(pad@);
        assert(text =~= idt + seq![':'] + hex_of(pad@));
        assert forall|i: int| 0 <= i < text.len() implies '\0' <= #[trigger] text[i] <= '\u{7f}' by {
            if i < idt.len() {
                assert(uuid_char(idt[i]));
            } else if i > idt.len() {
                assert(text[i] == hex_of(pad@)[i - idt.len() - 1]);
            }
        }
        vstd::utf8::is_ascii_chars_encode_utf8(text);
    }
    let plain_bytes = plain.as_str().as_bytes();
    assert(plain_bytes@.len() == 69);
    let ciphertext = match aes_gcm_seal(key.as_slice(), nonce.as_slice(), plain_bytes) {
        Ok(c) => c,
        Err(m) => {
            return Err(OAuthStateError::CreationFailed(m));
        },
    };
    let mut sealed = nonce;
    let mut rest = ciphertext;
    let ghost n = sealed@;
    let ghost c = rest@;
    sealed.append(&mut rest);
    let state = base64url_encode(sealed.as_slice());
    proof {
        assert(sealed@.subrange(0, 12) =~= n);
        assert(sealed@.subrange(12, sealed@.len() as int) =~= c);
        assert forall|i: int| 0 <= i < state@.len() implies !is_ws(#[trigger] state@[i]) by {
            assert(base64url_char(state@[i]));
        }
        lemma_trim_no_ws(state@);
        vstd::utf8::encode_utf8_valid_utf8(text);
        vstd::utf8::encode_utf8_decode_utf8(text);
        let idt = uuid_text(user_id);
        lemma_hex_no_colon(pad@);
        assert(text[idt.len() as int] == ':');
        assert forall|i: int| idt.len() < i < text.len() implies #[trigger] text[i] != ':' by {
            assert(text[i] == hex_of(pad@)[i - idt.len() - 1]);
        }
        lemma_last_index_after(text, ':', idt.len() as int, text.len() as int);
        assert(text.subrange(0, idt.len() as int) =~= idt);
    }
    Ok(state)
}

proof fn lemma_last_index_after(s: Seq<char>, c: char, k: int, n: int)
    requires
        0 <= k < n <= s.len(),
        s[k] == c,
        forall|i: int| k < i < n ==> #[trigger] s[i] != c,
    ensures
        last_index_of(s, c, n) == Some(k),
    decreases n,
{
    if n - 1 > k {
        lemma_last_index_after(s, c, k, n - 1);
    }
}

/// Reads the user ID from a state (`state_reading`).
pub fn verify_signed_state(setting: Option<&str>, state: &str) -> (res: Result<u128, OAuthStateError>)
    ensures
        match state_reading(opt_view(setting), state@) {
            Ok(id) => res == Ok::<u128, OAuthStateError>(id),
            Err(v) => res matches Err(e) && oauth_error_view(e) == v,
        },
{
    let key = match state_key(setting) {
        Ok(k) => k,
        Err(e) => {
            return Err(e);
        },
    };
    let trimmed_state = trim(state);
    let bytes = match base64url_decode(trimmed_state.as_str()) {
        Ok(b) => b,
        Err(m) => {
            let mut s = owned("Base64 decode error: ");
            push_str(&mut s, m.as_str());
            return Err(OAuthStateError::ValidationFailed(s));
        },
    };
    if bytes.len() < 12 {
        return Err(OAuthStateError::ValidationFailed(owned("State too short")));
    }
    let mut nonce = bytes;
    let ciphertext = nonce.split_off(12);
    let plain = match aes_gcm_open(key.as_slice(), nonce.as_slice(), ciphertext.as_slice()) {
        Ok(p) => p,
        Err(_) => {
            return Err(OAuthStateError::ValidationFailed(owned("Decryption failed - invalid or tampered state")));
        },
    };
    let text = match utf8_string(plain) {
        Some(t) => t,
        None => {
            return Err(OAuthStateError::ValidationFailed(owned("Invalid UTF-8 in state")));
        },
    };
    let colon = match rfind_char(text.as_str(), ':') {
        Some(k) => k,
        None => {
            return Err(OAuthStateError::ValidationFailed(owned("Invalid state format")));
        },
    };
    let id_part = text.as_str().substring_char(0, colon);
    match parse_uuid(id_part) {
        Some(id) => Ok(id),
        None => Err(OAuthStateError::ValidationFailed(owned("Invalid user_id in state"))),
    }
}

/// The message of an error, as it is displayed.
pub open spec fn oauth_state_error_message(e: OAuthStateErrorView) -> Seq<char> {
    match e {
        OAuthStateErrorView::KeyNotConfigured => "Encryption key not configured"@,
        OAuthStateErrorView::InvalidKeyFormat(m) => "Invalid key format: "@ + m,
        OAuthStateErrorView::CreationFailed(m) => "Failed to create state: "@ + m,
        OAuthStateErrorView::ValidationFailed(m) => "Invalid state: "@ + m,
    }
}

impl OAuthStateError {
    /// The message of the error, as it is displayed.
    pub fn message(&self) -> (res: String)
        ensures
            res@ == oauth_state_error_message(oauth_error_view(*self)),
    {
        let (mut m, detail) = match self {
            OAuthStateError::KeyNotConfigured => (owned("Encryption key not configured"), String::new()),
            OAuthStateError::InvalidKeyFormat(d) => (owned("Invalid key format: "), d.clone()),
            OAuthStateError::CreationFailed(d) => (owned("Failed to create state: "), d.clone()),
            OAuthStateError::ValidationFailed(d) => (owned("Invalid state: "), d.clone()),
        };
        push_str(&mut m, detail.as_str());
        m
    }
}

} // verus!
