//! Reading the identity (email, subject, token expiry) out of a Factory
//! droid auth bundle.
//!
//! `auth.v2.file` is `AES-256-GCM(key = auth.v2.key)` of a JSON payload
//! `{ "access_token": "<JWT>", "refresh_token": "..." }`. On disk it is
//! three colon-separated base64 segments `iv:tag:ciphertext`; the IV takes
//! 12 or 16 bytes and the tag 16. `auth.encrypted` is a legacy plaintext
//! JSON variant used as a fallback.
//!
//! The JSON documents themselves are decoded by the program, which hands
//! the library the decoded `AuthPayload` and `JwtClaims`; the library frames
//! and checks the bytes around them.

use vstd::prelude::*;
use vstd::utf8::{decode_utf8, valid_utf8};

use aes_gcm::aead::generic_array::typenum::{U12, U16};
use aes_gcm::aead::generic_array::GenericArray;
use aes_gcm::aead::Aead;
use aes_gcm::aes::Aes256;
use aes_gcm::{AesGcm, KeyInit};
use base64::engine::general_purpose::STANDARD as B64;
use base64::engine::general_purpose::URL_SAFE_NO_PAD as B64URL;
use base64::Engine;

use crate::text::{lemma_split_concat, cat, cat3, chars_of, copy_opt, decimal, decimal_string, owned, split, split_chars, string_of, trim, trim_chars};

verus! {

/// The bytes a standard-alphabet, padded base64 text decodes to (`None` when
/// the base64 crate's `STANDARD` engine refuses it).
pub uninterp spec fn base64_standard_decode(text: Seq<char>) -> Option<Seq<u8>>;

/// The bytes a URL-safe, unpadded base64 text decodes to (`None` when the
/// base64 crate's `URL_SAFE_NO_PAD` engine refuses it).
pub uninterp spec fn base64_url_decode(text: Seq<char>) -> Option<Seq<u8>>;

/// The plaintext of `data` (ciphertext followed by its 16-byte tag) opened
/// with AES-256-GCM under `key` and a 12-byte `nonce`; `None` when
/// authentication fails.
pub uninterp spec fn aes256gcm12_open(key: Seq<u8>, nonce: Seq<u8>, data: Seq<u8>) -> Option<
    Seq<u8>,
>;

/// As `aes256gcm12_open`, with a 16-byte nonce.
pub uninterp spec fn aes256gcm16_open(key: Seq<u8>, nonce: Seq<u8>, data: Seq<u8>) -> Option<
    Seq<u8>,
>;

/// The view of an optional byte vector.
pub open spec fn opt_bytes(o: Option<Vec<u8>>) -> Option<Seq<u8>> {
    match o {
        Some(v) => Some(v@),
        None => None,
    }
}

/// The earliest and latest second that chrono's `DateTime<Utc>` can hold:
/// the first second of year -262143 and the last of year 262142.
pub const MIN_TIMESTAMP: i64 = -8334601228800;

pub const MAX_TIMESTAMP: i64 = 8210266876799;

/// `base64::engine::general_purpose::STANDARD.decode`. Claims only that its
/// result is `base64_standard_decode` of the text.
#[verifier::external_body]
fn decode_base64_standard(text: &str) -> (r: Option<Vec<u8>>)
    ensures
        opt_bytes(r) == base64_standard_decode(text@),
{
    B64.decode(text).ok()
}

/// `base64::engine::general_purpose::URL_SAFE_NO_PAD.decode`. Claims only
/// that its result is `base64_url_decode` of the text.
#[verifier::external_body]
fn decode_base64_url(text: &str) -> (r: Option<Vec<u8>>)
    ensures
        opt_bytes(r) == base64_url_decode(text@),
{
    B64URL.decode(text).ok()
}

/// `Aead::decrypt` of `aes_gcm::AesGcm<Aes256, U12>` with the given key and
/// nonce. Claims only that its result is `aes256gcm12_open` of the inputs;
/// the key and nonce must have the lengths the cipher takes, or the crate
/// panics.
#[verifier::external_body]
fn open_aes256gcm12(key: &[u8], nonce: &[u8], data: &[u8]) -> (r: Option<Vec<u8>>)
    requires
        key@.len() == 32,
        nonce@.len() == 12,
    ensures
        opt_bytes(r) == aes256gcm12_open(key@, nonce@, data@),
{
    let cipher = AesGcm::<Aes256, U12>::new(GenericArray::from_slice(key));
    cipher.decrypt(GenericArray::<u8, U12>::from_slice(nonce), data).ok()
}

/// `Aead::decrypt` of `aes_gcm::AesGcm<Aes256, U16>` with the given key and
/// nonce. Claims only that its result is `aes256gcm16_open` of the inputs;
/// the key and nonce must have the lengths the cipher takes, or the crate
/// panics.
#[verifier::external_body]
fn open_aes256gcm16(key: &[u8], nonce: &[u8], data: &[u8]) -> (r: Option<Vec<u8>>)
    requires
        key@.len() == 32,
        nonce@.len() == 16,
    ensures
        opt_bytes(r) == aes256gcm16_open(key@, nonce@, data@),
{
    let cipher = AesGcm::<Aes256, U16>::new(GenericArray::from_slice(key));
    cipher.decrypt(GenericArray::<u8, U16>::from_slice(nonce), data).ok()
}

/// `String::from_utf8`: the text the bytes encode when they are valid
/// UTF-8, as its documentation states.
#[verifier::external_body]
fn utf8_text(bytes: Vec<u8>) -> (r: Option<String>)
    ensures
        r is Some <==> valid_utf8(bytes@),
        r matches Some(s) ==> s@ == decode_utf8(bytes@),
{
    String::from_utf8(bytes).ok()
}

/// `chrono::DateTime::<Utc>::from_timestamp(secs, 0).is_some()`: chrono
/// holds every second from `MIN_TIMESTAMP` to `MAX_TIMESTAMP`.
#[verifier::external_body]
pub fn timestamp_in_range(secs: i64) -> (r: bool)
    ensures
        r == (MIN_TIMESTAMP <= secs && secs <= MAX_TIMESTAMP),
{
    chrono::DateTime::from_timestamp(secs, 0).is_some()
}

/// Identity decoded from a Factory auth bundle.
#[derive(Debug, Clone, PartialEq, Eq)]
pub struct Identity {
    pub email: Option<String>,
    pub subject: Option<String>,
    /// The token's `exp` claim, in seconds since the Unix epoch.
    pub expires_at: Option<i64>,
}

/// The decoded JSON payload of an auth file.
#[derive(Debug, Clone, PartialEq, Eq)]
pub struct AuthPayload {
    pub access_token: String,
    pub refresh_token: Option<String>,
}

/// The decoded claims of a JWT access token.
#[derive(Debug, Clone, PartialEq, Eq)]
pub struct JwtClaims {
    pub email: Option<String>,
    pub sub: Option<String>,
    pub exp: Option<i64>,
}

impl Identity {
    /// The identity of a bundle that could not be read.
    pub fn unknown() -> (r: Identity)
        ensures
            r.email is None,
            r.subject is None,
            r.expires_at is None,
    {
        Identity { email: None, subject: None, expires_at: None }
    }

    /// The text shown for an identity: its email, else its subject, else
    /// `-`.
    pub open spec fn spec_display_email(&self) -> Seq<char> {
        match self.email {
            Some(e) => e@,
            None => match self.subject {
                Some(s) => s@,
                None => "-"@,
            },
        }
    }

    /// The email, else the subject, else `-`.
    pub fn display_email(&self) -> (r: String)
        ensures
            r@ == self.spec_display_email(),
    {
        match &self.email {
            Some(e) => e.clone(),
            None => match &self.subject {
                Some(s) => s.clone(),
                None => owned("-"),
            },
        }
    }

    /// Whether the token has expired at the instant `now` (seconds since the
    /// epoch, the fraction of the current second left out): it has an
    /// expiry no later than `now`.
    pub fn is_expired(&self, now: i64) -> (r: bool)
        ensures
            r == (self.expires_at matches Some(exp) && exp <= now),
    {
        match self.expires_at {
            Some(exp) => exp <= now,
            None => false,
        }
    }

    /// The identity carried by the claims of an access token. An expiry
    /// that chrono cannot hold is dropped.
    pub fn from_claims(claims: &JwtClaims) -> (r: Identity)
        ensures
            r.email == claims.email,
            r.subject == claims.sub,
            r.expires_at == (match claims.exp {
                Some(s) => if MIN_TIMESTAMP <= s && s <= MAX_TIMESTAMP {
                    Some(s)
                } else {
                    None
                },
                None => None,
            }),
    {
        let expires_at = match claims.exp {
            Some(s) => if timestamp_in_range(s) {
                Some(s)
            } else {
                None
            },
            None => None,
        };
        Identity { email: copy_opt(&claims.email), subject: copy_opt(&claims.sub), expires_at }
    }
}

/// The best-effort identity of a directory of auth files: the one read
/// from the v2 bundle if that worked, else the one read from the legacy
/// file, else the unknown identity.
pub fn identity_from_attempts(v2: Option<Identity>, legacy: Option<Identity>) -> (r: Identity)
    ensures
        r == (match v2 {
            Some(id) => id,
            None => match legacy {
                Some(id) => id,
                None => Identity { email: None, subject: None, expires_at: None },
            },
        }),
{
    match v2 {
        Some(id) => id,
        None => match legacy {
            Some(id) => id,
            None => Identity::unknown(),
        },
    }
}

/// Why an `auth.v2.file` could not be opened.
#[derive(Debug, Clone, Copy, PartialEq, Eq)]
pub enum DecryptError {
    /// `auth.v2.key` is not base64.
    KeyNotBase64,
    /// `auth.v2.key` does not decode to 32 bytes; the length it has.
    KeyLength(usize),
    /// `auth.v2.file` does not have three colon-separated segments; how
    /// many it has.
    SegmentCount(usize),
    IvNotBase64,
    TagNotBase64,
    CiphertextNotBase64,
    /// The IV is neither 12 nor 16 bytes long; its length.
    IvLength(usize),
    /// Authentication failed: wrong key or corrupt file.
    Decryption,
    /// The plaintext is not UTF-8.
    NotUtf8,
}

impl DecryptError {
    /// The message of this error.
    pub open spec fn spec_message(self) -> Seq<char> {
        match self {
            DecryptError::KeyNotBase64 => "decode auth.v2.key (base64)"@,
            DecryptError::KeyLength(n) => "auth.v2.key must decode to 32 bytes (got "@ + decimal(
                n as nat,
            ) + ")"@,
            DecryptError::SegmentCount(n) => "auth.v2.file must have 3 colon-separated segments, got "@
                + decimal(n as nat),
            DecryptError::IvNotBase64 => "decode iv"@,
            DecryptError::TagNotBase64 => "decode tag"@,
            DecryptError::CiphertextNotBase64 => "decode ciphertext"@,
            DecryptError::IvLength(n) => "unsupported IV length "@ + decimal(n as nat)
                + " (expected 12 or 16)"@,
            DecryptError::Decryption => "AES-GCM decryption failed (wrong key or corrupt file)"@,
            DecryptError::NotUtf8 => "decrypted payload is not UTF-8"@,
        }
    }

    /// The message of this error (see `spec_message`).
    pub fn message(&self) -> (r: String)
        ensures
            r@ == self.spec_message(),
    {
        match self {
            DecryptError::KeyNotBase64 => owned("decode auth.v2.key (base64)"),
            DecryptError::KeyLength(n) => {
                let d = decimal_string(*n as u64);
                cat3("auth.v2.key must decode to 32 bytes (got ", d.as_str(), ")")
            },
            DecryptError::SegmentCount(n) => {
                let d = decimal_string(*n as u64);
                cat("auth.v2.file must have 3 colon-separated segments, got ", d.as_str())
            },
            DecryptError::IvNotBase64 => owned("decode iv"),
            DecryptError::TagNotBase64 => owned("decode tag"),
            DecryptError::CiphertextNotBase64 => owned("decode ciphertext"),
            DecryptError::IvLength(n) => {
                let d = decimal_string(*n as u64);
                cat3("unsupported IV length ", d.as_str(), " (expected 12 or 16)")
            },
            DecryptError::Decryption => owned("AES-GCM decryption failed (wrong key or corrupt file)"),
            DecryptError::NotUtf8 => owned("decrypted payload is not UTF-8"),
        }
    }
}

/// The plaintext of an opened bundle, given the key, IV, tag and
/// ciphertext.
pub open spec fn spec_open(key: Seq<u8>, iv: Seq<u8>, tag: Seq<u8>, ct: Seq<u8>) -> Result<
    Seq<char>,
    DecryptError,
> {
    let opened = if iv.len() == 12 {
        aes256gcm12_open(key, iv, ct + tag)
    } else {
        aes256gcm16_open(key, iv, ct + tag)
    };
    if iv.len() != 12 && iv.len() != 16 {
        Err(DecryptError::IvLength(iv.len() as usize))
    } else {
        match opened {
            None => Err(DecryptError::Decryption),
            Some(pt) => if valid_utf8(pt) {
                Ok(decode_utf8(pt))
            } else {
                Err(DecryptError::NotUtf8)
            },
        }
    }
}

/// What decrypting an `auth.v2.file` with the text `file_text` under the
/// key file text `key_text` gives: the key is the base64 of the trimmed
/// key text and must be 32 bytes long; the trimmed file text is split at
/// `:` into IV, tag and ciphertext, each base64; the plaintext, opened
/// with AES-256-GCM, must be UTF-8.
pub open spec fn spec_decrypt_v2(key_text: Seq<char>, file_text: Seq<char>) -> Result<
    Seq<char>,
    DecryptError,
> {
    match base64_standard_decode(trim(key_text)) {
        None => Err(DecryptError::KeyNotBase64),
        Some(key) => if key.len() != 32 {
            Err(DecryptError::KeyLength(key.len() as usize))
        } else {
            let parts = split(trim(file_text), ':');
            if parts.len() != 3 {
                Err(DecryptError::SegmentCount(parts.len() as usize))
            } else {
                match base64_standard_decode(parts[0]) {
                    None => Err(DecryptError::IvNotBase64),
                    Some(iv) => match base64_standard_decode(parts[1]) {
                        None => Err(DecryptError::TagNotBase64),
                        Some(tag) => match base64_standard_decode(parts[2]) {
                            None => Err(DecryptError::CiphertextNotBase64),
                            Some(ct) => spec_open(key, iv, tag, ct),
                        },
                    },
                }
            }
        }
    }
}

/// The view of a decryption result.
pub open spec fn decrypt_view(r: Result<String, DecryptError>) -> Result<Seq<char>, DecryptError> {
    match r {
        Ok(s) => Ok(s@),
        Err(e) => Err(e),
    }
}

/// Three pieces without `sep`, joined by it, split back into themselves.
proof fn lemma_split_three(a: Seq<char>, b: Seq<char>, c: Seq<char>, sep: char)
    requires
        !a.contains(sep),
        !b.contains(sep),
        !c.contains(sep),
    ensures
        split(a + seq![sep] + b + seq![sep] + c, sep) == seq![a, b, c],
{
    lemma_split_concat(a + seq![sep] + b, c, sep);
    lemma_split_concat(a, b, sep);
    crate::text::lemma_split_plain(a, sep);
    crate::text::lemma_split_plain(b, sep);
    crate::text::lemma_split_plain(c, sep);
    assert(seq![a] + seq![b] + seq![c] =~= seq![a, b, c]);
}

/// A bundle in the on-disk format reads back as its payload: when the
/// trimmed key text is the base64 of a 32-byte key, the trimmed file text is
/// three base64 segments `iv:tag:ciphertext` (an IV of 12 or 16 bytes), and
/// AES-256-GCM opens the ciphertext with its tag to a UTF-8 payload, the
/// decryption gives exactly that payload, whatever white space surrounds
/// either text.
pub proof fn law_decrypt_reads_bundle(
    key_text: Seq<char>,
    file_text: Seq<char>,
    iv_text: Seq<char>,
    tag_text: Seq<char>,
    ct_text: Seq<char>,
    key: Seq<u8>,
    iv: Seq<u8>,
    tag: Seq<u8>,
    ct: Seq<u8>,
    payload: Seq<u8>,
)
    requires
        base64_standard_decode(trim(key_text)) == Some(key),
        key.len() == 32,
        trim(file_text) == iv_text + seq![':'] + tag_text + seq![':'] + ct_text,
        !iv_text.contains(':'),
        !tag_text.contains(':'),
        !ct_text.contains(':'),
        base64_standard_decode(iv_text) == Some(iv),
        base64_standard_decode(tag_text) == Some(tag),
        base64_standard_decode(ct_text) == Some(ct),
        iv.len() == 12 ==> aes256gcm12_open(key, iv, ct + tag) == Some(payload),
        iv.len() == 16 ==> aes256gcm16_open(key, iv, ct + tag) == Some(payload),
        iv.len() == 12 || iv.len() == 16,
        valid_utf8(payload),
    ensures
        spec_decrypt_v2(key_text, file_text) == Ok::<Seq<char>, DecryptError>(decode_utf8(payload)),
{
    lemma_split_three(iv_text, tag_text, ct_text, ':');
}

/// Decrypt an `auth.v2.file` whose text is `file_text` with the key file
/// whose text is `key_text`, and return the JSON payload.
pub fn decrypt_v2(key_text: &str, file_text: &str) -> (r: Result<String, DecryptError>)
    ensures
        decrypt_view(r) == spec_decrypt_v2(key_text@, file_text@),
{
    let key_chars = chars_of(key_text);
    let key_trimmed = trim_chars(key_chars.as_slice());
    let key_b64 = string_of(key_trimmed.as_slice());
    let key = match decode_base64_standard(key_b64.as_str()) {
        Some(k) => k,
        None => return Err(DecryptError::KeyNotBase64),
    };
    if key.len() != 32 {
        return Err(DecryptError::KeyLength(key.len()));
    }
    let file_chars = chars_of(file_text);
    let file_trimmed = trim_chars(file_chars.as_slice());
    let parts = split_chars(file_trimmed.as_slice(), ':');
    if parts.len() != 3 {
        return Err(DecryptError::SegmentCount(parts.len()));
    }
    let iv_text = string_of(parts[0].as_slice());
    let iv = match decode_base64_standard(iv_text.as_str()) {
        Some(v) => v,
        None => return Err(DecryptError::IvNotBase64),
    };
    let tag_text = string_of(parts[1].as_slice());
    let mut tag = match decode_base64_standard(tag_text.as_str()) {
        Some(v) => v,
        None => return Err(DecryptError::TagNotBase64),
    };
    let ct_text = string_of(parts[2].as_slice());
    let ct = match decode_base64_standard(ct_text.as_str()) {
        Some(v) => v,
        None => return Err(DecryptError::CiphertextNotBase64),
    };
    // AES-GCM expects the tag right after the ciphertext.
    let mut combined = ct;
    combined.append(&mut tag);
    let opened = if iv.len() == 12 {
        open_aes256gcm12(key.as_slice(), iv.as_slice(), combined.as_slice())
    } else if iv.len() == 16 {
        open_aes256gcm16(key.as_slice(), iv.as_slice(), combined.as_slice())
    } else {
        return Err(DecryptError::IvLength(iv.len()));
    };
    match opened {
        None => Err(DecryptError::Decryption),
        Some(pt) => match utf8_text(pt) {
            Some(s) => Ok(s),
            None => Err(DecryptError::NotUtf8),
        },
    }
}

/// Why an access token could not be read.
#[derive(Debug, Clone, Copy, PartialEq, Eq)]
pub enum JwtError {
    /// Not three `.`-separated segments; how many there are.
    NotJwt(usize),
    /// The middle segment is not URL-safe unpadded base64.
    PayloadNotBase64,
}

impl JwtError {
    /// The message of this error.
    pub open spec fn spec_message(self) -> Seq<char> {
        match self {
            JwtError::NotJwt(_) => "not a JWT (expected 3 segments)"@,
            JwtError::PayloadNotBase64 => "decode JWT payload"@,
        }
    }

    /// The message of this error (see `spec_message`).
    pub fn message(&self) -> (r: String)
        ensures
            r@ == self.spec_message(),
    {
        match self {
            JwtError::NotJwt(_) => owned("not a JWT (expected 3 segments)"),
            JwtError::PayloadNotBase64 => owned("decode JWT payload"),
        }
    }
}

/// The bytes of the claims of a JWT: its middle segment, base64url-decoded.
/// The signature is not checked; the token only names the account.
pub open spec fn spec_jwt_payload(jwt: Seq<char>) -> Result<Seq<u8>, JwtError> {
    let parts = split(jwt, '.');
    if parts.len() != 3 {
        Err(JwtError::NotJwt(parts.len() as usize))
    } else {
        match base64_url_decode(parts[1]) {
            Some(b) => Ok(b),
            None => Err(JwtError::PayloadNotBase64),
        }
    }
}

/// Only the middle segment of a token counts: two tokens with the same
/// payload segment and any header and signature (without `.`) give the
/// same claims bytes, or fail alike. The signature is never checked.
pub proof fn law_jwt_ignores_header_and_signature(
    h1: Seq<char>,
    h2: Seq<char>,
    p: Seq<char>,
    s1: Seq<char>,
    s2: Seq<char>,
)
    requires
        !h1.contains('.'),
        !h2.contains('.'),
        !p.contains('.'),
        !s1.contains('.'),
        !s2.contains('.'),
    ensures
        spec_jwt_payload(h1 + seq!['.'] + p + seq!['.'] + s1) == spec_jwt_payload(
            h2 + seq!['.'] + p + seq!['.'] + s2,
        ),
        spec_jwt_payload(h1 + seq!['.'] + p + seq!['.'] + s1) == match base64_url_decode(p) {
            Some(b) => Ok::<Seq<u8>, JwtError>(b),
            None => Err(JwtError::PayloadNotBase64),
        },
{
    assert forall|h: Seq<char>, s: Seq<char>|
        !h.contains('.') && !s.contains('.') implies #[trigger] split(
            h + seq!['.'] + p + seq!['.'] + s,
            '.',
        ) == seq![h, p, s] by {
        lemma_split_concat(h + seq!['.'] + p, s, '.');
        lemma_split_concat(h, p, '.');
        crate::text::lemma_split_plain(h, '.');
        crate::text::lemma_split_plain(p, '.');
        crate::text::lemma_split_plain(s, '.');
        assert(seq![h] + seq![p] + seq![s] =~= seq![h, p, s]);
    }
    assert(split(h1 + seq!['.'] + p + seq!['.'] + s1, '.') == seq![h1, p, s1]);
    assert(split(h2 + seq!['.'] + p + seq!['.'] + s2, '.') == seq![h2, p, s2]);
}

/// The JSON bytes of the claims of the JWT access token `jwt`.
pub fn jwt_payload(jwt: &str) -> (r: Result<Vec<u8>, JwtError>)
    ensures
        (match r {
            Ok(b) => Ok(b@),
            Err(e) => Err(e),
        }) == spec_jwt_payload(jwt@),
{
    let cs = chars_of(jwt);
    let parts = split_chars(cs.as_slice(), '.');
    if parts.len() != 3 {
        return Err(JwtError::NotJwt(parts.len()));
    }
    let payload_text = string_of(parts[1].as_slice());
    match decode_base64_url(payload_text.as_str()) {
        Some(b) => Ok(b),
        None => Err(JwtError::PayloadNotBase64),
    }
}

} // verus!
