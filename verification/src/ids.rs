//! Session and peer ids, and the verifiers of reconnect tokens.
//!
//! A client mints its own 32-byte reconnect token and presents it, in URL-safe
//! base64, whenever it claims an identity. The relay keeps the token's SHA-256
//! digest only, the verifier, and compares verifiers in constant time.

use crate::protocol::RECONNECT_TOKEN_BYTES;
use base64::engine::general_purpose::URL_SAFE_NO_PAD;
use base64::Engine;
use sha2::Digest;
use subtle::ConstantTimeEq;
use vstd::prelude::*;
use vstd::utf8::{encode_utf8, is_ascii_chars, is_ascii_chars_encode_utf8};

pub mod laws;

verus! {

/// Length of a reconnect token in unpadded base64, in bytes.
pub const RECONNECT_TOKEN_ENCODED_LEN: usize = (RECONNECT_TOKEN_BYTES * 4 + 2) / 3;

/// The bytes that a text in unpadded URL-safe base64 stands for, if it is one.
pub uninterp spec fn base64_decoded(text: Seq<char>) -> Option<Seq<u8>>;

/// Bytes written in unpadded URL-safe base64.
pub uninterp spec fn base64_encoded(bytes: Seq<u8>) -> Seq<char>;

/// The SHA-256 digest of a byte string.
pub uninterp spec fn sha256_digest(bytes: Seq<u8>) -> Seq<u8>;

/// The bytes of an optional byte string.
pub open spec fn opt_bytes_view(bytes: Option<Vec<u8>>) -> Option<Seq<u8>> {
    match bytes {
        Some(bytes) => Some(bytes@),
        None => None,
    }
}

/// How many characters `n` bytes have in unpadded base64.
pub open spec fn base64_len(n: nat) -> nat {
    (n * 4 + 2) / 3
}

/// `base64::Engine::decode` with the engine `URL_SAFE_NO_PAD`: the bytes that
/// the text encodes, or `None` where it is not unpadded URL-safe base64. The
/// result depends on the text alone. The engine takes neither padding nor stray
/// bits, so a text that it decodes is the very one that encoding the bytes
/// gives: ASCII, and as long as that many bytes make it.
#[verifier::external_body]
fn base64_decode(text: &str) -> (res: Option<Vec<u8>>)
    ensures
        opt_bytes_view(res) == base64_decoded(text@),
        res matches Some(bytes) ==> {
            &&& text@ == base64_encoded(bytes@)
            &&& text@.len() == base64_len(bytes@.len())
            &&& is_ascii_chars(text@)
        },
{
    URL_SAFE_NO_PAD.decode(text).ok()
}

/// `base64::Engine::encode` with the engine `URL_SAFE_NO_PAD`: the text
/// depends on the bytes alone, is ASCII with a character for every six bits, and
/// decoding it gives the bytes back.
#[verifier::external_body]
fn base64_encode(bytes: &[u8; 32]) -> (res: String)
    ensures
        res@ == base64_encoded(bytes@),
        base64_decoded(res@) == Some(bytes@),
        res@.len() == base64_len(32),
        is_ascii_chars(res@),
{
    URL_SAFE_NO_PAD.encode(bytes)
}

/// `sha2::Sha256::digest`: the digest depends on the bytes alone.
#[verifier::external_body]
fn sha256(bytes: &[u8]) -> (res: [u8; 32])
    ensures
        res@ == sha256_digest(bytes@),
{
    sha2::Sha256::digest(bytes).into()
}

/// `subtle::ConstantTimeEq::ct_eq` on byte slices: true iff they are equal.
#[verifier::external_body]
fn constant_time_eq(a: &[u8; 32], b: &[u8; 32]) -> (res: bool)
    ensures
        res == (a@ == b@),
{
    a.ct_eq(b).into()
}

/// The SHA-256 digest of a reconnect token's raw bytes.
#[derive(Clone, Copy)]
pub struct Verifier([u8; 32]);

impl View for Verifier {
    type V = Seq<u8>;

    closed spec fn view(&self) -> Seq<u8> {
        self.0@
    }
}

/// The verifier of raw token bytes: there is one iff they have the length of a
/// token.
pub open spec fn verifier_of_raw(raw: Seq<u8>) -> Option<Seq<u8>> {
    if raw.len() == RECONNECT_TOKEN_BYTES {
        Some(sha256_digest(raw))
    } else {
        None
    }
}

/// The verifier of a presented token: there is one iff the token has the length
/// of an encoded token and decodes to the length of a raw one.
pub open spec fn verifier_of_token(token: Seq<char>) -> Option<Seq<u8>> {
    if encode_utf8(token).len() == RECONNECT_TOKEN_ENCODED_LEN {
        match base64_decoded(token) {
            Some(raw) => verifier_of_raw(raw),
            None => None,
        }
    } else {
        None
    }
}

/// The verifier with the given digest bytes: there is one iff there are as many
/// as a digest has.
pub open spec fn verifier_of_digest(raw: Seq<u8>) -> Option<Seq<u8>> {
    if raw.len() == 32 {
        Some(raw)
    } else {
        None
    }
}

/// The verifier that a persisted text stands for.
pub open spec fn verifier_of_encoded(text: Seq<char>) -> Option<Seq<u8>> {
    match base64_decoded(text) {
        Some(raw) => verifier_of_digest(raw),
        None => None,
    }
}

/// The text has the length of an encoded token or verifier, in characters and in
/// bytes.
pub open spec fn is_encoded_len(text: Seq<char>) -> bool {
    &&& text.len() == RECONNECT_TOKEN_ENCODED_LEN
    &&& encode_utf8(text).len() == RECONNECT_TOKEN_ENCODED_LEN
}

/// The bytes of an optional verifier.
pub open spec fn opt_verifier_view(v: Option<Verifier>) -> Option<Seq<u8>> {
    match v {
        Some(v) => Some(v@),
        None => None,
    }
}

impl Verifier {
    pub fn from_token(token: &str) -> (res: Option<Self>)
        ensures
            opt_verifier_view(res) == verifier_of_token(token@),
    {
        if token.as_bytes().len() != RECONNECT_TOKEN_ENCODED_LEN {
            return None;
        }
        match base64_decode(token) {
            Some(raw) => Verifier::from_raw_bytes(raw.as_slice()),
            None => None,
        }
    }

    /// The verifier of a decoded token, where it has the length of one.
    pub fn from_raw_bytes(raw: &[u8]) -> (res: Option<Self>)
        ensures
            opt_verifier_view(res) == verifier_of_raw(raw@),
    {
        if raw.len() != RECONNECT_TOKEN_BYTES {
            return None;
        }
        Some(Verifier(sha256(raw)))
    }

    /// Whether two verifiers are the same, in constant time.
    pub fn matches(&self, other: &Self) -> (res: bool)
        ensures
            res == (self@ == other@),
    {
        constant_time_eq(&self.0, &other.0)
    }

    /// The form in which a verifier is persisted. Reading it back gives the
    /// verifier.
    pub fn encode(&self) -> (res: String)
        ensures
            res@ == base64_encoded(self@),
            verifier_of_encoded(res@) == Some(self@),
            is_encoded_len(res@),
    {
        let res = base64_encode(&self.0);
        proof {
            is_ascii_chars_encode_utf8(res@);
        }
        res
    }

    /// Restores a verifier from its persisted form. A token that a client
    /// presents goes through [`Verifier::from_token`] instead, which derives
    /// the digest itself. The only text that stands for a verifier is the one
    /// that [`Verifier::encode`] gives for it.
    pub fn from_encoded(encoded: &str) -> (res: Option<Self>)
        ensures
            opt_verifier_view(res) == verifier_of_encoded(encoded@),
            res matches Some(v) ==> encoded@ == base64_encoded(v@) && is_encoded_len(encoded@),
    {
        match base64_decode(encoded) {
            Some(raw) => {
                proof {
                    is_ascii_chars_encode_utf8(encoded@);
                }
                Verifier::from_digest(raw.as_slice())
            },
            None => None,
        }
    }

    /// The verifier with the given digest bytes, where there are as many as a
    /// digest has.
    pub fn from_digest(raw: &[u8]) -> (res: Option<Self>)
        ensures
            opt_verifier_view(res) == verifier_of_digest(raw@),
    {
        if raw.len() != 32 {
            return None;
        }
        let mut bytes: [u8; 32] = [0; 32];
        let mut i: usize = 0;
        while i < 32
            invariant
                i <= 32,
                raw@.len() == 32,
                forall|j: int| 0 <= j < i ==> bytes@[j] == raw@[j],
            decreases 32 - i,
        {
            bytes[i] = raw[i];
            i = i + 1;
        }
        assert(bytes@ =~= raw@);
        Some(Verifier(bytes))
    }
}

// Equality is the constant-time comparison too, wherever it is used.
impl PartialEq for Verifier {
    fn eq(&self, other: &Self) -> (res: bool) {
        self.matches(other)
    }
}

impl Eq for Verifier {

}

impl vstd::std_specs::cmp::PartialEqSpecImpl for Verifier {
    open spec fn obeys_eq_spec() -> bool {
        true
    }

    open spec fn eq_spec(&self, other: &Self) -> bool {
        self@ == other@
    }
}

/// A letter, a digit, an underscore or a hyphen.
pub open spec fn is_id_char(c: char) -> bool {
    ||| 'a' <= c <= 'z'
    ||| 'A' <= c <= 'Z'
    ||| '0' <= c <= '9'
    ||| c == '_'
    ||| c == '-'
}

/// `^[A-Za-z0-9_-]+$` with at most `max_length` characters.
pub open spec fn is_valid_id(text: Seq<char>, max_length: nat) -> bool {
    &&& 1 <= text.len() <= max_length
    &&& forall|i: int| 0 <= i < text.len() ==> is_id_char(#[trigger] text[i])
}

pub fn valid_id(value: &str, max_length: usize) -> (res: bool)
    ensures
        res == is_valid_id(value@, max_length as nat),
{
    if !value.is_ascii() {
        assert(!is_valid_id(value@, max_length as nat)) by {
            if is_valid_id(value@, max_length as nat) {
                assert forall|i: int| 0 <= i < value@.len() implies '\0' <= #[trigger] value@[i]
                    <= '\u{7f}' by {
                    assert(is_id_char(value@[i]));
                }
                assert(is_ascii_chars(value@));
            }
        }
        return false;
    }
    let bytes = value.as_bytes();
    proof {
        is_ascii_chars_encode_utf8(value@);
    }
    if bytes.len() == 0 || bytes.len() > max_length {
        return false;
    }
    let mut i: usize = 0;
    while i < bytes.len()
        invariant
            i <= bytes@.len(),
            is_ascii_chars(value@),
            bytes@.len() == value@.len(),
            forall|j: int| 0 <= j < bytes@.len() ==> value@[j] as u8 == #[trigger] bytes@[j],
            forall|j: int| 0 <= j < i ==> is_id_char(#[trigger] value@[j]),
        decreases bytes@.len() - i,
    {
        let c = bytes[i] as char;
        assert(c == value@[i as int]);
        let ok = ('a' <= c && c <= 'z') || ('A' <= c && c <= 'Z') || ('0' <= c && c <= '9')
            || c == '_' || c == '-';
        if !ok {
            return false;
        }
        i = i + 1;
    }
    true
}

} // verus!
