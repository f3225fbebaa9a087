//! Bytes as text: base64url, SHA-256 and UTF-8.
use crate::number::{hex, hex_text, lemma_hex_digits, lemma_hex_len, lower_hex_digit};
use base64::engine::general_purpose::URL_SAFE_NO_PAD;
use base64::Engine as _;
use sha2::Digest as _;
use sha2::Sha256;
use vstd::prelude::*;
use vstd::utf8::{decode_utf8, encode_utf8, valid_utf8};

verus! {

/// What `base64`'s `URL_SAFE_NO_PAD` engine decodes a text to, or the text of
/// its error.
pub uninterp spec fn base64url_read(text: Seq<char>) -> Result<Seq<u8>, Seq<char>>;

/// The bytes that a text stands for in unpadded base64url, if it does.
pub open spec fn base64url_decoded(text: Seq<char>) -> Option<Seq<u8>> {
    match base64url_read(text) {
        Ok(bytes) => Some(bytes),
        Err(_) => None,
    }
}

/// What `base64`'s `URL_SAFE_NO_PAD` engine encodes bytes as.
pub uninterp spec fn base64url_encoded(bytes: Seq<u8>) -> Seq<char>;

/// The SHA-256 digest that `sha2` computes.
pub uninterp spec fn sha256(bytes: Seq<u8>) -> Seq<u8>;

pub open spec fn bytes_view(bytes: Option<Vec<u8>>) -> Option<Seq<u8>> {
    match bytes {
        Some(bytes) => Some(bytes@),
        None => None,
    }
}

/// What decoding has given.
pub open spec fn bytes_read(result: Result<Vec<u8>, String>) -> Result<Seq<u8>, Seq<char>> {
    match result {
        Ok(bytes) => Ok(bytes@),
        Err(message) => Err(message@),
    }
}

/// `base64`'s `Engine::decode` for the engine `URL_SAFE_NO_PAD`: the decoded
/// bytes, or the text of the error, are a function of the text.
#[verifier::external_body]
pub(crate) fn read_base64url(text: &str) -> (result: Result<Vec<u8>, String>)
    ensures
        bytes_read(result) == base64url_read(text@),
{
    URL_SAFE_NO_PAD.decode(text).map_err(|error| error.to_string())
}

/// The bytes that a text stands for in unpadded base64url, if it does.
pub(crate) fn base64url_decode(text: &str) -> (result: Option<Vec<u8>>)
    ensures
        bytes_view(result) == base64url_decoded(text@),
{
    match read_base64url(text) {
        Ok(bytes) => Some(bytes),
        Err(_) => None,
    }
}

/// `base64`'s `Engine::encode` for the engine `URL_SAFE_NO_PAD`: the encoded
/// text, which the same engine decodes to the bytes.
#[verifier::external_body]
pub(crate) fn base64url_encode(bytes: &Vec<u8>) -> (result: String)
    ensures
        result@ == base64url_encoded(bytes@),
        base64url_decoded(result@) == Some(bytes@),
{
    URL_SAFE_NO_PAD.encode(bytes)
}

/// `sha2`'s `Digest::digest` for `Sha256`: the thirty-two bytes of the digest.
#[verifier::external_body]
fn sha256_of(bytes: &[u8]) -> (result: Vec<u8>)
    ensures
        result@ == sha256(bytes@),
        result@.len() == 32,
{
    Sha256::digest(bytes).to_vec()
}

/// The lower-case hexadecimal SHA-256 digest of a text in UTF-8.
pub open spec fn text_digest(text: Seq<char>) -> Seq<char> {
    hex(sha256(encode_utf8(text)))
}

/// A digest is spelled with sixty-four lower-case hexadecimal digits.
pub open spec fn digest_spelling(text: Seq<char>) -> bool {
    text.len() == 64 && forall|i: int| 0 <= i < text.len() ==> lower_hex_digit(#[trigger] text[i])
}

pub fn digest_text(text: &str) -> (result: String)
    ensures
        result@ == text_digest(text@),
        digest_spelling(result@),
{
    let digest = sha256_of(text.as_bytes());
    proof {
        lemma_hex_len(digest@);
        lemma_hex_digits(digest@);
    }
    hex_text(&digest)
}

/// The text of the error that `String::from_utf8` reports for bytes that are not
/// UTF-8.
pub uninterp spec fn utf8_complaint(bytes: Seq<u8>) -> Seq<char>;

/// `String::from_utf8` takes exactly the byte sequences that are UTF-8, and
/// gives the text that they encode. The text of its error is a function of the
/// bytes.
#[verifier::external_body]
pub(crate) fn read_utf8(bytes: Vec<u8>) -> (result: Result<String, String>)
    ensures
        match result {
            Ok(text) => valid_utf8(bytes@) && text@ == decode_utf8(bytes@),
            Err(message) => !valid_utf8(bytes@) && message@ == utf8_complaint(bytes@),
        },
{
    String::from_utf8(bytes).map_err(|error| error.to_string())
}

/// The text that bytes encode in UTF-8, if they do.
pub(crate) fn utf8_text(bytes: Vec<u8>) -> (result: Option<String>)
    ensures
        match result {
            Some(text) => valid_utf8(bytes@) && text@ == decode_utf8(bytes@),
            None => !valid_utf8(bytes@),
        },
{
    match read_utf8(bytes) {
        Ok(text) => Some(text),
        Err(_) => None,
    }
}

/// The text that bytes encode in UTF-8, if they do.
pub open spec fn utf8_decoded(bytes: Seq<u8>) -> Option<Seq<char>> {
    if valid_utf8(bytes) {
        Some(decode_utf8(bytes))
    } else {
        None
    }
}

/// The UTF-8 bytes of a text.
pub fn utf8_bytes(text: &str) -> (result: Vec<u8>)
    ensures
        result@ == encode_utf8(text@),
{
    text.as_bytes_vec()
}

} // verus!
