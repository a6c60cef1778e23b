use vstd::prelude::*;
use base64::Engine;
use crate::text::push_str;

verus! {

/// What the standard base64 engine's `decode` gives for `input`: the
/// decoded bytes, or the text of the `DecodeError` it reports.
pub uninterp spec fn spec_base64_decode(input: Seq<char>) -> Result<Seq<u8>, Seq<char>>;

/// What the standard base64 engine's `encode` gives for `bytes`.
pub uninterp spec fn spec_base64_encode(bytes: Seq<u8>) -> Seq<char>;

/// The length of standard, padded base64 text for `n` bytes.
pub open spec fn padded_base64_len(n: nat) -> nat {
    4 * ((n + 2) / 3)
}

/// Whether base64 text for `n` bytes has a length that fits in `usize`.
pub fn padded_len_fits(n: usize) -> (r: bool)
    ensures
        r == (padded_base64_len(n as nat) <= usize::MAX),
{
    let groups: u128 = (n as u128 + 2) / 3;
    4 * groups <= usize::MAX as u128
}

/// Calls `base64::engine::general_purpose::STANDARD.decode` on the bytes of
/// `input`. The decoding itself is named, not stated; an error is carried
/// as the text its `Display` writes.
#[verifier::external_body]
fn base64_decode(input: &str) -> (r: Result<Vec<u8>, String>)
    ensures
        match r {
            Ok(bytes) => spec_base64_decode(input@) == Ok::<Seq<u8>, Seq<char>>(bytes@),
            Err(e) => spec_base64_decode(input@) == Err::<Seq<u8>, Seq<char>>(e@),
        },
{
    match base64::engine::general_purpose::STANDARD.decode(input) {
        Ok(bytes) => Ok(bytes),
        Err(e) => Err(e.to_string()),
    }
}

/// Calls `base64::engine::general_purpose::STANDARD.encode`. Its source
/// sizes the output as `encoded_len` with padding (four characters per
/// started group of three bytes) and panics only when that size overflows
/// `usize`, which `requires` rules out.
#[verifier::external_body]
fn base64_encode(bytes: &[u8]) -> (r: String)
    requires
        padded_base64_len(bytes@.len()) <= usize::MAX,
    ensures
        r@ == spec_base64_encode(bytes@),
        r@.len() == padded_base64_len(bytes@.len()),
{
    base64::engine::general_purpose::STANDARD.encode(bytes)
}

/// Decoded chunk bytes, or `Could not decode chunk: <reason>`.
pub open spec fn spec_decode_chunk(chunk_base64: Seq<char>) -> Result<Seq<u8>, Seq<char>> {
    match spec_base64_decode(chunk_base64) {
        Ok(bytes) => Ok(bytes),
        Err(e) => Err("Could not decode chunk: "@ + e),
    }
}

/// Decodes one base64 chunk of a recording being saved.
pub fn decode_chunk(chunk_base64: &str) -> (r: Result<Vec<u8>, String>)
    ensures
        match (r, spec_decode_chunk(chunk_base64@)) {
            (Ok(a), Ok(b)) => a@ == b,
            (Err(a), Err(b)) => a@ == b,
            _ => false,
        },
{
    match base64_decode(chunk_base64) {
        Ok(bytes) => Ok(bytes),
        Err(e) => {
            let mut m = String::new();
            push_str(&mut m, "Could not decode chunk: ");
            m.append(e.as_str());
            Err(m)
        },
    }
}

/// The bytes of a capture to be saved: the decoded data, an error naming
/// why it could not be decoded, or an error when it decodes to nothing.
pub open spec fn spec_capture_bytes(data_base64: Seq<char>) -> Result<Seq<u8>, Seq<char>> {
    match spec_base64_decode(data_base64) {
        Ok(bytes) => if bytes.len() == 0 {
            Err("No capture data was received to save."@)
        } else {
            Ok(bytes)
        },
        Err(e) => Err("Could not decode capture data: "@ + e),
    }
}

/// Checks and decodes the capture data handed to the native Save As
/// command, before any dialog is shown.
pub fn decode_capture_data(data_base64: &str) -> (r: Result<Vec<u8>, String>)
    ensures
        match (r, spec_capture_bytes(data_base64@)) {
            (Ok(a), Ok(b)) => a@ == b,
            (Err(a), Err(b)) => a@ == b,
            _ => false,
        },
{
    match base64_decode(data_base64) {
        Ok(bytes) => {
            if bytes.len() == 0 {
                let mut m = String::new();
                push_str(&mut m, "No capture data was received to save.");
                Err(m)
            } else {
                Ok(bytes)
            }
        },
        Err(e) => {
            let mut m = String::new();
            push_str(&mut m, "Could not decode capture data: ");
            m.append(e.as_str());
            Err(m)
        },
    }
}

/// The base64 text handed back for a captured PNG screenshot.
pub fn screenshot_payload(png: &[u8]) -> (r: String)
    requires
        padded_base64_len(png@.len()) <= usize::MAX,
    ensures
        r@ == spec_base64_encode(png@),
        r@.len() == padded_base64_len(png@.len()),
{
    base64_encode(png)
}

} // verus!
