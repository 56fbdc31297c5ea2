//! Clipboard image data: decoding the transported base64 text and naming
//! the saved file.

use vstd::prelude::*;

use base64::Engine;

use crate::text::{append_dec, append_str, chars_to_string, dec_str, to_chars};

verus! {

#[verifier::external_type_specification]
#[verifier::external_body]
pub struct ExDecodeError(base64::DecodeError);

// What standard base64 decoding makes of the text: the decoded bytes, or
// nothing when the text is not valid base64.  The result of decoding with
// `base64::engine::general_purpose::STANDARD`, a function of the text
// alone.
pub uninterp spec fn base64_decoded(s: Seq<char>) -> Option<Seq<u8>>;

/// Relies on `base64::Engine::decode` with the standard alphabet: whether
/// the text decodes, and to which bytes, depends on the text alone.
#[verifier::external_body]
fn b64_decode(data: &str) -> (r: Result<Vec<u8>, base64::DecodeError>)
    ensures
        r is Ok == base64_decoded(data@) is Some,
        r matches Ok(v) ==> base64_decoded(data@) == Some(v@),
{
    base64::engine::general_purpose::STANDARD.decode(data)
}

/// Relies on the `Display` implementation of `base64::DecodeError` for the
/// human-readable description of a decode error.
#[verifier::external_body]
fn decode_error_text(e: &base64::DecodeError) -> String {
    e.to_string()
}

/// Decode the base64 image data carried from the clipboard.
///
/// Succeeds exactly on valid standard base64 and yields its bytes; invalid
/// data is reported with the decoder's description.
pub fn decode_clipboard_image(base64_data: &str) -> (r: Result<Vec<u8>, String>)
    ensures
        r is Ok == base64_decoded(base64_data@) is Some,
        r matches Ok(v) ==> base64_decoded(base64_data@) == Some(v@),
{
    match b64_decode(base64_data) {
        Ok(v) => Ok(v),
        Err(e) => {
            let detail = decode_error_text(&e);
            let mut msg: Vec<char> = Vec::new();
            append_str(&mut msg, "Failed to decode base64: ");
            append_str(&mut msg, detail.as_str());
            Err(chars_to_string(&msg))
        },
    }
}

/// The file name a pasted image is saved under: the chosen prefix (or
/// `image`), the millisecond timestamp, and the `.png` extension.
pub fn image_filename(filename_prefix: Option<String>, timestamp_millis: u128) -> (r: String)
    ensures
        r@ == (match filename_prefix {
            Some(p) => p@,
            None => "image"@,
        }) + "-"@ + dec_str(timestamp_millis as int) + ".png"@,
{
    let mut out: Vec<char> = Vec::new();
    match filename_prefix {
        Some(p) => append_str(&mut out, p.as_str()),
        None => append_str(&mut out, "image"),
    }
    append_str(&mut out, "-");
    append_dec(&mut out, timestamp_millis);
    append_str(&mut out, ".png");
    proof {
        assert(out@ =~= (match filename_prefix {
            Some(p) => p@,
            None => "image"@,
        }) + "-"@ + dec_str(timestamp_millis as int) + ".png"@);
    }
    chars_to_string(&out)
}

} // verus!
