//! Codecs: base64, text from bytes, quoted text.
use base64::Engine;
use vstd::prelude::*;

verus! {

/// The text that base64 with the standard alphabet and padding makes of bytes.
pub uninterp spec fn base64_text(bytes: Seq<u8>) -> Seq<char>;

/// What base64 with the standard alphabet and padding reads from a text: bytes,
/// or the message of its error.
pub uninterp spec fn base64_bytes(text: Seq<char>) -> Result<Seq<u8>, Seq<char>>;

/// The text that ill-formed bytes stand for, where each ill-formed part of them is replaced
/// by U+FFFD.
pub uninterp spec fn lossy_text(bytes: Seq<u8>) -> Seq<char>;

/// A text between double quotes, escaped as in Rust source.
pub uninterp spec fn quoted(text: Seq<char>) -> Seq<char>;

/// The text that bytes stand for.
pub open spec fn bytes_text(bytes: Seq<u8>) -> Seq<char> {
    if vstd::utf8::valid_utf8(bytes) {
        vstd::utf8::decode_utf8(bytes)
    } else {
        lossy_text(bytes)
    }
}

/// Tells whether the base64 text of so many bytes fits in memory.
pub open spec fn encodable(len: nat) -> bool {
    (len + 2) / 3 * 4 <= isize::MAX
}

/// `STANDARD.encode` of `base64::engine::general_purpose` writes bytes as text,
/// and `STANDARD.decode` reads the same bytes back from it.
#[verifier::external_body]
pub(crate) fn base64_encode(bytes: &[u8]) -> (text: String)
    requires
        encodable(bytes@.len()),
    ensures
        text@ == base64_text(bytes@),
        match base64_bytes(text@) {
            Ok(back) => back == bytes@,
            Err(_) => false,
        },
{
    base64::engine::general_purpose::STANDARD.encode(bytes)
}

/// `STANDARD.decode` of `base64::engine::general_purpose` reads bytes from a
/// text, or fails with an error. What it reads is left to the name
/// `base64_bytes`. Four characters stand for three bytes or fewer, and no text is
/// longer than `isize::MAX` bytes.
#[verifier::external_body]
pub(crate) fn base64_decode(text: &str) -> (out: Result<Vec<u8>, String>)
    ensures
        match out {
            Ok(bytes) => base64_bytes(text@) == Ok::<Seq<u8>, Seq<char>>(bytes@) && encodable(
                bytes@.len(),
            ),
            Err(message) => base64_bytes(text@) == Err::<Seq<u8>, Seq<char>>(message@),
        },
{
    base64::engine::general_purpose::STANDARD.decode(text).map_err(|e| e.to_string())
}

/// `String::from_utf8_lossy` reads well-formed UTF-8 as it stands. What it makes
/// of other bytes is left to the name `lossy_text`.
#[verifier::external_body]
pub(crate) fn text_from_bytes(bytes: &[u8]) -> (text: String)
    ensures
        text@ == (if vstd::utf8::valid_utf8(bytes@) {
            vstd::utf8::decode_utf8(bytes@)
        } else {
            lossy_text(bytes@)
        }),
{
    String::from_utf8_lossy(bytes).into_owned()
}

/// The `Debug` of `str` writes a text between double quotes and escapes it.
#[verifier::external_body]
pub(crate) fn quote(text: &str) -> (out: String)
    ensures
        out@ == quoted(text@),
{
    format!("{:?}", text)
}

} // verus!
