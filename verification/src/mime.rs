//! The content type of a file, decided by the extension of its name.

use vstd::prelude::*;
use vstd::string::*;
use vstd::utf8::*;

verus! {

/// The content type that `rouille::extension_to_mime` gives for `extension`:
/// the crate's fixed table from extensions to content types, whose entries
/// are not restated here.
pub uninterp spec fn mime_table(extension: Seq<char>) -> Seq<char>;

/// The content type of a file without an extension, or with one that is not
/// text.
pub open spec fn fallback() -> Seq<char> {
    "application/octet-stream"@
}

/// The content type of a file whose name has the extension `extension`.
pub open spec fn mime_of(extension: Option<Seq<u8>>) -> Seq<char> {
    match extension {
        Some(bytes) => if valid_utf8(bytes) {
            mime_table(decode_utf8(bytes))
        } else {
            fallback()
        },
        None => fallback(),
    }
}

/// Looks `extension` up with `rouille::extension_to_mime`. The function
/// matches the extension, case as given, against a fixed list and returns the
/// entry's content type; the result depends on `extension` alone.
#[verifier::external_body]
fn table_lookup(extension: &str) -> (mime: String)
    ensures
        mime@ == mime_table(extension@),
{
    rouille::extension_to_mime(extension).to_string()
}

/// Reads `bytes` as text with `std::str::from_utf8`: the text whose UTF-8
/// encoding they are, or nothing where they are not valid UTF-8.
#[verifier::external_body]
fn utf8_text(bytes: &[u8]) -> (text: Option<&str>)
    ensures
        text is Some <==> valid_utf8(bytes@),
        text matches Some(s) ==> s.spec_bytes() == bytes@,
{
    std::str::from_utf8(bytes).ok()
}

/// Resolves the content type for an extension, taken as it stands: the
/// table's answer for an extension that is text, the fallback for one that is
/// not and for a file without extension.
pub fn extension_to_mime(extension: Option<&[u8]>) -> (mime: String)
    ensures
        mime@ == mime_of(
            match extension {
                Some(bytes) => Some(bytes@),
                None => None,
            },
        ),
{
    match extension {
        Some(bytes) => match utf8_text(bytes) {
            Some(text) => {
                proof {
                    encode_utf8_decode_utf8(text@);
                }
                table_lookup(text)
            },
            None => "application/octet-stream".to_string(),
        },
        None => "application/octet-stream".to_string(),
    }
}

} // verus!
