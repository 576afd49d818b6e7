//! Image payloads prepared for display: the base64 data URL of a stored
//! PNG, and the validation of stored image file names.

use base64::Engine;
use vstd::prelude::*;

verus! {

/// What the standard base64 alphabet encodes a byte sequence to; the
/// encoding depends on the bytes alone.
pub uninterp spec fn b64_of(bytes: Seq<u8>) -> Seq<char>;

/// Relies on base64's standard-alphabet engine: the encoding is a pure
/// function of the bytes, four characters for every started group of
/// three bytes.
#[verifier::external_body]
fn b64_encode(b: &Vec<u8>) -> (r: String)
    ensures
        r@ == b64_of(b@),
        r@.len() == ((b@.len() + 2) / 3) * 4,
{
    base64::engine::general_purpose::STANDARD.encode(b)
}

/// The scheme-and-type prefix of an image data URL.
pub open spec fn data_url_prefix() -> Seq<char> {
    "data:image/png;base64,"@
}

/// Builds the data URL under which a stored PNG is shown: the PNG bytes,
/// base64-encoded behind the image data-URL prefix.
pub fn image_data_url(png: &Vec<u8>) -> (r: String)
    ensures
        r@ == data_url_prefix() + b64_of(png@),
{
    let mut out: String = "data:image/png;base64,".to_owned();
    let encoded = b64_encode(png);
    vstd::string::StringExecFns::append(&mut out, encoded.as_str());
    out
}

/// True when a stored image file name is plain: no parent-directory
/// step and no path separator, so it cannot escape the images directory.
pub open spec fn image_path_ok(p: Seq<char>) -> bool {
    &&& !crate::text::contains_seq(p, ".."@)
    &&& (forall|i: int| 0 <= i < p.len() ==> p[i] != '/')
    &&& (forall|i: int| 0 <= i < p.len() ==> p[i] != '\\')
}

/// Validates a stored image file name before it is used to address a
/// file: it must name a plain file, with no parent-directory step and no
/// path separator.
pub fn validate_image_path(p: &str) -> (r: bool)
    ensures
        r == image_path_ok(p@),
{
    let chars = crate::text::str_to_chars(p);
    let dots = crate::text::str_to_chars("..");
    if crate::text::contains_chars(&chars, &dots) {
        return false;
    }
    let mut i: usize = 0;
    while i < chars.len()
        invariant
            0 <= i <= chars@.len(),
            chars@ == p@,
            forall|k: int| 0 <= k < i ==> chars@[k] != '/' && chars@[k] != '\\',
        decreases chars@.len() - i,
    {
        if chars[i] == '/' || chars[i] == '\\' {
            return false;
        }
        i += 1;
    }
    true
}

} // verus!
