//! Note-facing values and the image-to-data-URL encoding. Reading and
//! writing note files is plain filesystem work outside this library; what
//! stands here is the logic: choosing a media type from the file extension
//! and assembling the data URL around the encoded bytes.

use crate::strutil::{last_char_at, rfind_char, str_eq};
use vstd::prelude::*;

verus! {

/// A note rendered for display, together with its raw text.
#[derive(Debug, Clone)]
pub struct RenderedNote {
    pub path: String,
    pub name: String,
    pub html: String,
    pub raw_content: String,
}

/// One link found in a note.
#[derive(Debug, Clone)]
pub struct LinkInfo {
    /// Target note name or URL.
    pub target: String,
    /// Optional anchor within the target.
    pub anchor: Option<String>,
    /// True for a URL, false for an internal note link.
    pub is_external: bool,
    /// Display text when it differs from the target.
    pub display_text: Option<String>,
}

/// The base64 text of a byte sequence under the standard alphabet with
/// padding. It is a function of the bytes alone.
pub uninterp spec fn base64_of(bytes: Seq<u8>) -> Seq<char>;

/// Relies on base64's `STANDARD` engine: the standard alphabet with
/// padding, whose output is four characters for every started group of
/// three input bytes, and a function of the input bytes alone.
#[verifier::external_body]
fn base64_encode(data: &Vec<u8>) -> (r: String)
    ensures
        r@ == base64_of(data@),
        r@.len() == 4 * ((data@.len() + 2) / 3),
{
    base64::Engine::encode(&base64::engine::general_purpose::STANDARD, data.as_slice())
}

/// The media type served for a file extension.
pub open spec fn spec_mime(ext: Seq<char>) -> Seq<char> {
    if ext == "png"@ {
        "image/png"@
    } else if ext == "jpg"@ || ext == "jpeg"@ {
        "image/jpeg"@
    } else if ext == "gif"@ {
        "image/gif"@
    } else if ext == "webp"@ {
        "image/webp"@
    } else if ext == "svg"@ {
        "image/svg+xml"@
    } else {
        "application/octet-stream"@
    }
}

/// Choose the media type for a file extension; anything unknown is served
/// as an opaque byte stream.
pub fn mime_for_extension(ext: &str) -> (r: &'static str)
    ensures
        r@ == spec_mime(ext@),
{
    if str_eq(ext, "png") {
        "image/png"
    } else if str_eq(ext, "jpg") || str_eq(ext, "jpeg") {
        "image/jpeg"
    } else if str_eq(ext, "gif") {
        "image/gif"
    } else if str_eq(ext, "webp") {
        "image/webp"
    } else if str_eq(ext, "svg") {
        "image/svg+xml"
    } else {
        "application/octet-stream"
    }
}

/// Whether the last dot at `d` marks an extension: it is not the first
/// character of the file name, and no '/' follows it.
pub open spec fn extension_dot(path: Seq<char>, d: int) -> bool {
    &&& 0 < d < path.len()
    &&& path[d - 1] != '/'
    &&& (forall|j: int| d < j < path.len() ==> path[j] != '/')
}

/// The extension of a path: the text after the last '.', if that dot
/// marks an extension.
pub fn file_extension(path: &str) -> (r: Option<String>)
    ensures
        match r {
            Some(ext) => exists|d: int|
                (#[trigger] last_char_at(path@, '.', d)) && extension_dot(path@, d) && ext@
                    == path@.subrange(d + 1, path@.len() as int),
            None => !(exists|d: int| (#[trigger] last_char_at(path@, '.', d)) && extension_dot(
                path@,
                d,
            )),
        },
{
    let slen = path.unicode_len();
    if let Some(d) = rfind_char(path, '.') {
        if d == 0 {
            return None;
        }
        if path.get_char(d - 1) == '/' {
            return None;
        }
        if let Some(sl) = rfind_char(path, '/') {
            if sl > d {
                proof {
                    assert forall|e: int|
                        !((#[trigger] last_char_at(path@, '.', e)) && extension_dot(path@, e)) by {
                        if last_char_at(path@, '.', e) {
                            assert(e == d);
                        }
                    }
                }
                return None;
            }
        }
        let ext = path.substring_char(d + 1, slen).to_owned();
        proof {
            assert(last_char_at(path@, '.', d as int) && extension_dot(path@, d as int));
        }
        Some(ext)
    } else {
        proof {
            assert forall|e: int|
                !((#[trigger] last_char_at(path@, '.', e)) && extension_dot(path@, e)) by {}
        }
        None
    }
}

/// Wrap encoded image bytes as a data URL for the media type of `ext`.
pub fn image_data_url(ext: &str, data: &Vec<u8>) -> (r: String)
    ensures
        r@ == "data:"@ + spec_mime(ext@) + ";base64,"@ + base64_of(data@),
{
    let mut out: String = "data:".to_owned();
    out.append(mime_for_extension(ext));
    out.append(";base64,");
    let encoded = base64_encode(data);
    out.append(encoded.as_str());
    proof {
        assert(out@ =~= "data:"@ + spec_mime(ext@) + ";base64,"@ + base64_of(data@));
    }
    out
}

} // verus!
