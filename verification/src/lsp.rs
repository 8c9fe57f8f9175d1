//! Talking to a language server over its standard input: the header that
//! frames each JSON-RPC message, and file paths as text.

use vstd::prelude::*;
use vstd::string::StringSliceAdditionalSpecFns;

use std::path::PathBuf;

use crate::strings::{decimal, push_decimal, push_str};

verus! {

#[verifier::external_type_specification]
#[verifier::external_body]
pub struct ExPathBuf(PathBuf);

/// The text that `Path::display` gives for `path`: the path itself where it
/// is valid Unicode, with invalid sequences replaced otherwise. It depends on
/// the path alone.
pub uninterp spec fn path_display_text(path: PathBuf) -> Seq<char>;

/// `Path::display` of `path`, as a `String`. Claimed: the text is
/// `path_display_text(*path)`, a function of the path alone.
#[verifier::external_body]
fn path_display_string(path: &PathBuf) -> (r: String)
    ensures
        r@ == path_display_text(*path),
{
    path.display().to_string()
}

/// The text of a file path: the path as displayed, or the empty string when
/// there is none.
pub fn file_path_to_string(buf: &Option<PathBuf>) -> (r: String)
    ensures
        buf is None ==> r@ == Seq::<char>::empty(),
        buf matches Some(p) ==> r@ == path_display_text(*p),
{
    match buf {
        Some(path) => path_display_string(path),
        None => String::new(),
    }
}

/// The framing of a JSON-RPC message: a `Content-Length` header with the
/// length of the body in bytes, a blank line, then the body.
pub open spec fn framed(json: Seq<char>) -> Seq<char> {
    "Content-Length: "@ + decimal(vstd::utf8::encode_utf8(json).len()) + "\r\n\r\n"@ + json
}

/// Frames the JSON-RPC message `json`; see `framed`.
pub fn content_length_frame(json: &str) -> (r: String)
    ensures
        r@ == framed(json@),
{
    let content_length = json.as_bytes().len();
    let mut request = "Content-Length: ".to_string();
    push_decimal(&mut request, content_length as u64);
    push_str(&mut request, "\r\n\r\n");
    push_str(&mut request, json);
    request
}

} // verus!
