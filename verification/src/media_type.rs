//! The `Content-Type` of a served file, guessed from the extension of its path.

use vstd::prelude::*;
use crate::headers::{is_field_value, is_header_text};

verus! {

/// The media type that the table of known file extensions gives for `path`;
/// `application/octet-stream` where the path has no extension or the table
/// does not know it.
pub uninterp spec fn guessed_media_type(path: Seq<char>) -> Seq<char>;

/// `mime_guess::from_path` followed by `first_or_octet_stream`, as text: the
/// first media type listed for the extension of `path`. The file is not
/// looked at, so the same path always gives the same type.
#[verifier::external_body]
fn guess_media_type(path: &str) -> (media_type: String)
    ensures
        media_type@ == guessed_media_type(path@),
{
    mime_guess::from_path(path).first_or_octet_stream().as_ref().to_string()
}

/// The media type sent when nothing better is known.
pub open spec fn default_media_type() -> Seq<char> {
    "application/octet-stream"@
}

/// The value of `Content-Type` for a guess: the guess itself where it can
/// stand in a header, the default where it can not.
pub open spec fn content_type_or_default(guess: Seq<char>) -> Seq<char> {
    if is_field_value(guess) {
        guess
    } else {
        default_media_type()
    }
}

/// The default media type can itself stand in a header.
pub proof fn lemma_default_is_field_value()
    ensures
        is_field_value(default_media_type()),
{
    reveal_strlit("application/octet-stream");
}

/// Settles the value of `Content-Type` for a guessed media type.
pub fn usable_content_type(guess: String) -> (content_type: String)
    ensures
        content_type@ == content_type_or_default(guess@),
        is_field_value(content_type@),
{
    if is_header_text(guess.as_str()) {
        guess
    } else {
        proof {
            lemma_default_is_field_value();
        }
        "application/octet-stream".to_owned()
    }
}

/// The value of `Content-Type` for the file at `path`.
pub fn content_type_for(path: &str) -> (content_type: String)
    ensures
        content_type@ == content_type_or_default(guessed_media_type(path@)),
        is_field_value(content_type@),
{
    usable_content_type(guess_media_type(path))
}

} // verus!
