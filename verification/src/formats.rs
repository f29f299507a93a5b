//! The audio formats that the application works on, told by the extension
//! of a file.

use vstd::prelude::*;
use crate::text::{lowercased, same_text, to_lowercase};

verus! {

/// Whether `ext`, in lower case already, is the extension of a format that
/// the application lists: `mp3`, `flac`, `wav`, `aiff`, `aif` or `m4a`.
pub open spec fn is_listed(ext: Seq<char>) -> bool {
    ||| ext == "mp3"@
    ||| ext == "flac"@
    ||| ext == "wav"@
    ||| ext == "aiff"@
    ||| ext == "aif"@
    ||| ext == "m4a"@
}

/// Whether a file with the extension `ext` is listed: whether the
/// extension, whatever its case, is one of the six.
pub open spec fn is_supported(ext: Option<Seq<char>>) -> bool {
    match ext {
        Some(e) => is_listed(lowercased(e)),
        None => false,
    }
}

/// Tests whether `ext`, in lower case already, is the extension of a listed format.
pub fn is_listed_ext(ext: &str) -> (listed: bool)
    ensures
        listed == is_listed(ext@),
{
    same_text(ext, "mp3") || same_text(ext, "flac") || same_text(ext, "wav") || same_text(
        ext,
        "aiff",
    ) || same_text(ext, "aif") || same_text(ext, "m4a")
}

/// Tests whether a file is listed when a folder is scanned, by the
/// extension of its name; a name without extension is not.
pub fn supported_ext(ext: Option<&str>) -> (supported: bool)
    ensures
        supported == is_supported(
            match ext {
                Some(e) => Some(e@),
                None => None,
            },
        ),
{
    match ext {
        Some(e) => {
            let lowered = to_lowercase(e);
            is_listed_ext(lowered.as_str())
        },
        None => false,
    }
}

} // verus!
