//! Which dropped files the demo plays as background video.

use vstd::prelude::*;
use vstd::string::StringSliceAdditionalSpecFns;
use crate::bytes_order::{eq_ignore_ascii_case, lower_bytes};

verus! {

/// The video file extensions the demo plays.
pub const DEMO_VIDEO_EXTENSIONS: [&'static str; 6] = ["mp4", "mov", "m4v", "webm", "mkv", "avi"];

/// What `std::path::Path::extension` gives for `path` (as text): the part
/// of the file name after its last `.`, if it has one.
pub uninterp spec fn path_extension(path: Seq<char>) -> Option<Seq<char>>;

/// Calls `std::path::Path::extension` on `path` and reads the extension as
/// text. The result is named by `path_extension`; how the standard library
/// finds the file name of a path is not restated here.
#[verifier::external_body]
fn file_extension(path: &str) -> (r: Option<String>)
    ensures
        match r {
            Some(e) => path_extension(path@) == Some(e@),
            None => path_extension(path@) is None,
        },
{
    match std::path::Path::new(path).extension() {
        Some(extension) => match extension.to_str() {
            Some(text) => Some(text.to_string()),
            None => None,
        },
        None => None,
    }
}

/// The extension, ignoring ASCII case, is one of the demo's video
/// extensions.
pub open spec fn spec_is_video_extension(extension: Seq<char>) -> bool {
    exists|k: int|
        0 <= k < 6 && lower_bytes(vstd::utf8::encode_utf8(extension)) == lower_bytes(
            #[trigger] DEMO_VIDEO_EXTENSIONS[k].spec_bytes(),
        )
}

/// Whether a file extension names a video the demo plays, in any ASCII case.
pub fn is_supported_video_extension(extension: &str) -> (b: bool)
    ensures
        b == spec_is_video_extension(extension@),
{
    let bytes = extension.as_bytes();
    let mut k: usize = 0;
    while k < 6
        invariant
            k <= 6,
            bytes@ == extension.spec_bytes(),
            forall|j: int|
                0 <= j < k ==> lower_bytes(bytes@) != lower_bytes(#[trigger] DEMO_VIDEO_EXTENSIONS[j].spec_bytes()),
        decreases 6 - k,
    {
        let name: &str = DEMO_VIDEO_EXTENSIONS[k];
        if eq_ignore_ascii_case(bytes, name.as_bytes()) {
            return true;
        }
        k = k + 1;
    }
    false
}

/// Whether a dropped file is a video the demo plays: its extension is one of
/// the demo's video extensions, in any ASCII case.
pub fn is_supported_demo_video(path: &str) -> (b: bool)
    ensures
        b == match path_extension(path@) {
            Some(e) => spec_is_video_extension(e),
            None => false,
        },
{
    match file_extension(path) {
        Some(extension) => is_supported_video_extension(extension.as_str()),
        None => false,
    }
}

} // verus!
