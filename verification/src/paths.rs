//! File paths: which files are videos, the id of a video, and the path
//! operations of std that the library relies on.
//!
//! Paths are held as text. std's path operations (extension, parent, join,
//! prefix tests, normal form) and Unicode case mapping are called through the
//! functions below, whose results are named by uninterpreted functions: they
//! depend on their arguments alone.
use vstd::prelude::*;
use vstd::utf8::encode_utf8;
use base64::Engine;
use crate::text::str_equals;

verus! {

/// What `Path::extension` gives for a path: the part of its file name after
/// the last '.', if the file name has one that is not its first character.
pub uninterp spec fn spec_path_extension(path: Seq<char>) -> Option<Seq<char>>;

/// What `Path::parent` gives: the path without its last component, if it has one.
pub uninterp spec fn spec_path_parent(path: Seq<char>) -> Option<Seq<char>>;

/// What `Path::join` gives: `rel` appended to `base` (or `rel` alone when it is absolute).
pub uninterp spec fn spec_path_join(base: Seq<char>, rel: Seq<char>) -> Seq<char>;

/// What `Path::strip_prefix` gives: the rest of `path` after the components of
/// `base`, if `base` is a component prefix of `path`.
pub uninterp spec fn spec_path_strip_prefix(path: Seq<char>, base: Seq<char>) -> Option<Seq<char>>;

/// What `Path::starts_with` gives: whether the components of `base` begin those of `path`.
pub uninterp spec fn spec_path_starts_with(path: Seq<char>, base: Seq<char>) -> bool;

/// The path rebuilt from what `Path::components` yields: repeated separators
/// and inner "." components are gone.
pub uninterp spec fn spec_path_normalized(path: Seq<char>) -> Seq<char>;

/// What `str::to_lowercase` gives: the Unicode lower case of the text (a
/// character may map to several, and a final sigma maps by its position).
pub uninterp spec fn spec_to_lowercase(s: Seq<char>) -> Seq<char>;

/// What `str::to_uppercase` gives: the Unicode upper case of the text (a
/// character may map to several).
pub uninterp spec fn spec_to_uppercase(s: Seq<char>) -> Seq<char>;

/// What base64's `URL_SAFE_NO_PAD` engine encodes `bytes` to (RFC 4648 with
/// the URL-safe alphabet, without padding).
pub uninterp spec fn spec_base64_url_no_pad(bytes: Seq<u8>) -> Seq<char>;

/// The length of the unpadded base64 text of `n` bytes.
pub open spec fn base64_unpadded_len(n: nat) -> nat {
    let tail: nat = if n % 3 == 0 {
        0
    } else if n % 3 == 1 {
        2
    } else {
        3
    };
    4 * (n / 3) + tail
}

/// Calls `Path::extension` on `path`, as text. The result is named by
/// `spec_path_extension`; nothing else is stated of it.
#[verifier::external_body]
pub(crate) fn path_extension(path: &str) -> (res: Option<String>)
    ensures
        res matches Some(e) ==> spec_path_extension(path@) == Some(e@),
        res is None ==> spec_path_extension(path@) is None,
{
    std::path::Path::new(path).extension().and_then(|e| e.to_str()).map(|e| e.to_string())
}

/// Calls `Path::parent` on `path`. The result is named by `spec_path_parent`.
#[verifier::external_body]
pub(crate) fn path_parent(path: &str) -> (res: Option<String>)
    ensures
        res matches Some(p) ==> spec_path_parent(path@) == Some(p@),
        res is None ==> spec_path_parent(path@) is None,
{
    std::path::Path::new(path).parent().map(|p| p.to_string_lossy().to_string())
}

/// Calls `Path::join`. The result is named by `spec_path_join`.
#[verifier::external_body]
pub(crate) fn path_join(base: &str, rel: &str) -> (res: String)
    ensures
        res@ == spec_path_join(base@, rel@),
{
    std::path::Path::new(base).join(rel).to_string_lossy().to_string()
}

/// Calls `Path::strip_prefix`. The result is named by `spec_path_strip_prefix`.
#[verifier::external_body]
pub(crate) fn path_strip_prefix(path: &str, base: &str) -> (res: Option<String>)
    ensures
        res matches Some(r) ==> spec_path_strip_prefix(path@, base@) == Some(r@),
        res is None ==> spec_path_strip_prefix(path@, base@) is None,
{
    std::path::Path::new(path).strip_prefix(base).ok().map(|r| r.to_string_lossy().to_string())
}

/// Calls `Path::starts_with`. The result is named by `spec_path_starts_with`.
#[verifier::external_body]
pub(crate) fn path_starts_with(path: &str, base: &str) -> (res: bool)
    ensures
        res == spec_path_starts_with(path@, base@),
{
    std::path::Path::new(path).starts_with(base)
}

/// Collects `Path::components` of `path` into a new path. The result is
/// named by `spec_path_normalized`.
#[verifier::external_body]
pub(crate) fn path_normalized(path: &str) -> (res: String)
    ensures
        res@ == spec_path_normalized(path@),
{
    std::path::PathBuf::from_iter(std::path::Path::new(path).components()).to_string_lossy().to_string()
}

/// Calls `str::to_lowercase`. The result is named by `spec_to_lowercase`.
#[verifier::external_body]
pub(crate) fn to_lowercase(s: &str) -> (res: String)
    ensures
        res@ == spec_to_lowercase(s@),
{
    s.to_lowercase()
}

/// Calls `str::to_uppercase`. The result is named by `spec_to_uppercase`.
#[verifier::external_body]
pub(crate) fn to_uppercase(s: &str) -> (res: String)
    ensures
        res@ == spec_to_uppercase(s@),
{
    s.to_uppercase()
}

/// Calls `Engine::encode` of base64's `URL_SAFE_NO_PAD` engine. The result is
/// named by `spec_base64_url_no_pad`; its length is the one that base64's
/// `encoded_len` computes without padding. The length bound leaves out the
/// inputs on which `encoded_len` overflows and `encode` panics.
#[verifier::external_body]
pub(crate) fn base64_url_no_pad(bytes: &[u8]) -> (res: String)
    requires
        bytes@.len() <= usize::MAX / 2,
    ensures
        res@ == spec_base64_url_no_pad(bytes@),
        res@.len() == base64_unpadded_len(bytes@.len()),
{
    base64::engine::general_purpose::URL_SAFE_NO_PAD.encode(bytes)
}

/// The file extensions of videos, in lower case.
pub open spec fn video_extensions() -> Seq<Seq<char>> {
    seq!["mkv"@, "mp4"@, "m4v"@, "avi"@, "mov"@, "webm"@]
}

/// Whether a path names a video: its extension, in lower case, is one of
/// the video extensions.
pub open spec fn is_video_path(path: Seq<char>) -> bool {
    match spec_path_extension(path) {
        Some(e) => video_extensions().contains(spec_to_lowercase(e)),
        None => false,
    }
}

/// The id of the video at `path`: its UTF-8 bytes in unpadded URL-safe base64.
pub open spec fn video_id_of(path: Seq<char>) -> Seq<char> {
    spec_base64_url_no_pad(encode_utf8(path))
}

/// The UTF-8 form of `path` is short enough for its id to be computed
/// (at most half the address space, which every string in memory is).
pub open spec fn id_fits(path: Seq<char>) -> bool {
    encode_utf8(path).len() <= usize::MAX / 2
}

fn video_extension(i: usize) -> (res: &'static str)
    requires
        i < 6,
    ensures
        res@ == video_extensions()[i as int],
{
    if i == 0 {
        "mkv"
    } else if i == 1 {
        "mp4"
    } else if i == 2 {
        "m4v"
    } else if i == 3 {
        "avi"
    } else if i == 4 {
        "mov"
    } else {
        "webm"
    }
}

/// Whether the file at `path` is a video, judged by its extension: MKV, MP4,
/// M4V, AVI, MOV or WebM, in any case.
pub fn is_video_file(path: &str) -> (res: bool)
    ensures
        res == is_video_path(path@),
{
    match path_extension(path) {
        None => false,
        Some(ext) => {
            let lower = to_lowercase(ext.as_str());
            let mut i: usize = 0;
            while i < 6
                invariant
                    i <= 6,
                    lower@ == spec_to_lowercase(ext@),
                    spec_path_extension(path@) == Some(ext@),
                    forall|j: int| 0 <= j < i ==> video_extensions()[j] != lower@,
                decreases 6 - i,
            {
                if str_equals(lower.as_str(), video_extension(i)) {
                    assert(video_extensions()[i as int] == lower@);
                    return true;
                }
                i = i + 1;
            }
            assert(!video_extensions().contains(lower@));
            false
        }
    }
}

/// The id of the video at `path`, as the server uses it in URLs.
pub fn video_id(path: &str) -> (res: String)
    requires
        id_fits(path@),
    ensures
        res@ == video_id_of(path@),
{
    let bytes = path.as_bytes();
    base64_url_no_pad(bytes)
}

} // verus!

verus! {

/// The path of a video relative to the root: `path` without the components
/// of `root`, or `path` itself when it does not lie below `root`.
pub open spec fn relative_path_of(path: Seq<char>, root: Seq<char>) -> Seq<char> {
    match spec_path_strip_prefix(path, root) {
        Some(rest) => rest,
        None => path,
    }
}

/// The path of `path` relative to `root` (or `path` itself outside `root`).
pub fn relative_path(path: &str, root: &str) -> (res: String)
    ensures
        res@ == relative_path_of(path@, root@),
{
    match path_strip_prefix(path, root) {
        Some(rest) => rest,
        None => path.to_owned(),
    }
}

} // verus!
