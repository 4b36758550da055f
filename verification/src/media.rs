//! Which media files the editor accepts, by file extension.
use vstd::prelude::*;
use std::path::Path;
use crate::stickers::path_buf_of;
use crate::text::{same_text, push_str, chars_of};

verus! {

/// Video file extensions accepted for import.
pub open spec fn video_extensions() -> Seq<Seq<char>> {
    seq!["mp4"@, "MP4"@, "mov"@, "MOV"@, "m4v"@, "M4V"@, "mkv"@, "MKV"@, "avi"@, "AVI"@, "wmv"@, "WMV"@, "webm"@, "WEBM"@, "flv"@, "FLV"@, "ts"@, "TS"@, "mts"@, "MTS"@, "m2ts"@, "M2TS"@, "3gp"@, "3GP"@, "mpg"@, "MPG"@, "mpeg"@, "MPEG"@, "vob"@, "VOB"@]
}

/// Audio file extensions accepted for import.
pub open spec fn audio_extensions() -> Seq<Seq<char>> {
    seq!["mp3"@, "MP3"@, "wav"@, "WAV"@, "m4a"@, "M4A"@, "aac"@, "AAC"@, "flac"@, "FLAC"@, "ogg"@, "OGG"@, "wma"@, "WMA"@, "opus"@, "OPUS"@, "aiff"@, "AIFF"@, "alac"@, "ALAC"@]
}

/// Picture file extensions accepted for import.
pub open spec fn image_extensions() -> Seq<Seq<char>> {
    seq!["jpg"@, "JPG"@, "jpeg"@, "JPEG"@, "png"@, "PNG"@, "webp"@, "WEBP"@, "bmp"@, "BMP"@]
}

/// Whether an extension is one of the accepted video, audio or picture extensions.
pub open spec fn supported_extension(ext: Seq<char>) -> bool {
    video_extensions().contains(ext) || audio_extensions().contains(ext) || image_extensions().contains(ext)
}

/// Video file extensions accepted for import.
pub fn supported_video_extensions() -> (r: &'static [&'static str])
    ensures
        r@.map_values(|s: &str| s@) == video_extensions(),
{
    let r: &'static [&'static str] = &["mp4", "MP4", "mov", "MOV", "m4v", "M4V", "mkv", "MKV", "avi", "AVI", "wmv", "WMV", "webm", "WEBM", "flv", "FLV", "ts", "TS", "mts", "MTS", "m2ts", "M2TS", "3gp", "3GP", "mpg", "MPG", "mpeg", "MPEG", "vob", "VOB"];
    assert(r@.map_values(|s: &str| s@) =~= video_extensions());
    r
}

/// Audio file extensions accepted for import.
pub fn supported_audio_extensions() -> (r: &'static [&'static str])
    ensures
        r@.map_values(|s: &str| s@) == audio_extensions(),
{
    let r: &'static [&'static str] = &["mp3", "MP3", "wav", "WAV", "m4a", "M4A", "aac", "AAC", "flac", "FLAC", "ogg", "OGG", "wma", "WMA", "opus", "OPUS", "aiff", "AIFF", "alac", "ALAC"];
    assert(r@.map_values(|s: &str| s@) =~= audio_extensions());
    r
}

/// Picture file extensions accepted for import.
pub fn supported_image_extensions() -> (r: &'static [&'static str])
    ensures
        r@.map_values(|s: &str| s@) == image_extensions(),
{
    let r: &'static [&'static str] = &["jpg", "JPG", "jpeg", "JPEG", "png", "PNG", "webp", "WEBP", "bmp", "BMP"];
    assert(r@.map_values(|s: &str| s@) =~= image_extensions());
    r
}

fn list_contains(list: &[&'static str], ext: &str) -> (b: bool)
    ensures
        b == list@.map_values(|s: &str| s@).contains(ext@),
{
    let ghost views = list@.map_values(|s: &str| s@);
    let mut i: usize = 0;
    while i < list.len()
        invariant
            i <= list@.len(),
            views == list@.map_values(|s: &str| s@),
            forall|j: int| 0 <= j < i ==> views[j] != ext@,
        decreases list.len() - i,
    {
        if same_text(list[i], ext) {
            assert(views[i as int] == ext@);
            return true;
        }
        i = i + 1;
    }
    false
}

/// Whether an extension (case as written) is an accepted media extension.
pub fn is_supported_extension(ext: &str) -> (b: bool)
    ensures
        b == supported_extension(ext@),
{
    list_contains(supported_video_extensions(), ext) || list_contains(supported_audio_extensions(), ext)
        || list_contains(supported_image_extensions(), ext)
}

/// The extension `Path::extension` finds in a path, when it is valid UTF-8.
pub uninterp spec fn path_extension_text(p: std::path::PathBuf) -> Option<Seq<char>>;

/// `Path::extension` followed by `OsStr::to_str`: the text after the last dot of the
/// file name, when there is one and it is valid UTF-8.
#[verifier::external_body]
fn extension_of(path: &Path) -> (r: Option<String>)
    ensures
        match r {
            Some(e) => path_extension_text(path_buf_of(path)) == Some(e@),
            None => path_extension_text(path_buf_of(path)) is None,
        },
{
    path.extension().and_then(|e| e.to_str()).map(|e| e.to_string())
}

/// True when the file's extension is one of the supported video, audio or picture formats.
pub fn is_supported_media(path: &Path) -> (b: bool)
    ensures
        b == match path_extension_text(path_buf_of(path)) {
            Some(e) => supported_extension(e),
            None => false,
        },
{
    match extension_of(path) {
        Some(ext) => is_supported_extension(ext.as_str()),
        None => false,
    }
}

/// Ending of a proxy file's name, after the source file's stem.
pub const PROXY_SUFFIX: &'static str = "_proxy_360p.mp4";

/// A cached proxy of at most this many bytes is taken as broken and made again.
pub const PROXY_MIN_BYTES: u64 = 1000;

/// File name of the low-resolution proxy made for a source whose file stem is `stem`.
pub fn proxy_file_name(stem: &str) -> (s: String)
    ensures
        s@ == stem@ + PROXY_SUFFIX@,
{
    let mut s = String::new();
    push_str(&mut s, stem);
    push_str(&mut s, PROXY_SUFFIX);
    s
}

/// Whether a proxy file already on disk, `len` bytes long, can be used as it is.
pub fn proxy_is_usable(len: u64) -> (b: bool)
    ensures
        b == (len > PROXY_MIN_BYTES),
{
    len > PROXY_MIN_BYTES
}

/// Extensions of still pictures that an export loops as a video input, in lower case.
pub open spec fn still_extensions() -> Seq<Seq<char>> {
    seq!["png"@, "jpg"@, "jpeg"@, "gif"@, "webp"@, "bmp"@]
}

/// `x` is `y`, or its upper-case ASCII form.
pub open spec fn lower_eq(x: char, y: char) -> bool {
    x == y || ('A' <= x && x <= 'Z' && x as u32 + 32 == y as u32)
}

/// `a` spells the lower-case name `b`, with any ASCII letters of `a` in either case.
pub open spec fn spells_ignoring_case(a: Seq<char>, b: Seq<char>) -> bool {
    a.len() == b.len() && forall|i: int| 0 <= i < a.len() ==> lower_eq(#[trigger] a[i], b[i])
}

/// Whether `a` spells the lower-case name `b` in any ASCII letter case.
fn spells_ignoring_case_exec(a: &str, b: &str) -> (r: bool)
    ensures
        r == spells_ignoring_case(a@, b@),
{
    let x = chars_of(a);
    let y = chars_of(b);
    if x.len() != y.len() {
        return false;
    }
    let mut i: usize = 0;
    while i < x.len()
        invariant
            i <= x.len(),
            x.len() == y.len(),
            x@ == a@,
            y@ == b@,
            forall|j: int| 0 <= j < i ==> lower_eq(#[trigger] x@[j], y@[j]),
        decreases x.len() - i,
    {
        let c = x[i];
        let d = y[i];
        let ok = c == d || ('A' <= c && c <= 'Z' && (c as u32) + 32 == (d as u32));
        if !ok {
            return false;
        }
        i = i + 1;
    }
    true
}

/// Whether a file is a still picture by its extension: png, jpg, jpeg, gif, webp or bmp,
/// in any ASCII letter case (for these names the same as comparing them lower-cased).
pub fn is_still_image(path: &Path) -> (b: bool)
    ensures
        b == match path_extension_text(path_buf_of(path)) {
            Some(e) => exists|k: int| 0 <= k < still_extensions().len() && spells_ignoring_case(e, #[trigger] still_extensions()[k]),
            None => false,
        },
{
    match extension_of(path) {
        Some(ext) => {
            let e = ext.as_str();
            let names: [&str; 6] = ["png", "jpg", "jpeg", "gif", "webp", "bmp"];
            let ghost want = still_extensions();
            proof {
                reveal_strlit("png");
                reveal_strlit("jpg");
                reveal_strlit("jpeg");
                reveal_strlit("gif");
                reveal_strlit("webp");
                reveal_strlit("bmp");
            }
            let mut k: usize = 0;
            while k < 6
                invariant
                    k <= 6,
                    want == still_extensions(),
                    e@ == ext@,
                    path_extension_text(path_buf_of(path)) == Some(ext@),
                    forall|m: int| 0 <= m < 6 ==> (#[trigger] names@[m])@ == want[m],
                    forall|m: int| 0 <= m < k ==> !spells_ignoring_case(e@, #[trigger] want[m]),
                decreases 6 - k,
            {
                if spells_ignoring_case_exec(e, names[k]) {
                    assert(spells_ignoring_case(ext@, still_extensions()[k as int]));
                    return true;
                }
                k = k + 1;
            }
            false
        },
        None => false,
    }
}

} // verus!
