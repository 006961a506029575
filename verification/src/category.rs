//! The classifier: a pure map from a file extension to a category label.
//!
//! Matching is case-insensitive under ASCII folding; an absent or
//! unrecognized extension falls back to the default category.

use vstd::prelude::*;

verus! {

/// One label from the fixed extension-classification table.
#[derive(Clone, Copy, PartialEq, Eq, Structural, Debug)]
pub enum Category {
    Images,
    Videos,
    Documents,
    Archives,
    Audio,
    Others,
}

/// ASCII case folding of a single character, as a character code:
/// `A`..`Z` map to the code of the corresponding lowercase letter,
/// every other character keeps its own code.
pub open spec fn lower_code(c: char) -> u32 {
    if 65 <= c as u32 && c as u32 <= 90 {
        (c as u32 + 32) as u32
    } else {
        c as u32
    }
}

/// Case-insensitive equality of two character sequences (ASCII folding).
pub open spec fn eq_ci(a: Seq<char>, b: Seq<char>) -> bool {
    a.len() == b.len() && forall|i: int| 0 <= i < a.len() ==> lower_code(a[i]) == lower_code(b[i])
}

pub open spec fn is_image_ext(e: Seq<char>) -> bool {
    ||| eq_ci(e, "jpg"@)
    ||| eq_ci(e, "png"@)
    ||| eq_ci(e, "gif"@)
    ||| eq_ci(e, "bmp"@)
    ||| eq_ci(e, "tiff"@)
    ||| eq_ci(e, "svg"@)
    ||| eq_ci(e, "webp"@)
}

pub open spec fn is_video_ext(e: Seq<char>) -> bool {
    ||| eq_ci(e, "mp4"@)
    ||| eq_ci(e, "mkv"@)
    ||| eq_ci(e, "avi"@)
    ||| eq_ci(e, "mov"@)
    ||| eq_ci(e, "flv"@)
    ||| eq_ci(e, "wmv"@)
    ||| eq_ci(e, "webm"@)
    ||| eq_ci(e, "mpeg"@)
}

pub open spec fn is_document_ext(e: Seq<char>) -> bool {
    ||| eq_ci(e, "pdf"@)
    ||| eq_ci(e, "doc"@)
    ||| eq_ci(e, "docx"@)
    ||| eq_ci(e, "xls"@)
    ||| eq_ci(e, "xlsx"@)
    ||| eq_ci(e, "ppt"@)
    ||| eq_ci(e, "pptx"@)
    ||| eq_ci(e, "txt"@)
    ||| eq_ci(e, "csv"@)
}

pub open spec fn is_archive_ext(e: Seq<char>) -> bool {
    ||| eq_ci(e, "zip"@)
    ||| eq_ci(e, "rar"@)
    ||| eq_ci(e, "7z"@)
    ||| eq_ci(e, "tar"@)
    ||| eq_ci(e, "gz"@)
    ||| eq_ci(e, "bz2"@)
    ||| eq_ci(e, "xz"@)
    ||| eq_ci(e, "iso"@)
    ||| eq_ci(e, "dmg"@)
}

pub open spec fn is_audio_ext(e: Seq<char>) -> bool {
    ||| eq_ci(e, "mp3"@)
    ||| eq_ci(e, "wav"@)
    ||| eq_ci(e, "aac"@)
    ||| eq_ci(e, "flac"@)
    ||| eq_ci(e, "ogg"@)
    ||| eq_ci(e, "wma"@)
    ||| eq_ci(e, "m4a"@)
}

/// The category that the extension table assigns to `ext`.
pub open spec fn spec_classify(ext: Option<Seq<char>>) -> Category {
    match ext {
        None => Category::Others,
        Some(e) => if is_image_ext(e) {
            Category::Images
        } else if is_video_ext(e) {
            Category::Videos
        } else if is_document_ext(e) {
            Category::Documents
        } else if is_archive_ext(e) {
            Category::Archives
        } else if is_audio_ext(e) {
            Category::Audio
        } else {
            Category::Others
        },
    }
}

/// The view of an optional string slice.
pub open spec fn opt_str_view(ext: Option<&str>) -> Option<Seq<char>> {
    match ext {
        None => None,
        Some(s) => Some(s@),
    }
}

fn lower_code_exec(c: char) -> (r: u32)
    ensures
        r == lower_code(c),
{
    let u = c as u32;
    if 65 <= u && u <= 90 {
        u + 32
    } else {
        u
    }
}

/// Case-insensitive string comparison under ASCII folding.
pub fn str_eq_ci(a: &str, b: &str) -> (r: bool)
    ensures
        r == eq_ci(a@, b@),
{
    let na = a.unicode_len();
    let nb = b.unicode_len();
    if na != nb {
        return false;
    }
    for i in 0..na
        invariant
            na == a@.len(),
            nb == b@.len(),
            na == nb,
            forall|j: int| 0 <= j < i ==> lower_code(a@[j]) == lower_code(b@[j]),
    {
        let ca = a.get_char(i);
        let cb = b.get_char(i);
        if lower_code_exec(ca) != lower_code_exec(cb) {
            assert(lower_code(a@[i as int]) != lower_code(b@[i as int]));
            return false;
        }
    }
    true
}

fn matches_images(s: &str) -> (r: bool)
    ensures
        r == is_image_ext(s@),
{
    str_eq_ci(s, "jpg") || str_eq_ci(s, "png") || str_eq_ci(s, "gif") || str_eq_ci(s, "bmp")
        || str_eq_ci(s, "tiff") || str_eq_ci(s, "svg") || str_eq_ci(s, "webp")
}

fn matches_videos(s: &str) -> (r: bool)
    ensures
        r == is_video_ext(s@),
{
    str_eq_ci(s, "mp4") || str_eq_ci(s, "mkv") || str_eq_ci(s, "avi") || str_eq_ci(s, "mov")
        || str_eq_ci(s, "flv") || str_eq_ci(s, "wmv") || str_eq_ci(s, "webm") || str_eq_ci(
        s,
        "mpeg",
    )
}

fn matches_documents(s: &str) -> (r: bool)
    ensures
        r == is_document_ext(s@),
{
    str_eq_ci(s, "pdf") || str_eq_ci(s, "doc") || str_eq_ci(s, "docx") || str_eq_ci(s, "xls")
        || str_eq_ci(s, "xlsx") || str_eq_ci(s, "ppt") || str_eq_ci(s, "pptx") || str_eq_ci(
        s,
        "txt",
    ) || str_eq_ci(s, "csv")
}

fn matches_archives(s: &str) -> (r: bool)
    ensures
        r == is_archive_ext(s@),
{
    str_eq_ci(s, "zip") || str_eq_ci(s, "rar") || str_eq_ci(s, "7z") || str_eq_ci(s, "tar")
        || str_eq_ci(s, "gz") || str_eq_ci(s, "bz2") || str_eq_ci(s, "xz") || str_eq_ci(s, "iso")
        || str_eq_ci(s, "dmg")
}

fn matches_audio(s: &str) -> (r: bool)
    ensures
        r == is_audio_ext(s@),
{
    str_eq_ci(s, "mp3") || str_eq_ci(s, "wav") || str_eq_ci(s, "aac") || str_eq_ci(s, "flac")
        || str_eq_ci(s, "ogg") || str_eq_ci(s, "wma") || str_eq_ci(s, "m4a")
}

/// Classifies a file extension: case-insensitive match against the static
/// table; an absent or unrecognized extension yields `Category::Others`.
pub fn classify(ext: Option<&str>) -> (r: Category)
    ensures
        r == spec_classify(opt_str_view(ext)),
{
    match ext {
        None => Category::Others,
        Some(s) => {
            if matches_images(s) {
                Category::Images
            } else if matches_videos(s) {
                Category::Videos
            } else if matches_documents(s) {
                Category::Documents
            } else if matches_archives(s) {
                Category::Archives
            } else if matches_audio(s) {
                Category::Audio
            } else {
                Category::Others
            }
        },
    }
}

impl Category {
    /// The name of the category's subfolder.
    pub open spec fn spec_folder_name(self) -> Seq<char> {
        match self {
            Category::Images => "Images"@,
            Category::Videos => "Videos"@,
            Category::Documents => "Documents"@,
            Category::Archives => "Archives"@,
            Category::Audio => "Audio"@,
            Category::Others => "Others"@,
        }
    }

    /// The name of the subfolder that holds this category's files.
    pub fn folder_name(&self) -> (r: &'static str)
        ensures
            r@ == self.spec_folder_name(),
    {
        match self {
            Category::Images => "Images",
            Category::Videos => "Videos",
            Category::Documents => "Documents",
            Category::Archives => "Archives",
            Category::Audio => "Audio",
            Category::Others => "Others",
        }
    }
}

} // verus!
