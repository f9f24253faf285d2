//! File-type classification by extension, as the preview and sort logic uses it.

use vstd::prelude::*;

use crate::text::{chars_eq_str, lower_extension, path_extension, str_eq, to_ascii_lowercase};
use crate::text;

verus! {

/// Extensions shown with the image viewer.
pub open spec fn image_ext(e: Seq<char>) -> bool {
    ||| e == "jpg"@
    ||| e == "jpeg"@
    ||| e == "png"@
    ||| e == "gif"@
    ||| e == "webp"@
    ||| e == "bmp"@
    ||| e == "tiff"@
    ||| e == "tif"@
}

/// Extensions played with the media player.
pub open spec fn media_ext(e: Seq<char>) -> bool {
    ||| e == "mp4"@
    ||| e == "mkv"@
    ||| e == "avi"@
    ||| e == "mov"@
    ||| e == "webm"@
    ||| e == "flv"@
    ||| e == "wmv"@
    ||| e == "m4v"@
    ||| e == "ts"@
    ||| e == "ogv"@
    ||| e == "mp3"@
    ||| e == "flac"@
    ||| e == "wav"@
    ||| e == "ogg"@
    ||| e == "m4a"@
    ||| e == "aac"@
    ||| e == "opus"@
    ||| e == "wma"@
}

/// Extensions shown as text.
pub open spec fn text_ext(e: Seq<char>) -> bool {
    ||| e == "txt"@
    ||| e == "md"@
    ||| e == "markdown"@
    ||| e == "json"@
    ||| e == "jsonc"@
    ||| e == "json5"@
    ||| e == "yml"@
    ||| e == "yaml"@
    ||| e == "toml"@
    ||| e == "ini"@
    ||| e == "cfg"@
    ||| e == "conf"@
    ||| e == "env"@
    ||| e == "log"@
    ||| e == "csv"@
    ||| e == "xml"@
    ||| e == "html"@
    ||| e == "htm"@
    ||| e == "svg"@
    ||| e == "rs"@
    ||| e == "py"@
    ||| e == "js"@
    ||| e == "ts"@
    ||| e == "jsx"@
    ||| e == "tsx"@
    ||| e == "sh"@
    ||| e == "bash"@
    ||| e == "zsh"@
    ||| e == "fish"@
    ||| e == "css"@
    ||| e == "scss"@
    ||| e == "less"@
    ||| e == "sql"@
    ||| e == "graphql"@
    ||| e == "gql"@
    ||| e == "c"@
    ||| e == "cpp"@
    ||| e == "h"@
    ||| e == "hpp"@
    ||| e == "java"@
    ||| e == "go"@
    ||| e == "rb"@
    ||| e == "php"@
    ||| e == "swift"@
    ||| e == "kt"@
    ||| e == "lua"@
    ||| e == "diff"@
    ||| e == "patch"@
}

/// Extensions of sort category 0.
pub open spec fn category_0_ext(e: Seq<char>) -> bool {
    ||| e == "jpg"@
    ||| e == "jpeg"@
    ||| e == "png"@
    ||| e == "gif"@
    ||| e == "webp"@
    ||| e == "bmp"@
    ||| e == "tiff"@
    ||| e == "tif"@
    ||| e == "svg"@
    ||| e == "ico"@
    ||| e == "avif"@
    ||| e == "heic"@
}

/// Extensions of sort category 1.
pub open spec fn category_1_ext(e: Seq<char>) -> bool {
    ||| e == "mp4"@
    ||| e == "mkv"@
    ||| e == "avi"@
    ||| e == "mov"@
    ||| e == "webm"@
    ||| e == "flv"@
    ||| e == "wmv"@
    ||| e == "m4v"@
}

/// Extensions of sort category 2.
pub open spec fn category_2_ext(e: Seq<char>) -> bool {
    ||| e == "mp3"@
    ||| e == "flac"@
    ||| e == "wav"@
    ||| e == "ogg"@
    ||| e == "aac"@
    ||| e == "m4a"@
    ||| e == "opus"@
    ||| e == "wma"@
}

/// Extensions of sort category 3.
pub open spec fn category_3_ext(e: Seq<char>) -> bool {
    ||| e == "pdf"@
    ||| e == "doc"@
    ||| e == "docx"@
    ||| e == "odt"@
    ||| e == "rtf"@
    ||| e == "xls"@
    ||| e == "xlsx"@
    ||| e == "ods"@
    ||| e == "ppt"@
    ||| e == "pptx"@
    ||| e == "odp"@
}

/// Extensions of sort category 4.
pub open spec fn category_4_ext(e: Seq<char>) -> bool {
    ||| e == "zip"@
    ||| e == "tar"@
    ||| e == "gz"@
    ||| e == "bz2"@
    ||| e == "xz"@
    ||| e == "7z"@
    ||| e == "rar"@
    ||| e == "zst"@
    ||| e == "lz4"@
}

/// Extensions of sort category 5.
pub open spec fn category_5_ext(e: Seq<char>) -> bool {
    ||| e == "rs"@
    ||| e == "py"@
    ||| e == "js"@
    ||| e == "ts"@
    ||| e == "jsx"@
    ||| e == "tsx"@
    ||| e == "html"@
    ||| e == "css"@
    ||| e == "json"@
    ||| e == "toml"@
    ||| e == "yaml"@
    ||| e == "yml"@
    ||| e == "xml"@
    ||| e == "sh"@
    ||| e == "bash"@
    ||| e == "zsh"@
    ||| e == "fish"@
    ||| e == "md"@
    ||| e == "txt"@
    ||| e == "c"@
    ||| e == "cpp"@
    ||| e == "h"@
    ||| e == "hpp"@
    ||| e == "go"@
    ||| e == "java"@
    ||| e == "rb"@
    ||| e == "php"@
    ||| e == "lua"@
    ||| e == "vim"@
    ||| e == "swift"@
    ||| e == "kt"@
    ||| e == "cs"@
    ||| e == "sql"@
}

/// Sort category of a (lower-cased) extension; lower is listed first.
pub open spec fn category_of_ext(e: Seq<char>) -> u8 {
    if category_0_ext(e) { 0 }
    else if category_1_ext(e) { 1 }
    else if category_2_ext(e) { 2 }
    else if category_3_ext(e) { 3 }
    else if category_4_ext(e) { 4 }
    else if category_5_ext(e) { 5 }
    else { 6 }
}

/// The container format name the media player needs for an extension.
pub open spec fn lavf_format_spec(e: Seq<char>) -> Seq<char> {
    if e == "mkv"@ { "matroska"@ }
    else if e == "ogv"@ { "ogg"@ }
    else if e == "ts"@ { "mpegts"@ }
    else if e == "wmv"@ || e == "wma"@ { "asf"@ }
    else if e == "m4v"@ || e == "m4a"@ { "mp4"@ }
    else { e }
}

/// `ext` is an image extension (lower-case, without the dot).
pub fn is_image_ext(ext: &str) -> (r: bool)
    ensures
        r == image_ext(ext@),
{
    str_eq(ext, "jpg") || str_eq(ext, "jpeg") || str_eq(ext, "png") || str_eq(ext, "gif") || str_eq(ext, "webp") || str_eq(ext, "bmp") || str_eq(ext, "tiff") || str_eq(ext, "tif")
}

/// `ext` is an audio or video extension.
pub fn is_media_ext(ext: &str) -> (r: bool)
    ensures
        r == media_ext(ext@),
{
    str_eq(ext, "mp4") || str_eq(ext, "mkv") || str_eq(ext, "avi") || str_eq(ext, "mov") || str_eq(ext, "webm") || str_eq(ext, "flv") || str_eq(ext, "wmv") || str_eq(ext, "m4v") || str_eq(ext, "ts") || str_eq(ext, "ogv") || str_eq(ext, "mp3") || str_eq(ext, "flac") || str_eq(ext, "wav") || str_eq(ext, "ogg") || str_eq(ext, "m4a") || str_eq(ext, "aac") || str_eq(ext, "opus") || str_eq(ext, "wma")
}

/// `ext` is a text, data, markup or source-code extension.
pub fn is_text_ext(ext: &str) -> (r: bool)
    ensures
        r == text_ext(ext@),
{
    str_eq(ext, "txt") || str_eq(ext, "md") || str_eq(ext, "markdown") || str_eq(ext, "json") || str_eq(ext, "jsonc") || str_eq(ext, "json5") || str_eq(ext, "yml") || str_eq(ext, "yaml") || str_eq(ext, "toml") || str_eq(ext, "ini") || str_eq(ext, "cfg") || str_eq(ext, "conf") || str_eq(ext, "env") || str_eq(ext, "log") || str_eq(ext, "csv") || str_eq(ext, "xml") || str_eq(ext, "html") || str_eq(ext, "htm") || str_eq(ext, "svg") || str_eq(ext, "rs") || str_eq(ext, "py") || str_eq(ext, "js") || str_eq(ext, "ts") || str_eq(ext, "jsx") || str_eq(ext, "tsx") || str_eq(ext, "sh") || str_eq(ext, "bash") || str_eq(ext, "zsh") || str_eq(ext, "fish") || str_eq(ext, "css") || str_eq(ext, "scss") || str_eq(ext, "less") || str_eq(ext, "sql") || str_eq(ext, "graphql") || str_eq(ext, "gql") || str_eq(ext, "c") || str_eq(ext, "cpp") || str_eq(ext, "h") || str_eq(ext, "hpp") || str_eq(ext, "java") || str_eq(ext, "go") || str_eq(ext, "rb") || str_eq(ext, "php") || str_eq(ext, "swift") || str_eq(ext, "kt") || str_eq(ext, "lua") || str_eq(ext, "diff") || str_eq(ext, "patch")
}

/// Map a file extension to the container format name the media player expects
/// when reading from standard input.
pub fn lavf_format(ext: &str) -> (r: &str)
    ensures
        r@ == lavf_format_spec(ext@),
{
    if str_eq(ext, "mkv") {
        "matroska"
    } else if str_eq(ext, "ogv") {
        "ogg"
    } else if str_eq(ext, "ts") {
        "mpegts"
    } else if str_eq(ext, "wmv") || str_eq(ext, "wma") {
        "asf"
    } else if str_eq(ext, "m4v") || str_eq(ext, "m4a") {
        "mp4"
    } else {
        ext
    }
}

/// Sort category of a file name by its lower-cased extension (lower = shown first).
pub fn file_category(name: &str) -> (r: u8)
    ensures
        r == category_of_ext(text::lower_seq(text::ext_or_empty(name@))),
{
    let e = lower_extension(name);
    if chars_eq_str(e.as_slice(), "jpg") || chars_eq_str(e.as_slice(), "jpeg") || chars_eq_str(e.as_slice(), "png") || chars_eq_str(e.as_slice(), "gif") || chars_eq_str(e.as_slice(), "webp") || chars_eq_str(e.as_slice(), "bmp") || chars_eq_str(e.as_slice(), "tiff") || chars_eq_str(e.as_slice(), "tif") || chars_eq_str(e.as_slice(), "svg") || chars_eq_str(e.as_slice(), "ico") || chars_eq_str(e.as_slice(), "avif") || chars_eq_str(e.as_slice(), "heic") {
        return 0;
    }
    if chars_eq_str(e.as_slice(), "mp4") || chars_eq_str(e.as_slice(), "mkv") || chars_eq_str(e.as_slice(), "avi") || chars_eq_str(e.as_slice(), "mov") || chars_eq_str(e.as_slice(), "webm") || chars_eq_str(e.as_slice(), "flv") || chars_eq_str(e.as_slice(), "wmv") || chars_eq_str(e.as_slice(), "m4v") {
        return 1;
    }
    if chars_eq_str(e.as_slice(), "mp3") || chars_eq_str(e.as_slice(), "flac") || chars_eq_str(e.as_slice(), "wav") || chars_eq_str(e.as_slice(), "ogg") || chars_eq_str(e.as_slice(), "aac") || chars_eq_str(e.as_slice(), "m4a") || chars_eq_str(e.as_slice(), "opus") || chars_eq_str(e.as_slice(), "wma") {
        return 2;
    }
    if chars_eq_str(e.as_slice(), "pdf") || chars_eq_str(e.as_slice(), "doc") || chars_eq_str(e.as_slice(), "docx") || chars_eq_str(e.as_slice(), "odt") || chars_eq_str(e.as_slice(), "rtf") || chars_eq_str(e.as_slice(), "xls") || chars_eq_str(e.as_slice(), "xlsx") || chars_eq_str(e.as_slice(), "ods") || chars_eq_str(e.as_slice(), "ppt") || chars_eq_str(e.as_slice(), "pptx") || chars_eq_str(e.as_slice(), "odp") {
        return 3;
    }
    if chars_eq_str(e.as_slice(), "zip") || chars_eq_str(e.as_slice(), "tar") || chars_eq_str(e.as_slice(), "gz") || chars_eq_str(e.as_slice(), "bz2") || chars_eq_str(e.as_slice(), "xz") || chars_eq_str(e.as_slice(), "7z") || chars_eq_str(e.as_slice(), "rar") || chars_eq_str(e.as_slice(), "zst") || chars_eq_str(e.as_slice(), "lz4") {
        return 4;
    }
    if chars_eq_str(e.as_slice(), "rs") || chars_eq_str(e.as_slice(), "py") || chars_eq_str(e.as_slice(), "js") || chars_eq_str(e.as_slice(), "ts") || chars_eq_str(e.as_slice(), "jsx") || chars_eq_str(e.as_slice(), "tsx") || chars_eq_str(e.as_slice(), "html") || chars_eq_str(e.as_slice(), "css") || chars_eq_str(e.as_slice(), "json") || chars_eq_str(e.as_slice(), "toml") || chars_eq_str(e.as_slice(), "yaml") || chars_eq_str(e.as_slice(), "yml") || chars_eq_str(e.as_slice(), "xml") || chars_eq_str(e.as_slice(), "sh") || chars_eq_str(e.as_slice(), "bash") || chars_eq_str(e.as_slice(), "zsh") || chars_eq_str(e.as_slice(), "fish") || chars_eq_str(e.as_slice(), "md") || chars_eq_str(e.as_slice(), "txt") || chars_eq_str(e.as_slice(), "c") || chars_eq_str(e.as_slice(), "cpp") || chars_eq_str(e.as_slice(), "h") || chars_eq_str(e.as_slice(), "hpp") || chars_eq_str(e.as_slice(), "go") || chars_eq_str(e.as_slice(), "java") || chars_eq_str(e.as_slice(), "rb") || chars_eq_str(e.as_slice(), "php") || chars_eq_str(e.as_slice(), "lua") || chars_eq_str(e.as_slice(), "vim") || chars_eq_str(e.as_slice(), "swift") || chars_eq_str(e.as_slice(), "kt") || chars_eq_str(e.as_slice(), "cs") || chars_eq_str(e.as_slice(), "sql") {
        return 5;
    }
    6
}

/// A file name whose extension, compared case-insensitively, is an image extension.
pub fn is_image_entry(name: &str) -> (r: bool)
    ensures
        r == image_ext(text::ext_or_empty(text::lower_seq(name@))),
{
    let lower = to_ascii_lowercase(name);
    let e: Vec<char> = match path_extension(lower.as_str()) {
        Some(e) => e,
        None => Vec::new(),
    };
    chars_eq_str(e.as_slice(), "jpg") || chars_eq_str(e.as_slice(), "jpeg") || chars_eq_str(e.as_slice(), "png") || chars_eq_str(e.as_slice(), "gif") || chars_eq_str(e.as_slice(), "webp") || chars_eq_str(e.as_slice(), "bmp") || chars_eq_str(e.as_slice(), "tiff") || chars_eq_str(e.as_slice(), "tif")
}

/// The extension of the lower-cased file name, empty when there is none.
pub fn entry_ext(name: &str) -> (r: Vec<char>)
    ensures
        r@ == text::ext_or_empty(text::lower_seq(name@)),
{
    let lower = to_ascii_lowercase(name);
    match path_extension(lower.as_str()) {
        Some(e) => e,
        None => Vec::new(),
    }
}

/// The lower-cased extension of a file name, empty when there is none.
pub fn lower_ext(name: &str) -> (r: Vec<char>)
    ensures
        r@ == text::lower_seq(text::ext_or_empty(name@)),
{
    lower_extension(name)
}

} // verus!
