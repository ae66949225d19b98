//! MIME types and display categories of files, decided by their extension.
use vstd::prelude::*;
use crate::path::{extension, extension_spec};
use crate::text::{has_prefix, starts_with, str_eq, to_lowercase, lowercase};

verus! {

/// The MIME type for a lower-case extension (`application/octet-stream` when unknown).
pub open spec fn mime_spec(e: Seq<char>) -> Seq<char> {
    if e == "png"@ {
        "image/png"@
    } else if e == "jpg"@ || e == "jpeg"@ {
        "image/jpeg"@
    } else if e == "gif"@ {
        "image/gif"@
    } else if e == "bmp"@ {
        "image/bmp"@
    } else if e == "webp"@ {
        "image/webp"@
    } else if e == "svg"@ {
        "image/svg+xml"@
    } else if e == "txt"@ || e == "md"@ {
        "text/plain"@
    } else if e == "py"@ {
        "text/x-python"@
    } else if e == "rs"@ {
        "text/x-rust"@
    } else if e == "js"@ {
        "text/javascript"@
    } else if e == "ts"@ {
        "text/typescript"@
    } else if e == "html"@ || e == "htm"@ {
        "text/html"@
    } else if e == "css"@ {
        "text/css"@
    } else if e == "json"@ {
        "application/json"@
    } else if e == "xml"@ {
        "application/xml"@
    } else if e == "toml"@ {
        "text/x-toml"@
    } else if e == "yaml"@ || e == "yml"@ {
        "text/x-yaml"@
    } else if e == "csv"@ {
        "text/csv"@
    } else if e == "cpp"@ || e == "cc"@ || e == "cxx"@ {
        "text/x-c++"@
    } else if e == "c"@ {
        "text/x-c"@
    } else if e == "h"@ || e == "hpp"@ {
        "text/x-c-header"@
    } else if e == "go"@ {
        "text/x-go"@
    } else if e == "sh"@ || e == "bash"@ {
        "text/x-shellscript"@
    } else if e == "pdf"@ {
        "application/pdf"@
    } else if e == "doc"@ || e == "docx"@ {
        "application/msword"@
    } else if e == "xls"@ || e == "xlsx"@ {
        "application/vnd.ms-excel"@
    } else if e == "mp3"@ || e == "flac"@ || e == "wav"@ || e == "ogg"@ {
        "audio/*"@
    } else if e == "mp4"@ || e == "avi"@ || e == "mkv"@ || e == "mov"@ {
        "video/*"@
    } else {
        "application/octet-stream"@
    }
}

/// The MIME type for a lower-case extension.
pub fn mime_for_extension(e: &str) -> (m: &'static str)
    ensures
        m@ == mime_spec(e@),
{
    if str_eq(e, "png") {
        "image/png"
    } else if str_eq(e, "jpg") || str_eq(e, "jpeg") {
        "image/jpeg"
    } else if str_eq(e, "gif") {
        "image/gif"
    } else if str_eq(e, "bmp") {
        "image/bmp"
    } else if str_eq(e, "webp") {
        "image/webp"
    } else if str_eq(e, "svg") {
        "image/svg+xml"
    } else if str_eq(e, "txt") || str_eq(e, "md") {
        "text/plain"
    } else if str_eq(e, "py") {
        "text/x-python"
    } else if str_eq(e, "rs") {
        "text/x-rust"
    } else if str_eq(e, "js") {
        "text/javascript"
    } else if str_eq(e, "ts") {
        "text/typescript"
    } else if str_eq(e, "html") || str_eq(e, "htm") {
        "text/html"
    } else if str_eq(e, "css") {
        "text/css"
    } else if str_eq(e, "json") {
        "application/json"
    } else if str_eq(e, "xml") {
        "application/xml"
    } else if str_eq(e, "toml") {
        "text/x-toml"
    } else if str_eq(e, "yaml") || str_eq(e, "yml") {
        "text/x-yaml"
    } else if str_eq(e, "csv") {
        "text/csv"
    } else if str_eq(e, "cpp") || str_eq(e, "cc") || str_eq(e, "cxx") {
        "text/x-c++"
    } else if str_eq(e, "c") {
        "text/x-c"
    } else if str_eq(e, "h") || str_eq(e, "hpp") {
        "text/x-c-header"
    } else if str_eq(e, "go") {
        "text/x-go"
    } else if str_eq(e, "sh") || str_eq(e, "bash") {
        "text/x-shellscript"
    } else if str_eq(e, "pdf") {
        "application/pdf"
    } else if str_eq(e, "doc") || str_eq(e, "docx") {
        "application/msword"
    } else if str_eq(e, "xls") || str_eq(e, "xlsx") {
        "application/vnd.ms-excel"
    } else if str_eq(e, "mp3") || str_eq(e, "flac") || str_eq(e, "wav") || str_eq(e, "ogg") {
        "audio/*"
    } else if str_eq(e, "mp4") || str_eq(e, "avi") || str_eq(e, "mkv") || str_eq(e, "mov") {
        "video/*"
    } else {
        "application/octet-stream"
    }
}

/// The extension of a path as the preview compares it: lower-cased, and empty when
/// the path has none.
pub open spec fn ext_lower_spec(p: Seq<char>) -> Seq<char> {
    lowercase(
        match extension_spec(p) {
            Some(e) => e,
            None => seq![],
        },
    )
}

/// The lower-cased extension of `path` (empty when it has none).
pub fn lowercase_extension(path: &str) -> (r: String)
    ensures
        r@ == ext_lower_spec(path@),
{
    let raw = match extension(path) {
        Some(x) => x,
        None => String::new(),
    };
    to_lowercase(raw.as_str())
}

/// The MIME type of a file, from its path's extension.
pub fn detect_mime(path: &str) -> (m: &'static str)
    ensures
        m@ == mime_spec(ext_lower_spec(path@)),
{
    let ext = lowercase_extension(path);
    mime_for_extension(ext.as_str())
}

/// The kind of content a file is previewed as.
#[derive(Clone, Copy, Debug, PartialEq, Eq, Structural)]
pub enum Category {
    Image,
    Audio,
    Video,
    TextCode,
    Document,
    OfficeDocument,
    Generic,
}

/// The category of a file with the given MIME type and lower-case extension.
pub open spec fn category_spec(mime: Seq<char>, ext: Seq<char>) -> Category {
    if has_prefix(mime, "image/"@) {
        Category::Image
    } else if has_prefix(mime, "audio/"@) {
        Category::Audio
    } else if has_prefix(mime, "video/"@) {
        Category::Video
    } else if has_prefix(mime, "text/"@) || ext == "toml"@ || ext == "csv"@ || ext == "yaml"@
        || ext == "yml"@ || ext == "json"@ || ext == "xml"@ {
        Category::TextCode
    } else if ext == "pdf"@ {
        Category::Document
    } else if ext == "doc"@ || ext == "docx"@ || ext == "xls"@ || ext == "xlsx"@ {
        Category::OfficeDocument
    } else {
        Category::Generic
    }
}

/// Decides the category of a file from its MIME type and lower-case extension.
pub fn category_for(mime: &str, ext: &str) -> (c: Category)
    ensures
        c == category_spec(mime@, ext@),
{
    if starts_with(mime, "image/") {
        Category::Image
    } else if starts_with(mime, "audio/") {
        Category::Audio
    } else if starts_with(mime, "video/") {
        Category::Video
    } else if starts_with(mime, "text/") || str_eq(ext, "toml") || str_eq(ext, "csv") || str_eq(
        ext,
        "yaml",
    ) || str_eq(ext, "yml") || str_eq(ext, "json") || str_eq(ext, "xml") {
        Category::TextCode
    } else if str_eq(ext, "pdf") {
        Category::Document
    } else if str_eq(ext, "doc") || str_eq(ext, "docx") || str_eq(ext, "xls") || str_eq(
        ext,
        "xlsx",
    ) {
        Category::OfficeDocument
    } else {
        Category::Generic
    }
}

/// The display name of a category.
pub open spec fn category_name_spec(c: Category) -> Seq<char> {
    match c {
        Category::Image => "Image"@,
        Category::Audio => "Audio"@,
        Category::Video => "Video"@,
        Category::TextCode => "Text / Code"@,
        Category::Document => "Document"@,
        Category::OfficeDocument => "Office Document"@,
        Category::Generic => "Binary / Generic"@,
    }
}

/// The display name of a category.
pub fn category_name(c: Category) -> (s: &'static str)
    ensures
        s@ == category_name_spec(c),
{
    match c {
        Category::Image => "Image",
        Category::Audio => "Audio",
        Category::Video => "Video",
        Category::TextCode => "Text / Code",
        Category::Document => "Document",
        Category::OfficeDocument => "Office Document",
        Category::Generic => "Binary / Generic",
    }
}

/// The image extensions, each with its MIME type and the Image category.
#[verifier::rlimit(100)]
pub proof fn lemma_image_extensions()
    ensures
        mime_spec("png"@) == "image/png"@,
        category_spec(mime_spec("png"@), "png"@) == Category::Image,
        mime_spec("jpg"@) == "image/jpeg"@,
        category_spec(mime_spec("jpg"@), "jpg"@) == Category::Image,
        mime_spec("jpeg"@) == "image/jpeg"@,
        category_spec(mime_spec("jpeg"@), "jpeg"@) == Category::Image,
        mime_spec("gif"@) == "image/gif"@,
        category_spec(mime_spec("gif"@), "gif"@) == Category::Image,
        mime_spec("bmp"@) == "image/bmp"@,
        category_spec(mime_spec("bmp"@), "bmp"@) == Category::Image,
        mime_spec("webp"@) == "image/webp"@,
        category_spec(mime_spec("webp"@), "webp"@) == Category::Image,
        mime_spec("svg"@) == "image/svg+xml"@,
        category_spec(mime_spec("svg"@), "svg"@) == Category::Image,
{
    reveal_strlit("png");
    assert("png"@.len() == 3 && "png"@[0] == 'p' && "png"@[1] == 'n' && "png"@[2] == 'g');
    reveal_strlit("jpg");
    assert("jpg"@.len() == 3 && "jpg"@[0] == 'j' && "jpg"@[1] == 'p' && "jpg"@[2] == 'g');
    reveal_strlit("jpeg");
    assert("jpeg"@.len() == 4 && "jpeg"@[0] == 'j' && "jpeg"@[1] == 'p' && "jpeg"@[2] == 'e' && "jpeg"@[3] == 'g');
    reveal_strlit("gif");
    assert("gif"@.len() == 3 && "gif"@[0] == 'g' && "gif"@[1] == 'i' && "gif"@[2] == 'f');
    reveal_strlit("bmp");
    assert("bmp"@.len() == 3 && "bmp"@[0] == 'b' && "bmp"@[1] == 'm' && "bmp"@[2] == 'p');
    reveal_strlit("webp");
    assert("webp"@.len() == 4 && "webp"@[0] == 'w' && "webp"@[1] == 'e' && "webp"@[2] == 'b' && "webp"@[3] == 'p');
    reveal_strlit("svg");
    assert("svg"@.len() == 3 && "svg"@[0] == 's' && "svg"@[1] == 'v' && "svg"@[2] == 'g');
    reveal_strlit("txt");
    assert("txt"@.len() == 3 && "txt"@[0] == 't' && "txt"@[1] == 'x' && "txt"@[2] == 't');
    reveal_strlit("md");
    assert("md"@.len() == 2 && "md"@[0] == 'm' && "md"@[1] == 'd');
    reveal_strlit("py");
    assert("py"@.len() == 2 && "py"@[0] == 'p' && "py"@[1] == 'y');
    reveal_strlit("rs");
    assert("rs"@.len() == 2 && "rs"@[0] == 'r' && "rs"@[1] == 's');
    reveal_strlit("js");
    assert("js"@.len() == 2 && "js"@[0] == 'j' && "js"@[1] == 's');
    reveal_strlit("ts");
    assert("ts"@.len() == 2 && "ts"@[0] == 't' && "ts"@[1] == 's');
    reveal_strlit("html");
    assert("html"@.len() == 4 && "html"@[0] == 'h' && "html"@[1] == 't' && "html"@[2] == 'm' && "html"@[3] == 'l');
    reveal_strlit("htm");
    assert("htm"@.len() == 3 && "htm"@[0] == 'h' && "htm"@[1] == 't' && "htm"@[2] == 'm');
    reveal_strlit("css");
    assert("css"@.len() == 3 && "css"@[0] == 'c' && "css"@[1] == 's' && "css"@[2] == 's');
    reveal_strlit("json");
    assert("json"@.len() == 4 && "json"@[0] == 'j' && "json"@[1] == 's' && "json"@[2] == 'o' && "json"@[3] == 'n');
    reveal_strlit("xml");
    assert("xml"@.len() == 3 && "xml"@[0] == 'x' && "xml"@[1] == 'm' && "xml"@[2] == 'l');
    reveal_strlit("toml");
    assert("toml"@.len() == 4 && "toml"@[0] == 't' && "toml"@[1] == 'o' && "toml"@[2] == 'm' && "toml"@[3] == 'l');
    reveal_strlit("yaml");
    assert("yaml"@.len() == 4 && "yaml"@[0] == 'y' && "yaml"@[1] == 'a' && "yaml"@[2] == 'm' && "yaml"@[3] == 'l');
    reveal_strlit("yml");
    assert("yml"@.len() == 3 && "yml"@[0] == 'y' && "yml"@[1] == 'm' && "yml"@[2] == 'l');
    reveal_strlit("csv");
    assert("csv"@.len() == 3 && "csv"@[0] == 'c' && "csv"@[1] == 's' && "csv"@[2] == 'v');
    reveal_strlit("cpp");
    assert("cpp"@.len() == 3 && "cpp"@[0] == 'c' && "cpp"@[1] == 'p' && "cpp"@[2] == 'p');
    reveal_strlit("cc");
    assert("cc"@.len() == 2 && "cc"@[0] == 'c' && "cc"@[1] == 'c');
    reveal_strlit("cxx");
    assert("cxx"@.len() == 3 && "cxx"@[0] == 'c' && "cxx"@[1] == 'x' && "cxx"@[2] == 'x');
    reveal_strlit("c");
    assert("c"@.len() == 1 && "c"@[0] == 'c');
    reveal_strlit("h");
    assert("h"@.len() == 1 && "h"@[0] == 'h');
    reveal_strlit("hpp");
    assert("hpp"@.len() == 3 && "hpp"@[0] == 'h' && "hpp"@[1] == 'p' && "hpp"@[2] == 'p');
    reveal_strlit("go");
    assert("go"@.len() == 2 && "go"@[0] == 'g' && "go"@[1] == 'o');
    reveal_strlit("sh");
    assert("sh"@.len() == 2 && "sh"@[0] == 's' && "sh"@[1] == 'h');
    reveal_strlit("bash");
    assert("bash"@.len() == 4 && "bash"@[0] == 'b' && "bash"@[1] == 'a' && "bash"@[2] == 's' && "bash"@[3] == 'h');
    reveal_strlit("pdf");
    assert("pdf"@.len() == 3 && "pdf"@[0] == 'p' && "pdf"@[1] == 'd' && "pdf"@[2] == 'f');
    reveal_strlit("doc");
    assert("doc"@.len() == 3 && "doc"@[0] == 'd' && "doc"@[1] == 'o' && "doc"@[2] == 'c');
    reveal_strlit("docx");
    assert("docx"@.len() == 4 && "docx"@[0] == 'd' && "docx"@[1] == 'o' && "docx"@[2] == 'c' && "docx"@[3] == 'x');
    reveal_strlit("xls");
    assert("xls"@.len() == 3 && "xls"@[0] == 'x' && "xls"@[1] == 'l' && "xls"@[2] == 's');
    reveal_strlit("xlsx");
    assert("xlsx"@.len() == 4 && "xlsx"@[0] == 'x' && "xlsx"@[1] == 'l' && "xlsx"@[2] == 's' && "xlsx"@[3] == 'x');
    reveal_strlit("mp3");
    assert("mp3"@.len() == 3 && "mp3"@[0] == 'm' && "mp3"@[1] == 'p' && "mp3"@[2] == '3');
    reveal_strlit("flac");
    assert("flac"@.len() == 4 && "flac"@[0] == 'f' && "flac"@[1] == 'l' && "flac"@[2] == 'a' && "flac"@[3] == 'c');
    reveal_strlit("wav");
    assert("wav"@.len() == 3 && "wav"@[0] == 'w' && "wav"@[1] == 'a' && "wav"@[2] == 'v');
    reveal_strlit("ogg");
    assert("ogg"@.len() == 3 && "ogg"@[0] == 'o' && "ogg"@[1] == 'g' && "ogg"@[2] == 'g');
    reveal_strlit("mp4");
    assert("mp4"@.len() == 3 && "mp4"@[0] == 'm' && "mp4"@[1] == 'p' && "mp4"@[2] == '4');
    reveal_strlit("avi");
    assert("avi"@.len() == 3 && "avi"@[0] == 'a' && "avi"@[1] == 'v' && "avi"@[2] == 'i');
    reveal_strlit("mkv");
    assert("mkv"@.len() == 3 && "mkv"@[0] == 'm' && "mkv"@[1] == 'k' && "mkv"@[2] == 'v');
    reveal_strlit("mov");
    assert("mov"@.len() == 3 && "mov"@[0] == 'm' && "mov"@[1] == 'o' && "mov"@[2] == 'v');
    reveal_strlit("image/png");
    assert("image/png"@.len() == 9 && "image/png"@[0] == 'i' && "image/png"@[1] == 'm' && "image/png"@[2] == 'a' && "image/png"@[3] == 'g' && "image/png"@[4] == 'e' && "image/png"@[5] == '/' && "image/png"@[6] == 'p' && "image/png"@[7] == 'n' && "image/png"@[8] == 'g');
    reveal_strlit("image/jpeg");
    assert("image/jpeg"@.len() == 10 && "image/jpeg"@[0] == 'i' && "image/jpeg"@[1] == 'm' && "image/jpeg"@[2] == 'a' && "image/jpeg"@[3] == 'g' && "image/jpeg"@[4] == 'e' && "image/jpeg"@[5] == '/' && "image/jpeg"@[6] == 'j' && "image/jpeg"@[7] == 'p' && "image/jpeg"@[8] == 'e' && "image/jpeg"@[9] == 'g');
    reveal_strlit("image/gif");
    assert("image/gif"@.len() == 9 && "image/gif"@[0] == 'i' && "image/gif"@[1] == 'm' && "image/gif"@[2] == 'a' && "image/gif"@[3] == 'g' && "image/gif"@[4] == 'e' && "image/gif"@[5] == '/' && "image/gif"@[6] == 'g' && "image/gif"@[7] == 'i' && "image/gif"@[8] == 'f');
    reveal_strlit("image/bmp");
    assert("image/bmp"@.len() == 9 && "image/bmp"@[0] == 'i' && "image/bmp"@[1] == 'm' && "image/bmp"@[2] == 'a' && "image/bmp"@[3] == 'g' && "image/bmp"@[4] == 'e' && "image/bmp"@[5] == '/' && "image/bmp"@[6] == 'b' && "image/bmp"@[7] == 'm' && "image/bmp"@[8] == 'p');
    reveal_strlit("image/webp");
    assert("image/webp"@.len() == 10 && "image/webp"@[0] == 'i' && "image/webp"@[1] == 'm' && "image/webp"@[2] == 'a' && "image/webp"@[3] == 'g' && "image/webp"@[4] == 'e' && "image/webp"@[5] == '/' && "image/webp"@[6] == 'w' && "image/webp"@[7] == 'e' && "image/webp"@[8] == 'b' && "image/webp"@[9] == 'p');
    reveal_strlit("image/svg+xml");
    assert("image/svg+xml"@.len() == 13 && "image/svg+xml"@[0] == 'i' && "image/svg+xml"@[1] == 'm' && "image/svg+xml"@[2] == 'a' && "image/svg+xml"@[3] == 'g' && "image/svg+xml"@[4] == 'e' && "image/svg+xml"@[5] == '/' && "image/svg+xml"@[6] == 's' && "image/svg+xml"@[7] == 'v' && "image/svg+xml"@[8] == 'g' && "image/svg+xml"@[9] == '+' && "image/svg+xml"@[10] == 'x' && "image/svg+xml"@[11] == 'm' && "image/svg+xml"@[12] == 'l');
    reveal_strlit("image/");
    assert("image/"@.len() == 6 && "image/"@[0] == 'i' && "image/"@[1] == 'm' && "image/"@[2] == 'a' && "image/"@[3] == 'g' && "image/"@[4] == 'e' && "image/"@[5] == '/');
    reveal_strlit("audio/");
    assert("audio/"@.len() == 6 && "audio/"@[0] == 'a' && "audio/"@[1] == 'u' && "audio/"@[2] == 'd' && "audio/"@[3] == 'i' && "audio/"@[4] == 'o' && "audio/"@[5] == '/');
    reveal_strlit("video/");
    assert("video/"@.len() == 6 && "video/"@[0] == 'v' && "video/"@[1] == 'i' && "video/"@[2] == 'd' && "video/"@[3] == 'e' && "video/"@[4] == 'o' && "video/"@[5] == '/');
    reveal_strlit("text/");
    assert("text/"@.len() == 5 && "text/"@[0] == 't' && "text/"@[1] == 'e' && "text/"@[2] == 'x' && "text/"@[3] == 't' && "text/"@[4] == '/');
    assert("image/png"@.take(6) =~= "image/"@);
    assert("image/png"@.take(6)[0] != "audio/"@[0]);
    assert("image/png"@.take(6)[0] != "video/"@[0]);
    assert("image/png"@.take(5)[0] != "text/"@[0]);
    assert("image/jpeg"@.take(6) =~= "image/"@);
    assert("image/jpeg"@.take(6)[0] != "audio/"@[0]);
    assert("image/jpeg"@.take(6)[0] != "video/"@[0]);
    assert("image/jpeg"@.take(5)[0] != "text/"@[0]);
    assert("image/gif"@.take(6) =~= "image/"@);
    assert("image/gif"@.take(6)[0] != "audio/"@[0]);
    assert("image/gif"@.take(6)[0] != "video/"@[0]);
    assert("image/gif"@.take(5)[0] != "text/"@[0]);
    assert("image/bmp"@.take(6) =~= "image/"@);
    assert("image/bmp"@.take(6)[0] != "audio/"@[0]);
    assert("image/bmp"@.take(6)[0] != "video/"@[0]);
    assert("image/bmp"@.take(5)[0] != "text/"@[0]);
    assert("image/webp"@.take(6) =~= "image/"@);
    assert("image/webp"@.take(6)[0] != "audio/"@[0]);
    assert("image/webp"@.take(6)[0] != "video/"@[0]);
    assert("image/webp"@.take(5)[0] != "text/"@[0]);
    assert("image/svg+xml"@.take(6) =~= "image/"@);
    assert("image/svg+xml"@.take(6)[0] != "audio/"@[0]);
    assert("image/svg+xml"@.take(6)[0] != "video/"@[0]);
    assert("image/svg+xml"@.take(5)[0] != "text/"@[0]);
}

/// The text and code extensions, each with its MIME type and the Text / Code category.
#[verifier::rlimit(100)]
pub proof fn lemma_text_extensions()
    ensures
        mime_spec("txt"@) == "text/plain"@,
        category_spec(mime_spec("txt"@), "txt"@) == Category::TextCode,
        mime_spec("md"@) == "text/plain"@,
        category_spec(mime_spec("md"@), "md"@) == Category::TextCode,
        mime_spec("py"@) == "text/x-python"@,
        category_spec(mime_spec("py"@), "py"@) == Category::TextCode,
        mime_spec("rs"@) == "text/x-rust"@,
        category_spec(mime_spec("rs"@), "rs"@) == Category::TextCode,
        mime_spec("js"@) == "text/javascript"@,
        category_spec(mime_spec("js"@), "js"@) == Category::TextCode,
        mime_spec("ts"@) == "text/typescript"@,
        category_spec(mime_spec("ts"@), "ts"@) == Category::TextCode,
        mime_spec("html"@) == "text/html"@,
        category_spec(mime_spec("html"@), "html"@) == Category::TextCode,
        mime_spec("htm"@) == "text/html"@,
        category_spec(mime_spec("htm"@), "htm"@) == Category::TextCode,
        mime_spec("css"@) == "text/css"@,
        category_spec(mime_spec("css"@), "css"@) == Category::TextCode,
        mime_spec("json"@) == "application/json"@,
        category_spec(mime_spec("json"@), "json"@) == Category::TextCode,
        mime_spec("xml"@) == "application/xml"@,
        category_spec(mime_spec("xml"@), "xml"@) == Category::TextCode,
        mime_spec("toml"@) == "text/x-toml"@,
        category_spec(mime_spec("toml"@), "toml"@) == Category::TextCode,
        mime_spec("yaml"@) == "text/x-yaml"@,
        category_spec(mime_spec("yaml"@), "yaml"@) == Category::TextCode,
        mime_spec("yml"@) == "text/x-yaml"@,
        category_spec(mime_spec("yml"@), "yml"@) == Category::TextCode,
        mime_spec("csv"@) == "text/csv"@,
        category_spec(mime_spec("csv"@), "csv"@) == Category::TextCode,
        mime_spec("cpp"@) == "text/x-c++"@,
        category_spec(mime_spec("cpp"@), "cpp"@) == Category::TextCode,
        mime_spec("cc"@) == "text/x-c++"@,
        category_spec(mime_spec("cc"@), "cc"@) == Category::TextCode,
        mime_spec("cxx"@) == "text/x-c++"@,
        category_spec(mime_spec("cxx"@), "cxx"@) == Category::TextCode,
        mime_spec("c"@) == "text/x-c"@,
        category_spec(mime_spec("c"@), "c"@) == Category::TextCode,
        mime_spec("h"@) == "text/x-c-header"@,
        category_spec(mime_spec("h"@), "h"@) == Category::TextCode,
        mime_spec("hpp"@) == "text/x-c-header"@,
        category_spec(mime_spec("hpp"@), "hpp"@) == Category::TextCode,
        mime_spec("go"@) == "text/x-go"@,
        category_spec(mime_spec("go"@), "go"@) == Category::TextCode,
        mime_spec("sh"@) == "text/x-shellscript"@,
        category_spec(mime_spec("sh"@), "sh"@) == Category::TextCode,
        mime_spec("bash"@) == "text/x-shellscript"@,
        category_spec(mime_spec("bash"@), "bash"@) == Category::TextCode,
{
    reveal_strlit("png");
    assert("png"@.len() == 3 && "png"@[0] == 'p' && "png"@[1] == 'n' && "png"@[2] == 'g');
    reveal_strlit("jpg");
    assert("jpg"@.len() == 3 && "jpg"@[0] == 'j' && "jpg"@[1] == 'p' && "jpg"@[2] == 'g');
    reveal_strlit("jpeg");
    assert("jpeg"@.len() == 4 && "jpeg"@[0] == 'j' && "jpeg"@[1] == 'p' && "jpeg"@[2] == 'e' && "jpeg"@[3] == 'g');
    reveal_strlit("gif");
    assert("gif"@.len() == 3 && "gif"@[0] == 'g' && "gif"@[1] == 'i' && "gif"@[2] == 'f');
    reveal_strlit("bmp");
    assert("bmp"@.len() == 3 && "bmp"@[0] == 'b' && "bmp"@[1] == 'm' && "bmp"@[2] == 'p');
    reveal_strlit("webp");
    assert("webp"@.len() == 4 && "webp"@[0] == 'w' && "webp"@[1] == 'e' && "webp"@[2] == 'b' && "webp"@[3] == 'p');
    reveal_strlit("svg");
    assert("svg"@.len() == 3 && "svg"@[0] == 's' && "svg"@[1] == 'v' && "svg"@[2] == 'g');
    reveal_strlit("txt");
    assert("txt"@.len() == 3 && "txt"@[0] == 't' && "txt"@[1] == 'x' && "txt"@[2] == 't');
    reveal_strlit("md");
    assert("md"@.len() == 2 && "md"@[0] == 'm' && "md"@[1] == 'd');
    reveal_strlit("py");
    assert("py"@.len() == 2 && "py"@[0] == 'p' && "py"@[1] == 'y');
    reveal_strlit("rs");
    assert("rs"@.len() == 2 && "rs"@[0] == 'r' && "rs"@[1] == 's');
    reveal_strlit("js");
    assert("js"@.len() == 2 && "js"@[0] == 'j' && "js"@[1] == 's');
    reveal_strlit("ts");
    assert("ts"@.len() == 2 && "ts"@[0] == 't' && "ts"@[1] == 's');
    reveal_strlit("html");
    assert("html"@.len() == 4 && "html"@[0] == 'h' && "html"@[1] == 't' && "html"@[2] == 'm' && "html"@[3] == 'l');
    reveal_strlit("htm");
    assert("htm"@.len() == 3 && "htm"@[0] == 'h' && "htm"@[1] == 't' && "htm"@[2] == 'm');
    reveal_strlit("css");
    assert("css"@.len() == 3 && "css"@[0] == 'c' && "css"@[1] == 's' && "css"@[2] == 's');
    reveal_strlit("json");
    assert("json"@.len() == 4 && "json"@[0] == 'j' && "json"@[1] == 's' && "json"@[2] == 'o' && "json"@[3] == 'n');
    reveal_strlit("xml");
    assert("xml"@.len() == 3 && "xml"@[0] == 'x' && "xml"@[1] == 'm' && "xml"@[2] == 'l');
    reveal_strlit("toml");
    assert("toml"@.len() == 4 && "toml"@[0] == 't' && "toml"@[1] == 'o' && "toml"@[2] == 'm' && "toml"@[3] == 'l');
    reveal_strlit("yaml");
    assert("yaml"@.len() == 4 && "yaml"@[0] == 'y' && "yaml"@[1] == 'a' && "yaml"@[2] == 'm' && "yaml"@[3] == 'l');
    reveal_strlit("yml");
    assert("yml"@.len() == 3 && "yml"@[0] == 'y' && "yml"@[1] == 'm' && "yml"@[2] == 'l');
    reveal_strlit("csv");
    assert("csv"@.len() == 3 && "csv"@[0] == 'c' && "csv"@[1] == 's' && "csv"@[2] == 'v');
    reveal_strlit("cpp");
    assert("cpp"@.len() == 3 && "cpp"@[0] == 'c' && "cpp"@[1] == 'p' && "cpp"@[2] == 'p');
    reveal_strlit("cc");
    assert("cc"@.len() == 2 && "cc"@[0] == 'c' && "cc"@[1] == 'c');
    reveal_strlit("cxx");
    assert("cxx"@.len() == 3 && "cxx"@[0] == 'c' && "cxx"@[1] == 'x' && "cxx"@[2] == 'x');
    reveal_strlit("c");
    assert("c"@.len() == 1 && "c"@[0] == 'c');
    reveal_strlit("h");
    assert("h"@.len() == 1 && "h"@[0] == 'h');
    reveal_strlit("hpp");
    assert("hpp"@.len() == 3 && "hpp"@[0] == 'h' && "hpp"@[1] == 'p' && "hpp"@[2] == 'p');
    reveal_strlit("go");
    assert("go"@.len() == 2 && "go"@[0] == 'g' && "go"@[1] == 'o');
    reveal_strlit("sh");
    assert("sh"@.len() == 2 && "sh"@[0] == 's' && "sh"@[1] == 'h');
    reveal_strlit("bash");
    assert("bash"@.len() == 4 && "bash"@[0] == 'b' && "bash"@[1] == 'a' && "bash"@[2] == 's' && "bash"@[3] == 'h');
    reveal_strlit("pdf");
    assert("pdf"@.len() == 3 && "pdf"@[0] == 'p' && "pdf"@[1] == 'd' && "pdf"@[2] == 'f');
    reveal_strlit("doc");
    assert("doc"@.len() == 3 && "doc"@[0] == 'd' && "doc"@[1] == 'o' && "doc"@[2] == 'c');
    reveal_strlit("docx");
    assert("docx"@.len() == 4 && "docx"@[0] == 'd' && "docx"@[1] == 'o' && "docx"@[2] == 'c' && "docx"@[3] == 'x');
    reveal_strlit("xls");
    assert("xls"@.len() == 3 && "xls"@[0] == 'x' && "xls"@[1] == 'l' && "xls"@[2] == 's');
    reveal_strlit("xlsx");
    assert("xlsx"@.len() == 4 && "xlsx"@[0] == 'x' && "xlsx"@[1] == 'l' && "xlsx"@[2] == 's' && "xlsx"@[3] == 'x');
    reveal_strlit("mp3");
    assert("mp3"@.len() == 3 && "mp3"@[0] == 'm' && "mp3"@[1] == 'p' && "mp3"@[2] == '3');
    reveal_strlit("flac");
    assert("flac"@.len() == 4 && "flac"@[0] == 'f' && "flac"@[1] == 'l' && "flac"@[2] == 'a' && "flac"@[3] == 'c');
    reveal_strlit("wav");
    assert("wav"@.len() == 3 && "wav"@[0] == 'w' && "wav"@[1] == 'a' && "wav"@[2] == 'v');
    reveal_strlit("ogg");
    assert("ogg"@.len() == 3 && "ogg"@[0] == 'o' && "ogg"@[1] == 'g' && "ogg"@[2] == 'g');
    reveal_strlit("mp4");
    assert("mp4"@.len() == 3 && "mp4"@[0] == 'm' && "mp4"@[1] == 'p' && "mp4"@[2] == '4');
    reveal_strlit("avi");
    assert("avi"@.len() == 3 && "avi"@[0] == 'a' && "avi"@[1] == 'v' && "avi"@[2] == 'i');
    reveal_strlit("mkv");
    assert("mkv"@.len() == 3 && "mkv"@[0] == 'm' && "mkv"@[1] == 'k' && "mkv"@[2] == 'v');
    reveal_strlit("mov");
    assert("mov"@.len() == 3 && "mov"@[0] == 'm' && "mov"@[1] == 'o' && "mov"@[2] == 'v');
    reveal_strlit("text/plain");
    assert("text/plain"@.len() == 10 && "text/plain"@[0] == 't' && "text/plain"@[1] == 'e' && "text/plain"@[2] == 'x' && "text/plain"@[3] == 't' && "text/plain"@[4] == '/' && "text/plain"@[5] == 'p' && "text/plain"@[6] == 'l' && "text/plain"@[7] == 'a' && "text/plain"@[8] == 'i' && "text/plain"@[9] == 'n');
    reveal_strlit("text/x-python");
    assert("text/x-python"@.len() == 13 && "text/x-python"@[0] == 't' && "text/x-python"@[1] == 'e' && "text/x-python"@[2] == 'x' && "text/x-python"@[3] == 't' && "text/x-python"@[4] == '/' && "text/x-python"@[5] == 'x' && "text/x-python"@[6] == '-' && "text/x-python"@[7] == 'p' && "text/x-python"@[8] == 'y' && "text/x-python"@[9] == 't' && "text/x-python"@[10] == 'h' && "text/x-python"@[11] == 'o' && "text/x-python"@[12] == 'n');
    reveal_strlit("text/x-rust");
    assert("text/x-rust"@.len() == 11 && "text/x-rust"@[0] == 't' && "text/x-rust"@[1] == 'e' && "text/x-rust"@[2] == 'x' && "text/x-rust"@[3] == 't' && "text/x-rust"@[4] == '/' && "text/x-rust"@[5] == 'x' && "text/x-rust"@[6] == '-' && "text/x-rust"@[7] == 'r' && "text/x-rust"@[8] == 'u' && "text/x-rust"@[9] == 's' && "text/x-rust"@[10] == 't');
    reveal_strlit("text/javascript");
    assert("text/javascript"@.len() == 15 && "text/javascript"@[0] == 't' && "text/javascript"@[1] == 'e' && "text/javascript"@[2] == 'x' && "text/javascript"@[3] == 't' && "text/javascript"@[4] == '/' && "text/javascript"@[5] == 'j' && "text/javascript"@[6] == 'a' && "text/javascript"@[7] == 'v' && "text/javascript"@[8] == 'a' && "text/javascript"@[9] == 's' && "text/javascript"@[10] == 'c' && "text/javascript"@[11] == 'r' && "text/javascript"@[12] == 'i' && "text/javascript"@[13] == 'p' && "text/javascript"@[14] == 't');
    reveal_strlit("text/typescript");
    assert("text/typescript"@.len() == 15 && "text/typescript"@[0] == 't' && "text/typescript"@[1] == 'e' && "text/typescript"@[2] == 'x' && "text/typescript"@[3] == 't' && "text/typescript"@[4] == '/' && "text/typescript"@[5] == 't' && "text/typescript"@[6] == 'y' && "text/typescript"@[7] == 'p' && "text/typescript"@[8] == 'e' && "text/typescript"@[9] == 's' && "text/typescript"@[10] == 'c' && "text/typescript"@[11] == 'r' && "text/typescript"@[12] == 'i' && "text/typescript"@[13] == 'p' && "text/typescript"@[14] == 't');
    reveal_strlit("text/html");
    assert("text/html"@.len() == 9 && "text/html"@[0] == 't' && "text/html"@[1] == 'e' && "text/html"@[2] == 'x' && "text/html"@[3] == 't' && "text/html"@[4] == '/' && "text/html"@[5] == 'h' && "text/html"@[6] == 't' && "text/html"@[7] == 'm' && "text/html"@[8] == 'l');
    reveal_strlit("text/css");
    assert("text/css"@.len() == 8 && "text/css"@[0] == 't' && "text/css"@[1] == 'e' && "text/css"@[2] == 'x' && "text/css"@[3] == 't' && "text/css"@[4] == '/' && "text/css"@[5] == 'c' && "text/css"@[6] == 's' && "text/css"@[7] == 's');
    reveal_strlit("application/json");
    assert("application/json"@.len() == 16 && "application/json"@[0] == 'a' && "application/json"@[1] == 'p' && "application/json"@[2] == 'p' && "application/json"@[3] == 'l' && "application/json"@[4] == 'i' && "application/json"@[5] == 'c' && "application/json"@[6] == 'a' && "application/json"@[7] == 't' && "application/json"@[8] == 'i' && "application/json"@[9] == 'o' && "application/json"@[10] == 'n' && "application/json"@[11] == '/' && "application/json"@[12] == 'j' && "application/json"@[13] == 's' && "application/json"@[14] == 'o' && "application/json"@[15] == 'n');
    reveal_strlit("application/xml");
    assert("application/xml"@.len() == 15 && "application/xml"@[0] == 'a' && "application/xml"@[1] == 'p' && "application/xml"@[2] == 'p' && "application/xml"@[3] == 'l' && "application/xml"@[4] == 'i' && "application/xml"@[5] == 'c' && "application/xml"@[6] == 'a' && "application/xml"@[7] == 't' && "application/xml"@[8] == 'i' && "application/xml"@[9] == 'o' && "application/xml"@[10] == 'n' && "application/xml"@[11] == '/' && "application/xml"@[12] == 'x' && "application/xml"@[13] == 'm' && "application/xml"@[14] == 'l');
    reveal_strlit("text/x-toml");
    assert("text/x-toml"@.len() == 11 && "text/x-toml"@[0] == 't' && "text/x-toml"@[1] == 'e' && "text/x-toml"@[2] == 'x' && "text/x-toml"@[3] == 't' && "text/x-toml"@[4] == '/' && "text/x-toml"@[5] == 'x' && "text/x-toml"@[6] == '-' && "text/x-toml"@[7] == 't' && "text/x-toml"@[8] == 'o' && "text/x-toml"@[9] == 'm' && "text/x-toml"@[10] == 'l');
    reveal_strlit("text/x-yaml");
    assert("text/x-yaml"@.len() == 11 && "text/x-yaml"@[0] == 't' && "text/x-yaml"@[1] == 'e' && "text/x-yaml"@[2] == 'x' && "text/x-yaml"@[3] == 't' && "text/x-yaml"@[4] == '/' && "text/x-yaml"@[5] == 'x' && "text/x-yaml"@[6] == '-' && "text/x-yaml"@[7] == 'y' && "text/x-yaml"@[8] == 'a' && "text/x-yaml"@[9] == 'm' && "text/x-yaml"@[10] == 'l');
    reveal_strlit("text/csv");
    assert("text/csv"@.len() == 8 && "text/csv"@[0] == 't' && "text/csv"@[1] == 'e' && "text/csv"@[2] == 'x' && "text/csv"@[3] == 't' && "text/csv"@[4] == '/' && "text/csv"@[5] == 'c' && "text/csv"@[6] == 's' && "text/csv"@[7] == 'v');
    reveal_strlit("text/x-c++");
    assert("text/x-c++"@.len() == 10 && "text/x-c++"@[0] == 't' && "text/x-c++"@[1] == 'e' && "text/x-c++"@[2] == 'x' && "text/x-c++"@[3] == 't' && "text/x-c++"@[4] == '/' && "text/x-c++"@[5] == 'x' && "text/x-c++"@[6] == '-' && "text/x-c++"@[7] == 'c' && "text/x-c++"@[8] == '+' && "text/x-c++"@[9] == '+');
    reveal_strlit("text/x-c");
    assert("text/x-c"@.len() == 8 && "text/x-c"@[0] == 't' && "text/x-c"@[1] == 'e' && "text/x-c"@[2] == 'x' && "text/x-c"@[3] == 't' && "text/x-c"@[4] == '/' && "text/x-c"@[5] == 'x' && "text/x-c"@[6] == '-' && "text/x-c"@[7] == 'c');
    reveal_strlit("text/x-c-header");
    assert("text/x-c-header"@.len() == 15 && "text/x-c-header"@[0] == 't' && "text/x-c-header"@[1] == 'e' && "text/x-c-header"@[2] == 'x' && "text/x-c-header"@[3] == 't' && "text/x-c-header"@[4] == '/' && "text/x-c-header"@[5] == 'x' && "text/x-c-header"@[6] == '-' && "text/x-c-header"@[7] == 'c' && "text/x-c-header"@[8] == '-' && "text/x-c-header"@[9] == 'h' && "text/x-c-header"@[10] == 'e' && "text/x-c-header"@[11] == 'a' && "text/x-c-header"@[12] == 'd' && "text/x-c-header"@[13] == 'e' && "text/x-c-header"@[14] == 'r');
    reveal_strlit("text/x-go");
    assert("text/x-go"@.len() == 9 && "text/x-go"@[0] == 't' && "text/x-go"@[1] == 'e' && "text/x-go"@[2] == 'x' && "text/x-go"@[3] == 't' && "text/x-go"@[4] == '/' && "text/x-go"@[5] == 'x' && "text/x-go"@[6] == '-' && "text/x-go"@[7] == 'g' && "text/x-go"@[8] == 'o');
    reveal_strlit("text/x-shellscript");
    assert("text/x-shellscript"@.len() == 18 && "text/x-shellscript"@[0] == 't' && "text/x-shellscript"@[1] == 'e' && "text/x-shellscript"@[2] == 'x' && "text/x-shellscript"@[3] == 't' && "text/x-shellscript"@[4] == '/' && "text/x-shellscript"@[5] == 'x' && "text/x-shellscript"@[6] == '-' && "text/x-shellscript"@[7] == 's' && "text/x-shellscript"@[8] == 'h' && "text/x-shellscript"@[9] == 'e' && "text/x-shellscript"@[10] == 'l' && "text/x-shellscript"@[11] == 'l' && "text/x-shellscript"@[12] == 's' && "text/x-shellscript"@[13] == 'c' && "text/x-shellscript"@[14] == 'r' && "text/x-shellscript"@[15] == 'i' && "text/x-shellscript"@[16] == 'p' && "text/x-shellscript"@[17] == 't');
    reveal_strlit("image/");
    assert("image/"@.len() == 6 && "image/"@[0] == 'i' && "image/"@[1] == 'm' && "image/"@[2] == 'a' && "image/"@[3] == 'g' && "image/"@[4] == 'e' && "image/"@[5] == '/');
    reveal_strlit("audio/");
    assert("audio/"@.len() == 6 && "audio/"@[0] == 'a' && "audio/"@[1] == 'u' && "audio/"@[2] == 'd' && "audio/"@[3] == 'i' && "audio/"@[4] == 'o' && "audio/"@[5] == '/');
    reveal_strlit("video/");
    assert("video/"@.len() == 6 && "video/"@[0] == 'v' && "video/"@[1] == 'i' && "video/"@[2] == 'd' && "video/"@[3] == 'e' && "video/"@[4] == 'o' && "video/"@[5] == '/');
    reveal_strlit("text/");
    assert("text/"@.len() == 5 && "text/"@[0] == 't' && "text/"@[1] == 'e' && "text/"@[2] == 'x' && "text/"@[3] == 't' && "text/"@[4] == '/');
    assert("text/plain"@.take(6)[0] != "image/"@[0]);
    assert("text/plain"@.take(6)[0] != "audio/"@[0]);
    assert("text/plain"@.take(6)[0] != "video/"@[0]);
    assert("text/plain"@.take(5) =~= "text/"@);
    assert("text/x-python"@.take(6)[0] != "image/"@[0]);
    assert("text/x-python"@.take(6)[0] != "audio/"@[0]);
    assert("text/x-python"@.take(6)[0] != "video/"@[0]);
    assert("text/x-python"@.take(5) =~= "text/"@);
    assert("text/x-rust"@.take(6)[0] != "image/"@[0]);
    assert("text/x-rust"@.take(6)[0] != "audio/"@[0]);
    assert("text/x-rust"@.take(6)[0] != "video/"@[0]);
    assert("text/x-rust"@.take(5) =~= "text/"@);
    assert("text/javascript"@.take(6)[0] != "image/"@[0]);
    assert("text/javascript"@.take(6)[0] != "audio/"@[0]);
    assert("text/javascript"@.take(6)[0] != "video/"@[0]);
    assert("text/javascript"@.take(5) =~= "text/"@);
    assert("text/typescript"@.take(6)[0] != "image/"@[0]);
    assert("text/typescript"@.take(6)[0] != "audio/"@[0]);
    assert("text/typescript"@.take(6)[0] != "video/"@[0]);
    assert("text/typescript"@.take(5) =~= "text/"@);
    assert("text/html"@.take(6)[0] != "image/"@[0]);
    assert("text/html"@.take(6)[0] != "audio/"@[0]);
    assert("text/html"@.take(6)[0] != "video/"@[0]);
    assert("text/html"@.take(5) =~= "text/"@);
    assert("text/css"@.take(6)[0] != "image/"@[0]);
    assert("text/css"@.take(6)[0] != "audio/"@[0]);
    assert("text/css"@.take(6)[0] != "video/"@[0]);
    assert("text/css"@.take(5) =~= "text/"@);
    assert("application/json"@.take(6)[0] != "image/"@[0]);
    assert("application/json"@.take(6)[1] != "audio/"@[1]);
    assert("application/json"@.take(6)[0] != "video/"@[0]);
    assert("application/json"@.take(5)[0] != "text/"@[0]);
    assert("application/xml"@.take(6)[0] != "image/"@[0]);
    assert("application/xml"@.take(6)[1] != "audio/"@[1]);
    assert("application/xml"@.take(6)[0] != "video/"@[0]);
    assert("application/xml"@.take(5)[0] != "text/"@[0]);
    assert("text/x-toml"@.take(6)[0] != "image/"@[0]);
    assert("text/x-toml"@.take(6)[0] != "audio/"@[0]);
    assert("text/x-toml"@.take(6)[0] != "video/"@[0]);
    assert("text/x-toml"@.take(5) =~= "text/"@);
    assert("text/x-yaml"@.take(6)[0] != "image/"@[0]);
    assert("text/x-yaml"@.take(6)[0] != "audio/"@[0]);
    assert("text/x-yaml"@.take(6)[0] != "video/"@[0]);
    assert("text/x-yaml"@.take(5) =~= "text/"@);
    assert("text/csv"@.take(6)[0] != "image/"@[0]);
    assert("text/csv"@.take(6)[0] != "audio/"@[0]);
    assert("text/csv"@.take(6)[0] != "video/"@[0]);
    assert("text/csv"@.take(5) =~= "text/"@);
    assert("text/x-c++"@.take(6)[0] != "image/"@[0]);
    assert("text/x-c++"@.take(6)[0] != "audio/"@[0]);
    assert("text/x-c++"@.take(6)[0] != "video/"@[0]);
    assert("text/x-c++"@.take(5) =~= "text/"@);
    assert("text/x-c"@.take(6)[0] != "image/"@[0]);
    assert("text/x-c"@.take(6)[0] != "audio/"@[0]);
    assert("text/x-c"@.take(6)[0] != "video/"@[0]);
    assert("text/x-c"@.take(5) =~= "text/"@);
    assert("text/x-c-header"@.take(6)[0] != "image/"@[0]);
    assert("text/x-c-header"@.take(6)[0] != "audio/"@[0]);
    assert("text/x-c-header"@.take(6)[0] != "video/"@[0]);
    assert("text/x-c-header"@.take(5) =~= "text/"@);
    assert("text/x-go"@.take(6)[0] != "image/"@[0]);
    assert("text/x-go"@.take(6)[0] != "audio/"@[0]);
    assert("text/x-go"@.take(6)[0] != "video/"@[0]);
    assert("text/x-go"@.take(5) =~= "text/"@);
    assert("text/x-shellscript"@.take(6)[0] != "image/"@[0]);
    assert("text/x-shellscript"@.take(6)[0] != "audio/"@[0]);
    assert("text/x-shellscript"@.take(6)[0] != "video/"@[0]);
    assert("text/x-shellscript"@.take(5) =~= "text/"@);
}

/// The PDF and office extensions, each with its MIME type and category: Document for PDF, Office Document for Word and Excel files.
#[verifier::rlimit(100)]
pub proof fn lemma_document_extensions()
    ensures
        mime_spec("pdf"@) == "application/pdf"@,
        category_spec(mime_spec("pdf"@), "pdf"@) == Category::Document,
        mime_spec("doc"@) == "application/msword"@,
        category_spec(mime_spec("doc"@), "doc"@) == Category::OfficeDocument,
        mime_spec("docx"@) == "application/msword"@,
        category_spec(mime_spec("docx"@), "docx"@) == Category::OfficeDocument,
        mime_spec("xls"@) == "application/vnd.ms-excel"@,
        category_spec(mime_spec("xls"@), "xls"@) == Category::OfficeDocument,
        mime_spec("xlsx"@) == "application/vnd.ms-excel"@,
        category_spec(mime_spec("xlsx"@), "xlsx"@) == Category::OfficeDocument,
{
    reveal_strlit("png");
    assert("png"@.len() == 3 && "png"@[0] == 'p' && "png"@[1] == 'n' && "png"@[2] == 'g');
    reveal_strlit("jpg");
    assert("jpg"@.len() == 3 && "jpg"@[0] == 'j' && "jpg"@[1] == 'p' && "jpg"@[2] == 'g');
    reveal_strlit("jpeg");
    assert("jpeg"@.len() == 4 && "jpeg"@[0] == 'j' && "jpeg"@[1] == 'p' && "jpeg"@[2] == 'e' && "jpeg"@[3] == 'g');
    reveal_strlit("gif");
    assert("gif"@.len() == 3 && "gif"@[0] == 'g' && "gif"@[1] == 'i' && "gif"@[2] == 'f');
    reveal_strlit("bmp");
    assert("bmp"@.len() == 3 && "bmp"@[0] == 'b' && "bmp"@[1] == 'm' && "bmp"@[2] == 'p');
    reveal_strlit("webp");
    assert("webp"@.len() == 4 && "webp"@[0] == 'w' && "webp"@[1] == 'e' && "webp"@[2] == 'b' && "webp"@[3] == 'p');
    reveal_strlit("svg");
    assert("svg"@.len() == 3 && "svg"@[0] == 's' && "svg"@[1] == 'v' && "svg"@[2] == 'g');
    reveal_strlit("txt");
    assert("txt"@.len() == 3 && "txt"@[0] == 't' && "txt"@[1] == 'x' && "txt"@[2] == 't');
    reveal_strlit("md");
    assert("md"@.len() == 2 && "md"@[0] == 'm' && "md"@[1] == 'd');
    reveal_strlit("py");
    assert("py"@.len() == 2 && "py"@[0] == 'p' && "py"@[1] == 'y');
    reveal_strlit("rs");
    assert("rs"@.len() == 2 && "rs"@[0] == 'r' && "rs"@[1] == 's');
    reveal_strlit("js");
    assert("js"@.len() == 2 && "js"@[0] == 'j' && "js"@[1] == 's');
    reveal_strlit("ts");
    assert("ts"@.len() == 2 && "ts"@[0] == 't' && "ts"@[1] == 's');
    reveal_strlit("html");
    assert("html"@.len() == 4 && "html"@[0] == 'h' && "html"@[1] == 't' && "html"@[2] == 'm' && "html"@[3] == 'l');
    reveal_strlit("htm");
    assert("htm"@.len() == 3 && "htm"@[0] == 'h' && "htm"@[1] == 't' && "htm"@[2] == 'm');
    reveal_strlit("css");
    assert("css"@.len() == 3 && "css"@[0] == 'c' && "css"@[1] == 's' && "css"@[2] == 's');
    reveal_strlit("json");
    assert("json"@.len() == 4 && "json"@[0] == 'j' && "json"@[1] == 's' && "json"@[2] == 'o' && "json"@[3] == 'n');
    reveal_strlit("xml");
    assert("xml"@.len() == 3 && "xml"@[0] == 'x' && "xml"@[1] == 'm' && "xml"@[2] == 'l');
    reveal_strlit("toml");
    assert("toml"@.len() == 4 && "toml"@[0] == 't' && "toml"@[1] == 'o' && "toml"@[2] == 'm' && "toml"@[3] == 'l');
    reveal_strlit("yaml");
    assert("yaml"@.len() == 4 && "yaml"@[0] == 'y' && "yaml"@[1] == 'a' && "yaml"@[2] == 'm' && "yaml"@[3] == 'l');
    reveal_strlit("yml");
    assert("yml"@.len() == 3 && "yml"@[0] == 'y' && "yml"@[1] == 'm' && "yml"@[2] == 'l');
    reveal_strlit("csv");
    assert("csv"@.len() == 3 && "csv"@[0] == 'c' && "csv"@[1] == 's' && "csv"@[2] == 'v');
    reveal_strlit("cpp");
    assert("cpp"@.len() == 3 && "cpp"@[0] == 'c' && "cpp"@[1] == 'p' && "cpp"@[2] == 'p');
    reveal_strlit("cc");
    assert("cc"@.len() == 2 && "cc"@[0] == 'c' && "cc"@[1] == 'c');
    reveal_strlit("cxx");
    assert("cxx"@.len() == 3 && "cxx"@[0] == 'c' && "cxx"@[1] == 'x' && "cxx"@[2] == 'x');
    reveal_strlit("c");
    assert("c"@.len() == 1 && "c"@[0] == 'c');
    reveal_strlit("h");
    assert("h"@.len() == 1 && "h"@[0] == 'h');
    reveal_strlit("hpp");
    assert("hpp"@.len() == 3 && "hpp"@[0] == 'h' && "hpp"@[1] == 'p' && "hpp"@[2] == 'p');
    reveal_strlit("go");
    assert("go"@.len() == 2 && "go"@[0] == 'g' && "go"@[1] == 'o');
    reveal_strlit("sh");
    assert("sh"@.len() == 2 && "sh"@[0] == 's' && "sh"@[1] == 'h');
    reveal_strlit("bash");
    assert("bash"@.len() == 4 && "bash"@[0] == 'b' && "bash"@[1] == 'a' && "bash"@[2] == 's' && "bash"@[3] == 'h');
    reveal_strlit("pdf");
    assert("pdf"@.len() == 3 && "pdf"@[0] == 'p' && "pdf"@[1] == 'd' && "pdf"@[2] == 'f');
    reveal_strlit("doc");
    assert("doc"@.len() == 3 && "doc"@[0] == 'd' && "doc"@[1] == 'o' && "doc"@[2] == 'c');
    reveal_strlit("docx");
    assert("docx"@.len() == 4 && "docx"@[0] == 'd' && "docx"@[1] == 'o' && "docx"@[2] == 'c' && "docx"@[3] == 'x');
    reveal_strlit("xls");
    assert("xls"@.len() == 3 && "xls"@[0] == 'x' && "xls"@[1] == 'l' && "xls"@[2] == 's');
    reveal_strlit("xlsx");
    assert("xlsx"@.len() == 4 && "xlsx"@[0] == 'x' && "xlsx"@[1] == 'l' && "xlsx"@[2] == 's' && "xlsx"@[3] == 'x');
    reveal_strlit("mp3");
    assert("mp3"@.len() == 3 && "mp3"@[0] == 'm' && "mp3"@[1] == 'p' && "mp3"@[2] == '3');
    reveal_strlit("flac");
    assert("flac"@.len() == 4 && "flac"@[0] == 'f' && "flac"@[1] == 'l' && "flac"@[2] == 'a' && "flac"@[3] == 'c');
    reveal_strlit("wav");
    assert("wav"@.len() == 3 && "wav"@[0] == 'w' && "wav"@[1] == 'a' && "wav"@[2] == 'v');
    reveal_strlit("ogg");
    assert("ogg"@.len() == 3 && "ogg"@[0] == 'o' && "ogg"@[1] == 'g' && "ogg"@[2] == 'g');
    reveal_strlit("mp4");
    assert("mp4"@.len() == 3 && "mp4"@[0] == 'm' && "mp4"@[1] == 'p' && "mp4"@[2] == '4');
    reveal_strlit("avi");
    assert("avi"@.len() == 3 && "avi"@[0] == 'a' && "avi"@[1] == 'v' && "avi"@[2] == 'i');
    reveal_strlit("mkv");
    assert("mkv"@.len() == 3 && "mkv"@[0] == 'm' && "mkv"@[1] == 'k' && "mkv"@[2] == 'v');
    reveal_strlit("mov");
    assert("mov"@.len() == 3 && "mov"@[0] == 'm' && "mov"@[1] == 'o' && "mov"@[2] == 'v');
    reveal_strlit("application/pdf");
    assert("application/pdf"@.len() == 15 && "application/pdf"@[0] == 'a' && "application/pdf"@[1] == 'p' && "application/pdf"@[2] == 'p' && "application/pdf"@[3] == 'l' && "application/pdf"@[4] == 'i' && "application/pdf"@[5] == 'c' && "application/pdf"@[6] == 'a' && "application/pdf"@[7] == 't' && "application/pdf"@[8] == 'i' && "application/pdf"@[9] == 'o' && "application/pdf"@[10] == 'n' && "application/pdf"@[11] == '/' && "application/pdf"@[12] == 'p' && "application/pdf"@[13] == 'd' && "application/pdf"@[14] == 'f');
    reveal_strlit("application/msword");
    assert("application/msword"@.len() == 18 && "application/msword"@[0] == 'a' && "application/msword"@[1] == 'p' && "application/msword"@[2] == 'p' && "application/msword"@[3] == 'l' && "application/msword"@[4] == 'i' && "application/msword"@[5] == 'c' && "application/msword"@[6] == 'a' && "application/msword"@[7] == 't' && "application/msword"@[8] == 'i' && "application/msword"@[9] == 'o' && "application/msword"@[10] == 'n' && "application/msword"@[11] == '/' && "application/msword"@[12] == 'm' && "application/msword"@[13] == 's' && "application/msword"@[14] == 'w' && "application/msword"@[15] == 'o' && "application/msword"@[16] == 'r' && "application/msword"@[17] == 'd');
    reveal_strlit("application/vnd.ms-excel");
    assert("application/vnd.ms-excel"@.len() == 24 && "application/vnd.ms-excel"@[0] == 'a' && "application/vnd.ms-excel"@[1] == 'p' && "application/vnd.ms-excel"@[2] == 'p' && "application/vnd.ms-excel"@[3] == 'l' && "application/vnd.ms-excel"@[4] == 'i' && "application/vnd.ms-excel"@[5] == 'c' && "application/vnd.ms-excel"@[6] == 'a' && "application/vnd.ms-excel"@[7] == 't' && "application/vnd.ms-excel"@[8] == 'i' && "application/vnd.ms-excel"@[9] == 'o' && "application/vnd.ms-excel"@[10] == 'n' && "application/vnd.ms-excel"@[11] == '/' && "application/vnd.ms-excel"@[12] == 'v' && "application/vnd.ms-excel"@[13] == 'n' && "application/vnd.ms-excel"@[14] == 'd' && "application/vnd.ms-excel"@[15] == '.' && "application/vnd.ms-excel"@[16] == 'm' && "application/vnd.ms-excel"@[17] == 's' && "application/vnd.ms-excel"@[18] == '-' && "application/vnd.ms-excel"@[19] == 'e' && "application/vnd.ms-excel"@[20] == 'x' && "application/vnd.ms-excel"@[21] == 'c' && "application/vnd.ms-excel"@[22] == 'e' && "application/vnd.ms-excel"@[23] == 'l');
    reveal_strlit("image/");
    assert("image/"@.len() == 6 && "image/"@[0] == 'i' && "image/"@[1] == 'm' && "image/"@[2] == 'a' && "image/"@[3] == 'g' && "image/"@[4] == 'e' && "image/"@[5] == '/');
    reveal_strlit("audio/");
    assert("audio/"@.len() == 6 && "audio/"@[0] == 'a' && "audio/"@[1] == 'u' && "audio/"@[2] == 'd' && "audio/"@[3] == 'i' && "audio/"@[4] == 'o' && "audio/"@[5] == '/');
    reveal_strlit("video/");
    assert("video/"@.len() == 6 && "video/"@[0] == 'v' && "video/"@[1] == 'i' && "video/"@[2] == 'd' && "video/"@[3] == 'e' && "video/"@[4] == 'o' && "video/"@[5] == '/');
    reveal_strlit("text/");
    assert("text/"@.len() == 5 && "text/"@[0] == 't' && "text/"@[1] == 'e' && "text/"@[2] == 'x' && "text/"@[3] == 't' && "text/"@[4] == '/');
    assert("application/pdf"@.take(6)[0] != "image/"@[0]);
    assert("application/pdf"@.take(6)[1] != "audio/"@[1]);
    assert("application/pdf"@.take(6)[0] != "video/"@[0]);
    assert("application/pdf"@.take(5)[0] != "text/"@[0]);
    assert("application/msword"@.take(6)[0] != "image/"@[0]);
    assert("application/msword"@.take(6)[1] != "audio/"@[1]);
    assert("application/msword"@.take(6)[0] != "video/"@[0]);
    assert("application/msword"@.take(5)[0] != "text/"@[0]);
    assert("application/vnd.ms-excel"@.take(6)[0] != "image/"@[0]);
    assert("application/vnd.ms-excel"@.take(6)[1] != "audio/"@[1]);
    assert("application/vnd.ms-excel"@.take(6)[0] != "video/"@[0]);
    assert("application/vnd.ms-excel"@.take(5)[0] != "text/"@[0]);
}

/// The audio and video extensions, each with its MIME type and category.
#[verifier::rlimit(100)]
pub proof fn lemma_media_extensions()
    ensures
        mime_spec("mp3"@) == "audio/*"@,
        category_spec(mime_spec("mp3"@), "mp3"@) == Category::Audio,
        mime_spec("flac"@) == "audio/*"@,
        category_spec(mime_spec("flac"@), "flac"@) == Category::Audio,
        mime_spec("wav"@) == "audio/*"@,
        category_spec(mime_spec("wav"@), "wav"@) == Category::Audio,
        mime_spec("ogg"@) == "audio/*"@,
        category_spec(mime_spec("ogg"@), "ogg"@) == Category::Audio,
        mime_spec("mp4"@) == "video/*"@,
        category_spec(mime_spec("mp4"@), "mp4"@) == Category::Video,
        mime_spec("avi"@) == "video/*"@,
        category_spec(mime_spec("avi"@), "avi"@) == Category::Video,
        mime_spec("mkv"@) == "video/*"@,
        category_spec(mime_spec("mkv"@), "mkv"@) == Category::Video,
        mime_spec("mov"@) == "video/*"@,
        category_spec(mime_spec("mov"@), "mov"@) == Category::Video,
{
    reveal_strlit("png");
    assert("png"@.len() == 3 && "png"@[0] == 'p' && "png"@[1] == 'n' && "png"@[2] == 'g');
    reveal_strlit("jpg");
    assert("jpg"@.len() == 3 && "jpg"@[0] == 'j' && "jpg"@[1] == 'p' && "jpg"@[2] == 'g');
    reveal_strlit("jpeg");
    assert("jpeg"@.len() == 4 && "jpeg"@[0] == 'j' && "jpeg"@[1] == 'p' && "jpeg"@[2] == 'e' && "jpeg"@[3] == 'g');
    reveal_strlit("gif");
    assert("gif"@.len() == 3 && "gif"@[0] == 'g' && "gif"@[1] == 'i' && "gif"@[2] == 'f');
    reveal_strlit("bmp");
    assert("bmp"@.len() == 3 && "bmp"@[0] == 'b' && "bmp"@[1] == 'm' && "bmp"@[2] == 'p');
    reveal_strlit("webp");
    assert("webp"@.len() == 4 && "webp"@[0] == 'w' && "webp"@[1] == 'e' && "webp"@[2] == 'b' && "webp"@[3] == 'p');
    reveal_strlit("svg");
    assert("svg"@.len() == 3 && "svg"@[0] == 's' && "svg"@[1] == 'v' && "svg"@[2] == 'g');
    reveal_strlit("txt");
    assert("txt"@.len() == 3 && "txt"@[0] == 't' && "txt"@[1] == 'x' && "txt"@[2] == 't');
    reveal_strlit("md");
    assert("md"@.len() == 2 && "md"@[0] == 'm' && "md"@[1] == 'd');
    reveal_strlit("py");
    assert("py"@.len() == 2 && "py"@[0] == 'p' && "py"@[1] == 'y');
    reveal_strlit("rs");
    assert("rs"@.len() == 2 && "rs"@[0] == 'r' && "rs"@[1] == 's');
    reveal_strlit("js");
    assert("js"@.len() == 2 && "js"@[0] == 'j' && "js"@[1] == 's');
    reveal_strlit("ts");
    assert("ts"@.len() == 2 && "ts"@[0] == 't' && "ts"@[1] == 's');
    reveal_strlit("html");
    assert("html"@.len() == 4 && "html"@[0] == 'h' && "html"@[1] == 't' && "html"@[2] == 'm' && "html"@[3] == 'l');
    reveal_strlit("htm");
    assert("htm"@.len() == 3 && "htm"@[0] == 'h' && "htm"@[1] == 't' && "htm"@[2] == 'm');
    reveal_strlit("css");
    assert("css"@.len() == 3 && "css"@[0] == 'c' && "css"@[1] == 's' && "css"@[2] == 's');
    reveal_strlit("json");
    assert("json"@.len() == 4 && "json"@[0] == 'j' && "json"@[1] == 's' && "json"@[2] == 'o' && "json"@[3] == 'n');
    reveal_strlit("xml");
    assert("xml"@.len() == 3 && "xml"@[0] == 'x' && "xml"@[1] == 'm' && "xml"@[2] == 'l');
    reveal_strlit("toml");
    assert("toml"@.len() == 4 && "toml"@[0] == 't' && "toml"@[1] == 'o' && "toml"@[2] == 'm' && "toml"@[3] == 'l');
    reveal_strlit("yaml");
    assert("yaml"@.len() == 4 && "yaml"@[0] == 'y' && "yaml"@[1] == 'a' && "yaml"@[2] == 'm' && "yaml"@[3] == 'l');
    reveal_strlit("yml");
    assert("yml"@.len() == 3 && "yml"@[0] == 'y' && "yml"@[1] == 'm' && "yml"@[2] == 'l');
    reveal_strlit("csv");
    assert("csv"@.len() == 3 && "csv"@[0] == 'c' && "csv"@[1] == 's' && "csv"@[2] == 'v');
    reveal_strlit("cpp");
    assert("cpp"@.len() == 3 && "cpp"@[0] == 'c' && "cpp"@[1] == 'p' && "cpp"@[2] == 'p');
    reveal_strlit("cc");
    assert("cc"@.len() == 2 && "cc"@[0] == 'c' && "cc"@[1] == 'c');
    reveal_strlit("cxx");
    assert("cxx"@.len() == 3 && "cxx"@[0] == 'c' && "cxx"@[1] == 'x' && "cxx"@[2] == 'x');
    reveal_strlit("c");
    assert("c"@.len() == 1 && "c"@[0] == 'c');
    reveal_strlit("h");
    assert("h"@.len() == 1 && "h"@[0] == 'h');
    reveal_strlit("hpp");
    assert("hpp"@.len() == 3 && "hpp"@[0] == 'h' && "hpp"@[1] == 'p' && "hpp"@[2] == 'p');
    reveal_strlit("go");
    assert("go"@.len() == 2 && "go"@[0] == 'g' && "go"@[1] == 'o');
    reveal_strlit("sh");
    assert("sh"@.len() == 2 && "sh"@[0] == 's' && "sh"@[1] == 'h');
    reveal_strlit("bash");
    assert("bash"@.len() == 4 && "bash"@[0] == 'b' && "bash"@[1] == 'a' && "bash"@[2] == 's' && "bash"@[3] == 'h');
    reveal_strlit("pdf");
    assert("pdf"@.len() == 3 && "pdf"@[0] == 'p' && "pdf"@[1] == 'd' && "pdf"@[2] == 'f');
    reveal_strlit("doc");
    assert("doc"@.len() == 3 && "doc"@[0] == 'd' && "doc"@[1] == 'o' && "doc"@[2] == 'c');
    reveal_strlit("docx");
    assert("docx"@.len() == 4 && "docx"@[0] == 'd' && "docx"@[1] == 'o' && "docx"@[2] == 'c' && "docx"@[3] == 'x');
    reveal_strlit("xls");
    assert("xls"@.len() == 3 && "xls"@[0] == 'x' && "xls"@[1] == 'l' && "xls"@[2] == 's');
    reveal_strlit("xlsx");
    assert("xlsx"@.len() == 4 && "xlsx"@[0] == 'x' && "xlsx"@[1] == 'l' && "xlsx"@[2] == 's' && "xlsx"@[3] == 'x');
    reveal_strlit("mp3");
    assert("mp3"@.len() == 3 && "mp3"@[0] == 'm' && "mp3"@[1] == 'p' && "mp3"@[2] == '3');
    reveal_strlit("flac");
    assert("flac"@.len() == 4 && "flac"@[0] == 'f' && "flac"@[1] == 'l' && "flac"@[2] == 'a' && "flac"@[3] == 'c');
    reveal_strlit("wav");
    assert("wav"@.len() == 3 && "wav"@[0] == 'w' && "wav"@[1] == 'a' && "wav"@[2] == 'v');
    reveal_strlit("ogg");
    assert("ogg"@.len() == 3 && "ogg"@[0] == 'o' && "ogg"@[1] == 'g' && "ogg"@[2] == 'g');
    reveal_strlit("mp4");
    assert("mp4"@.len() == 3 && "mp4"@[0] == 'm' && "mp4"@[1] == 'p' && "mp4"@[2] == '4');
    reveal_strlit("avi");
    assert("avi"@.len() == 3 && "avi"@[0] == 'a' && "avi"@[1] == 'v' && "avi"@[2] == 'i');
    reveal_strlit("mkv");
    assert("mkv"@.len() == 3 && "mkv"@[0] == 'm' && "mkv"@[1] == 'k' && "mkv"@[2] == 'v');
    reveal_strlit("mov");
    assert("mov"@.len() == 3 && "mov"@[0] == 'm' && "mov"@[1] == 'o' && "mov"@[2] == 'v');
    reveal_strlit("audio/*");
    assert("audio/*"@.len() == 7 && "audio/*"@[0] == 'a' && "audio/*"@[1] == 'u' && "audio/*"@[2] == 'd' && "audio/*"@[3] == 'i' && "audio/*"@[4] == 'o' && "audio/*"@[5] == '/' && "audio/*"@[6] == '*');
    reveal_strlit("video/*");
    assert("video/*"@.len() == 7 && "video/*"@[0] == 'v' && "video/*"@[1] == 'i' && "video/*"@[2] == 'd' && "video/*"@[3] == 'e' && "video/*"@[4] == 'o' && "video/*"@[5] == '/' && "video/*"@[6] == '*');
    reveal_strlit("image/");
    assert("image/"@.len() == 6 && "image/"@[0] == 'i' && "image/"@[1] == 'm' && "image/"@[2] == 'a' && "image/"@[3] == 'g' && "image/"@[4] == 'e' && "image/"@[5] == '/');
    reveal_strlit("audio/");
    assert("audio/"@.len() == 6 && "audio/"@[0] == 'a' && "audio/"@[1] == 'u' && "audio/"@[2] == 'd' && "audio/"@[3] == 'i' && "audio/"@[4] == 'o' && "audio/"@[5] == '/');
    reveal_strlit("video/");
    assert("video/"@.len() == 6 && "video/"@[0] == 'v' && "video/"@[1] == 'i' && "video/"@[2] == 'd' && "video/"@[3] == 'e' && "video/"@[4] == 'o' && "video/"@[5] == '/');
    reveal_strlit("text/");
    assert("text/"@.len() == 5 && "text/"@[0] == 't' && "text/"@[1] == 'e' && "text/"@[2] == 'x' && "text/"@[3] == 't' && "text/"@[4] == '/');
    assert("audio/*"@.take(6)[0] != "image/"@[0]);
    assert("audio/*"@.take(6) =~= "audio/"@);
    assert("audio/*"@.take(6)[0] != "video/"@[0]);
    assert("audio/*"@.take(5)[0] != "text/"@[0]);
    assert("video/*"@.take(6)[0] != "image/"@[0]);
    assert("video/*"@.take(6)[0] != "audio/"@[0]);
    assert("video/*"@.take(6) =~= "video/"@);
    assert("video/*"@.take(5)[0] != "text/"@[0]);
}

/// How a file's category follows from its MIME type and extension, whatever they
/// are: a type under `image/`, `audio/` or `video/` gives that category; otherwise a
/// `text/` type, or a structured-text extension, gives Text / Code; otherwise `pdf`
/// gives Document, and `doc`, `docx`, `xls` and `xlsx` give Office Document;
/// anything else is Binary / Generic.
pub proof fn lemma_category_rules(mime: Seq<char>, ext: Seq<char>)
    ensures
        has_prefix(mime, "image/"@) ==> category_spec(mime, ext) == Category::Image,
        !has_prefix(mime, "image/"@) && has_prefix(mime, "audio/"@) ==> category_spec(mime, ext)
            == Category::Audio,
        !has_prefix(mime, "image/"@) && !has_prefix(mime, "audio/"@) && has_prefix(
            mime,
            "video/"@,
        ) ==> category_spec(mime, ext) == Category::Video,
        !has_prefix(mime, "image/"@) && !has_prefix(mime, "audio/"@) && !has_prefix(
            mime,
            "video/"@,
        ) && (has_prefix(mime, "text/"@) || ext == "toml"@ || ext == "csv"@ || ext == "yaml"@
            || ext == "yml"@ || ext == "json"@ || ext == "xml"@) ==> category_spec(mime, ext)
            == Category::TextCode,
        !has_prefix(mime, "image/"@) && !has_prefix(mime, "audio/"@) && !has_prefix(
            mime,
            "video/"@,
        ) && !has_prefix(mime, "text/"@) && ext == "pdf"@ ==> category_spec(mime, ext)
            == Category::Document,
        !has_prefix(mime, "image/"@) && !has_prefix(mime, "audio/"@) && !has_prefix(
            mime,
            "video/"@,
        ) && !has_prefix(mime, "text/"@) && (ext == "doc"@ || ext == "docx"@ || ext == "xls"@
            || ext == "xlsx"@) ==> category_spec(mime, ext) == Category::OfficeDocument,
{
    reveal_strlit("toml");
    assert("toml"@.len() == 4 && "toml"@[0] == 't' && "toml"@[1] == 'o' && "toml"@[2] == 'm' && "toml"@[3] == 'l');
    reveal_strlit("csv");
    assert("csv"@.len() == 3 && "csv"@[0] == 'c' && "csv"@[1] == 's' && "csv"@[2] == 'v');
    reveal_strlit("yaml");
    assert("yaml"@.len() == 4 && "yaml"@[0] == 'y' && "yaml"@[1] == 'a' && "yaml"@[2] == 'm' && "yaml"@[3] == 'l');
    reveal_strlit("yml");
    assert("yml"@.len() == 3 && "yml"@[0] == 'y' && "yml"@[1] == 'm' && "yml"@[2] == 'l');
    reveal_strlit("json");
    assert("json"@.len() == 4 && "json"@[0] == 'j' && "json"@[1] == 's' && "json"@[2] == 'o' && "json"@[3] == 'n');
    reveal_strlit("xml");
    assert("xml"@.len() == 3 && "xml"@[0] == 'x' && "xml"@[1] == 'm' && "xml"@[2] == 'l');
    reveal_strlit("pdf");
    assert("pdf"@.len() == 3 && "pdf"@[0] == 'p' && "pdf"@[1] == 'd' && "pdf"@[2] == 'f');
    reveal_strlit("doc");
    assert("doc"@.len() == 3 && "doc"@[0] == 'd' && "doc"@[1] == 'o' && "doc"@[2] == 'c');
    reveal_strlit("docx");
    assert("docx"@.len() == 4 && "docx"@[0] == 'd' && "docx"@[1] == 'o' && "docx"@[2] == 'c' && "docx"@[3] == 'x');
    reveal_strlit("xls");
    assert("xls"@.len() == 3 && "xls"@[0] == 'x' && "xls"@[1] == 'l' && "xls"@[2] == 's');
    reveal_strlit("xlsx");
    assert("xlsx"@.len() == 4 && "xlsx"@[0] == 'x' && "xlsx"@[1] == 'l' && "xlsx"@[2] == 's' && "xlsx"@[3] == 'x');
}

/// An extension outside the table has the generic MIME type
/// `application/octet-stream` and the Binary / Generic category.
pub proof fn lemma_unknown_extension(e: Seq<char>)
    requires
        e != "png"@ && e != "jpg"@ && e != "jpeg"@ && e != "gif"@ && e != "bmp"@ && e != "webp"@
            && e != "svg"@ && e != "txt"@ && e != "md"@ && e != "py"@ && e != "rs"@
            && e != "js"@ && e != "ts"@ && e != "html"@ && e != "htm"@ && e != "css"@
            && e != "json"@ && e != "xml"@ && e != "toml"@ && e != "yaml"@ && e != "yml"@
            && e != "csv"@ && e != "cpp"@ && e != "cc"@ && e != "cxx"@ && e != "c"@ && e != "h"@
            && e != "hpp"@ && e != "go"@ && e != "sh"@ && e != "bash"@ && e != "pdf"@
            && e != "doc"@ && e != "docx"@ && e != "xls"@ && e != "xlsx"@ && e != "mp3"@
            && e != "flac"@ && e != "wav"@ && e != "ogg"@ && e != "mp4"@ && e != "avi"@
            && e != "mkv"@ && e != "mov"@,
    ensures
        mime_spec(e) == "application/octet-stream"@,
        category_spec(mime_spec(e), e) == Category::Generic,
{
    reveal_strlit("application/octet-stream");
    assert("application/octet-stream"@.len() == 24 && "application/octet-stream"@[0] == 'a' && "application/octet-stream"@[1] == 'p' && "application/octet-stream"@[2] == 'p' && "application/octet-stream"@[3] == 'l' && "application/octet-stream"@[4] == 'i' && "application/octet-stream"@[5] == 'c' && "application/octet-stream"@[6] == 'a' && "application/octet-stream"@[7] == 't' && "application/octet-stream"@[8] == 'i' && "application/octet-stream"@[9] == 'o' && "application/octet-stream"@[10] == 'n' && "application/octet-stream"@[11] == '/' && "application/octet-stream"@[12] == 'o' && "application/octet-stream"@[13] == 'c' && "application/octet-stream"@[14] == 't' && "application/octet-stream"@[15] == 'e' && "application/octet-stream"@[16] == 't' && "application/octet-stream"@[17] == '-' && "application/octet-stream"@[18] == 's' && "application/octet-stream"@[19] == 't' && "application/octet-stream"@[20] == 'r' && "application/octet-stream"@[21] == 'e' && "application/octet-stream"@[22] == 'a' && "application/octet-stream"@[23] == 'm');
    reveal_strlit("image/");
    assert("application/octet-stream"@.take(6)[0] != "image/"@[0]);
    reveal_strlit("audio/");
    assert("application/octet-stream"@.take(6)[1] != "audio/"@[1]);
    reveal_strlit("video/");
    assert("application/octet-stream"@.take(6)[0] != "video/"@[0]);
    reveal_strlit("text/");
    assert("application/octet-stream"@.take(5)[0] != "text/"@[0]);
}

} // verus!
