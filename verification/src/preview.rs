//! Assembling the preview of a file: its type label, content snippet, metadata
//! summary and, for images, a JPEG thumbnail as a Base64 data URL.
use vstd::prelude::*;
use crate::base64::{base64_encode, base64_spec};
use crate::meta::{get_metadata_string, local_time_in_range, metadata_string_spec, LocalTime};
use crate::mime::{
    category_for,
    category_name,
    category_name_spec,
    category_spec,
    lowercase_extension,
    ext_lower_spec,
    mime_for_extension,
    mime_spec,
    Category,
};
use crate::path::{extension, extension_spec};
use crate::picture::{
    decode_image,
    decoded_source,
    encode_jpeg,
    fitted_source,
    image_decodes,
    image_height,
    image_thumbnail,
    image_width,
    jpeg_encoding,
    known_image_extension,
    picture_height,
    picture_width,
    PictureSource,
};
use crate::size::{format_size, format_size_spec};
use crate::text::{
    ascii_lowercase,
    decimal,
    has_prefix,
    push_decimal,
    push_str,
    starts_with,
    to_string,
};

verus! {

/// The preview of a file.
#[derive(Clone, Debug)]
pub struct PreviewData {
    pub file_type: String,
    pub content_snippet: String,
    pub metadata_summary: String,
    pub preview_image_b64: Option<String>,
    pub success: bool,
}

/// The snippet shown when a text file cannot be opened.
pub const UNOPENED_SNIPPET: &'static str = "[Could not open file]";

/// The preview of a path that does not exist.
pub fn missing_file_preview() -> (p: PreviewData)
    ensures
        p.file_type@ == "Unknown / Non-existent"@,
        p.content_snippet@ == "[File not found on disk]"@,
        p.metadata_summary@ == "N/A"@,
        p.preview_image_b64 is None,
        !p.success,
{
    PreviewData {
        file_type: to_string("Unknown / Non-existent"),
        content_snippet: to_string("[File not found on disk]"),
        metadata_summary: to_string("N/A"),
        preview_image_b64: None,
        success: false,
    }
}

/// The preview of a directory with `count` entries.
pub fn directory_preview(count: usize) -> (p: PreviewData)
    ensures
        p.file_type@ == "Directory"@,
        p.content_snippet@ == "[Directory]"@,
        p.metadata_summary@ == "Items: "@ + decimal(count as nat),
        p.preview_image_b64 is None,
        p.success,
{
    let mut summary = to_string("Items: ");
    push_decimal(&mut summary, count as u128);
    PreviewData {
        file_type: to_string("Directory"),
        content_snippet: to_string("[Directory]"),
        metadata_summary: summary,
        preview_image_b64: None,
        success: true,
    }
}

/// The largest width and height a thumbnail keeps.
pub const THUMBNAIL_MAX: u32 = 800;

/// Whether an image of the given size is scaled down before it is shown.
pub fn needs_thumbnail(width: u32, height: u32) -> (r: bool)
    ensures
        r == (width > THUMBNAIL_MAX || height > THUMBNAIL_MAX),
{
    width > THUMBNAIL_MAX || height > THUMBNAIL_MAX
}

/// The data URL of a JPEG image.
pub open spec fn jpeg_data_url_spec(jpeg: Seq<u8>) -> Seq<char> {
    "data:image/jpeg;base64,"@ + base64_spec(jpeg)
}

/// Builds the data URL of JPEG bytes.
pub fn jpeg_data_url(jpeg: &[u8]) -> (r: String)
    ensures
        r@ == jpeg_data_url_spec(jpeg@),
{
    let mut r = to_string("data:image/jpeg;base64,");
    let b = base64_encode(jpeg);
    push_str(&mut r, b.as_str());
    r
}

/// Whether the image library can be asked to decode a file at `path`: its path has
/// an extension that names a format.
pub open spec fn image_format_known(path: Seq<char>) -> bool {
    match extension_spec(path) {
        Some(e) => known_image_extension(ascii_lowercase(e)),
        None => false,
    }
}

/// The picture shown for an image decoded from `data` in the format that `ext`
/// names: the decoded image itself, or its thumbnail within 800 by 800 where it is
/// wider or taller than that.
pub open spec fn shown_source(data: Seq<u8>, ext: Seq<char>) -> PictureSource {
    let p = decoded_source(data, ext);
    if picture_width(p) > THUMBNAIL_MAX || picture_height(p) > THUMBNAIL_MAX {
        fitted_source(p, THUMBNAIL_MAX, THUMBNAIL_MAX)
    } else {
        p
    }
}

/// The thumbnail data URL of an image decoded from `data` in the format that `ext`
/// names: `None` where it does not decode or where JPEG encoding fails.
pub open spec fn thumbnail_spec(data: Seq<u8>, ext: Seq<char>) -> Option<Seq<char>> {
    if !image_decodes(data, ext) {
        None
    } else {
        match jpeg_encoding(shown_source(data, ext)) {
            Some(jpeg) => Some(jpeg_data_url_spec(jpeg)),
            None => None,
        }
    }
}

/// The thumbnail of an image file whose path is `path` and whose contents are
/// `data`, as a JPEG data URL: the image is read in the format its extension names,
/// scaled down to fit in 800 by 800 when it is larger, and encoded as JPEG. There is
/// none when the path has no extension, when the bytes do not decode in the format
/// it names, or when encoding fails. The picture shown always fits in 800 by 800,
/// and a larger image is scaled until one of its sides is 800.
pub fn generate_image_thumbnail(path: &str, data: &[u8]) -> (r: Option<String>)
    ensures
        !image_format_known(path@) ==> r is None,
        extension_spec(path@) is None ==> r is None,
        extension_spec(path@) matches Some(e) ==> match r {
            Some(s) => thumbnail_spec(data@, e) == Some(s@),
            None => thumbnail_spec(data@, e) is None,
        },
        extension_spec(path@) matches Some(e) ==> (image_decodes(data@, e) ==> picture_width(
            shown_source(data@, e),
        ) <= THUMBNAIL_MAX && picture_height(shown_source(data@, e)) <= THUMBNAIL_MAX),
        extension_spec(path@) matches Some(e) ==> (image_decodes(data@, e) && (picture_width(
            decoded_source(data@, e),
        ) > THUMBNAIL_MAX || picture_height(decoded_source(data@, e)) > THUMBNAIL_MAX)
            ==> picture_width(shown_source(data@, e)) == THUMBNAIL_MAX || picture_height(
            shown_source(data@, e),
        ) == THUMBNAIL_MAX),
{
    let ext = extension(path)?;
    let img = decode_image(data, ext.as_str())?;
    let shown = if needs_thumbnail(image_width(&img), image_height(&img)) {
        image_thumbnail(&img, THUMBNAIL_MAX, THUMBNAIL_MAX)
    } else {
        img
    };
    let jpeg = encode_jpeg(&shown)?;
    Some(jpeg_data_url(jpeg.as_slice()))
}

/// What is known of a file from the file system.
#[derive(Clone, Copy, Debug)]
pub struct FileMeta {
    pub size: u64,
    pub modified: Option<LocalTime>,
    pub mode: u32,
}

/// Whether the modification time of `meta`, if any, can be rendered.
pub open spec fn meta_in_range(meta: Option<FileMeta>) -> bool {
    meta matches Some(m) ==> (m.modified matches Some(t) ==> local_time_in_range(t))
}

/// What is decided of a file from its path alone.
pub struct PreviewPlan {
    /// The lower-cased extension (empty when there is none).
    pub ext: String,
    pub category: Category,
}

/// Whether the preview of a file of this category shows the beginning of its text.
pub open spec fn reads_text(c: Category) -> bool {
    c != Category::Image && c != Category::Audio && c != Category::Video
}

/// Decides the extension and category of the file at `path`.
pub fn plan_preview(path: &str) -> (p: PreviewPlan)
    ensures
        p.ext@ == ext_lower_spec(path@),
        p.category == category_spec(mime_spec(p.ext@), p.ext@),
{
    let ext = lowercase_extension(path);
    let mime = mime_for_extension(ext.as_str());
    let category = category_for(mime, ext.as_str());
    PreviewPlan { ext, category }
}

/// Whether the file of this plan is shown with the beginning of its text.
pub fn plan_reads_text(p: &PreviewPlan) -> (r: bool)
    ensures
        r == reads_text(p.category),
{
    match p.category {
        Category::Image | Category::Audio | Category::Video => false,
        _ => true,
    }
}

/// Whether the file of this plan is shown with an image thumbnail.
pub fn plan_shows_image(p: &PreviewPlan) -> (r: bool)
    ensures
        r == (p.category == Category::Image),
{
    match p.category {
        Category::Image => true,
        _ => false,
    }
}

/// The type label of a file: its category and extension.
pub open spec fn file_type_spec(c: Category, ext: Seq<char>) -> Seq<char> {
    category_name_spec(c) + " File ("@ + (if ext.len() == 0 {
        "no extension"@
    } else {
        ext
    }) + ")"@
}

/// The rendered size of a file, empty when its metadata is unknown.
pub open spec fn size_text_spec(meta: Option<FileMeta>) -> Seq<char> {
    match meta {
        Some(m) => format_size_spec(m.size as nat),
        None => seq![],
    }
}

/// The metadata summary of a file, empty when its metadata is unknown.
pub open spec fn summary_spec(meta: Option<FileMeta>) -> Seq<char> {
    match meta {
        Some(m) => metadata_string_spec(m.size, m.modified, m.mode),
        None => seq![],
    }
}

/// The content snippet of a file of category `c`: a note whether the image could
/// be shown; the text for text and code; the kind and size for audio and video; for
/// anything else the text, unless reading it gave a bracketed note, which is
/// replaced by a binary-file note with the size.
pub open spec fn snippet_spec(
    c: Category,
    meta: Option<FileMeta>,
    text: Seq<char>,
    has_image: bool,
) -> Seq<char> {
    match c {
        Category::Image => if has_image {
            "[Image Preview Available Below]"@
        } else {
            "[Could not decode image]"@
        },
        Category::TextCode => text,
        Category::Audio | Category::Video => "["@ + category_name_spec(c) + " file - "@
            + size_text_spec(meta) + "]"@,
        _ => if has_prefix(text, "["@) {
            "[Binary file - "@ + size_text_spec(meta) + "]"@
        } else {
            text
        },
    }
}

fn size_text(meta: Option<FileMeta>) -> (r: String)
    ensures
        r@ == size_text_spec(meta),
{
    match meta {
        Some(m) => format_size(m.size),
        None => String::new(),
    }
}

fn bracketed_note(head: &str, body: &str, tail: &str) -> (r: String)
    ensures
        r@ == head@ + body@ + tail@,
{
    let mut r = to_string(head);
    push_str(&mut r, body);
    push_str(&mut r, tail);
    r
}

/// Assembles the preview of an existing regular file from its plan, its metadata
/// (when readable), the beginning of its text (for the categories that show it;
/// none counts as empty text) and its thumbnail (for images).
pub fn finish_preview(
    plan: PreviewPlan,
    meta: Option<FileMeta>,
    text: Option<String>,
    thumbnail: Option<String>,
) -> (p: PreviewData)
    requires
        meta_in_range(meta),
    ensures
        p.file_type@ == file_type_spec(plan.category, plan.ext@),
        p.metadata_summary@ == summary_spec(meta),
        p.content_snippet@ == snippet_spec(
            plan.category,
            meta,
            match text {
                Some(t) => t@,
                None => seq![],
            },
            thumbnail is Some,
        ),
        plan.category == Category::Image ==> p.preview_image_b64 == thumbnail,
        plan.category != Category::Image ==> p.preview_image_b64 is None,
        p.success,
{
    let meta_str = match meta {
        Some(m) => get_metadata_string(m.size, m.modified, m.mode),
        None => String::new(),
    };
    let cat_name = category_name(plan.category);
    let mut file_type = to_string(cat_name);
    push_str(&mut file_type, " File (");
    if plan.ext.unicode_len() == 0 {
        push_str(&mut file_type, "no extension");
    } else {
        push_str(&mut file_type, plan.ext.as_str());
    }
    push_str(&mut file_type, ")");
    let (snippet, image) = match plan.category {
        Category::Image => {
            let note = if thumbnail.is_some() {
                to_string("[Image Preview Available Below]")
            } else {
                to_string("[Could not decode image]")
            };
            (note, thumbnail)
        },
        Category::TextCode => {
            let t = match text {
                Some(t) => t,
                None => String::new(),
            };
            (t, None)
        },
        Category::Audio | Category::Video => {
            let sz = size_text(meta);
            let mut note = to_string("[");
            push_str(&mut note, cat_name);
            push_str(&mut note, " file - ");
            push_str(&mut note, sz.as_str());
            push_str(&mut note, "]");
            (note, None)
        },
        _ => {
            let t = match text {
                Some(t) => t,
                None => String::new(),
            };
            if starts_with(t.as_str(), "[") {
                let sz = size_text(meta);
                (bracketed_note("[Binary file - ", sz.as_str(), "]"), None)
            } else {
                (t, None)
            }
        },
    };
    PreviewData {
        file_type,
        content_snippet: snippet,
        metadata_summary: meta_str,
        preview_image_b64: image,
        success: true,
    }
}

/// The category of the file at `path`, decided from its path alone.
pub open spec fn path_category(path: Seq<char>) -> Category {
    category_spec(mime_spec(ext_lower_spec(path)), ext_lower_spec(path))
}

/// What the file system tells of a path, as far as its preview needs it: that
/// nothing is there; a directory and the number of its entries; or a file with its
/// metadata where they could be read, the beginning of its text where its category
/// shows text, and the thumbnail where it is an image that could be shown.
pub enum PathFacts {
    Missing,
    Directory { entries: usize },
    File { meta: Option<FileMeta>, text: Option<String>, thumbnail: Option<String> },
}

/// The preview of the path `path`, given what the file system tells of it. The
/// preview succeeds exactly when something is at the path: a directory, or a file
/// of any kind, whether or not its contents could be read.
pub fn assemble_preview(path: &str, facts: PathFacts) -> (p: PreviewData)
    requires
        facts matches PathFacts::File { meta, text, thumbnail } ==> meta_in_range(meta),
    ensures
        p.success <==> !(facts is Missing),
        facts is Missing ==> p.file_type@ == "Unknown / Non-existent"@ && p.content_snippet@
            == "[File not found on disk]"@ && p.metadata_summary@ == "N/A"@
            && p.preview_image_b64 is None,
        facts matches PathFacts::Directory { entries } ==> p.file_type@ == "Directory"@
            && p.content_snippet@ == "[Directory]"@ && p.metadata_summary@ == "Items: "@
            + decimal(entries as nat) && p.preview_image_b64 is None,
        facts matches PathFacts::File { meta, text, thumbnail } ==> p.file_type@
            == file_type_spec(path_category(path@), ext_lower_spec(path@)) && p.metadata_summary@
            == summary_spec(meta) && p.content_snippet@ == snippet_spec(
            path_category(path@),
            meta,
            match text {
                Some(t) => t@,
                None => seq![],
            },
            thumbnail is Some,
        ) && (path_category(path@) == Category::Image ==> p.preview_image_b64 == thumbnail) && (
        path_category(path@) != Category::Image ==> p.preview_image_b64 is None),
{
    match facts {
        PathFacts::Missing => missing_file_preview(),
        PathFacts::Directory { entries } => directory_preview(entries),
        PathFacts::File { meta, text, thumbnail } => {
            let plan = plan_preview(path);
            finish_preview(plan, meta, text, thumbnail)
        },
    }
}

/// The size of the picture shown: an image within 800 by 800 is shown as decoded,
/// at its own size; a wider or taller one is shown as its thumbnail within 800 by
/// 800.
pub proof fn lemma_shown_size(data: Seq<u8>, ext: Seq<char>)
    ensures
        picture_width(decoded_source(data, ext)) <= 800 && picture_height(
            decoded_source(data, ext),
        ) <= 800 ==> shown_source(data, ext) == decoded_source(data, ext),
        picture_width(decoded_source(data, ext)) > 800 || picture_height(
            decoded_source(data, ext),
        ) > 800 ==> shown_source(data, ext) == fitted_source(
            decoded_source(data, ext),
            800,
            800,
        ),
{
}

/// What a preview shows as its snippet: the text of a text or code file as it was
/// read; the text of any other file that is not an image, audio or video, unless it
/// starts with `[` (a note that it is empty or unreadable), which is replaced by a
/// binary-file note; and for images, audio and video never the text.
pub proof fn lemma_snippet_rules(
    c: Category,
    meta: Option<FileMeta>,
    text: Seq<char>,
    other: Seq<char>,
    has_image: bool,
)
    ensures
        snippet_spec(Category::TextCode, meta, text, has_image) == text,
        c != Category::Image && c != Category::Audio && c != Category::Video && (text.len() == 0
            || text[0] != '[') ==> snippet_spec(c, meta, text, has_image) == text,
        c != Category::Image && c != Category::Audio && c != Category::Video && c
            != Category::TextCode && text.len() > 0 && text[0] == '[' ==> snippet_spec(
            c,
            meta,
            text,
            has_image,
        ) == "[Binary file - "@ + size_text_spec(meta) + "]"@,
        c == Category::Image || c == Category::Audio || c == Category::Video ==> snippet_spec(
            c,
            meta,
            text,
            has_image,
        ) == snippet_spec(c, meta, other, has_image),
{
    reveal_strlit("[");
    if text.len() > 0 && text[0] == '[' {
        assert(text.take(1) =~= "["@);
    } else if text.len() > 0 {
        assert(text.take(1)[0] != "["@[0]);
    }
}

/// The type label of a file names its category and then its extension in
/// brackets, or `no extension` when it has none, e.g. `Office Document File (xlsx)`.
pub proof fn lemma_type_labels(ext: Seq<char>)
    ensures
        ({
            let shown = if ext.len() == 0 {
                "no extension"@
            } else {
                ext
            };
            &&& file_type_spec(Category::Image, ext) == "Image"@ + " File ("@ + shown + ")"@
            &&& file_type_spec(Category::Audio, ext) == "Audio"@ + " File ("@ + shown + ")"@
            &&& file_type_spec(Category::Video, ext) == "Video"@ + " File ("@ + shown + ")"@
            &&& file_type_spec(Category::TextCode, ext) == "Text / Code"@ + " File ("@ + shown + ")"@
            &&& file_type_spec(Category::Document, ext) == "Document"@ + " File ("@ + shown + ")"@
            &&& file_type_spec(Category::OfficeDocument, ext) == "Office Document"@ + " File ("@ + shown + ")"@
            &&& file_type_spec(Category::Generic, ext) == "Binary / Generic"@ + " File ("@ + shown + ")"@
        }),
{
}

/// Text, code, documents, office files and other files show the beginning of their
/// text; images, audio and video do not.
pub proof fn lemma_text_categories()
    ensures
        reads_text(Category::TextCode) && reads_text(Category::Document) && reads_text(
            Category::OfficeDocument,
        ) && reads_text(Category::Generic),
        !reads_text(Category::Image) && !reads_text(Category::Audio) && !reads_text(
            Category::Video,
        ),
{
}

} // verus!
