//! Decoded images of the image library, each known by how it was made: the bytes
//! and the extension it was decoded from, and the bounds of the thumbnails taken of
//! it since. Decoding, scaling and encoding depend on nothing else, so the results
//! of the library's calls are named over that history.
use vstd::prelude::*;
use crate::text::ascii_lowercase;

verus! {

#[verifier::external_type_specification]
#[verifier::external_body]
pub struct ExDynamicImage(image::DynamicImage);

/// How a picture was made: decoded from `data` in the format that the extension
/// `ext` names, then shrunk to fit each bound of `fits`, in order.
pub struct PictureSource {
    pub data: Seq<u8>,
    pub ext: Seq<char>,
    pub fits: Seq<(u32, u32)>,
}

/// The picture decoded from `data` in the format that `ext` names.
pub open spec fn decoded_source(data: Seq<u8>, ext: Seq<char>) -> PictureSource {
    PictureSource { data, ext, fits: seq![] }
}

/// The picture `p` shrunk to fit in `width` by `height`.
pub open spec fn fitted_source(p: PictureSource, width: u32, height: u32) -> PictureSource {
    PictureSource { fits: p.fits.push((width, height)), ..p }
}

/// A decoded image. Its fields are private to this module, where only the calls of
/// the image library make one, so its history is always how it was made.
pub struct Picture {
    img: image::DynamicImage,
    source: Ghost<PictureSource>,
}

impl View for Picture {
    type V = PictureSource;

    closed spec fn view(&self) -> PictureSource {
        self.source@
    }
}

/// The (lower-case) extensions that the image library knows a format for.
pub open spec fn known_image_extension(e: Seq<char>) -> bool {
    e == "avif"@ || e == "jpg"@ || e == "jpeg"@ || e == "jfif"@ || e == "png"@ || e == "apng"@
        || e == "gif"@ || e == "webp"@ || e == "tif"@ || e == "tiff"@ || e == "tga"@ || e
        == "dds"@ || e == "bmp"@ || e == "ico"@ || e == "hdr"@ || e == "exr"@ || e == "pbm"@ || e
        == "pam"@ || e == "ppm"@ || e == "pgm"@ || e == "pnm"@ || e == "ff"@ || e == "qoi"@
}

/// Whether the image library decodes `data` in the format named by the extension
/// `ext` (what `ImageReader::decode` returns for them is `Ok`).
pub uninterp spec fn image_decodes(data: Seq<u8>, ext: Seq<char>) -> bool;

/// The width in pixels of the picture made as `p` says.
pub uninterp spec fn picture_width(p: PictureSource) -> u32;

/// The height in pixels of the picture made as `p` says.
pub uninterp spec fn picture_height(p: PictureSource) -> u32;

/// The JPEG bytes that the image library writes for the picture made as `p` says,
/// or `None` where it fails.
pub uninterp spec fn jpeg_encoding(p: PictureSource) -> Option<Seq<u8>>;

/// Calls `image::ImageReader::decode` on the bytes, read in the format that
/// `image::ImageFormat::from_extension` gives for `ext`. That conversion lower-cases
/// the ASCII letters of the extension and looks it up in a fixed table, so an
/// extension outside the table gives no image. Whether decoding succeeds depends on
/// the bytes and the extension alone and is named `image_decodes`; the picture is
/// known by the bytes and the extension it came from.
#[verifier::external_body]
pub fn decode_image(data: &[u8], ext: &str) -> (r: Option<Picture>)
    ensures
        !known_image_extension(ascii_lowercase(ext@)) ==> r is None,
        r is Some <==> image_decodes(data@, ext@),
        r matches Some(p) ==> p@ == decoded_source(data@, ext@),
{
    let format = image::ImageFormat::from_extension(ext)?;
    let img = image::ImageReader::with_format(std::io::Cursor::new(data), format).decode().ok()?;
    Some(Picture { img, source: Ghost(decoded_source(data@, ext@)) })
}

/// Calls `image::DynamicImage::width`, named `picture_width`.
#[verifier::external_body]
pub fn image_width(p: &Picture) -> (r: u32)
    ensures
        r == picture_width(p@),
{
    p.img.width()
}

/// Calls `image::DynamicImage::height`, named `picture_height`.
#[verifier::external_body]
pub fn image_height(p: &Picture) -> (r: u32)
    ensures
        r == picture_height(p@),
{
    p.img.height()
}

/// Calls `image::DynamicImage::thumbnail`, which scales the image to the largest
/// size that keeps its aspect ratio and fits in the bounds (at least one pixel each
/// way). So for bounds of at least one pixel the result fits in them, and unless the
/// image has no pixel either way, one side reaches its bound: the side whose bound
/// allows the smaller scale. The other side is rounded in floating point and its
/// exact length is not stated.
#[verifier::external_body]
pub fn image_thumbnail(p: &Picture, width: u32, height: u32) -> (r: Picture)
    ensures
        r@ == fitted_source(p@, width, height),
        width >= 1 && height >= 1 ==> picture_width(r@) <= width && picture_height(r@)
            <= height,
        width >= 1 && height >= 1 && (picture_width(p@) >= 1 || picture_height(p@) >= 1)
            ==> picture_width(r@) == width || picture_height(r@) == height,
{
    let img = p.img.thumbnail(width, height);
    Picture { img, source: Ghost(fitted_source(p@, width, height)) }
}

/// Calls `image::DynamicImage::write_to` with the JPEG format into a byte buffer;
/// the bytes written, or the failure, are named `jpeg_encoding`.
#[verifier::external_body]
pub fn encode_jpeg(p: &Picture) -> (r: Option<Vec<u8>>)
    ensures
        match r {
            Some(v) => jpeg_encoding(p@) == Some(v@),
            None => jpeg_encoding(p@) is None,
        },
{
    let mut buf = std::io::Cursor::new(Vec::new());
    p.img.write_to(&mut buf, image::ImageFormat::Jpeg).ok()?;
    Some(buf.into_inner())
}

} // verus!
