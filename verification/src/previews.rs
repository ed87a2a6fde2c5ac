//! The small previews of map images in the map list: decoded with the
//! `image` crate under size limits and scaled down to thumbnail size.

use vstd::prelude::*;
use crate::text::{push_str, string_from_str};

verus! {

/// The box a preview is scaled into: width, in pixels.
pub const MAP_THUMBNAIL_WIDTH: u32 = 128;

/// The box a preview is scaled into: height, in pixels.
pub const MAP_THUMBNAIL_HEIGHT: u32 = 96;

/// The widest and tallest image that is decoded at all.
pub const MAP_THUMBNAIL_MAX_DIMENSION: u32 = 8192;

/// The most memory the decoder may use, in bytes.
pub const MAP_THUMBNAIL_MAX_DECODE_BYTES: u64 = 134217728;

/// A decoded preview: width and height in pixels, and RGBA bytes row by
/// row.
#[derive(Debug)]
pub struct DecodedMapThumbnail {
    pub size: [usize; 2],
    pub rgba: Vec<u8>,
}

/// Why a preview could not be made: the image could not be opened (its
/// format not read), or not decoded.
pub enum ThumbnailError {
    Open(String),
    Decode(String),
}

/// What the `image` crate makes of encoded image bytes under the given
/// limits (largest width and height, most memory) scaled to fit the given
/// box: the width, height and RGBA bytes of the thumbnail, or, on failure,
/// whether it failed while reading the format and the error's text.
pub uninterp spec fn thumbnail_of(
    bytes: Seq<u8>,
    max_dimension: u32,
    max_alloc: u64,
    width: u32,
    height: u32,
) -> Result<(u32, u32, Seq<u8>), (bool, Seq<char>)>;

/// Decodes an image with `image::ImageReader` (format guessed from the
/// bytes, `image::Limits` set to the given width, height and memory
/// limits), scales it with `DynamicImage::thumbnail` and converts it with
/// `to_rgba8`.  Claimed: the outcome is `thumbnail_of` of the arguments,
/// and the RGBA bytes are four per pixel.
#[verifier::external_body]
fn decode_thumbnail_rgba(
    bytes: &[u8],
    max_dimension: u32,
    max_alloc: u64,
    width: u32,
    height: u32,
) -> (r: Result<(u32, u32, Vec<u8>), ThumbnailError>)
    ensures
        match r {
            Ok((w, h, px)) => thumbnail_of(bytes@, max_dimension, max_alloc, width, height) == Ok::<
                (u32, u32, Seq<u8>),
                (bool, Seq<char>),
            >((w, h, px@)) && px@.len() == w * h * 4,
            Err(ThumbnailError::Open(e)) => thumbnail_of(
                bytes@,
                max_dimension,
                max_alloc,
                width,
                height,
            ) == Err::<(u32, u32, Seq<u8>), (bool, Seq<char>)>((true, e@)),
            Err(ThumbnailError::Decode(e)) => thumbnail_of(
                bytes@,
                max_dimension,
                max_alloc,
                width,
                height,
            ) == Err::<(u32, u32, Seq<u8>), (bool, Seq<char>)>((false, e@)),
        },
{
    let mut reader = image::ImageReader::new(std::io::Cursor::new(bytes)).with_guessed_format().map_err(
        |err| ThumbnailError::Open(err.to_string()),
    )?;
    let mut limits = image::Limits::default();
    limits.max_image_width = Some(max_dimension);
    limits.max_image_height = Some(max_dimension);
    limits.max_alloc = Some(max_alloc);
    reader.limits(limits);
    let decoded = reader.decode().map_err(|err| ThumbnailError::Decode(err.to_string()))?;
    let image = decoded.thumbnail(width, height).to_rgba8();
    Ok((image.width(), image.height(), image.into_raw()))
}

/// `failed to <what> map preview <path>: <err>`.
pub open spec fn preview_error(opening: bool, path: Seq<char>, err: Seq<char>) -> Seq<char> {
    (if opening {
        "failed to open map preview "@
    } else {
        "failed to decode map preview "@
    }) + path + ": "@ + err
}

/// The preview of the image at `path` from what decoding it gave.
pub open spec fn preview_outcome(
    path: Seq<char>,
    decoded: Result<(u32, u32, Seq<u8>), (bool, Seq<char>)>,
) -> Result<(usize, usize, Seq<u8>), Seq<char>> {
    match decoded {
        Ok((w, h, px)) => Ok((w as usize, h as usize, px)),
        Err((opening, e)) => Err(preview_error(opening, path, e)),
    }
}

/// The error's view: whether it came while opening, and its text.
pub open spec fn failure_view(e: ThumbnailError) -> (bool, Seq<char>) {
    match e {
        ThumbnailError::Open(t) => (true, t@),
        ThumbnailError::Decode(t) => (false, t@),
    }
}

/// A preview's view: width, height and pixels.
pub open spec fn preview_view(p: DecodedMapThumbnail) -> (usize, usize, Seq<u8>) {
    (p.size[0], p.size[1], p.rgba@)
}

/// The preview of the image at `path` from what decoding it gave (see
/// `preview_outcome`); a read failure comes in as `ThumbnailError::Open`.
pub fn thumbnail_from_decoded(path: &str, decoded: Result<(u32, u32, Vec<u8>), ThumbnailError>) -> (r:
    Result<DecodedMapThumbnail, String>)
    ensures
        match (r, decoded) {
            (Ok(p), Ok((w, h, px))) => preview_view(p) == (w as usize, h as usize, px@),
            (Err(e), Err(f)) => e@ == preview_error(failure_view(f).0, path@, failure_view(f).1),
            _ => false,
        },
{
    match decoded {
        Ok((w, h, px)) => {
            let p = DecodedMapThumbnail { size: [w as usize, h as usize], rgba: px };
            Ok(p)
        },
        Err(ThumbnailError::Open(e)) => {
            let mut m = string_from_str("failed to open map preview ");
            push_str(&mut m, path);
            push_str(&mut m, ": ");
            push_str(&mut m, e.as_str());
            Err(m)
        },
        Err(ThumbnailError::Decode(e)) => {
            let mut m = string_from_str("failed to decode map preview ");
            push_str(&mut m, path);
            push_str(&mut m, ": ");
            push_str(&mut m, e.as_str());
            Err(m)
        },
    }
}

/// The preview of the image at `path` whose bytes were read: decoded
/// within the preview limits and scaled into the preview box.
pub fn decode_map_thumbnail(path: &str, bytes: &[u8]) -> (r: Result<DecodedMapThumbnail, String>)
    ensures
        match r {
            Ok(p) => preview_outcome(
                path@,
                thumbnail_of(
                    bytes@,
                    MAP_THUMBNAIL_MAX_DIMENSION,
                    MAP_THUMBNAIL_MAX_DECODE_BYTES,
                    MAP_THUMBNAIL_WIDTH,
                    MAP_THUMBNAIL_HEIGHT,
                ),
            ) == Ok::<(usize, usize, Seq<u8>), Seq<char>>(preview_view(p)) && p.rgba@.len() == p.size[0]
                * p.size[1] * 4,
            Err(e) => preview_outcome(
                path@,
                thumbnail_of(
                    bytes@,
                    MAP_THUMBNAIL_MAX_DIMENSION,
                    MAP_THUMBNAIL_MAX_DECODE_BYTES,
                    MAP_THUMBNAIL_WIDTH,
                    MAP_THUMBNAIL_HEIGHT,
                ),
            ) == Err::<(usize, usize, Seq<u8>), Seq<char>>(e@),
        },
{
    let decoded = decode_thumbnail_rgba(
        bytes,
        MAP_THUMBNAIL_MAX_DIMENSION,
        MAP_THUMBNAIL_MAX_DECODE_BYTES,
        MAP_THUMBNAIL_WIDTH,
        MAP_THUMBNAIL_HEIGHT,
    );
    thumbnail_from_decoded(path, decoded)
}

} // verus!
