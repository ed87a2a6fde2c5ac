use std::io::Cursor;

use chip_viewer_native::previews::{
    decode_map_thumbnail, thumbnail_from_decoded, ThumbnailError, MAP_THUMBNAIL_MAX_DIMENSION,
};

fn png_bytes(width: u32, height: u32) -> Vec<u8> {
    let image = image::RgbaImage::new(width, height);
    let mut out = Cursor::new(Vec::new());
    image.write_to(&mut out, image::ImageFormat::Png).unwrap();
    out.into_inner()
}

#[test]
fn map_thumbnail_decoder_downsizes_and_enforces_dimension_limit() {
    let preview = decode_map_thumbnail("preview.png", &png_bytes(256, 192)).unwrap();
    assert_eq!(preview.size, [128, 96]);
    assert_eq!(preview.rgba.len(), 128 * 96 * 4);

    let oversized = png_bytes(MAP_THUMBNAIL_MAX_DIMENSION + 1, 1);
    assert!(decode_map_thumbnail("oversized.png", &oversized).is_err());
}

#[test]
fn undecodable_previews_report_the_path() {
    let error = decode_map_thumbnail("maps/a.png", b"not an image").unwrap_err();
    assert!(error.starts_with("failed to decode map preview maps/a.png: "));
}

#[test]
fn preview_outcomes_become_previews_or_messages() {
    let preview = thumbnail_from_decoded("p.png", Ok((2, 1, vec![0; 8]))).unwrap();
    assert_eq!(preview.size, [2, 1]);
    assert_eq!(preview.rgba, vec![0; 8]);
    assert_eq!(
        thumbnail_from_decoded("p.png", Err(ThumbnailError::Open("gone".to_string())))
            .unwrap_err(),
        "failed to open map preview p.png: gone"
    );
    assert_eq!(
        thumbnail_from_decoded("p.png", Err(ThumbnailError::Decode("bad".to_string())))
            .unwrap_err(),
        "failed to decode map preview p.png: bad"
    );
}
