use std::io::Cursor;

use waypaper_engine::codec::{accept_source, load_source, SourceError, SourceImage};

fn png_bytes(width: u32, height: u32) -> Vec<u8> {
    let img = image::RgbaImage::from_pixel(width, height, image::Rgba([120, 60, 30, 255]));
    let mut out = Cursor::new(Vec::new());
    image::DynamicImage::ImageRgba8(img)
        .write_to(&mut out, image::ImageFormat::Png)
        .expect("encoding a PNG in memory cannot fail");
    out.into_inner()
}

#[test]
fn load_source_rejects_garbage() {
    let r = load_source(&[0, 1, 2, 3, 4, 5, 6, 7]);
    assert_eq!(r.err(), Some(SourceError::Undecodable));
}

#[test]
fn load_source_rejects_empty() {
    let r = load_source(&[]);
    assert_eq!(r.err(), Some(SourceError::Undecodable));
}

#[test]
fn load_source_decodes_png() {
    let bytes = png_bytes(5, 3);
    let img = load_source(&bytes).expect("a valid PNG decodes");
    assert_eq!(img.width, 5);
    assert_eq!(img.height, 3);
    assert_eq!(img.pixels.len(), 4 * 5 * 3);
}

#[test]
fn decode_then_resample_is_exact() {
    // Decoding and then resampling yields exactly the requested dimensions,
    // whatever the source resolution.
    let bytes = png_bytes(5, 3);
    let img = load_source(&bytes).expect("a valid PNG decodes");
    let wide = img.resample(2, 7);
    assert_eq!(wide.width, 2);
    assert_eq!(wide.height, 7);
    assert_eq!(wide.pixels.len(), 4 * 2 * 7);
    let tiny = img.resample(1, 1);
    assert_eq!(tiny.width, 1);
    assert_eq!(tiny.height, 1);
    assert_eq!(tiny.pixels.len(), 4);
}

#[test]
fn accept_source_rejects_zero_area() {
    let s = SourceImage { pixels: Vec::new(), width: 0, height: 5 };
    assert_eq!(accept_source(s).err(), Some(SourceError::ZeroArea));
    let s = SourceImage { pixels: Vec::new(), width: 7, height: 0 };
    assert_eq!(accept_source(s).err(), Some(SourceError::ZeroArea));
}

#[test]
fn accept_source_keeps_real_picture() {
    let s = SourceImage { pixels: vec![1, 2, 3, 4], width: 1, height: 1 };
    let kept = accept_source(s).expect("a one-pixel picture is accepted");
    assert_eq!(kept.pixels, vec![1, 2, 3, 4]);
}

#[test]
fn resample_fill_covers_target() {
    // Fill semantics: a solid source covers the whole target with its color,
    // and the output is exactly the target size with no letterboxing.
    let img = SourceImage {
        pixels: vec![7, 8, 9, 255].repeat(6),
        width: 3,
        height: 2,
    };
    let out = img.resample(4, 4);
    assert_eq!(out.width, 4);
    assert_eq!(out.height, 4);
    for px in out.pixels.chunks_exact(4) {
        assert_eq!(px, &[7, 8, 9, 255]);
    }
}
