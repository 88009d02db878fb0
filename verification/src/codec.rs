//! The image codec boundary: a decoded source picture held as plain RGBA
//! bytes, decoding from encoded bytes, and resampling to an exact target size
//! with fill semantics (cover the whole target, cropping the overflow).

use vstd::prelude::*;

verus! {

/// A decoded picture: tightly packed RGBA bytes, four per pixel, in row-major
/// order at the stated dimensions.
pub struct SourceImage {
    pub pixels: Vec<u8>,
    pub width: u32,
    pub height: u32,
}

/// Why a source picture was rejected.
#[derive(Clone, Copy, Debug, PartialEq, Eq)]
pub enum SourceError {
    /// The bytes could not be decoded as an image.
    Undecodable,
    /// The decoded picture has zero width or zero height, so there is nothing
    /// to show.
    ZeroArea,
}

impl SourceImage {
    /// The byte length matches the dimensions: four bytes per pixel.
    pub open spec fn wf(self) -> bool {
        self.pixels@.len() == 4 * self.width * self.height
    }

    /// Both dimensions are at least one pixel.
    pub open spec fn nonzero(self) -> bool {
        self.width >= 1 && self.height >= 1
    }

    /// The scaled-to-cover intermediate of a fill resample stays within the
    /// dimension type, with a wide safety margin; outside these bounds the
    /// resampler's integer dimensions are not exact.
    pub open spec fn fits(self, width: u32, height: u32) -> bool {
        &&& 1 <= width && 1 <= height
        &&& (self.width as int) * (height as int) <= 0xFFFF_0000 * (self.height as int)
        &&& (self.height as int) * (width as int) <= 0xFFFF_0000 * (self.width as int)
    }
}

/// What the resampler returns: a function of the source pixels and the
/// dimensions alone.
pub uninterp spec fn resample_pixels(
    src: Seq<u8>,
    src_width: u32,
    src_height: u32,
    width: u32,
    height: u32,
) -> Seq<u8>;

/// What the decoder returns for given bytes: whether they decode at all,
/// and to which picture; a function of the bytes alone.
pub uninterp spec fn decode_of(bytes: Seq<u8>) -> Option<SourceImage>;

/// Relies on image::load_from_memory and DynamicImage::to_rgba8: whether and
/// how the bytes decode depends on the bytes alone, and a decoded image
/// converted to RGBA holds exactly four bytes per pixel of its dimensions.
#[verifier::external_body]
fn decode_rgba(bytes: &[u8]) -> (r: Option<SourceImage>)
    ensures
        r == decode_of(bytes@),
        r matches Some(s) ==> s.wf(),
{
    match image::load_from_memory(bytes) {
        Ok(img) => {
            let rgba = img.to_rgba8();
            let (width, height) = rgba.dimensions();
            Some(SourceImage { pixels: rgba.into_raw(), width, height })
        },
        Err(_) => None,
    }
}

/// Relies on DynamicImage::resize_to_fill with the Catmull-Rom filter: the
/// source is scaled to the smallest size that covers the target, then cropped
/// to exactly the target dimensions; the RGBA result is four bytes per target
/// pixel and depends on the source pixels and the dimensions alone.
#[verifier::external_body]
fn resample_rgba(src: &SourceImage, width: u32, height: u32) -> (r: Vec<u8>)
    requires
        src.wf(),
        src.nonzero(),
        src.fits(width, height),
    ensures
        r@.len() == 4 * width * height,
        r@ == resample_pixels(src.pixels@, src.width, src.height, width, height),
{
    let buf = image::RgbaImage::from_raw(src.width, src.height, src.pixels.clone())
        .expect("pixel length matches dimensions");
    image::DynamicImage::ImageRgba8(buf)
        .resize_to_fill(width, height, image::imageops::FilterType::CatmullRom)
        .into_rgba8()
        .into_raw()
}

/// Accepts a decoded picture only if it has pixels to show: a zero-area
/// picture is a configuration error.
pub fn accept_source(s: SourceImage) -> (r: Result<SourceImage, SourceError>)
    requires
        s.wf(),
    ensures
        s.width >= 1 && s.height >= 1 ==> (r matches Ok(t) && t == s),
        !(s.width >= 1 && s.height >= 1) ==> r == Err::<SourceImage, SourceError>(
            SourceError::ZeroArea,
        ),
        r matches Ok(t) ==> t.wf() && t.nonzero(),
{
    if s.width >= 1 && s.height >= 1 {
        Ok(s)
    } else {
        Err(SourceError::ZeroArea)
    }
}

/// Decodes encoded image bytes into a source picture: exactly the decoded
/// picture when it has area, and the matching error otherwise.
pub fn load_source(bytes: &[u8]) -> (r: Result<SourceImage, SourceError>)
    ensures
        r matches Ok(s) ==> s.wf() && s.nonzero(),
        r is Ok <==> (decode_of(bytes@) matches Some(s) && s.width >= 1 && s.height >= 1),
        decode_of(bytes@) matches Some(s) ==> (if s.nonzero() {
            r == Ok::<SourceImage, SourceError>(s)
        } else {
            r == Err::<SourceImage, SourceError>(SourceError::ZeroArea)
        }),
        decode_of(bytes@) is None ==> r == Err::<SourceImage, SourceError>(
            SourceError::Undecodable,
        ),
{
    match decode_rgba(bytes) {
        Some(s) => accept_source(s),
        None => Err(SourceError::Undecodable),
    }
}

impl SourceImage {
    /// Resamples this picture to exactly the requested dimensions with fill
    /// semantics: the result covers the whole target, never letterboxes.
    pub fn resample(&self, width: u32, height: u32) -> (r: SourceImage)
        requires
            self.wf(),
            self.nonzero(),
            self.fits(width, height),
        ensures
            r.wf(),
            r.nonzero(),
            r.width == width,
            r.height == height,
            r.pixels@ == resample_pixels(self.pixels@, self.width, self.height, width, height),
    {
        let pixels = resample_rgba(self, width, height);
        SourceImage { pixels, width, height }
    }
}

} // verus!
