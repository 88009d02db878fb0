//! The buffer pipeline: resample the source picture to the negotiated size,
//! reorder each pixel to the compositor's 32-bit little-endian layout (blue,
//! green, red, alpha) with alpha forced fully opaque, and describe the result
//! as an attach-ready pixel buffer.

use vstd::prelude::*;

use crate::codec::SourceImage;
use crate::codec::resample_pixels;

verus! {

/// The compositor pixel layout a buffer is described with.
#[derive(Clone, Copy, Debug, PartialEq, Eq)]
pub enum PixelFormat {
    /// 32 bits per pixel, little-endian, byte order blue, green, red, alpha.
    Argb8888,
}

/// An attach-ready pixel buffer: the bytes the shared-memory region holds,
/// with the layout the compositor is told about.
pub struct PixelBuffer {
    pub bytes: Vec<u8>,
    pub width: u32,
    pub height: u32,
    pub stride: u32,
    pub format: PixelFormat,
}

/// How the shared-memory objects for one rendered buffer are described on
/// the wire: a one-shot pool over exactly the buffer's bytes, and exactly
/// one buffer carved from it at offset zero with the buffer's dimensions,
/// stride and format. The pool is destroyed right after the buffer is
/// created; buffers already produced survive pool destruction.
#[derive(Clone, Copy, Debug, PartialEq, Eq)]
pub struct PoolPlan {
    pub pool_size: usize,
    pub offset: u32,
    pub width: u32,
    pub height: u32,
    pub stride: u32,
    pub format: PixelFormat,
}

impl PixelBuffer {
    /// Rows are tightly packed: the stride is four bytes per pixel with no row
    /// padding, and the byte length is exactly stride times height.
    pub open spec fn wf(self) -> bool {
        &&& self.stride == 4 * self.width
        &&& self.bytes@.len() == self.stride * self.height
        &&& self.format == PixelFormat::Argb8888
    }

    /// The pool and buffer description owed for this buffer: pool length
    /// exactly the byte length, one buffer at offset zero, described with
    /// this buffer's width, height, stride and format.
    pub fn pool_plan(&self) -> (r: PoolPlan)
        ensures
            r.pool_size == self.bytes@.len(),
            r.offset == 0,
            r.width == self.width,
            r.height == self.height,
            r.stride == self.stride,
            r.format == self.format,
    {
        PoolPlan {
            pool_size: self.bytes.len(),
            offset: 0,
            width: self.width,
            height: self.height,
            stride: self.stride,
            format: self.format,
        }
    }
}

/// Reorders tightly packed RGBA bytes to the blue, green, red, alpha layout,
/// with every alpha byte forced to fully opaque.
pub open spec fn bgra_opaque(rgba: Seq<u8>) -> Seq<u8> {
    Seq::new(
        rgba.len(),
        |i: int|
            if i % 4 == 0 {
                rgba[i + 2]
            } else if i % 4 == 1 {
                rgba[i]
            } else if i % 4 == 2 {
                rgba[i - 2]
            } else {
                255u8
            },
    )
}

/// The bytes a render of the given source at the given size produces.
pub open spec fn render_bytes(
    src: Seq<u8>,
    src_width: u32,
    src_height: u32,
    width: u32,
    height: u32,
) -> Seq<u8> {
    bgra_opaque(resample_pixels(src, src_width, src_height, width, height))
}

/// Converts tightly packed RGBA pixels to the blue, green, red, alpha byte
/// order, forcing alpha fully opaque regardless of the source alpha.
pub fn to_bgra_opaque(rgba: &Vec<u8>) -> (r: Vec<u8>)
    requires
        rgba@.len() % 4 == 0,
    ensures
        r@ == bgra_opaque(rgba@),
{
    let n = rgba.len();
    let mut out: Vec<u8> = Vec::with_capacity(n);
    let mut i: usize = 0;
    while i < n
        invariant
            i <= n,
            n == rgba@.len(),
            i % 4 == 0,
            n % 4 == 0,
            out@ == bgra_opaque(rgba@).take(i as int),
        decreases n - i,
    {
        assert(i + 4 <= n);
        let b = rgba[i + 2];
        let g = rgba[i + 1];
        let red = rgba[i];
        out.push(b);
        out.push(g);
        out.push(red);
        out.push(255);
        proof {
            assert((i + 1) % 4 == 1 && (i + 2) % 4 == 2 && (i + 3) % 4 == 3);
            assert(out@ =~= bgra_opaque(rgba@).take(i + 4));
        }
        i = i + 4;
    }
    proof {
        assert(out@ =~= bgra_opaque(rgba@));
    }
    out
}

/// Rendering is a function of the source and the size alone: two renders of
/// the same source at the same configured size yield byte-identical buffers.
pub proof fn lemma_render_deterministic(
    src: Seq<u8>,
    src_width: u32,
    src_height: u32,
    width: u32,
    height: u32,
    b1: Seq<u8>,
    b2: Seq<u8>,
)
    requires
        b1 == render_bytes(src, src_width, src_height, width, height),
        b2 == render_bytes(src, src_width, src_height, width, height),
    ensures
        b1 == b2,
{
}

/// Every well-formed buffer satisfies the size invariant: its byte length is
/// four times width times height, and its stride is four times its width.
pub proof fn lemma_buffer_size(b: PixelBuffer)
    requires
        b.wf(),
    ensures
        b.bytes@.len() == 4 * b.width * b.height,
        b.stride == 4 * b.width,
{
    assert(b.bytes@.len() == (4 * b.width) * b.height);
    assert((4 * (b.width as int)) * (b.height as int) == 4 * (b.width as int) * (
    b.height as int)) by (nonlinear_arith);
}

/// Produces the attach-ready buffer for one display surface at its negotiated
/// size: resample with fill semantics, reorder to the compositor layout with
/// opaque alpha, and record width, height and stride. The size bound is the
/// wire limit on a shared-memory pool's length.
pub fn render_buffer(source: &SourceImage, width: u32, height: u32) -> (r: PixelBuffer)
    requires
        source.wf(),
        source.nonzero(),
        source.fits(width, height),
        4 * (width as int) * (height as int) <= 0x7FFF_FFFF,
    ensures
        r.wf(),
        r.width == width,
        r.height == height,
        r.stride == 4 * width,
        r.bytes@.len() == 4 * (width as int) * (height as int),
        r.bytes@ == render_bytes(source.pixels@, source.width, source.height, width, height),
        forall|k: int|
            0 <= k < (width as int) * (height as int) ==> #[trigger] r.bytes@[4 * k + 3] == 255,
{
    let resampled = source.resample(width, height);
    proof {
        let w = width as int;
        let h = height as int;
        let t = w * h;
        assert(4 * w * h == 4 * t && w <= t) by (nonlinear_arith)
            requires
                w >= 1,
                h >= 1,
                t == w * h,
        ;
        assert((4 * t) % 4 == 0);
        assert(resampled.pixels@.len() % 4 == 0);
        assert(4 * w <= 4 * t);
    }
    let bytes = to_bgra_opaque(&resampled.pixels);
    let stride = 4 * width;
    let r = PixelBuffer { bytes, width, height, stride, format: PixelFormat::Argb8888 };
    proof {
        assert forall|k: int|
            0 <= k < (width as int) * (height as int) implies #[trigger] r.bytes@[4 * k + 3]
            == 255 by {
            let w = width as int;
            let h = height as int;
            let t = w * h;
            assert(4 * w * h == 4 * t) by (nonlinear_arith)
                requires
                    t == w * h,
            ;
            assert(4 * k + 3 < 4 * t);
            assert((4 * k + 3) % 4 == 3);
        }
    }
    r
}

} // verus!
