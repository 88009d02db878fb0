use waypaper_engine::codec::SourceImage;
use waypaper_engine::pipeline::{render_buffer, to_bgra_opaque, PixelFormat, PoolPlan};

fn solid_source(width: u32, height: u32, rgba: [u8; 4]) -> SourceImage {
    let mut pixels = Vec::with_capacity((4 * width * height) as usize);
    for _ in 0..(width * height) {
        pixels.extend_from_slice(&rgba);
    }
    SourceImage { pixels, width, height }
}

#[test]
fn bgra_reorder_exact() {
    let rgba = vec![1u8, 2, 3, 4, 5, 6, 7, 8];
    let out = to_bgra_opaque(&rgba);
    assert_eq!(out, vec![3u8, 2, 1, 255, 7, 6, 5, 255]);
}

#[test]
fn bgra_empty() {
    let rgba: Vec<u8> = Vec::new();
    let out = to_bgra_opaque(&rgba);
    assert!(out.is_empty());
}

#[test]
fn buffer_size_invariant() {
    let src = solid_source(2, 2, [9, 9, 9, 9]);
    let buf = render_buffer(&src, 3, 5);
    assert_eq!(buf.width, 3);
    assert_eq!(buf.height, 5);
    assert_eq!(buf.stride, 12);
    assert_eq!(buf.bytes.len(), 60);
    assert_eq!(buf.bytes.len(), (4 * buf.width * buf.height) as usize);
    assert_eq!(buf.format, PixelFormat::Argb8888);
}

#[test]
fn pool_plan_matches_buffer() {
    let src = solid_source(2, 2, [9, 9, 9, 9]);
    let buf = render_buffer(&src, 3, 5);
    assert_eq!(
        buf.pool_plan(),
        PoolPlan {
            pool_size: 60,
            offset: 0,
            width: 3,
            height: 5,
            stride: 12,
            format: PixelFormat::Argb8888,
        }
    );
}

#[test]
fn render_idempotent() {
    let src = solid_source(7, 5, [40, 80, 120, 200]);
    let first = render_buffer(&src, 16, 9);
    let second = render_buffer(&src, 16, 9);
    assert_eq!(first.bytes, second.bytes);
    assert_eq!(first.width, second.width);
    assert_eq!(first.height, second.height);
}

#[test]
fn render_alpha_forced_opaque() {
    let src = solid_source(4, 4, [10, 20, 30, 7]);
    let buf = render_buffer(&src, 4, 4);
    for px in buf.bytes.chunks_exact(4) {
        assert_eq!(px[3], 255);
    }
}

#[test]
fn render_reorders_to_bgra() {
    // A solid-color source stays solid under any resampling filter, so the
    // byte order of the output is exactly checkable.
    let src = solid_source(8, 8, [10, 20, 30, 7]);
    let buf = render_buffer(&src, 8, 8);
    for px in buf.bytes.chunks_exact(4) {
        assert_eq!(px, &[30, 20, 10, 255]);
    }
}

#[test]
fn scenario_single_full_hd_output() {
    let src = solid_source(1920, 1080, [200, 100, 50, 3]);
    let buf = render_buffer(&src, 1920, 1080);
    assert_eq!(buf.width, 1920);
    assert_eq!(buf.height, 1080);
    assert_eq!(buf.stride, 7680);
    assert_eq!(buf.bytes.len(), 8_294_400);
    for px in buf.bytes.chunks_exact(4) {
        assert_eq!(px[3], 255);
    }
}

#[test]
fn smallest_clamped_render() {
    let src = solid_source(1920, 1080, [1, 2, 3, 4]);
    let buf = render_buffer(&src, 1, 1);
    assert_eq!(buf.bytes.len(), 4);
    assert_eq!(buf.stride, 4);
    assert_eq!(buf.bytes, vec![3, 2, 1, 255]);
}
