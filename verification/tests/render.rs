use hugo4os::framebuffer::{FrameBuffer as _, FrameBufferInfo, PixelFormat};
use hugo4os::render::{
    convert_color, is_same_format, splash_rects, CPURenderer, FrameBuffer, SplashRect,
};

fn small_renderer() -> CPURenderer {
    let mut r = CPURenderer::new();
    r.init(8, 4, 4, 8, PixelFormat::BGR);
    r
}

#[test]
fn format_comparison() {
    assert!(is_same_format(PixelFormat::RGB, PixelFormat::RGB));
    assert!(is_same_format(PixelFormat::U8, PixelFormat::U8));
    assert!(!is_same_format(PixelFormat::RGB, PixelFormat::BGR));
}

#[test]
fn color_conversion_swaps_red_and_blue() {
    assert_eq!(convert_color(0x11223344, PixelFormat::RGB, PixelFormat::BGR), 0x11443322);
    assert_eq!(convert_color(0x11443322, PixelFormat::BGR, PixelFormat::RGB), 0x11223344);
    assert_eq!(convert_color(0x11223344, PixelFormat::RGB, PixelFormat::RGB), 0x11223344);
    assert_eq!(convert_color(0x11223344, PixelFormat::U8, PixelFormat::BGR), 0x11223344);
    assert_eq!(convert_color(0x11223344, PixelFormat::RGB, PixelFormat::U8), 0x11223344);
}

#[test]
fn init_zeroes_the_back_buffer() {
    let r = small_renderer();
    for y in 0..4 {
        for x in 0..8 {
            assert_eq!(r.get_pixel(x, y), 0);
        }
    }
}

#[test]
fn fill_rect_touches_exactly_the_rectangle() {
    let mut r = small_renderer();
    r.fill_rect(1, 1, 2, 2, 0xFF00FF00);
    for y in 0..4 {
        for x in 0..8 {
            let expected = if (1..3).contains(&x) && (1..3).contains(&y) { 0xFF00FF00 } else { 0 };
            assert_eq!(r.get_pixel(x, y), expected, "pixel ({}, {})", x, y);
        }
    }
}

#[test]
fn blit_texture_copies_rows() {
    let mut r = small_renderer();
    let tex = [1u32, 2, 3, 4];
    r.blit_texture(2, 1, 2, 2, &tex);
    assert_eq!(r.get_pixel(2, 1), 1);
    assert_eq!(r.get_pixel(3, 1), 2);
    assert_eq!(r.get_pixel(2, 2), 3);
    assert_eq!(r.get_pixel(3, 2), 4);
    assert_eq!(r.get_pixel(1, 1), 0);
    assert_eq!(r.get_pixel(4, 2), 0);
}

#[test]
fn overlay_endpoints_pass_through() {
    let r = small_renderer();
    // transparent foreground leaves the background
    assert_eq!(r.overlay_color(0xFF123456, 0x00FFFFFF), 0xFF123456);
    // opaque foreground replaces it
    assert_eq!(r.overlay_color(0xFF123456, 0xFFABCDEF), 0xFFABCDEF);
}

#[test]
fn overlay_blends_half_transparent_red_over_black() {
    let r = small_renderer();
    // alpha 128 red over opaque black: the red channel carries half the
    // foreground's weight, alpha saturates
    assert_eq!(r.overlay_color(0xFF000000, 0x80FF0000), 0xFF800000);
}

#[test]
fn blend_blit_composes_over_the_buffer() {
    let mut r = small_renderer();
    r.fill_rect(0, 0, 8, 4, 0xFF000000);
    let tex = [0x80FF0000u32];
    r.blit_texture_blend(5, 3, 1, 1, &tex);
    assert_eq!(r.get_pixel(5, 3), 0xFF800000);
    assert_eq!(r.get_pixel(4, 3), 0xFF000000);
}

#[test]
fn clear_screen_paints_everything() {
    let mut r = small_renderer();
    r.fill_rect(0, 0, 8, 4, 0xFFFFFFFF);
    r.set_clear_color(0xFF171717);
    r.clear_screen();
    for y in 0..4 {
        for x in 0..8 {
            assert_eq!(r.get_pixel(x, y), 0xFF171717);
        }
    }
}

#[test]
fn ensure_format_converts_every_texel() {
    let mut data = vec![0x11223344u32, 0xFFABCDEF];
    hugo4os::render::ensure_format(&mut data, PixelFormat::RGB, PixelFormat::BGR);
    assert_eq!(data, vec![0x11443322, 0xFFEFCDAB]);
    hugo4os::render::ensure_format(&mut data, PixelFormat::BGR, PixelFormat::BGR);
    assert_eq!(data, vec![0x11443322, 0xFFEFCDAB]);
}

#[test]
fn parsed_image_blits_onto_the_buffer() {
    let mut bytes = vec![
        0x00, 0x00, 0x02, 0x00, 0x00, 0x00, 0x00, 0x00, 0x00, 0x00, 0x00, 0x00, 0x02, 0x00,
        0x01, 0x00, 0x20, 0x00,
    ];
    bytes.extend_from_slice(&[0x01, 0x00, 0x00, 0x00, 0x02, 0x00, 0x00, 0x00]);
    let image = hugo4os::tga::TGAImageFile::from_bytes(&bytes).expect("image parses");
    let mut r = small_renderer();
    r.blit_image(3, 1, &image);
    assert_eq!(r.get_pixel(3, 1), 1);
    assert_eq!(r.get_pixel(3, 2), 2);
    assert_eq!(r.get_pixel(3, 0), 0);
    assert_eq!(r.get_pixel(4, 1), 0);
}

#[test]
fn splash_geometry_centers_the_logo() {
    let rects = splash_rects(640, 480);
    assert_eq!(
        rects,
        vec![
            SplashRect { x: 220, y: 140, width: 200, height: 20, color: 0xffda0037 },
            SplashRect { x: 220, y: 320, width: 200, height: 20, color: 0xffda0037 },
            SplashRect { x: 270, y: 230, width: 100, height: 20, color: 0xffd3d3d3 },
            SplashRect { x: 270, y: 180, width: 20, height: 120, color: 0xffd3d3d3 },
            SplashRect { x: 350, y: 180, width: 20, height: 120, color: 0xffd3d3d3 },
        ]
    );
}

#[test]
fn boot_framebuffer_record_keeps_its_values() {
    let info = FrameBufferInfo {
        width: 640,
        height: 480,
        bytes_per_pixel: 4,
        stride: 640,
        pixel_format: PixelFormat::BGR,
    };
    let fb = FrameBuffer::new(info, 0xA000_0000);
    assert_eq!(fb.info(), info);
    assert_eq!(fb.get_start_address(), 0xA000_0000);
}
