use i_slint_core::software_renderer as core_renderer;
use i_slint_core::software_renderer::TargetPixel;
use slint_logic::platform::{PhysicalSize, PlatformError};
use slint_logic::software::color::{DumbBufferPixelXrgb888, PremultipliedRgbaColor};
use slint_logic::software::fourcc::{DrmFourcc, RGB565, XRGB8888};
use slint_logic::software::frame::{
    supported_formats, FrameError, FrameSetup, FrameStep, RenderingRotation, RepaintBufferType,
    SoftwareRendererAdapter,
};
use slint_logic::software::pixels::{cast_pixels, PixelLayout, PixelsMut, PodCastError};

fn color(red: u8, green: u8, blue: u8, alpha: u8) -> PremultipliedRgbaColor {
    PremultipliedRgbaColor { red, green, blue, alpha }
}

#[test]
fn pixels_hold_their_channels() {
    let c = PremultipliedRgbaColor::from(DumbBufferPixelXrgb888(0x8012_3456));
    assert_eq!(c, color(0x12, 0x34, 0x56, 0x80));
    assert_eq!(DumbBufferPixelXrgb888::from(c), DumbBufferPixelXrgb888(0x8012_3456));
    assert_eq!(
        DumbBufferPixelXrgb888::from(color(1, 2, 3, 255)),
        DumbBufferPixelXrgb888(0xff01_0203)
    );
}

#[test]
fn rgb_pixels_are_opaque() {
    assert_eq!(DumbBufferPixelXrgb888::from_rgb(0x12, 0x34, 0x56).0, 0xff12_3456);
    assert_eq!(DumbBufferPixelXrgb888::from_rgb(0, 0, 0).0, 0xff00_0000);
    assert_eq!(DumbBufferPixelXrgb888::background().0, 0);
}

#[test]
fn blending_an_exact_value() {
    let mut pixel = DumbBufferPixelXrgb888(0xff64_c832);
    pixel.blend(color(10, 20, 30, 128));
    // 100 * 127 / 255 = 49, 200 * 127 / 255 = 99, 50 * 127 / 255 = 24
    assert_eq!(PremultipliedRgbaColor::from(pixel), color(59, 119, 54, 255));
    let mut pixel = DumbBufferPixelXrgb888(0x6432_3232);
    pixel.blend(color(10, 20, 30, 128));
    // 50 * 127 / 255 = 24, 100 + 128 - 100 * 128 / 255 = 178
    assert_eq!(PremultipliedRgbaColor::from(pixel), color(34, 44, 54, 178));
}

#[test]
fn blending_agrees_with_the_renderer() {
    for below in [0u32, 0xff64_c832, 0x8040_2010, 0xffff_ffff, 0x0102_0304] {
        for alpha in [0u8, 1, 127, 128, 254, 255] {
            let c = color(alpha / 2, alpha / 3, alpha, alpha);
            let mut pixel = DumbBufferPixelXrgb888(below);
            assert!(pixel.accepts(c));
            pixel.blend(c);
            let b = PremultipliedRgbaColor::from(DumbBufferPixelXrgb888(below));
            let mut expected = core_renderer::PremultipliedRgbaColor {
                red: b.red,
                green: b.green,
                blue: b.blue,
                alpha: b.alpha,
            };
            expected.blend(core_renderer::PremultipliedRgbaColor {
                red: c.red,
                green: c.green,
                blue: c.blue,
                alpha: c.alpha,
            });
            let got = PremultipliedRgbaColor::from(pixel);
            assert_eq!(
                (got.red, got.green, got.blue, got.alpha),
                (expected.red, expected.green, expected.blue, expected.alpha)
            );
        }
    }
}

#[test]
fn blending_transparent_and_opaque() {
    let mut pixel = DumbBufferPixelXrgb888(0x8040_2010);
    pixel.blend(color(0, 0, 0, 0));
    assert_eq!(pixel.0, 0x8040_2010);
    pixel.blend(color(1, 2, 3, 255));
    assert_eq!(pixel.0, 0xff01_0203);
}

#[test]
fn colors_that_exceed_a_channel_are_not_accepted() {
    let white = DumbBufferPixelXrgb888(0xffff_ffff);
    assert!(!white.accepts(color(1, 0, 0, 0)));
    assert!(!white.accepts(color(0, 1, 0, 0)));
    assert!(!white.accepts(color(0, 0, 1, 0)));
    assert!(white.accepts(color(1, 1, 1, 1)));
}

#[test]
fn formats_have_their_letters() {
    assert_eq!(XRGB8888, drm::buffer::DrmFourcc::Xrgb8888 as u32);
    assert_eq!(RGB565, drm::buffer::DrmFourcc::Rgb565 as u32);
    assert_eq!(DrmFourcc::new(XRGB8888).unwrap().name(), "XR24");
    assert_eq!(DrmFourcc::new(RGB565).unwrap().name(), "RG16");
    assert_eq!(DrmFourcc::new(drm::buffer::DrmFourcc::R8 as u32).unwrap().name(), "R8  ");
    assert_eq!(DrmFourcc::new(XRGB8888).unwrap().code(), XRGB8888);
    assert!(DrmFourcc::new(0).is_none());
    assert!(DrmFourcc::new(0x3163_7661).is_none());
}

#[test]
fn the_preferred_format_comes_first() {
    assert_eq!(supported_formats(), [XRGB8888, RGB565]);
}

/// Bytes at an address that four-byte pixels may have.
fn aligned(words: &mut [u32]) -> &mut [u8] {
    bytemuck::cast_slice_mut(words)
}

#[test]
fn bytes_are_seen_as_pixels() {
    let mut memory = [0u32; 2];
    let bytes = aligned(&mut memory);
    bytes[0..4].copy_from_slice(&0x1122_3344u32.to_ne_bytes());
    match cast_pixels(bytes, PixelLayout::Xrgb8888) {
        Ok(PixelsMut::Xrgb8888(px)) => {
            assert_eq!(px.len(), 2);
            assert_eq!(px[0], 0x1122_3344);
            px[1] = 7;
        }
        other => panic!("{:?}", other),
    }
    assert_eq!(memory, [0x1122_3344, 7]);
    let bytes = aligned(&mut memory);
    bytes[2..4].copy_from_slice(&0xabcdu16.to_ne_bytes());
    match cast_pixels(bytes, PixelLayout::Rgb565) {
        Ok(PixelsMut::Rgb565(px)) => {
            assert_eq!(px.len(), 4);
            assert_eq!(px[1], 0xabcd);
            px[0] = 1;
        }
        other => panic!("{:?}", other),
    }
    assert_eq!(aligned(&mut memory)[0..2], 1u16.to_ne_bytes());
}

#[test]
fn a_rest_is_no_pixel() {
    let mut memory = [0u32; 2];
    let bytes = &mut aligned(&mut memory)[..7];
    assert!(matches!(
        cast_pixels(bytes, PixelLayout::Xrgb8888),
        Err(PodCastError::OutputSliceWouldHaveSlop)
    ));
    assert!(matches!(
        cast_pixels(bytes, PixelLayout::Rgb565),
        Err(PodCastError::OutputSliceWouldHaveSlop)
    ));
}

#[test]
fn pixels_need_their_address() {
    let mut memory = [0u32; 2];
    let bytes = &mut aligned(&mut memory)[1..5];
    assert!(matches!(
        cast_pixels(bytes, PixelLayout::Xrgb8888),
        Err(PodCastError::TargetAlignmentGreaterAndInputNotAligned)
    ));
}

#[test]
fn frames_are_set_up_by_age_and_rotation() {
    let adapter = SoftwareRendererAdapter::new(640, 480);
    assert_eq!(adapter.size(), PhysicalSize { width: 640, height: 480 });
    let format = DrmFourcc::new(XRGB8888).unwrap();
    let mut memory = [0u32; 4];
    for (age, expected) in [
        (0u8, RepaintBufferType::NewBuffer),
        (1, RepaintBufferType::ReusedBuffer),
        (2, RepaintBufferType::SwappedBuffers),
        (3, RepaintBufferType::NewBuffer),
        (255, RepaintBufferType::NewBuffer),
    ] {
        let (setup, target) =
            adapter.frame(RenderingRotation::Rotate90, aligned(&mut memory), age, &format);
        assert_eq!(
            setup,
            FrameSetup {
                repaint_buffer_type: expected,
                rotation: RenderingRotation::Rotate90,
                pixel_stride: 640,
            }
        );
        assert!(matches!(target, Ok(PixelsMut::Xrgb8888(_))));
    }
    let format = DrmFourcc::new(RGB565).unwrap();
    let (_, target) =
        adapter.frame(RenderingRotation::NoRotation, aligned(&mut memory), 0, &format);
    assert!(matches!(target, Ok(PixelsMut::Rgb565(_))));
}

#[test]
fn other_formats_are_refused() {
    let adapter = SoftwareRendererAdapter::new(1, 1);
    let format = DrmFourcc::new(drm::buffer::DrmFourcc::Argb8888 as u32).unwrap();
    let mut memory = [0u32; 1];
    let (setup, target) =
        adapter.frame(RenderingRotation::Rotate180, aligned(&mut memory), 1, &format);
    assert_eq!(setup.repaint_buffer_type, RepaintBufferType::ReusedBuffer);
    match target {
        Err(FrameError::Unsupported(PlatformError::Other(text))) => assert_eq!(
            text,
            "Unsupported frame buffer format AR24 used with software renderer"
        ),
        other => panic!("{:?}", other),
    }
}

#[test]
fn a_buffer_that_is_no_pixels_is_refused() {
    let adapter = SoftwareRendererAdapter::new(1, 1);
    let format = DrmFourcc::new(XRGB8888).unwrap();
    let mut memory = [0u32; 1];
    let (_, target) = adapter.frame(
        RenderingRotation::Rotate270,
        &mut aligned(&mut memory)[..3],
        1,
        &format,
    );
    assert!(matches!(
        target,
        Err(FrameError::Cast(PodCastError::OutputSliceWouldHaveSlop))
    ));
}

#[test]
fn a_frame_is_mapped_then_shown() {
    let adapter = SoftwareRendererAdapter::new(1, 1);
    assert!(matches!(adapter.render_and_present(), FrameStep::MapBackBuffer));
    assert!(matches!(adapter.mapped(Ok(())), FrameStep::Present));
    assert!(matches!(adapter.presented(Ok(())), FrameStep::Done(Ok(()))));
    assert!(matches!(
        adapter.mapped(Err(PlatformError::NoPlatform)),
        FrameStep::Done(Err(PlatformError::NoPlatform))
    ));
    assert!(matches!(
        adapter.presented(Err(PlatformError::OtherError(3))),
        FrameStep::Done(Err(PlatformError::OtherError(3)))
    ));
}
