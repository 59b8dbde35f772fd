use base64::Engine;
use gif_ascii::lut::build_lut;
use gif_ascii::export::format_export;
use gif_ascii::AppState;
use gif_ascii::AsciiError;
use image::codecs::gif::GifEncoder;
use image::{Delay, Frame, Rgba, RgbaImage};

fn encode_gif(frames: Vec<RgbaImage>) -> Vec<u8> {
    let mut buf: Vec<u8> = Vec::new();
    {
        let mut enc = GifEncoder::new(&mut buf);
        for img in frames {
            let frame = Frame::from_parts(img, 0, 0, Delay::from_numer_denom_ms(100, 1));
            enc.encode_frame(frame).unwrap();
        }
    }
    buf
}

fn uniform_image(w: u32, h: u32, px: [u8; 4]) -> RgbaImage {
    let mut img = RgbaImage::new(w, h);
    for y in 0..h {
        for x in 0..w {
            img.put_pixel(x, y, Rgba(px));
        }
    }
    img
}

fn loaded_mid_gray_two_frames() -> AppState {
    let img = uniform_image(10, 10, [128, 128, 128, 255]);
    let bytes = encode_gif(vec![img.clone(), img]);
    let mut state = AppState::default();
    let n = state.load_gif(&bytes).unwrap();
    assert_eq!(n, 2);
    state
}

#[test]
fn lut_is_deterministic() {
    let a = build_lut(5, 1500);
    let b = build_lut(5, 1500);
    assert_eq!(a, b);
    assert_eq!(a.len(), 256);
}

#[test]
fn lut_mid_gray_maps_to_expected_glyph() {
    // adjusted value 128 maps to palette index 128 * 70 / 255 = 35: 'n'
    let lut = build_lut(0, 1000);
    assert_eq!(lut[128], b'n');
    // maximum luminance maps to the last palette entry, the space
    assert_eq!(lut[255], b' ');
}

#[test]
fn contrast_tolerance_band_bypasses_adjustment() {
    // inside the band the table equals the unit-contrast table
    assert_eq!(build_lut(0, 1000), build_lut(0, 1005));
    // outside the band the scaling must show: 200 scales to 201 at 1.02
    let flat = build_lut(0, 1000);
    let steep = build_lut(0, 1020);
    assert_ne!(flat, steep);
    assert_eq!(flat[200], b'+');
    assert_eq!(steep[200], b'~');
}

#[test]
fn two_frame_mid_gray_scenario() {
    // a 2-frame 10x10 fully-opaque mid-gray image at width 20,
    // brightness 0, contrast 1.0, all-frames mode
    let state = loaded_mid_gray_two_frames();
    let (rows, buf) = state.convert_gif_to_ascii(20, 0, 1000, None).unwrap();
    assert_eq!(rows, 10);
    assert_eq!(buf.len(), 2 * 10 * 21);
    let frame_size = 10 * 21;
    let (first, second) = buf.split_at(frame_size);
    assert_eq!(first, second);
    for row in first.chunks(21) {
        assert_eq!(&row[..20], vec![b'n'; 20].as_slice());
        assert_eq!(row[20], b'\n');
    }
}

#[test]
fn single_frame_mode_renders_one_frame() {
    let state = loaded_mid_gray_two_frames();
    let (rows, buf) = state.convert_gif_to_ascii(20, 0, 1000, Some(1)).unwrap();
    assert_eq!(rows, 10);
    assert_eq!(buf.len(), 10 * 21);
}

#[test]
fn conversion_is_idempotent() {
    let state = loaded_mid_gray_two_frames();
    let a = state.convert_gif_to_ascii(33, 7, 1300, Some(1)).unwrap();
    let b = state.convert_gif_to_ascii(33, 7, 1300, Some(1)).unwrap();
    assert_eq!(a, b);
}

#[test]
fn frame_selector_wraps_to_zero() {
    let state = loaded_mid_gray_two_frames();
    let at_count = state.convert_gif_to_ascii(20, 0, 1000, Some(2)).unwrap();
    let at_zero = state.convert_gif_to_ascii(20, 0, 1000, Some(0)).unwrap();
    assert_eq!(at_count, at_zero);
}

#[test]
fn out_of_range_widths_are_not_cached() {
    let state = loaded_mid_gray_two_frames();
    let low = state.convert_gif_to_ascii(19, 0, 1000, None);
    let high = state.convert_gif_to_ascii(251, 0, 1000, None);
    assert_eq!(low.as_ref().unwrap_err().message(), "Width not cached");
    assert!(matches!(low, Err(AsciiError::NotCached)));
    assert!(matches!(high, Err(AsciiError::NotCached)));
}

#[test]
fn convert_before_load_is_not_cached() {
    let state = AppState::default();
    let r = state.convert_gif_to_ascii(100, 0, 1000, None);
    assert!(matches!(r, Err(AsciiError::NotCached)));
}

#[test]
fn transparent_pixel_renders_as_space() {
    // a single fully-transparent pixel, colorful RGB: always the sparsest
    // glyph, whatever the color
    let mut img = RgbaImage::new(1, 1);
    img.put_pixel(0, 0, Rgba([200, 50, 25, 0]));
    let bytes = encode_gif(vec![img]);
    let mut state = AppState::default();
    assert_eq!(state.load_gif(&bytes).unwrap(), 1);
    let (rows, buf) = state.convert_gif_to_ascii(20, 0, 1000, None).unwrap();
    assert_eq!(rows, 10);
    for row in buf.chunks(21) {
        assert_eq!(&row[..20], vec![b' '; 20].as_slice());
        assert_eq!(row[20], b'\n');
    }
    // still spaces with a positive brightness and a steep contrast
    let (_, steep) = state.convert_gif_to_ascii(20, 50, 2000, None).unwrap();
    assert!(steep.iter().all(|&b| b == b' ' || b == b'\n'));
}

#[test]
fn invalid_bytes_fail_to_decode() {
    let mut state = AppState::default();
    let junk = vec![1u8, 2, 3, 4, 5];
    let r = state.load_gif(&junk);
    assert!(matches!(r, Err(AsciiError::Decode(_))));
    // the failed load leaves the prior state usable
    let gray = uniform_image(10, 10, [128, 128, 128, 255]);
    let bytes = encode_gif(vec![gray]);
    assert_eq!(state.load_gif(&bytes).unwrap(), 1);
    assert!(state.load_gif(&junk).is_err());
    assert!(state.convert_gif_to_ascii(20, 0, 1000, None).is_ok());
}

#[test]
fn preview_is_a_png_data_uri() {
    let state = loaded_mid_gray_two_frames();
    let uri = state.apply_adjustments_to_preview(0, 1000, 0).unwrap();
    let prefix = "data:image/png;base64,";
    assert!(uri.starts_with(prefix));
    let payload = &uri[prefix.len()..];
    let png = base64::engine::general_purpose::STANDARD
        .decode(payload)
        .unwrap();
    assert_eq!(&png[..4], &[0x89, b'P', b'N', b'G']);
}

#[test]
fn preview_before_load_fails() {
    let state = AppState::default();
    let r = state.apply_adjustments_to_preview(0, 1000, 0);
    assert_eq!(r.as_ref().unwrap_err().message(), "No media loaded");
    assert!(matches!(r, Err(AsciiError::NoMediaLoaded)));
}

#[test]
fn export_format_writes_markers_and_payloads() {
    let frames = vec![b"ab\ncd\n".to_vec(), b"ef\ngh\n".to_vec()];
    let out = format_export(&frames);
    let expected = b"--- FRAME 0 ---\nab\ncd\n\n--- FRAME 1 ---\nef\ngh\n\n".to_vec();
    assert_eq!(out, expected);
}

#[test]
fn export_round_trips_through_markers() {
    let state = loaded_mid_gray_two_frames();
    let (_, f0) = state.convert_gif_to_ascii(20, 0, 1000, Some(0)).unwrap();
    let (_, f1) = state.convert_gif_to_ascii(20, 0, 1000, Some(1)).unwrap();
    let frames = vec![f0.clone(), f1.clone()];
    let out = format_export(&frames);
    let text = String::from_utf8(out).unwrap();
    let mut markers: Vec<usize> = Vec::new();
    for (pos, _) in text.match_indices("--- FRAME ") {
        markers.push(pos);
    }
    assert_eq!(markers.len(), 2);
    let chunk0 = &text[markers[0]..markers[1]];
    let chunk1 = &text[markers[1]..];
    assert_eq!(chunk0, format!("--- FRAME 0 ---\n{}\n", String::from_utf8(f0).unwrap()));
    assert_eq!(chunk1, format!("--- FRAME 1 ---\n{}\n", String::from_utf8(f1).unwrap()));
}

#[test]
fn tensor_shapes_follow_the_aspect_ratio() {
    // a 64x32 source: at width w the tensor has max(1, w*32/(2*64)) rows
    let img = uniform_image(64, 32, [10, 20, 30, 255]);
    let bytes = encode_gif(vec![img]);
    let mut state = AppState::default();
    assert_eq!(state.load_gif(&bytes).unwrap(), 1);
    for (w, expect_rows) in [(20u32, 5u32), (100, 25), (250, 62), (21, 5)] {
        let (rows, buf) = state.convert_gif_to_ascii(w, 0, 1000, None).unwrap();
        assert_eq!(rows, expect_rows, "width {}", w);
        assert_eq!(buf.len() as u32, expect_rows * (w + 1));
    }
}

#[test]
fn brightness_saturates_at_the_ends() {
    let state = loaded_mid_gray_two_frames();
    // very bright: every glyph is the sparsest
    let (_, bright) = state.convert_gif_to_ascii(20, 1000, 1000, Some(0)).unwrap();
    assert!(bright.iter().all(|&b| b == b' ' || b == b'\n'));
    // very dark: every glyph is the densest
    let (_, dark) = state.convert_gif_to_ascii(20, -1000, 1000, Some(0)).unwrap();
    assert!(dark.iter().all(|&b| b == b'$' || b == b'\n'));
}

#[test]
fn truncated_stream_fails_to_decode() {
    // header and 10x10 logical screen, but no image data at all: the
    // decoder treats the missing frames as a format error
    let mut bytes = b"GIF89a".to_vec();
    bytes.extend_from_slice(&[10, 0, 10, 0, 0x00, 0, 0]);
    bytes.push(0x3B);
    let mut state = AppState::default();
    let r = state.load_gif(&bytes);
    assert!(matches!(r, Err(AsciiError::Decode(_))));
    // nothing is cached afterwards
    let r = state.convert_gif_to_ascii(100, 0, 1000, None);
    assert!(matches!(r, Err(AsciiError::NotCached)));
}

#[test]
fn export_indices_reach_two_digits() {
    let frames: Vec<Vec<u8>> = (0..12).map(|_| b"x\n".to_vec()).collect();
    let out = format_export(&frames);
    let text = String::from_utf8(out).unwrap();
    assert!(text.contains("--- FRAME 9 ---\nx\n"));
    assert!(text.contains("--- FRAME 10 ---\nx\n"));
    assert!(text.contains("--- FRAME 11 ---\nx\n"));
}

#[test]
fn lut_keeps_thousandths_through_the_clamp() {
    // luminance 91 at contrast 1.5: (91-128)*1.5+128 = 72.5, clamped and
    // mapped with full precision to index floor(72.5*70/255) = 19, 'w' —
    // not the whole-unit 73, whose index would be 20
    let lut = build_lut(0, 1500);
    assert_eq!(lut[91], b'w');
}

#[test]
fn preview_pixel_matches_exact_adjustment() {
    // luminance 91 at contrast 1.5 adjusts to 72.5; the drawn gray level
    // is its integer part 72
    let img = uniform_image(4, 4, [91, 91, 91, 255]);
    let bytes = encode_gif(vec![img]);
    let mut state = AppState::default();
    assert_eq!(state.load_gif(&bytes).unwrap(), 1);
    let uri = state.apply_adjustments_to_preview(0, 1500, 0).unwrap();
    let prefix = "data:image/png;base64,";
    let png = base64::engine::general_purpose::STANDARD
        .decode(&uri[prefix.len()..])
        .unwrap();
    let decoded = image::load_from_memory_with_format(&png, image::ImageFormat::Png)
        .unwrap()
        .to_rgba8();
    assert_eq!(decoded.dimensions(), (250, 125));
    assert_eq!(decoded.get_pixel(0, 0).0, [72, 72, 72, 255]);
    assert_eq!(decoded.get_pixel(249, 124).0, [72, 72, 72, 255]);
}

#[test]
fn preview_is_deterministic() {
    let state = loaded_mid_gray_two_frames();
    let a = state.apply_adjustments_to_preview(3, 1200, 1).unwrap();
    let b = state.apply_adjustments_to_preview(3, 1200, 1).unwrap();
    assert_eq!(a, b);
}
