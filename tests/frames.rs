use emojikanban::decode::{decode_frames, frames_from_raw, still_frames, DecodeError};
use emojikanban::plugin::{EmoteData, EmoteOBS};
use image::codecs::gif::GifEncoder;
use image::{Delay, DynamicImage, Frame, ImageFormat, Rgba, RgbaImage};

fn png_bytes(w: u32, h: u32) -> Vec<u8> {
    let img = RgbaImage::from_pixel(w, h, Rgba([10, 20, 30, 255]));
    let mut out = std::io::Cursor::new(Vec::new());
    DynamicImage::ImageRgba8(img).write_to(&mut out, ImageFormat::Png).unwrap();
    out.into_inner()
}

fn gif_bytes(delays_ms: &[u32]) -> Vec<u8> {
    let mut out = Vec::new();
    {
        let mut enc = GifEncoder::new(&mut out);
        for (i, d) in delays_ms.iter().enumerate() {
            let shade = (i as u8).wrapping_mul(60);
            let img = RgbaImage::from_pixel(3, 2, Rgba([shade, 0, 255 - shade, 255]));
            enc.encode_frame(Frame::from_parts(img, 0, 0, Delay::from_numer_denom_ms(*d, 1)))
                .unwrap();
        }
    }
    out
}

#[test]
fn decode_single_frame_png() {
    let frames = decode_frames(&png_bytes(4, 3)).unwrap();
    assert_eq!(frames.len(), 1);
    assert_eq!(frames[0].width, 4);
    assert_eq!(frames[0].height, 3);
    assert_eq!(frames[0].pixels.len(), 4 * 3 * 4);
    assert_eq!(frames[0].linesize(), 16);
    assert_eq!(&frames[0].pixels[0..4], &[10, 20, 30, 255]);
}

#[test]
fn decode_animation_keeps_count_and_delays() {
    let frames = decode_frames(&gif_bytes(&[100, 250, 70])).unwrap();
    assert_eq!(frames.len(), 3);
    let total_ms: f64 = frames
        .iter()
        .map(|f| f.delay_numer_ms as f64 / f.delay_denom_ms as f64)
        .sum();
    assert!((total_ms - 420.0).abs() < 1e-9);
    assert_eq!(frames[1].delay_numer_ms as f64 / frames[1].delay_denom_ms as f64, 250.0);
    for f in &frames {
        assert_eq!(f.width, 3);
        assert_eq!(f.height, 2);
        assert_eq!(f.pixels.len(), 3 * 2 * 4);
    }
}

#[test]
fn decode_unknown_bytes_fail() {
    assert_eq!(decode_frames(b"hello, not an image").unwrap_err(), DecodeError::UnknownFormat);
    assert_eq!(decode_frames(&[]).unwrap_err(), DecodeError::UnknownFormat);
}

#[test]
fn decode_truncated_image_fails() {
    assert_eq!(decode_frames(b"GIF89a").unwrap_err(), DecodeError::NoFrames);
    let png = png_bytes(4, 4);
    assert_eq!(decode_frames(&png[..20]).unwrap_err(), DecodeError::NoFrames);
}

#[test]
fn emote_from_bytes_and_animation_advances() {
    let data = EmoteData { id: "7".to_string(), name: "wave".to_string(), img: gif_bytes(&[100, 200]) };
    let mut e = EmoteOBS::from(data);
    assert_eq!(e.name, "wave");
    assert_eq!(e.frames.len(), 2);
    assert_eq!(e.current_delay(), (100, 1));
    assert!(!e.is_alive());
    e.update(100_000);
    assert_eq!(e.frame, 0);
    assert_eq!(e.frame_time, 100_000);
    e.update(1);
    assert_eq!(e.frame, 1);
    assert_eq!(e.frame_time, 0);
    assert_eq!(e.current_delay(), (200, 1));
    e.update(200_001);
    assert_eq!(e.frame, 0);
    assert_eq!(e.current_frame().width, 3);
}

#[test]
fn still_emote_keeps_its_frame() {
    let data = EmoteData { id: "8".to_string(), name: "still".to_string(), img: png_bytes(2, 2) };
    let mut e = EmoteOBS::from(data);
    e.update(10_000_000);
    assert_eq!(e.frame, 0);
    assert_eq!(e.frame_time, 0);
}

#[test]
fn undecodable_emote_has_no_frames() {
    let data = EmoteData { id: "9".to_string(), name: "bad".to_string(), img: vec![1, 2, 3] };
    let e = EmoteOBS::from(data);
    assert!(e.frames.is_empty());
}

#[test]
fn decode_cut_animation_ends() {
    let whole = gif_bytes(&[100, 200, 300]);
    for cut in [whole.len() - 1, whole.len() - 10, whole.len() / 2, 40, 20] {
        match decode_frames(&whole[..cut]) {
            Ok(frames) => {
                assert!(!frames.is_empty() && frames.len() <= 3);
                assert_eq!(frames[0].delay_numer_ms, 100);
            }
            Err(e) => assert_eq!(e, DecodeError::NoFrames),
        }
    }
}

#[test]
fn decode_stray_block_byte_ends() {
    let whole = gif_bytes(&[100, 200]);
    let mut bad = whole.clone();
    // the trailer byte replaced by a block introducer no decoder knows
    let last = bad.len() - 1;
    bad[last] = 0x42;
    bad.extend_from_slice(&[0x42, 0x42, 0x42]);
    let frames = decode_frames(&bad).unwrap();
    assert_eq!(frames.len(), 2);
}

#[test]
fn frames_from_decoder_output() {
    assert_eq!(frames_from_raw(vec![]).unwrap_err(), DecodeError::NoFrames);
    let raw = vec![(1, 1, vec![1, 2, 3, 4], 40, 1), (1, 2, vec![0; 8], 70, 3)];
    let frames = frames_from_raw(raw).unwrap();
    assert_eq!(frames.len(), 2);
    assert_eq!((frames[1].width, frames[1].height), (1, 2));
    assert_eq!((frames[1].delay_numer_ms, frames[1].delay_denom_ms), (70, 3));
    assert_eq!(frames[0].pixels, vec![1, 2, 3, 4]);
}

#[test]
fn still_picture_frame() {
    let f = still_frames(2, 1, vec![9; 8]);
    assert_eq!(f.len(), 1);
    assert_eq!((f[0].width, f[0].height, f[0].delay_numer_ms, f[0].delay_denom_ms), (2, 1, 0, 1));
}
