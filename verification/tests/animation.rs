use sysmon::animation::{
    cell_size_or_default, frame_at, frame_timeline, load_animation, tint_pixels, width_for_height,
};

#[test]
fn frame_delays_become_a_timeline() {
    let (ends, total) = frame_timeline(&vec![(100, 1), (5, 1), (0, 0), (300, 2)]);
    assert_eq!(ends, vec![100, 120, 200, 350]);
    assert_eq!(total, 350);
    let (ends, total) = frame_timeline(&Vec::new());
    assert!(ends.is_empty());
    assert_eq!(total, 0);
}

#[test]
fn the_frame_shown_loops_with_the_animation() {
    let ends = vec![100, 120, 200, 350];
    assert_eq!(frame_at(&ends, 350, 0), 0);
    assert_eq!(frame_at(&ends, 350, 99), 0);
    assert_eq!(frame_at(&ends, 350, 100), 1);
    assert_eq!(frame_at(&ends, 350, 349), 3);
    assert_eq!(frame_at(&ends, 350, 350), 0);
    assert_eq!(frame_at(&ends, 350, 470), 2);
    assert_eq!(frame_at(&Vec::new(), 0, 5), 0);
}

#[test]
fn width_keeps_the_pixel_proportions() {
    // A 32x16 picture, 8x17 cells, 4 rows: 68 px tall, 136 px wide, 17 columns.
    assert_eq!(width_for_height(4, 32, 16, 8, 17), 17);
    assert_eq!(width_for_height(0, 32, 16, 8, 17), 0);
    assert_eq!(width_for_height(4, 32, 0, 8, 17), 0);
    assert_eq!(cell_size_or_default(0, 0), (8, 17));
    assert_eq!(cell_size_or_default(9, 20), (9, 20));
}

#[test]
fn tint_keeps_alpha_and_darkens_the_dark() {
    let px = vec![[200, 10, 10, 255], [30, 30, 30, 128], [0, 31, 0, 7]];
    let t = tint_pixels(&px, [1, 2, 3]);
    assert_eq!(t, vec![[1, 2, 3, 255], [0, 0, 0, 128], [1, 2, 3, 7]]);
}

fn gif_bytes(frames: Vec<(u32, u32, [u8; 4], u32)>) -> Vec<u8> {
    let mut bytes = Vec::new();
    {
        let mut encoder = image::codecs::gif::GifEncoder::new(&mut bytes);
        let frames = frames.into_iter().map(|(w, h, px, ms)| {
            image::Frame::from_parts(
                image::RgbaImage::from_pixel(w, h, image::Rgba(px)),
                0,
                0,
                image::Delay::from_numer_denom_ms(ms, 1),
            )
        });
        encoder.encode_frames(frames).unwrap();
    }
    bytes
}

#[test]
fn animation_loads_frames_with_their_timeline() {
    let bytes = gif_bytes(vec![(3, 2, [255, 0, 0, 255], 100), (3, 2, [0, 0, 255, 255], 200)]);
    let anim = load_animation(&bytes).unwrap();
    assert_eq!(anim.frames.len(), 2);
    assert_eq!(anim.ends_ms, vec![100, 300]);
    assert_eq!(anim.total_ms, 300);
    assert_eq!((anim.pixel_w, anim.pixel_h), (3, 2));
    assert_eq!(anim.frames[0].pixels.len(), 6);
    assert_eq!(anim.frames[1].pixels.len(), 6);
    assert_eq!((anim.frames[1].delay_num, anim.frames[1].delay_denom), (200, 1));
}

#[test]
fn short_frame_delays_are_stretched() {
    let bytes = gif_bytes(vec![(1, 1, [9, 9, 9, 255], 10)]);
    let anim = load_animation(&bytes).unwrap();
    assert_eq!(anim.ends_ms, vec![20]);
    assert_eq!(anim.total_ms, 20);
}

#[test]
fn bytes_that_are_no_gif_give_no_animation() {
    assert!(load_animation(&b"GIF89a but not really".to_vec()).is_none());
    assert!(load_animation(&Vec::new()).is_none());
}
