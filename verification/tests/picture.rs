use std::io::Cursor;

use sysmon::astro::DecodedImage;
use sysmon::picture::{photo_view, prepare_picture, MAX_PICTURE_DIM};

fn png_bytes(width: u32, height: u32, pixel: impl Fn(u32, u32) -> [u8; 3]) -> Vec<u8> {
    let img = image::RgbImage::from_fn(width, height, |x, y| image::Rgb(pixel(x, y)));
    let mut bytes = Vec::new();
    image::DynamicImage::ImageRgb8(img)
        .write_to(&mut Cursor::new(&mut bytes), image::ImageFormat::Png)
        .unwrap();
    bytes
}

#[test]
fn small_picture_is_kept_as_decoded_with_its_text() {
    let bytes = png_bytes(4, 2, |x, y| [x as u8 * 60, y as u8 * 100, 7]);
    let (img, text) = prepare_picture(&bytes).unwrap();
    assert_eq!((img.width, img.height), (4, 2));
    let expected: Vec<[u8; 3]> = (0..2u32)
        .flat_map(|y| (0..4u32).map(move |x| [x as u8 * 60, y as u8 * 100, 7]))
        .collect();
    assert_eq!(img.pixels, expected);
    assert!(!text.is_empty());
    assert!(text.ends_with('\n'));
}

#[test]
fn large_picture_is_shrunk_to_fit() {
    let bytes = png_bytes(1000, 10, |_, _| [200, 100, 50]);
    let (img, _) = prepare_picture(&bytes).unwrap();
    assert_eq!(img.width, MAX_PICTURE_DIM);
    assert_eq!(img.height, 8);
    assert_eq!(img.pixels.len(), 800 * 8);
    assert!(img.pixels.iter().all(|p| *p == [200, 100, 50]));
}

#[test]
fn bytes_that_are_no_picture_give_none() {
    assert!(prepare_picture(&b"not a picture".to_vec()).is_none());
    assert!(prepare_picture(&Vec::new()).is_none());
}

fn solid(width: u32, height: u32, rgb: [u8; 3]) -> DecodedImage {
    DecodedImage { width, height, pixels: vec![rgb; (width * height) as usize] }
}

#[test]
fn photo_is_centred_between_black_bars() {
    let photo = photo_view(&solid(2, 2, [255, 0, 0]), 4, 2);
    assert_eq!((photo.width, photo.height), (4, 2));
    for y in 0..2usize {
        assert_eq!(photo.pixels[y * 4], [0, 0, 0]);
        assert_eq!(photo.pixels[y * 4 + 1], [255, 0, 0]);
        assert_eq!(photo.pixels[y * 4 + 2], [255, 0, 0]);
        assert_eq!(photo.pixels[y * 4 + 3], [0, 0, 0]);
    }
}

#[test]
fn photo_is_scaled_up_to_fill_the_area() {
    let photo = photo_view(&solid(1, 1, [10, 20, 30]), 4, 4);
    assert_eq!(photo.pixels.len(), 16);
    assert!(photo.pixels.iter().all(|p| *p == [10, 20, 30]));
}
