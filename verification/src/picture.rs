//! Pictures of the day: decoding downloaded or cached bytes, shrinking
//! large pictures, their text rendering, and the photo view's smooth
//! scaling centred on the drawing area. Decoding, scaling and the text
//! rendering are the `image` and `artem` crates'.
use vstd::prelude::*;
use crate::astro::{DecodedImage, ResizedImage};

verus! {

/// The largest width or height of a picture the viewer keeps.
pub const MAX_PICTURE_DIM: u32 = 800;

/// A picture as plain values: width, height and pixels row by row.
pub open spec fn picture_of(img: DecodedImage) -> (u32, u32, Seq<[u8; 3]>) {
    (img.width, img.height, img.pixels@)
}

/// Pixel data of exactly `width * height` pixels.
pub open spec fn well_sized(p: (u32, u32, Seq<[u8; 3]>)) -> bool {
    p.2.len() == p.0 * p.1
}

/// What `image::load_from_memory` decodes from bytes, as 8-bit RGB.
pub uninterp spec fn decoded_picture(bytes: Seq<u8>) -> Option<(u32, u32, Seq<[u8; 3]>)>;

/// What `DynamicImage::thumbnail` makes of the picture `image` decodes from
/// `bytes`, in its own colour type, to fit `max_w` x `max_h`, as 8-bit RGB.
pub uninterp spec fn thumbnail_picture(bytes: Seq<u8>, max_w: u32, max_h: u32) -> (
    u32,
    u32,
    Seq<[u8; 3]>,
);

/// What `artem::convert` renders, for a plain-text target, of the picture
/// `image` decodes from `bytes`, in its own colour type.
pub uninterp spec fn picture_text(bytes: Seq<u8>) -> Seq<char>;

/// What `artem::convert` renders, for a plain-text target, of the
/// `DynamicImage::thumbnail` to fit `max_w` x `max_h` of the picture decoded
/// from `bytes`.
pub uninterp spec fn thumbnail_text(bytes: Seq<u8>, max_w: u32, max_h: u32) -> Seq<char>;

/// What `DynamicImage::resize` with the Lanczos3 filter makes of a picture
/// to fit `w` x `h`.
pub uninterp spec fn lanczos_picture(p: (u32, u32, Seq<[u8; 3]>), w: u32, h: u32) -> (u32, u32, Seq<[u8; 3]>);

/// `image::load_from_memory`, its result converted to 8-bit RGB pixels row
/// by row (`to_rgb8`); none when the crate reads no picture from the
/// bytes. The converted buffer holds width times height pixels; nothing
/// more is claimed of what is decoded.
#[verifier::external_body]
fn decode_rgb(bytes: &Vec<u8>) -> (r: Option<DecodedImage>)
    ensures
        match decoded_picture(bytes@) {
            Some(p) => r matches Some(img) && picture_of(img) == p && well_sized(p),
            None => r is None,
        },
{
    let rgb = image::load_from_memory(bytes).ok()?.to_rgb8();
    let (width, height) = rgb.dimensions();
    Some(DecodedImage { width, height, pixels: rgb.pixels().map(|p| p.0).collect() })
}

/// `DynamicImage::thumbnail` on the picture `image::load_from_memory`
/// decodes from `bytes`, in the picture's own colour type, then converted
/// to 8-bit RGB: scaled by area averaging to fit `max_w` x `max_h` with its
/// proportions kept. The bytes must decode. The result holds width times
/// height pixels; nothing more is claimed.
#[verifier::external_body]
fn thumbnail_rgb(bytes: &Vec<u8>, max_w: u32, max_h: u32) -> (r: DecodedImage)
    requires
        decoded_picture(bytes@) is Some,
    ensures
        picture_of(r) == thumbnail_picture(bytes@, max_w, max_h),
        well_sized(picture_of(r)),
{
    let Ok(img) = image::load_from_memory(bytes) else { return DecodedImage { width: 0, height: 0, pixels: Vec::new() } };
    let small = img.thumbnail(max_w, max_h).to_rgb8();
    let (width, height) = small.dimensions();
    DecodedImage { width, height, pixels: small.pixels().map(|p| p.0).collect() }
}

/// `artem::convert` with its default settings and the plain-file target
/// (no colour codes) on the picture `image::load_from_memory` decodes from
/// `bytes`, in its own colour type. It divides the picture's width into
/// character cells and divides by zero on a picture without width, which
/// is left out, as are bytes that do not decode.
#[verifier::external_body]
fn ascii_art(bytes: &Vec<u8>) -> (r: String)
    requires
        decoded_picture(bytes@) matches Some(p) && p.0 > 0,
    ensures
        r@ == picture_text(bytes@),
{
    let Ok(img) = image::load_from_memory(bytes) else { return String::new() };
    let config = artem::config::ConfigBuilder::new().target(artem::config::TargetType::File).build();
    artem::convert(img, &config)
}

/// `artem::convert` as `ascii_art` calls it, on the `DynamicImage::thumbnail`
/// to fit `max_w` x `max_h` of the picture decoded from `bytes`. Bytes that
/// do not decode, and a thumbnail without width, are left out.
#[verifier::external_body]
fn thumbnail_ascii_art(bytes: &Vec<u8>, max_w: u32, max_h: u32) -> (r: String)
    requires
        decoded_picture(bytes@) is Some,
        thumbnail_picture(bytes@, max_w, max_h).0 > 0,
    ensures
        r@ == thumbnail_text(bytes@, max_w, max_h),
{
    let Ok(img) = image::load_from_memory(bytes) else { return String::new() };
    let config = artem::config::ConfigBuilder::new().target(artem::config::TargetType::File).build();
    artem::convert(img.thumbnail(max_w, max_h), &config)
}

/// `DynamicImage::resize` with the Lanczos3 filter on an 8-bit RGB
/// picture: scaled to fit `w` x `h` with its proportions kept (an empty
/// picture gives a black one). The result holds width times height
/// pixels; nothing more is claimed.
#[verifier::external_body]
fn lanczos_fit(img: &DecodedImage, w: u32, h: u32) -> (r: DecodedImage)
    requires
        well_sized(picture_of(*img)),
    ensures
        picture_of(r) == lanczos_picture(picture_of(*img), w, h),
        well_sized(picture_of(r)),
{
    let raw: Vec<u8> = img.pixels.iter().flatten().copied().collect();
    let Some(buf) = image::RgbImage::from_raw(img.width, img.height, raw) else { return img.clone() };
    let fit = image::DynamicImage::ImageRgb8(buf).resize(w, h, image::imageops::FilterType::Lanczos3).to_rgb8();
    let (width, height) = fit.dimensions();
    DecodedImage { width, height, pixels: fit.pixels().map(|p| p.0).collect() }
}

/// The picture kept of downloaded or cached bytes, with its text
/// rendering: a decoded picture larger than 800 x 800 in either direction
/// is shrunk to fit (`thumbnail`) and its text rendered from the shrunk
/// picture; a smaller one is kept as decoded and rendered as it is. Both
/// are rendered in the picture's own colour type. None when the bytes hold
/// no picture, or the kept one has no width (no text rendering exists).
pub fn prepare_picture(bytes: &Vec<u8>) -> (r: Option<(DecodedImage, String)>)
    ensures
        match decoded_picture(bytes@) {
            Some(p) => if p.0 > MAX_PICTURE_DIM || p.1 > MAX_PICTURE_DIM {
                let k = thumbnail_picture(bytes@, MAX_PICTURE_DIM, MAX_PICTURE_DIM);
                if k.0 > 0 {
                    r matches Some((img, text)) && picture_of(img) == k && text@ == thumbnail_text(
                        bytes@,
                        MAX_PICTURE_DIM,
                        MAX_PICTURE_DIM,
                    )
                } else {
                    r is None
                }
            } else if p.0 > 0 {
                r matches Some((img, text)) && picture_of(img) == p && text@ == picture_text(bytes@)
            } else {
                r is None
            },
            None => r is None,
        },
{
    let decoded = match decode_rgb(bytes) {
        Some(img) => img,
        None => return None,
    };
    if decoded.width > MAX_PICTURE_DIM || decoded.height > MAX_PICTURE_DIM {
        let kept = thumbnail_rgb(bytes, MAX_PICTURE_DIM, MAX_PICTURE_DIM);
        if kept.width == 0 {
            return None;
        }
        let text = thumbnail_ascii_art(bytes, MAX_PICTURE_DIM, MAX_PICTURE_DIM);
        Some((kept, text))
    } else {
        if decoded.width == 0 {
            return None;
        }
        let text = ascii_art(bytes);
        Some((decoded, text))
    }
}

/// The photo view's pixel at `(x, y)` of a `tw` x `th` area, given the
/// picture scaled to fit it: inside the centred picture its pixel, black
/// around it.
pub open spec fn photo_pixel(fit: (u32, u32, Seq<[u8; 3]>), tw: int, th: int, x: int, y: int) -> [u8; 3] {
    let ox = if tw >= fit.0 {
        (tw - fit.0) / 2
    } else {
        0
    };
    let oy = if th >= fit.1 {
        (th - fit.1) / 2
    } else {
        0
    };
    if ox <= x && x < ox + fit.0 && oy <= y && y < oy + fit.1 {
        let idx = (y - oy) * fit.0 + (x - ox);
        if idx < fit.2.len() {
            fit.2[idx]
        } else {
            [0u8, 0u8, 0u8]
        }
    } else {
        [0u8, 0u8, 0u8]
    }
}

/// The photo view of a picture on a `target_w` x `target_h` pixel area:
/// the picture scaled smoothly (Lanczos3) to fit with its proportions
/// kept, centred, black around it.
pub fn photo_view(img: &DecodedImage, target_w: u32, target_h: u32) -> (r: ResizedImage)
    requires
        well_sized(picture_of(*img)),
        target_w * target_h <= u32::MAX,
    ensures
        r.width == target_w,
        r.height == target_h,
        r.pixels@.len() == target_w * target_h,
        forall|dy: int, dx: int|
            0 <= dy < target_h && 0 <= dx < target_w ==> #[trigger] r.pixels@[dy * target_w + dx]
                == photo_pixel(lanczos_picture(picture_of(*img), target_w, target_h), target_w as int, target_h as int, dx, dy),
{
    let fit = lanczos_fit(img, target_w, target_h);
    let ghost fp = picture_of(fit);
    let tw = target_w as u64;
    let th = target_h as u64;
    let fw = fit.width as u64;
    let fh = fit.height as u64;
    let ox: u64 = if tw >= fw {
        (tw - fw) / 2
    } else {
        0
    };
    let oy: u64 = if th >= fh {
        (th - fh) / 2
    } else {
        0
    };
    let mut pixels: Vec<[u8; 3]> = Vec::new();
    let mut dy: u64 = 0;
    while dy < th
        invariant
            tw == target_w,
            th == target_h,
            fp == picture_of(fit),
            fp == lanczos_picture(picture_of(*img), target_w, target_h),
            fw == fit.width,
            fh == fit.height,
            ox == (if tw >= fw { (tw - fw) / 2 } else { 0 }),
            oy == (if th >= fh { (th - fh) / 2 } else { 0 }),
            tw * th <= u32::MAX,
            dy <= th,
            pixels@.len() == dy * tw,
            forall|a: int, b: int|
                0 <= a < dy && 0 <= b < tw ==> #[trigger] pixels@[a * tw + b] == photo_pixel(fp, tw as int, th as int, b, a),
        decreases th - dy,
    {
        let mut dx: u64 = 0;
        while dx < tw
            invariant
                tw == target_w,
                th == target_h,
                fp == picture_of(fit),
                fw == fit.width,
                fh == fit.height,
                ox == (if tw >= fw { (tw - fw) / 2 } else { 0 }),
                oy == (if th >= fh { (th - fh) / 2 } else { 0 }),
                tw * th <= u32::MAX,
                dy < th,
                dx <= tw,
                pixels@.len() == dy * tw + dx,
                forall|a: int, b: int|
                    0 <= a < dy && 0 <= b < tw ==> #[trigger] pixels@[a * tw + b] == photo_pixel(fp, tw as int, th as int, b, a),
                forall|b: int| 0 <= b < dx ==> #[trigger] pixels@[dy * tw + b] == photo_pixel(fp, tw as int, th as int, b, dy as int),
            decreases tw - dx,
        {
            let mut p: [u8; 3] = [0, 0, 0];
            if dx >= ox && dx < ox + fw && dy >= oy && dy < oy + fh {
                let x = dx - ox;
                let y = dy - oy;
                assert(y * fw + x < 0x1_0000_0000_0000_0000) by (nonlinear_arith)
                    requires
                        y < fh,
                        x < fw,
                        fw < 0x1_0000_0000,
                        fh < 0x1_0000_0000,
                {
                    assert(y * fw <= fh * fw);
                }
                let idx = y * fw + x;
                if idx < fit.pixels.len() as u64 {
                    p = fit.pixels[idx as usize];
                }
            }
            pixels.push(p);
            proof {
                assert(pixels@[dy * tw + dx] == photo_pixel(fp, tw as int, th as int, dx as int, dy as int));
                assert forall|a: int, b: int|
                    0 <= a < dy && 0 <= b < tw implies #[trigger] pixels@[a * tw + b] == photo_pixel(fp, tw as int, th as int, b, a) by {
                    assert(a * tw + b < dy * tw) by (nonlinear_arith)
                        requires
                            0 <= a < dy,
                            0 <= b < tw,
                    {
                        assert(a * tw + b < a * tw + tw);
                        assert(a * tw + tw == (a + 1) * tw);
                        assert((a + 1) * tw <= dy * tw);
                    }
                }
            }
            dx = dx + 1;
        }
        proof {
            assert forall|a: int, b: int|
                0 <= a < dy + 1 && 0 <= b < tw implies #[trigger] pixels@[a * tw + b] == photo_pixel(fp, tw as int, th as int, b, a) by {
                if a == dy {
                    assert(pixels@[dy * tw + b] == photo_pixel(fp, tw as int, th as int, b, dy as int));
                }
            }
            assert((dy + 1) * tw == dy * tw + tw) by (nonlinear_arith);
        }
        dy = dy + 1;
    }
    assert(th * tw == tw * th) by (nonlinear_arith);
    ResizedImage { width: target_w, height: target_h, pixels }
}

} // verus!
