//! Timing, sizing and tinting of the disk monitor's animated drive picture.
use vstd::prelude::*;

verus! {

/// How long a frame shows, in milliseconds, from its delay as a fraction
/// `num / denom` of a millisecond: 80 ms without a denominator, and never
/// less than 20 ms.
pub open spec fn frame_ms(num: u32, denom: u32) -> int {
    let ms = if denom == 0 {
        80
    } else {
        num as int / denom as int
    };
    if ms < 20 {
        20
    } else {
        ms
    }
}

/// The running sums of the frames' display times: when each frame ends.
pub open spec fn frame_ends(delays: Seq<(u32, u32)>) -> Seq<int>
    decreases delays.len(),
{
    if delays.len() == 0 {
        seq![]
    } else {
        let prev = frame_ends(delays.drop_last());
        let last_end = if prev.len() == 0 {
            0
        } else {
            prev.last()
        };
        prev.push(last_end + frame_ms(delays.last().0, delays.last().1))
    }
}

proof fn lemma_frame_ends_len(delays: Seq<(u32, u32)>)
    ensures
        frame_ends(delays).len() == delays.len(),
        delays.len() > 0 ==> frame_ends(delays).last() <= delays.len() * 0x1_0000_0000,
        forall|i: int| 0 <= i < delays.len() ==> #[trigger] frame_ends(delays)[i] >= 20,
    decreases delays.len(),
{
    if delays.len() > 0 {
        lemma_frame_ends_len(delays.drop_last());
        let prev = frame_ends(delays.drop_last());
        assert(frame_ms(delays.last().0, delays.last().1) <= 0xffff_ffff) by {
            let (n, d) = delays.last();
            if d > 0 {
                assert(n as int / d as int <= n as int) by (nonlinear_arith)
                    requires
                        d as int >= 1,
                        n as int >= 0,
                ;
            }
        }
    }
}

/// When each frame of an animation ends, from the frames' delays, and the
/// animation's length.
pub fn frame_timeline(delays: &Vec<(u32, u32)>) -> (r: (Vec<u64>, u64))
    requires
        delays@.len() <= 0xffff_ffff,
    ensures
        r.0@.len() == delays@.len(),
        forall|i: int| 0 <= i < delays@.len() ==> r.0@[i] == #[trigger] frame_ends(delays@)[i],
        r.1 == (if delays@.len() == 0 {
            0
        } else {
            frame_ends(delays@).last()
        }),
{
    let mut ends: Vec<u64> = Vec::new();
    let mut total: u64 = 0;
    let mut i: usize = 0;
    proof {
        lemma_frame_ends_len(delays@);
    }
    assert(delays@.take(0) =~= Seq::<(u32, u32)>::empty());
    while i < delays.len()
        invariant
            i <= delays@.len(),
            delays@.len() <= 0xffff_ffff,
            ends@.len() == i,
            frame_ends(delays@.take(i as int)).len() == i,
            forall|k: int| 0 <= k < i ==> ends@[k] == #[trigger] frame_ends(delays@.take(i as int))[k],
            total == (if i == 0 {
                0
            } else {
                frame_ends(delays@.take(i as int)).last()
            }),
            total <= i * 0x1_0000_0000,
        decreases delays.len() - i,
    {
        let (num, denom) = delays[i];
        let mut ms: u64 = if denom == 0 {
            80
        } else {
            (num / denom) as u64
        };
        if ms < 20 {
            ms = 20;
        }
        proof {
            assert(delays@.take(i + 1).drop_last() =~= delays@.take(i as int));
            assert(delays@.take(i + 1).last() == delays@[i as int]);
            if denom > 0 {
                assert(num as int / denom as int <= num as int) by (nonlinear_arith)
                    requires
                        denom as int >= 1,
                        num as int >= 0,
                ;
            }
            assert(ms == frame_ms(num, denom));
            assert(ms <= 0xffff_ffff);
            assert(total + ms <= (i + 1) * 0x1_0000_0000);
            assert((i + 1) * 0x1_0000_0000 <= 0x1_0000_0000 * 0x1_0000_0000);
        }
        total = total + ms;
        ends.push(total);
        i = i + 1;
    }
    assert(delays@.take(delays@.len() as int) =~= delays@);
    (ends, total)
}

/// The frame showing `elapsed_ms` after the animation started, as it
/// loops: the first whose end is still ahead, or the first frame.
pub open spec fn frame_index_spec(ends: Seq<u64>, total: u64, elapsed_ms: u64) -> int {
    let t = elapsed_ms % (if total > 0 {
        total
    } else {
        1
    });
    if exists|i: int| 0 <= i < ends.len() && t < ends[i] {
        choose|i: int| 0 <= i < ends.len() && t < ends[i] && forall|j: int| 0 <= j < i ==> ends[j] <= t
    } else {
        0
    }
}

pub fn frame_at(ends: &Vec<u64>, total: u64, elapsed_ms: u64) -> (r: usize)
    ensures
        r == frame_index_spec(ends@, total, elapsed_ms),
{
    let period = if total > 0 {
        total
    } else {
        1
    };
    let t = elapsed_ms % period;
    let mut i: usize = 0;
    while i < ends.len()
        invariant
            i <= ends@.len(),
            t == elapsed_ms % period,
            period == (if total > 0 {
                total
            } else {
                1
            }),
            forall|j: int| 0 <= j < i ==> ends@[j] <= t,
        decreases ends.len() - i,
    {
        if t < ends[i] {
            proof {
                let w = i as int;
                let c = choose|c: int| 0 <= c < ends@.len() && t < ends@[c] && forall|j: int| 0 <= j < c ==> ends@[j] <= t;
                assert(0 <= w < ends@.len() && t < ends@[w] && forall|j: int| 0 <= j < w ==> ends@[j] <= t);
                if c < w {
                    assert(ends@[c] <= t);
                }
                if c > w {
                    assert(ends@[w] <= t);
                }
            }
            return i;
        }
        i = i + 1;
    }
    0
}

/// The columns the picture needs at `rows` text rows tall, keeping its
/// pixel proportions, rounded to the nearest column (and cut to 16 bits).
pub open spec fn width_for_height_spec(rows: u16, pixel_w: u32, pixel_h: u32, cell_w: u16, cell_h: u16) -> u16 {
    if pixel_h == 0 || rows == 0 {
        0
    } else {
        let target_h: int = rows * cell_h;
        let target_w: int = (target_h * pixel_w) / (pixel_h as int);
        ((target_w + cell_w / 2) / (cell_w as int)) as u16
    }
}

pub fn width_for_height(rows: u16, pixel_w: u32, pixel_h: u32, cell_w: u16, cell_h: u16) -> (r: u16)
    requires
        cell_w > 0,
        pixel_h > 0 && rows > 0 ==> rows * cell_h * pixel_w <= u32::MAX && (rows * cell_h * pixel_w)
            / (pixel_h as int) + cell_w / 2 <= u32::MAX,
    ensures
        r == width_for_height_spec(rows, pixel_w, pixel_h, cell_w, cell_h),
{
    if pixel_h == 0 || rows == 0 {
        return 0;
    }
    assert(rows * cell_h <= 65535 * 65535) by (nonlinear_arith)
        requires
            rows <= 65535,
            cell_h <= 65535,
    ;
    let target_h = rows as u32 * cell_h as u32;
    let target_w = target_h * pixel_w / pixel_h;
    let cols: u32 = (target_w + cell_w as u32 / 2) / cell_w as u32;
    let r = (#[verifier::truncate] (cols as u16));
    r
}

/// The font cell size in pixels, with 8 x 17 standing in for an unknown
/// width or height.
pub fn cell_size_or_default(w: u16, h: u16) -> (r: (u16, u16))
    ensures
        r == ((if w == 0 {
            8u16
        } else {
            w
        }), (if h == 0 {
            17u16
        } else {
            h
        })),
{
    (if w == 0 {
        8
    } else {
        w
    }, if h == 0 {
        17
    } else {
        h
    })
}

/// A pixel of the tinted picture: the tint where the pixel is brighter
/// than a dark threshold in any channel, black elsewhere; alpha is kept.
pub open spec fn tinted(p: [u8; 4], tint: [u8; 3]) -> [u8; 4] {
    if p[0] > 30 || p[1] > 30 || p[2] > 30 {
        [tint[0], tint[1], tint[2], p[3]]
    } else {
        [0u8, 0u8, 0u8, p[3]]
    }
}

/// The picture's pixels in the tint colour.
pub fn tint_pixels(pixels: &Vec<[u8; 4]>, tint: [u8; 3]) -> (r: Vec<[u8; 4]>)
    ensures
        r@.len() == pixels@.len(),
        forall|i: int| 0 <= i < pixels@.len() ==> r@[i] == #[trigger] tinted(pixels@[i], tint),
{
    let mut out: Vec<[u8; 4]> = Vec::new();
    let mut i: usize = 0;
    while i < pixels.len()
        invariant
            i <= pixels@.len(),
            out@.len() == i,
            forall|k: int| 0 <= k < i ==> out@[k] == #[trigger] tinted(pixels@[k], tint),
        decreases pixels.len() - i,
    {
        let p = pixels[i];
        let m = if p[0] > p[1] {
            p[0]
        } else {
            p[1]
        };
        let m = if m > p[2] {
            m
        } else {
            p[2]
        };
        let q = if m > 30 {
            [tint[0], tint[1], tint[2], p[3]]
        } else {
            [0, 0, 0, p[3]]
        };
        assert(q == tinted(p, tint));
        out.push(q);
        i = i + 1;
    }
    out
}

/// A decoded animation frame: its delay as a fraction `delay_num /
/// delay_denom` of a millisecond and its RGBA canvas, row by row.
#[derive(Debug, Clone)]
pub struct GifFrame {
    pub delay_num: u32,
    pub delay_denom: u32,
    pub width: u32,
    pub height: u32,
    pub pixels: Vec<[u8; 4]>,
}

pub open spec fn frame_view(f: GifFrame) -> ((u32, u32), u32, u32, Seq<[u8; 4]>) {
    ((f.delay_num, f.delay_denom), f.width, f.height, f.pixels@)
}

pub open spec fn frames_view(fs: Seq<GifFrame>) -> Seq<((u32, u32), u32, u32, Seq<[u8; 4]>)> {
    fs.map_values(|f: GifFrame| frame_view(f))
}

/// What the `image` crate's GIF decoder reads from bytes: each frame's
/// delay (`numer_denom_ms`) and its RGBA canvas; none when the bytes are no
/// GIF it reads.
pub uninterp spec fn gif_frames(bytes: Seq<u8>) -> Option<Seq<((u32, u32), u32, u32, Seq<[u8; 4]>)>>;

/// `GifDecoder::new` on the bytes, then `into_frames().collect_frames()`;
/// each frame converted to its delay (`numer_denom_ms`) and its RGBA
/// buffer. What it reads is named `gif_frames`; nothing more is claimed.
#[verifier::external_body]
fn decode_gif(bytes: &Vec<u8>) -> (r: Option<Vec<GifFrame>>)
    ensures
        match gif_frames(bytes@) {
            Some(fs) => r matches Some(v) && frames_view(v@) == fs,
            None => r is None,
        },
{
    let decoder = image::codecs::gif::GifDecoder::new(std::io::Cursor::new(bytes)).ok()?;
    let frames = image::AnimationDecoder::into_frames(decoder).collect_frames().ok()?;
    Some(frames.into_iter().map(|f| {
        let (delay_num, delay_denom) = f.delay().numer_denom_ms();
        let buf = f.into_buffer();
        let pixels = buf.pixels().map(|p| p.0).collect();
        GifFrame { delay_num, delay_denom, width: buf.width(), height: buf.height(), pixels }
    }).collect())
}

pub open spec fn delays_of(fs: Seq<((u32, u32), u32, u32, Seq<[u8; 4]>)>) -> Seq<(u32, u32)> {
    fs.map_values(|f: ((u32, u32), u32, u32, Seq<[u8; 4]>)| f.0)
}

/// The widest frame's width (0 without frames).
pub open spec fn max_width(fs: Seq<((u32, u32), u32, u32, Seq<[u8; 4]>)>) -> u32
    decreases fs.len(),
{
    if fs.len() == 0 {
        0
    } else {
        let m = max_width(fs.drop_last());
        if fs.last().1 > m {
            fs.last().1
        } else {
            m
        }
    }
}

/// The tallest frame's height (0 without frames).
pub open spec fn max_height(fs: Seq<((u32, u32), u32, u32, Seq<[u8; 4]>)>) -> u32
    decreases fs.len(),
{
    if fs.len() == 0 {
        0
    } else {
        let m = max_height(fs.drop_last());
        if fs.last().2 > m {
            fs.last().2
        } else {
            m
        }
    }
}

/// An animation ready to play: its frames, when each frame ends, its
/// length, and the size of its largest canvas.
#[derive(Debug, Clone)]
pub struct Animation {
    pub frames: Vec<GifFrame>,
    pub ends_ms: Vec<u64>,
    pub total_ms: u64,
    pub pixel_w: u32,
    pub pixel_h: u32,
}

/// Loads an animated GIF: none when the bytes are no GIF or hold no
/// frame (or more frames than a 32-bit count); otherwise the frames with
/// their timeline and the largest canvas size.
pub fn load_animation(bytes: &Vec<u8>) -> (r: Option<Animation>)
    ensures
        match gif_frames(bytes@) {
            Some(fs) => if fs.len() == 0 || fs.len() > 0xffff_ffff {
                r is None
            } else {
                r matches Some(a) && {
                    &&& frames_view(a.frames@) == fs
                    &&& a.ends_ms@.len() == fs.len()
                    &&& forall|i: int| 0 <= i < fs.len() ==> a.ends_ms@[i] == #[trigger] frame_ends(delays_of(fs))[i]
                    &&& a.total_ms == frame_ends(delays_of(fs)).last()
                    &&& a.pixel_w == max_width(fs)
                    &&& a.pixel_h == max_height(fs)
                }
            },
            None => r is None,
        },
{
    let frames = match decode_gif(bytes) {
        Some(v) => v,
        None => return None,
    };
    if frames.len() == 0 || frames.len() > 0xffff_ffff {
        return None;
    }
    let ghost fs = frames_view(frames@);
    let mut delays: Vec<(u32, u32)> = Vec::new();
    let mut pixel_w: u32 = 0;
    let mut pixel_h: u32 = 0;
    let mut i: usize = 0;
    while i < frames.len()
        invariant
            i <= frames@.len(),
            fs == frames_view(frames@),
            delays@ == delays_of(fs.take(i as int)),
            pixel_w == max_width(fs.take(i as int)),
            pixel_h == max_height(fs.take(i as int)),
        decreases frames.len() - i,
    {
        let f = &frames[i];
        proof {
            assert(fs.take(i + 1).drop_last() =~= fs.take(i as int));
            assert(fs.take(i + 1).last() == frame_view(frames@[i as int]));
        }
        delays.push((f.delay_num, f.delay_denom));
        if f.width > pixel_w {
            pixel_w = f.width;
        }
        if f.height > pixel_h {
            pixel_h = f.height;
        }
        i = i + 1;
        proof {
            assert(delays@ =~= delays_of(fs.take(i as int)));
        }
    }
    assert(fs.take(frames.len() as int) =~= fs);
    let (ends_ms, total_ms) = frame_timeline(&delays);
    Some(Animation { frames, ends_ms, total_ms, pixel_w, pixel_h })
}

} // verus!
