//! The host terminal's 16-colour palette: parsing Ghostty themes, Kitty
//! configuration lines and OSC colour-query responses, the dark/light
//! decision, and the synthesis of missing bright colours.
use vstd::prelude::*;
use crate::binary64::{lemma_two_pow_values, round_binary64, round_binary64_exec, two_pow};
use crate::num::{
    all_hex, hex_val, lemma_hex_val_bound, parse_hex_nat, parse_hex_u64, parse_usize,
    parse_usize_spec, pow16, unsigned_body,
};
use crate::text::{
    chars_of, eq_str, first_match, is_char, is_ws, lemma_first_match, lines, lines_vec, skip_ws,
    slice, split_char, split_char_vec, split_once, split_once_vec, starts_with, strip_prefix,
    strip_prefix_str, trim, trim_end_chars, trim_end_chars_vec, trim_end_index, trim_start,
    trim_start_char, trim_start_char_vec, trim_vec, vec_has_prefix, views, char_is_ws,
};

verus! {

/// An RGB triple as the contracts see it.
pub type Rgb = (u8, u8, u8);

pub open spec fn trip(c: [u8; 3]) -> Rgb {
    (c[0], c[1], c[2])
}

#[derive(Clone, Copy, Debug, PartialEq, Eq)]
pub struct Palette {
    pub bg: [u8; 3],
    pub fg: [u8; 3],
    pub colors: [[u8; 3]; 16],
}

/// A palette as the contracts see it.
pub struct PaletteView {
    pub bg: Rgb,
    pub fg: Rgb,
    pub colors: Seq<Rgb>,
}

impl View for Palette {
    type V = PaletteView;

    open spec fn view(&self) -> PaletteView {
        PaletteView { bg: trip(self.bg), fg: trip(self.fg), colors: self.colors@.map_values(|c: [u8; 3]| trip(c)) }
    }
}

/// Catppuccin Mocha, the fallback palette.
pub open spec fn default_colors() -> Seq<Rgb> {
    seq![
        (69u8, 71u8, 90u8),
        (243u8, 139u8, 168u8),
        (166u8, 227u8, 161u8),
        (249u8, 226u8, 175u8),
        (137u8, 180u8, 250u8),
        (245u8, 194u8, 231u8),
        (148u8, 226u8, 213u8),
        (186u8, 194u8, 222u8),
        (88u8, 91u8, 112u8),
        (243u8, 139u8, 168u8),
        (166u8, 227u8, 161u8),
        (249u8, 226u8, 175u8),
        (137u8, 180u8, 250u8),
        (245u8, 194u8, 231u8),
        (148u8, 226u8, 213u8),
        (205u8, 214u8, 244u8),
    ]
}

pub open spec fn default_palette() -> PaletteView {
    PaletteView { bg: (30u8, 30u8, 46u8), fg: (205u8, 214u8, 244u8), colors: default_colors() }
}

impl Default for Palette {
    fn default() -> (p: Self)
        ensures
            p@ == default_palette(),
    {
        let p = Palette {
            bg: [30, 30, 46],
            fg: [205, 214, 244],
            colors: [
                [69, 71, 90],
                [243, 139, 168],
                [166, 227, 161],
                [249, 226, 175],
                [137, 180, 250],
                [245, 194, 231],
                [148, 226, 213],
                [186, 194, 222],
                [88, 91, 112],
                [243, 139, 168],
                [166, 227, 161],
                [249, 226, 175],
                [137, 180, 250],
                [245, 194, 231],
                [148, 226, 213],
                [205, 214, 244],
            ],
        };
        assert(p@.colors =~= default_colors());
        p
    }
}

/// Rec.709 weighted luma of a colour, in units of 1/2550000 of full white
/// (weights 0.2126, 0.7152, 0.0722 scaled by 10000, channels by 255).
pub open spec fn luma_scaled(c: Rgb) -> int {
    2126 * c.0 + 7152 * c.1 + 722 * c.2
}

/// The backgrounds whose luma is exactly one half but whose luminance,
/// summed in binary floating point as `0.2126 r/255 + 0.7152 g/255 +
/// 0.0722 b/255`, rounds to just below one half. Of the sixteen backgrounds
/// that sit exactly on the midline these seven are the ones that round down.
pub open spec fn rounds_below_half(bg: Rgb) -> bool {
    ||| bg == (13u8, 163u8, 113u8)
    ||| bg == (30u8, 153u8, 162u8)
    ||| bg == (78u8, 146u8, 90u8)
    ||| bg == (126u8, 139u8, 18u8)
    ||| bg == (143u8, 129u8, 67u8)
    ||| bg == (208u8, 112u8, 44u8)
    ||| bg == (225u8, 102u8, 93u8)
}

/// A background is dark when its luminance is below one half. Off the
/// midline that is exactly `luma_scaled(bg) < 1275000`; on it, the
/// luminance sum rounds below one half for the backgrounds of
/// `rounds_below_half`, and those count as dark.
pub open spec fn is_dark_bg(bg: Rgb) -> bool {
    ||| luma_scaled(bg) < 1275000
    ||| (luma_scaled(bg) == 1275000 && rounds_below_half(bg))
}

/// The two weights of a mix by `t` hundredths, for the mixes synthesis uses
/// (20, 30 and 35): the binary64 values of `1.0 - t/100` and `t/100`, each
/// as an integer multiple of `2^-55`.
pub open spec fn mix_weights(t: nat) -> (nat, nat) {
    if t == 20 {
        (28823037615171176, 7205759403792794)
    } else if t == 30 {
        (25220157913274776, 10808639105689190)
    } else {
        (23418718062326580, 12610078956637388)
    }
}

/// `x` moved toward `y` by `t` hundredths as binary64 arithmetic computes
/// `x * (1.0 - t) + y * t`: each product and the sum rounded to nearest,
/// then truncated to a byte (saturating at 255).
pub open spec fn lerp_channel(x: u8, y: u8, t: nat) -> u8 {
    let (a, b) = mix_weights(t);
    let s = round_binary64(round_binary64((x * a) as nat) + round_binary64((y * b) as nat));
    let q = s / two_pow(55);
    if q > 255 {
        255
    } else {
        q as u8
    }
}

pub open spec fn lerp_rgb(a: Rgb, b: Rgb, t: nat) -> Rgb {
    (lerp_channel(a.0, b.0, t), lerp_channel(a.1, b.1, t), lerp_channel(a.2, b.2, t))
}

pub open spec fn is_black(c: Rgb) -> bool {
    c.0 == 0 && c.1 == 0 && c.2 == 0
}

/// The colour a slot holds after `synthesize_brights`: bright slots that are
/// black become their basic slot lightened toward white (dark background,
/// 35%) or darkened toward black (light background, 20%); slot 8 instead
/// moves slot 0 30% toward the foreground. Other slots keep their colour.
pub open spec fn synthesized_slot(p: PaletteView, k: int) -> Rgb {
    let dark = is_dark_bg(p.bg);
    let anchor: Rgb = if dark {
        (255u8, 255u8, 255u8)
    } else {
        (0u8, 0u8, 0u8)
    };
    let t: nat = if dark {
        35
    } else {
        20
    };
    if k < 8 || !is_black(p.colors[k]) {
        p.colors[k]
    } else if k == 8 {
        lerp_rgb(p.colors[0], p.fg, 30)
    } else {
        lerp_rgb(p.colors[k - 8], anchor, t)
    }
}

pub open spec fn synthesized(p: PaletteView) -> PaletteView {
    PaletteView { bg: p.bg, fg: p.fg, colors: Seq::new(16, |k: int| synthesized_slot(p, k)) }
}

/// Synthesis leaves a palette whose bright slots are all set as it is, and
/// synthesizing a second time changes nothing.
pub proof fn synthesis_keeps_set_slots_and_is_idempotent(p: PaletteView)
    requires
        p.colors.len() == 16,
    ensures
        (forall|k: int| 8 <= k < 16 ==> !is_black(#[trigger] p.colors[k])) ==> synthesized(p) == p,
        synthesized(synthesized(p)) == synthesized(p),
{
    let q = synthesized(p);
    if forall|k: int| 8 <= k < 16 ==> !is_black(#[trigger] p.colors[k]) {
        assert(q.colors =~= p.colors);
    }
    assert forall|k: int| 0 <= k < 16 implies #[trigger] synthesized_slot(q, k) == q.colors[k] by {
        assert(q.colors[k] == synthesized_slot(p, k));
        if k >= 8 {
            assert(q.colors[k - 8] == p.colors[k - 8]);
            assert(q.colors[0] == p.colors[0]);
        }
    }
    assert(synthesized(q).colors =~= q.colors);
}

fn lerp_channel_exec(x: u8, y: u8, t: u8) -> (r: u8)
    requires
        t == 20 || t == 30 || t == 35,
    ensures
        r == lerp_channel(x, y, t as nat),
{
    let (a, b): (u128, u128) = if t == 20 {
        (28823037615171176, 7205759403792794)
    } else if t == 30 {
        (25220157913274776, 10808639105689190)
    } else {
        (23418718062326580, 12610078956637388)
    };
    let xw: u128 = x as u128;
    let yw: u128 = y as u128;
    assert(xw * a < 0x8000_0000_0000_0000 && yw * b < 0x8000_0000_0000_0000) by (nonlinear_arith)
        requires
            xw < 256,
            yw < 256,
            a < 0x80_0000_0000_0000,
            b < 0x80_0000_0000_0000,
    ;
    let pa = round_binary64_exec(xw * a);
    let pb = round_binary64_exec(yw * b);
    let s = round_binary64_exec(pa + pb);
    proof {
        lemma_two_pow_values();
    }
    let q: u128 = s / 0x80_0000_0000_0000;
    if q > 255 {
        255
    } else {
        q as u8
    }
}

fn lerp_rgb_exec(a: [u8; 3], b: [u8; 3], t: u8) -> (r: [u8; 3])
    requires
        t == 20 || t == 30 || t == 35,
    ensures
        trip(r) == lerp_rgb(trip(a), trip(b), t as nat),
{
    [lerp_channel_exec(a[0], b[0], t), lerp_channel_exec(a[1], b[1], t), lerp_channel_exec(a[2], b[2], t)]
}

fn black(c: [u8; 3]) -> (b: bool)
    ensures
        b == is_black(trip(c)),
{
    c[0] == 0 && c[1] == 0 && c[2] == 0
}

impl Palette {
    /// True when the background is darker than the midline.
    pub fn is_dark(&self) -> (b: bool)
        ensures
            b == is_dark_bg(self@.bg),
    {
        let l: u32 = 2126 * self.bg[0] as u32 + 7152 * self.bg[1] as u32 + 722 * self.bg[2] as u32;
        if l < 1275000 {
            true
        } else if l > 1275000 {
            false
        } else {
            let (r, g, b) = (self.bg[0], self.bg[1], self.bg[2]);
            (r == 13 && g == 163 && b == 113) || (r == 30 && g == 153 && b == 162) || (r == 78
                && g == 146 && b == 90) || (r == 126 && g == 139 && b == 18) || (r == 143 && g
                == 129 && b == 67) || (r == 208 && g == 112 && b == 44) || (r == 225 && g == 102
                && b == 93)
        }
    }

    /// True when all eight bright slots are black.
    pub fn brights_uninitialized(&self) -> (b: bool)
        ensures
            b == (forall|k: int| 8 <= k < 16 ==> is_black(#[trigger] self@.colors[k])),
    {
        let mut i: usize = 8;
        while i < 16
            invariant
                8 <= i <= 16,
                forall|k: int| 8 <= k < i ==> is_black(#[trigger] self@.colors[k]),
            decreases 16 - i,
        {
            if !black(self.colors[i]) {
                assert(!is_black(self@.colors[i as int]));
                return false;
            }
            i = i + 1;
        }
        true
    }

    /// Fills the bright slots that are still black from their basic slots.
    pub fn synthesize_brights(&mut self)
        ensures
            final(self)@ == synthesized(old(self)@),
    {
        let ghost p0 = self@;
        let dark = self.is_dark();
        let anchor: [u8; 3] = if dark {
            [255, 255, 255]
        } else {
            [0, 0, 0]
        };
        let t: u8 = if dark {
            35
        } else {
            20
        };
        if black(self.colors[8]) {
            let c = lerp_rgb_exec(self.colors[0], self.fg, 30);
            self.colors[8] = c;
        }
        let mut i: usize = 1;
        while i <= 7
            invariant
                1 <= i <= 8,
                self.bg == old(self).bg,
                self.fg == old(self).fg,
                p0 == old(self)@,
                dark == is_dark_bg(p0.bg),
                trip(anchor) == (if dark {
                    (255u8, 255u8, 255u8)
                } else {
                    (0u8, 0u8, 0u8)
                }),
                t == (if dark {
                    35u8
                } else {
                    20u8
                }),
                forall|k: int| 0 <= k < 8 ==> self@.colors[k] == p0.colors[k],
                forall|k: int| 8 <= k < 8 + i ==> self@.colors[k] == synthesized_slot(p0, k),
                forall|k: int| 8 + i <= k < 16 ==> self@.colors[k] == p0.colors[k],
            decreases 8 - i,
        {
            if black(self.colors[8 + i]) {
                let c = lerp_rgb_exec(self.colors[i], anchor, t);
                self.colors[8 + i] = c;
            }
            i = i + 1;
        }
        assert(self@.colors =~= synthesized(p0).colors);
    }
}

/// A two-digit hexadecimal byte as `u8::from_str_radix(_, 16)` reads it.
pub open spec fn hex_byte(p: Seq<char>) -> Option<u8> {
    match parse_hex_nat(p) {
        Some(n) => if n <= 255 {
            Some(n as u8)
        } else {
            None
        },
        None => None,
    }
}

/// A `#rrggbb` colour: surrounding whitespace and any leading `'#'`s are
/// dropped, six characters must remain, read as three hexadecimal bytes.
pub open spec fn hex_color_spec(s: Seq<char>) -> Option<Rgb> {
    let t = trim_start_char(trim(s), '#');
    if t.len() != 6 {
        None
    } else {
        match (hex_byte(t.subrange(0, 2)), hex_byte(t.subrange(2, 4)), hex_byte(t.subrange(4, 6))) {
            (Some(r), Some(g), Some(b)) => Some((r, g, b)),
            _ => None,
        }
    }
}

fn hex_byte_exec(v: &Vec<char>, lo: usize) -> (r: Option<u8>)
    requires
        lo + 2 <= v.len(),
    ensures
        match hex_byte(v@.subrange(lo as int, lo + 2)) {
            Some(b) => r == Some(b),
            None => r is None,
        },
{
    let part = slice(v, lo, lo + 2);
    match parse_hex_u64(&part) {
        Some(n) => {
            if n <= 255 {
                Some(n as u8)
            } else {
                None
            }
        },
        None => None,
    }
}

fn hex_color_vec(v: &Vec<char>) -> (r: Option<[u8; 3]>)
    ensures
        match hex_color_spec(v@) {
            Some(c) => r matches Some(x) && trip(x) == c,
            None => r is None,
        },
{
    let t0 = trim_vec(v);
    let t = trim_start_char_vec(&t0, '#');
    if t.len() != 6 {
        return None;
    }
    let r = hex_byte_exec(&t, 0);
    let g = hex_byte_exec(&t, 2);
    let b = hex_byte_exec(&t, 4);
    match (r, g, b) {
        (Some(r), Some(g), Some(b)) => Some([r, g, b]),
        _ => None,
    }
}

/// Parses a `#rrggbb` (or `rrggbb`) colour.
pub fn parse_hex_color(s: &str) -> (r: Option<[u8; 3]>)
    ensures
        match hex_color_spec(s@) {
            Some(c) => r matches Some(x) && trip(x) == c,
            None => r is None,
        },
{
    let v = chars_of(s);
    hex_color_vec(&v)
}

/// `line` begins with `key`, then optional whitespace, `'='`, and a value
/// that is not blank; the value is returned with its surrounding
/// whitespace trimmed.
pub open spec fn strip_kv_spec(line: Seq<char>, key: Seq<char>) -> Option<Seq<char>> {
    match strip_prefix(line, key) {
        None => None,
        Some(r1) => match strip_prefix(trim_start(r1), "="@) {
            None => None,
            Some(r2) => if trim(r2).len() == 0 {
                None
            } else {
                Some(trim(r2))
            },
        },
    }
}

/// Bounds `(lo, hi)` of the value of a `key = value` line within `v`.
fn strip_kv_bounds(v: &Vec<char>, key: &Vec<char>) -> (r: Option<(usize, usize)>)
    ensures
        match strip_kv_spec(v@, key@) {
            Some(x) => r matches Some((lo, hi)) && lo <= hi <= v.len() && v@.subrange(
                lo as int,
                hi as int,
            ) == x,
            None => r is None,
        },
{
    if !vec_has_prefix(v, key) {
        return None;
    }
    let k = key.len();
    let i = skip_ws(v, k);
    proof {
        assert(v@.skip(k as int) =~= strip_prefix(v@, key@).unwrap());
        reveal_strlit("=");
    }
    if i >= v.len() || v[i] != '=' {
        proof {
            let ts = v@.skip(i as int);
            if starts_with(ts, "="@) {
                assert(ts.take(1)[0] == ts[0]);
                assert(false);
            }
        }
        return None;
    }
    proof {
        let ts = v@.skip(i as int);
        assert(ts.take(1) =~= "="@);
        assert(ts.skip(1) =~= v@.skip(i + 1));
    }
    let lo = skip_ws(v, i + 1);
    let hi = trim_end_index(v, lo, v.len());
    proof {
        assert(v@.subrange(lo as int, v.len() as int) =~= v@.skip(lo as int));
        assert(trim(v@.skip(i + 1)) == v@.subrange(lo as int, hi as int));
    }
    if lo == hi {
        return None;
    }
    Some((lo, hi))
}

/// The value of a `key = value` line, or `None` when the line has another
/// shape or a blank value.
pub fn strip_kv<'a>(line: &'a str, key: &str) -> (r: Option<&'a str>)
    ensures
        match strip_kv_spec(line@, key@) {
            Some(x) => r matches Some(y) && y@ == x,
            None => r is None,
        },
{
    let v = chars_of(line);
    let k = chars_of(key);
    match strip_kv_bounds(&v, &k) {
        Some((lo, hi)) => Some(line.substring_char(lo, hi)),
        None => None,
    }
}

fn strip_kv_vec(v: &Vec<char>, key: &str) -> (r: Option<Vec<char>>)
    ensures
        match strip_kv_spec(v@, key@) {
            Some(x) => r matches Some(y) && y@ == x,
            None => r is None,
        },
{
    let k = chars_of(key);
    match strip_kv_bounds(v, &k) {
        Some((lo, hi)) => Some(slice(v, lo, hi)),
        None => None,
    }
}

/// One channel of an OSC colour reply: 1, 2 or 4 hexadecimal digits,
/// scaled to a byte (a single digit is repeated, four digits keep the
/// high byte).
pub open spec fn rgb_component(p: Seq<char>) -> Option<u8> {
    match parse_hex_nat(p) {
        Some(v) => if v > u32::MAX {
            None
        } else if p.len() == 1 {
            Some((v * 17) as u8)
        } else if p.len() == 2 {
            Some(v as u8)
        } else if p.len() == 4 {
            Some((v / 256) as u8)
        } else {
            None
        },
        None => None,
    }
}

/// An OSC colour reply body `rgb:R/G/B`.
pub open spec fn parse_rgb_spec(s: Seq<char>) -> Option<Rgb> {
    match strip_prefix(trim(s), "rgb:"@) {
        None => None,
        Some(rest) => {
            let parts = split_char(rest, '/');
            if parts.len() != 3 {
                None
            } else {
                match (rgb_component(parts[0]), rgb_component(parts[1]), rgb_component(parts[2])) {
                    (Some(r), Some(g), Some(b)) => Some((r, g, b)),
                    _ => None,
                }
            }
        },
    }
}

proof fn lemma_parsed_hex_bound(p: Seq<char>)
    requires
        parse_hex_nat(p) is Some,
    ensures
        parse_hex_nat(p).unwrap() < pow16(unsigned_body(p).len()),
        unsigned_body(p).len() <= p.len(),
{
    lemma_hex_val_bound(unsigned_body(p));
}

fn rgb_component_exec(p: &Vec<char>) -> (r: Option<u8>)
    ensures
        match rgb_component(p@) {
            Some(b) => r == Some(b),
            None => r is None,
        },
{
    match parse_hex_u64(p) {
        Some(v) => {
            proof {
                lemma_parsed_hex_bound(p@);
                reveal_with_fuel(pow16, 5);
            }
            if v > 0xFFFF_FFFF {
                None
            } else if p.len() == 1 {
                Some((v * 17) as u8)
            } else if p.len() == 2 {
                Some(v as u8)
            } else if p.len() == 4 {
                Some((v / 256) as u8)
            } else {
                None
            }
        },
        None => None,
    }
}

fn parse_rgb_vec(s: &Vec<char>) -> (r: Option<[u8; 3]>)
    ensures
        match parse_rgb_spec(s@) {
            Some(c) => r matches Some(x) && trip(x) == c,
            None => r is None,
        },
{
    let t = trim_vec(s);
    let rest = match strip_prefix_str(&t, "rgb:") {
        Some(x) => x,
        None => return None,
    };
    let parts = split_char_vec(&rest, '/');
    if parts.len() != 3 {
        return None;
    }
    proof {
        assert(views(parts@)[0] == parts@[0]@);
        assert(views(parts@)[1] == parts@[1]@);
        assert(views(parts@)[2] == parts@[2]@);
    }
    let r = match rgb_component_exec(&parts[0]) {
        Some(x) => x,
        None => return None,
    };
    let g = match rgb_component_exec(&parts[1]) {
        Some(x) => x,
        None => return None,
    };
    let b = match rgb_component_exec(&parts[2]) {
        Some(x) => x,
        None => return None,
    };
    Some([r, g, b])
}

/// Parses an OSC colour reply body such as `rgb:1e1e/1e1e/2e2e`.
pub fn parse_rgb(s: &str) -> (r: Option<[u8; 3]>)
    ensures
        match parse_rgb_spec(s@) {
            Some(c) => r matches Some(x) && trip(x) == c,
            None => r is None,
        },
{
    let v = chars_of(s);
    parse_rgb_vec(&v)
}

pub open spec fn with_bg(p: PaletteView, c: Rgb) -> PaletteView {
    PaletteView { bg: c, ..p }
}

pub open spec fn with_fg(p: PaletteView, c: Rgb) -> PaletteView {
    PaletteView { fg: c, ..p }
}

pub open spec fn with_slot(p: PaletteView, i: int, c: Rgb) -> PaletteView {
    PaletteView { colors: p.colors.update(i, c), ..p }
}

pub open spec fn osc_terminators() -> Seq<char> {
    seq!['\x07', '\\']
}

/// One OSC reply applied to the palette: `11;` sets the background, `10;`
/// the foreground, `4;N;` basic slot N when N is below 8.
pub open spec fn response_step(p: PaletteView, chunk: Seq<char>) -> PaletteView {
    match strip_prefix(chunk, "]"@) {
        None => p,
        Some(b0) => {
            let body = trim_end_chars(b0, osc_terminators());
            if let Some(rest) = strip_prefix(body, "11;"@) {
                match parse_rgb_spec(rest) {
                    Some(c) => with_bg(p, c),
                    None => p,
                }
            } else if let Some(rest) = strip_prefix(body, "10;"@) {
                match parse_rgb_spec(rest) {
                    Some(c) => with_fg(p, c),
                    None => p,
                }
            } else if let Some(rest) = strip_prefix(body, "4;"@) {
                match split_once(rest, ';') {
                    Some((idx, color)) => match (parse_usize_spec(idx), parse_rgb_spec(color)) {
                        (Some(i), Some(c)) => if i < 8 {
                            with_slot(p, i as int, c)
                        } else {
                            p
                        },
                        _ => p,
                    },
                    None => p,
                }
            } else {
                p
            }
        },
    }
}

pub open spec fn responses_scan(p: PaletteView, chunks: Seq<Seq<char>>) -> PaletteView
    decreases chunks.len(),
{
    if chunks.len() == 0 {
        p
    } else {
        response_step(responses_scan(p, chunks.drop_last()), chunks.last())
    }
}

/// The palette that a terminal's OSC 10/11/4 replies describe, starting
/// from the default palette; the text is split at each ESC.
pub open spec fn parse_responses_spec(text: Seq<char>) -> PaletteView {
    responses_scan(default_palette(), split_char(text, '\x1b'))
}

fn set_slot(p: &mut Palette, i: usize, c: [u8; 3])
    requires
        i < 16,
    ensures
        final(p)@ == with_slot(old(p)@, i as int, trip(c)),
{
    p.colors[i] = c;
    assert(p@.colors =~= old(p)@.colors.update(i as int, trip(c)));
}

fn apply_response(p: &mut Palette, chunk: &Vec<char>)
    ensures
        final(p)@ == response_step(old(p)@, chunk@),
{
    let b0 = match strip_prefix_str(chunk, "]") {
        Some(x) => x,
        None => return,
    };
    let term = chars_of("\x07\\");
    assert(term@ =~= osc_terminators()) by {
        reveal_strlit("\x07\\");
    }
    let body = trim_end_chars_vec(&b0, &term);
    if let Some(rest) = strip_prefix_str(&body, "11;") {
        if let Some(c) = parse_rgb_vec(&rest) {
            p.bg = c;
        }
    } else if let Some(rest) = strip_prefix_str(&body, "10;") {
        if let Some(c) = parse_rgb_vec(&rest) {
            p.fg = c;
        }
    } else if let Some(rest) = strip_prefix_str(&body, "4;") {
        if let Some((idx_str, color)) = split_once_vec(&rest, ';') {
            let idx = parse_usize(&idx_str);
            let rgb = parse_rgb_vec(&color);
            if let (Some(i), Some(c)) = (idx, rgb) {
                if i < 8 {
                    set_slot(p, i, c);
                }
            }
        }
    }
}

/// Reads the terminal's replies to the OSC colour queries into a palette;
/// slots without a usable reply keep their default colour.
pub fn parse_responses(text: &str) -> (p: Palette)
    ensures
        p@ == parse_responses_spec(text@),
{
    let v = chars_of(text);
    let chunks = split_char_vec(&v, '\x1b');
    let mut p = Palette::default();
    let ghost cv = views(chunks@);
    let mut i: usize = 0;
    while i < chunks.len()
        invariant
            i <= chunks.len(),
            cv == views(chunks@),
            cv == split_char(text@, '\x1b'),
            p@ == responses_scan(default_palette(), cv.take(i as int)),
        decreases chunks.len() - i,
    {
        apply_response(&mut p, &chunks[i]);
        proof {
            assert(cv.take(i + 1).drop_last() =~= cv.take(i as int));
            assert(cv.take(i + 1).last() == chunks@[i as int]@);
        }
        i = i + 1;
    }
    proof {
        assert(cv.take(chunks.len() as int) =~= cv);
    }
    p
}

/// The starting point of theme parsing: the default palette with its
/// bright slots black, so that synthesis fills the ones a theme leaves unset.
pub open spec fn theme_start() -> PaletteView {
    PaletteView {
        colors: Seq::new(
            16,
            |k: int|
                if k < 8 {
                    default_colors()[k]
                } else {
                    (0u8, 0u8, 0u8)
                },
        ),
        ..default_palette()
    }
}

fn theme_start_exec() -> (p: Palette)
    ensures
        p@ == theme_start(),
{
    let mut p = Palette::default();
    let mut i: usize = 8;
    while i < 16
        invariant
            8 <= i <= 16,
            p@.bg == default_palette().bg,
            p@.fg == default_palette().fg,
            p@.colors.len() == 16,
            forall|k: int| 0 <= k < 8 ==> p@.colors[k] == default_colors()[k],
            forall|k: int| 8 <= k < i ==> p@.colors[k] == (0u8, 0u8, 0u8),
        decreases 16 - i,
    {
        set_slot(&mut p, i, [0, 0, 0]);
        i = i + 1;
    }
    assert(p@.colors =~= theme_start().colors);
    p
}

/// Theme parsing state: the palette so far and how many basic slots
/// (0 to 7) the theme has set.
pub type ThemeState = (PaletteView, nat);

/// A palette slot assignment `N = #rrggbb` applied to the state.
pub open spec fn assign_slot(st: ThemeState, idx_str: Seq<char>, color: Seq<char>) -> ThemeState {
    match parse_usize_spec(idx_str) {
        Some(i) => if i < 16 {
            match hex_color_spec(color) {
                Some(c) => (with_slot(st.0, i as int, c), if i < 8 {
                    st.1 + 1
                } else {
                    st.1
                }),
                None => st,
            }
        } else {
            st
        },
        None => st,
    }
}

/// One line of a Ghostty theme applied to the state: `palette = N=#rrggbb`,
/// `background = #rrggbb` and `foreground = #rrggbb` are read, other lines
/// are ignored.
pub open spec fn ghostty_step(st: ThemeState, line: Seq<char>) -> ThemeState {
    let l = trim(line);
    match strip_kv_spec(l, "palette"@) {
        Some(rest) => match split_once(rest, '=') {
            Some((i, c)) => assign_slot(st, trim(i), trim(c)),
            None => st,
        },
        None => match strip_kv_spec(l, "background"@) {
            Some(rest) => match hex_color_spec(rest) {
                Some(c) => (with_bg(st.0, c), st.1),
                None => st,
            },
            None => match strip_kv_spec(l, "foreground"@) {
                Some(rest) => match hex_color_spec(rest) {
                    Some(c) => (with_fg(st.0, c), st.1),
                    None => st,
                },
                None => st,
            },
        },
    }
}

pub open spec fn ghostty_scan(ls: Seq<Seq<char>>) -> ThemeState
    decreases ls.len(),
{
    if ls.len() == 0 {
        (theme_start(), 0)
    } else {
        ghostty_step(ghostty_scan(ls.drop_last()), ls.last())
    }
}

/// A theme that sets at least six of the eight basic slots gives a
/// palette, with its missing brights synthesized; others give none.
pub open spec fn finish_theme(st: ThemeState) -> Option<PaletteView> {
    if st.1 >= 6 {
        Some(synthesized(st.0))
    } else {
        None
    }
}

pub open spec fn parse_ghostty_spec(text: Seq<char>) -> Option<PaletteView> {
    finish_theme(ghostty_scan(lines(text)))
}

fn assign_slot_exec(p: &mut Palette, count: &mut usize, idx_str: &Vec<char>, color: &Vec<char>)
    requires
        *old(count) < usize::MAX,
    ensures
        (final(p)@, *final(count) as nat) == assign_slot((old(p)@, *old(count) as nat), idx_str@, color@),
        *final(count) <= *old(count) + 1,
{
    if let Some(i) = parse_usize(idx_str) {
        if i < 16 {
            if let Some(c) = hex_color_vec(color) {
                set_slot(p, i, c);
                if i < 8 {
                    *count = *count + 1;
                }
            }
        }
    }
}

/// Parses a Ghostty theme file (`palette = N=#rrggbb`, `background = ...`,
/// `foreground = ...`).
pub fn parse_ghostty_theme(text: &str) -> (r: Option<Palette>)
    ensures
        match parse_ghostty_spec(text@) {
            Some(pv) => r matches Some(p) && p@ == pv,
            None => r is None,
        },
{
    let v = chars_of(text);
    let ls = lines_vec(&v);
    let ghost lv = views(ls@);
    let mut p = theme_start_exec();
    let mut count: usize = 0;
    let mut i: usize = 0;
    while i < ls.len()
        invariant
            i <= ls.len(),
            count <= i,
            lv == views(ls@),
            lv == lines(text@),
            (p@, count as nat) == ghostty_scan(lv.take(i as int)),
        decreases ls.len() - i,
    {
        let line = trim_vec(&ls[i]);
        if let Some(rest) = strip_kv_vec(&line, "palette") {
            if let Some((idx_str, color)) = split_once_vec(&rest, '=') {
                let it = trim_vec(&idx_str);
                let ct = trim_vec(&color);
                assign_slot_exec(&mut p, &mut count, &it, &ct);
            }
        } else if let Some(rest) = strip_kv_vec(&line, "background") {
            if let Some(c) = hex_color_vec(&rest) {
                p.bg = c;
            }
        } else if let Some(rest) = strip_kv_vec(&line, "foreground") {
            if let Some(c) = hex_color_vec(&rest) {
                p.fg = c;
            }
        }
        proof {
            assert(lv.take(i + 1).drop_last() =~= lv.take(i as int));
            assert(lv.take(i + 1).last() == ls@[i as int]@);
        }
        i = i + 1;
    }
    proof {
        assert(lv.take(ls.len() as int) =~= lv);
    }
    if count >= 6 {
        p.synthesize_brights();
        Some(p)
    } else {
        None
    }
}

/// `s` split once at its first whitespace character.
pub open spec fn split_once_ws(s: Seq<char>) -> Option<(Seq<char>, Seq<char>)> {
    let j = first_match(s, |c: char| is_ws(c));
    if j < s.len() {
        Some((s.take(j as int), s.skip(j + 1 as int)))
    } else {
        None
    }
}

/// What one Kitty configuration line contributes: an `include` target to
/// read, or an update of the theme state.
pub open spec fn kitty_step(st: ThemeState, line: Seq<char>) -> (ThemeState, Option<Seq<char>>) {
    let l = trim(line);
    if l.len() == 0 || starts_with(l, "#"@) {
        (st, None)
    } else if let Some(rest) = strip_prefix(l, "include "@) {
        (st, Some(trim(rest)))
    } else {
        match split_once_ws(l) {
            Some((k0, v0)) => {
                let key = trim(k0);
                let value = trim(v0);
                if let Some(idx) = strip_prefix(key, "color"@) {
                    (assign_slot(st, idx, value), None)
                } else if key == "background"@ {
                    match hex_color_spec(value) {
                        Some(c) => ((with_bg(st.0, c), st.1), None),
                        None => (st, None),
                    }
                } else if key == "foreground"@ {
                    match hex_color_spec(value) {
                        Some(c) => ((with_fg(st.0, c), st.1), None),
                        None => (st, None),
                    }
                } else {
                    (st, None)
                }
            },
            None => (st, None),
        }
    }
}

/// The state and the include targets (in order) after reading lines.
pub open spec fn kitty_scan(st: ThemeState, ls: Seq<Seq<char>>) -> (ThemeState, Seq<Seq<char>>)
    decreases ls.len(),
{
    if ls.len() == 0 {
        (st, seq![])
    } else {
        let prev = kitty_scan(st, ls.drop_last());
        let step = kitty_step(prev.0, ls.last());
        (step.0, match step.1 {
            Some(inc) => prev.1.push(inc),
            None => prev.1,
        })
    }
}

/// Kitty configuration reading, file by file: the theme state built from
/// the lines read so far. Which files to read (the main configuration and
/// the targets of its `include` lines) is decided by the caller.
pub struct KittyScan {
    pub palette: Palette,
    pub slots_set: usize,
}

impl KittyScan {
    pub open spec fn state(&self) -> ThemeState {
        (self.palette@, self.slots_set as nat)
    }

    /// The default palette with black brights, no slot set yet.
    pub fn new() -> (s: KittyScan)
        ensures
            s.state() == (theme_start(), 0nat),
    {
        KittyScan { palette: theme_start_exec(), slots_set: 0 }
    }

    /// Applies the lines of one configuration file and returns the targets
    /// of its `include` lines, in order.
    pub fn apply_text(&mut self, contents: &str) -> (includes: Vec<String>)
        requires
            old(self).slots_set as nat + lines(contents@).len() <= usize::MAX,
        ensures
            (final(self).state(), includes@.map_values(|s: String| s@)) == kitty_scan(
                old(self).state(),
                lines(contents@),
            ),
    {
        let v = chars_of(contents);
        let ls = lines_vec(&v);
        let ghost lv = views(ls@);
        let ghost st0 = self.state();
        let mut includes: Vec<String> = Vec::new();
        let mut i: usize = 0;
        while i < ls.len()
            invariant
                i <= ls.len(),
                lv == views(ls@),
                lv == lines(contents@),
                self.slots_set <= st0.1 + i,
                st0.1 + lv.len() <= usize::MAX,
                (self.state(), includes@.map_values(|s: String| s@)) == kitty_scan(
                    st0,
                    lv.take(i as int),
                ),
            decreases ls.len() - i,
        {
            let ghost inc_before = includes@.map_values(|s: String| s@);
            let line = trim_vec(&ls[i]);
            let ghost l = line@;
            proof {
                reveal_strlit("#");
            }
            if line.len() == 0 || line[0] == '#' {
                proof {
                    if line.len() > 0 {
                        assert(starts_with(l, "#"@)) by {
                            assert(l.take(1) =~= "#"@);
                        }
                    }
                }
            } else if let Some(rest) = strip_prefix_str(&line, "include ") {
                proof {
                    if starts_with(l, "#"@) {
                        assert(l.take(1)[0] == l[0]);
                    }
                }
                let target = trim_vec(&rest);
                includes.push(crate::text::string_of(&target));
                proof {
                    assert(includes@.map_values(|s: String| s@) =~= inc_before.push(target@));
                }
            } else {
                proof {
                    if starts_with(l, "#"@) {
                        assert(l.take(1)[0] == l[0]);
                    }
                }
                let j = find_ws(&line);
                proof {
                    lemma_first_match(l, |c: char| is_ws(c), j as int);
                }
                if j < line.len() {
                    let k0 = slice(&line, 0, j);
                    let v0 = slice(&line, j + 1, line.len());
                    let key = trim_vec(&k0);
                    let value = trim_vec(&v0);
                    proof {
                        assert(k0@ =~= l.take(j as int));
                        assert(v0@ =~= l.skip(j + 1));
                    }
                    if let Some(idx_str) = strip_prefix_str(&key, "color") {
                        assign_slot_exec(&mut self.palette, &mut self.slots_set, &idx_str, &value);
                    } else if eq_str(&key, "background") {
                        if let Some(c) = hex_color_vec(&value) {
                            self.palette.bg = c;
                        }
                    } else if eq_str(&key, "foreground") {
                        if let Some(c) = hex_color_vec(&value) {
                            self.palette.fg = c;
                        }
                    }
                }
            }
            proof {
                assert(lv.take(i + 1).drop_last() =~= lv.take(i as int));
                assert(lv.take(i + 1).last() == ls@[i as int]@);
            }
            i = i + 1;
        }
        proof {
            assert(lv.take(ls.len() as int) =~= lv);
        }
        includes
    }

    /// The palette the configuration describes, when it set at least six
    /// basic slots; missing brights are synthesized.
    pub fn finish(self) -> (r: Option<Palette>)
        ensures
            match finish_theme(self.state()) {
                Some(pv) => r matches Some(p) && p@ == pv,
                None => r is None,
            },
    {
        let mut p = self.palette;
        if self.slots_set >= 6 {
            p.synthesize_brights();
            Some(p)
        } else {
            None
        }
    }
}

fn find_ws(v: &Vec<char>) -> (j: usize)
    ensures
        j <= v.len(),
        forall|k: int| 0 <= k < j ==> !is_ws(#[trigger] v@[k]),
        j < v.len() ==> is_ws(v@[j as int]),
{
    let mut j: usize = 0;
    while j < v.len() && !char_is_ws(v[j])
        invariant
            j <= v.len(),
            forall|k: int| 0 <= k < j ==> !is_ws(#[trigger] v@[k]),
        decreases v.len() - j,
    {
        j = j + 1;
    }
    j
}

/// The paths of a list of strings.
pub open spec fn paths_of(v: Seq<String>) -> Seq<Seq<char>> {
    v.map_values(|s: String| s@)
}

/// The next file to read from a stack of pending paths (last pushed on top):
/// paths already read are popped and skipped; the first unread one is
/// popped and returned, with what is left of the stack.
pub open spec fn next_unread(pending: Seq<Seq<char>>, read: Seq<Seq<char>>) -> (
    Seq<Seq<char>>,
    Option<Seq<char>>,
)
    decreases pending.len(),
{
    if pending.len() == 0 {
        (pending, None)
    } else if read.contains(pending.last()) {
        next_unread(pending.drop_last(), read)
    } else {
        (pending.drop_last(), Some(pending.last()))
    }
}

proof fn lemma_next_unread_is_unread(pending: Seq<Seq<char>>, read: Seq<Seq<char>>)
    ensures
        next_unread(pending, read).1 matches Some(p) ==> !read.contains(p),
    decreases pending.len(),
{
    if pending.len() > 0 && read.contains(pending.last()) {
        lemma_next_unread_is_unread(pending.drop_last(), read);
    }
}

/// The order in which configuration files are read when each may include
/// others: a stack of paths still to read and the list of paths already
/// read. A path is read at most once, so include cycles end.
pub struct IncludeWalk {
    pub pending: Vec<String>,
    pub read: Vec<String>,
}

impl IncludeWalk {
    /// A walk that starts at `start`.
    pub fn new(start: String) -> (w: IncludeWalk)
        ensures
            paths_of(w.pending@) == seq![start@],
            paths_of(w.read@) == Seq::<Seq<char>>::empty(),
    {
        let mut pending: Vec<String> = Vec::new();
        let ghost s = start@;
        pending.push(start);
        let w = IncludeWalk { pending, read: Vec::new() };
        assert(paths_of(w.pending@) =~= seq![s]);
        assert(paths_of(w.read@) =~= Seq::<Seq<char>>::empty());
        w
    }

    /// The next path to read, marked read; `None` once the stack is empty.
    /// A path already read is never returned again.
    pub fn next_file(&mut self) -> (f: Option<String>)
        ensures
            paths_of(final(self).pending@) == next_unread(
                paths_of(old(self).pending@),
                paths_of(old(self).read@),
            ).0,
            (match f {
                Some(s) => Some(s@),
                None => None,
            }) == next_unread(
                paths_of(old(self).pending@),
                paths_of(old(self).read@),
            ).1,
            paths_of(final(self).read@) == (match f {
                Some(s) => paths_of(old(self).read@).push(s@),
                None => paths_of(old(self).read@),
            }),
            f matches Some(s) ==> !paths_of(old(self).read@).contains(s@),
    {
        let ghost read0 = paths_of(self.read@);
        let ghost goal = next_unread(paths_of(self.pending@), read0);
        proof {
            lemma_next_unread_is_unread(paths_of(self.pending@), read0);
        }
        while self.pending.len() > 0
            invariant
                paths_of(self.read@) == read0,
                read0 == paths_of(old(self).read@),
                goal == next_unread(paths_of(old(self).pending@), read0),
                next_unread(paths_of(self.pending@), read0) == goal,
            decreases self.pending.len(),
        {
            let ghost before = paths_of(self.pending@);
            let top = self.pending.pop().unwrap();
            assert(paths_of(self.pending@) =~= before.drop_last());
            assert(before.last() == top@);
            let mut seen = false;
            let mut i: usize = 0;
            while i < self.read.len()
                invariant
                    i <= self.read.len(),
                    paths_of(self.read@) == read0,
                    seen == (exists|j: int| 0 <= j < i && read0[j] == top@),
                decreases self.read.len() - i,
            {
                assert(read0[i as int] == self.read@[i as int]@);
                if self.read[i] == top {
                    seen = true;
                }
                i = i + 1;
            }
            assert(seen == read0.contains(top@));
            if !seen {
                let ghost s = top@;
                assert(next_unread(before, read0) == (before.drop_last(), Some(s)));
                self.read.push(top.clone());
                assert(paths_of(self.read@) =~= read0.push(s));
                return Some(top);
            }
            assert(next_unread(before, read0) == next_unread(before.drop_last(), read0));
        }
        assert(paths_of(self.pending@) =~= Seq::<Seq<char>>::empty());
        None
    }

    /// Puts the include targets of the file just read on the stack, in
    /// order, so the last of them is read next.
    pub fn push_includes(&mut self, paths: Vec<String>)
        ensures
            paths_of(final(self).pending@) == paths_of(old(self).pending@) + paths_of(paths@),
            final(self).read@ == old(self).read@,
    {
        let mut i: usize = 0;
        let ghost start = paths_of(self.pending@);
        while i < paths.len()
            invariant
                i <= paths.len(),
                paths_of(self.pending@) == start + paths_of(paths@).take(i as int),
                self.read@ == old(self).read@,
            decreases paths.len() - i,
        {
            let ghost before = self.pending@;
            let p = paths[i].clone();
            self.pending.push(p);
            assert(self.pending@ =~= before.push(paths@[i as int]));
            assert(paths_of(self.pending@) =~= paths_of(before).push(paths@[i as int]@));
            assert(paths_of(paths@).take(i + 1) =~= paths_of(paths@).take(i as int).push(paths@[i as int]@));
            assert(paths_of(self.pending@) =~= start + paths_of(paths@).take(i + 1));
            i = i + 1;
        }
        assert(paths_of(paths@).take(paths.len() as int) =~= paths_of(paths@));
    }
}

} // verus!
