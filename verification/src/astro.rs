//! Astronomy picture viewer: calendar dates, the APOD query URL, view
//! modes, the theme palette used to tint pictures, and pixel access.
use vstd::prelude::*;
use crate::num::{dec_chars, digit_char, push_dec};
use crate::text::{
    char_is_ws, chars_of, has_prefix, is_ws, lines, push_all, push_str, slice, starts_with, string_of, trim,
    trim_start, trim_start_vec, trim_vec, views,
};
use crate::binary64::{
    b64_gt, b64_gt_exec, b64_to_u32, b64_to_u32_exec, round_ratio, round_ratio_exec,
};
use crate::json::{field_value, json_value_of, object_field, read_json_value, JsonValue};
use crate::theme::{hex_color_spec, split_once_ws, Rgb, trip};

verus! {

#[derive(Clone, Copy, Debug, PartialEq, Eq, Structural)]
pub enum ViewMode {
    Ascii,
    Pixels,
    Themed,
    Photo,
}

pub open spec fn view_mode_label(m: ViewMode) -> Seq<char> {
    match m {
        ViewMode::Ascii => "ASCII"@,
        ViewMode::Pixels => "Pixels"@,
        ViewMode::Themed => "Themed"@,
        ViewMode::Photo => "Photo"@,
    }
}

pub open spec fn view_mode_next(m: ViewMode) -> ViewMode {
    match m {
        ViewMode::Ascii => ViewMode::Pixels,
        ViewMode::Pixels => ViewMode::Themed,
        ViewMode::Themed => ViewMode::Photo,
        ViewMode::Photo => ViewMode::Ascii,
    }
}

impl ViewMode {
    /// Every view mode, in the order `next` cycles through them.
    pub const ALL: [ViewMode; 4] = [
        ViewMode::Ascii,
        ViewMode::Pixels,
        ViewMode::Themed,
        ViewMode::Photo,
    ];

    pub fn label(self) -> (s: &'static str)
        ensures
            s@ == view_mode_label(self),
    {
        match self {
            ViewMode::Ascii => "ASCII",
            ViewMode::Pixels => "Pixels",
            ViewMode::Themed => "Themed",
            ViewMode::Photo => "Photo",
        }
    }

    /// The following mode, wrapping from the last to the first.
    pub fn next(self) -> (m: ViewMode)
        ensures
            m == view_mode_next(self),
    {
        match self {
            ViewMode::Ascii => ViewMode::Pixels,
            ViewMode::Pixels => ViewMode::Themed,
            ViewMode::Themed => ViewMode::Photo,
            ViewMode::Photo => ViewMode::Ascii,
        }
    }
}

/// Four steps through the view modes return to the start.
pub proof fn view_mode_cycle(m: ViewMode)
    ensures
        view_mode_next(view_mode_next(view_mode_next(view_mode_next(m)))) == m,
        view_mode_next(m) != m,
{
}

/// Terminal colour palette for themed image rendering: background and the
/// eight basic ANSI colours.
#[derive(Clone, Copy, Debug, PartialEq, Eq)]
pub struct ThemePalette {
    pub bg: [u8; 3],
    pub colors: [[u8; 3]; 8],
}

pub open spec fn catppuccin_basics() -> Seq<Rgb> {
    seq![
        (69u8, 71u8, 90u8),
        (243u8, 139u8, 168u8),
        (166u8, 227u8, 161u8),
        (249u8, 226u8, 175u8),
        (137u8, 180u8, 250u8),
        (245u8, 194u8, 231u8),
        (148u8, 226u8, 213u8),
        (186u8, 194u8, 222u8),
    ]
}

impl Default for ThemePalette {
    /// Catppuccin Mocha.
    fn default() -> (p: Self)
        ensures
            trip(p.bg) == (30u8, 30u8, 46u8),
            p.colors@.map_values(|c: [u8; 3]| trip(c)) == catppuccin_basics(),
    {
        let p = ThemePalette {
            bg: [30, 30, 46],
            colors: [
                [69, 71, 90],
                [243, 139, 168],
                [166, 227, 161],
                [249, 226, 175],
                [137, 180, 250],
                [245, 194, 231],
                [148, 226, 213],
                [186, 194, 222],
            ],
        };
        assert(p.colors@.map_values(|c: [u8; 3]| trip(c)) =~= catppuccin_basics());
        p
    }
}

/// Parses a `#rrggbb` colour from a kitty configuration value.
pub fn parse_hex(hex: &str) -> (r: Option<[u8; 3]>)
    ensures
        match hex_color_spec(hex@) {
            Some(c) => r matches Some(x) && trip(x) == c,
            None => r is None,
        },
{
    crate::theme::parse_hex_color(hex)
}

/// The proleptic Gregorian date `days` days after 1970-01-01, by the
/// era-based civil-from-days computation: years are counted from March so
/// that the leap day ends the year.
pub open spec fn civil_from_days(days: nat) -> (nat, nat, nat) {
    let z = days + 719468;
    let era = z / 146097;
    let doe = (z - era * 146097) as nat;
    let yoe = ((doe - doe / 1460 + doe / 36524 - doe / 146096) / 365) as nat;
    let y = yoe + era * 400;
    let doy = (doe - (365 * yoe + yoe / 4 - yoe / 100)) as nat;
    let mp = (5 * doy + 2) / 153;
    let d = (doy - (153 * mp + 2) / 5 + 1) as nat;
    let m = if mp < 10 {
        mp + 3
    } else {
        (mp - 9) as nat
    };
    let y2 = if m <= 2 {
        y + 1
    } else {
        y
    };
    (y2, m, d)
}

/// Year, month and day of the date `days` days after the epoch.
pub fn days_to_ymd(days: u64) -> (r: (u64, u64, u64))
    requires
        days <= u64::MAX - 719468,
    ensures
        (r.0 as nat, r.1 as nat, r.2 as nat) == civil_from_days(days as nat),
{
    let days = days + 719468;
    let era = days / 146097;
    let doe = days - era * 146097;
    assert(doe < 146097) by (nonlinear_arith)
        requires
            era == days / 146097,
            doe == days - era * 146097,
    ;
    let yoe = (doe - doe / 1460 + doe / 36524 - doe / 146096) / 365;
    assert(yoe <= 400);
    let y = yoe + era * 400;
    assert(365 * yoe + yoe / 4 - yoe / 100 <= doe) by (nonlinear_arith)
        requires
            yoe == (doe - doe / 1460 + doe / 36524 - doe / 146096) / 365,
            doe < 146097,
    ;
    let doy = doe - (365 * yoe + yoe / 4 - yoe / 100);
    assert(doy < 366) by (nonlinear_arith)
        requires
            yoe == (doe - doe / 1460 + doe / 36524 - doe / 146096) / 365,
            doy == doe - (365 * yoe + yoe / 4 - yoe / 100),
            doe < 146097,
    ;
    let mp = (5 * doy + 2) / 153;
    assert((153 * mp + 2) / 5 <= doy) by (nonlinear_arith)
        requires
            mp == (5 * doy + 2) / 153,
    ;
    let d = doy - (153 * mp + 2) / 5 + 1;
    let m = if mp < 10 {
        mp + 3
    } else {
        mp - 9
    };
    let y = if m <= 2 {
        y + 1
    } else {
        y
    };
    (y, m, d)
}

/// `s` padded on the left with zeros to `width` characters.
pub open spec fn zero_pad(s: Seq<char>, width: nat) -> Seq<char> {
    if s.len() < width {
        Seq::new((width - s.len()) as nat, |i: int| '0') + s
    } else {
        s
    }
}

fn push_zero_padded(out: &mut Vec<char>, n: u64, width: usize)
    ensures
        final(out)@ == old(out)@ + zero_pad(dec_chars(n as nat), width as nat),
{
    let mut digits: Vec<char> = Vec::new();
    push_dec(&mut digits, n);
    assert(digits@ =~= dec_chars(n as nat));
    let ghost start = out@;
    let mut k: usize = digits.len();
    while k < width
        invariant
            digits.len() <= k <= width || (k == digits.len() && k >= width),
            out@ == start + Seq::new((k - digits.len()) as nat, |i: int| '0'),
        decreases width - k,
    {
        out.push('0');
        k = k + 1;
        assert(out@ =~= start + Seq::new((k - digits.len()) as nat, |i: int| '0'));
    }
    push_all(out, &digits);
    assert(out@ =~= start + zero_pad(dec_chars(n as nat), width as nat));
}

/// `YYYY-MM-DD` of the civil date of an epoch-day count.
pub open spec fn date_chars(days: nat) -> Seq<char> {
    let (y, m, d) = civil_from_days(days);
    zero_pad(dec_chars(y), 4) + "-"@ + zero_pad(dec_chars(m), 2) + "-"@ + zero_pad(dec_chars(d), 2)
}

/// The UTC date of a Unix time, as `YYYY-MM-DD`.
pub fn format_date(epoch_secs: u64) -> (s: String)
    ensures
        s@ == date_chars((epoch_secs / 86400) as nat),
{
    let (y, m, d) = days_to_ymd(epoch_secs / 86400);
    let mut out: Vec<char> = Vec::new();
    push_zero_padded(&mut out, y, 4);
    push_str(&mut out, "-");
    push_zero_padded(&mut out, m, 2);
    push_str(&mut out, "-");
    push_zero_padded(&mut out, d, 2);
    assert(out@ =~= date_chars((epoch_secs / 86400) as nat));
    string_of(&out)
}

/// The Unix time `days - 1` days before `now`, floored at zero: the first
/// day of a range of `days` days ending at `now`.
pub open spec fn range_start(now: u64, days: u32) -> nat {
    let back: int = if days == 0 {
        0
    } else {
        (days - 1) * 86400
    };
    if now >= back {
        (now - back) as nat
    } else {
        0
    }
}

/// First and last date of the `days`-day range that ends at `now`.
pub fn date_range_at(now: u64, days: u32) -> (r: (String, String))
    ensures
        r.0@ == date_chars(range_start(now, days) / 86400),
        r.1@ == date_chars((now / 86400) as nat),
{
    let end = format_date(now);
    let back: u64 = days.saturating_sub(1) as u64 * 86400;
    let start_secs = now.saturating_sub(back);
    let start = format_date(start_secs);
    (start, end)
}

/// `SystemTime::now` as whole seconds since the Unix epoch
/// (`duration_since`, zero if the clock reads earlier). The value depends
/// on the clock, so nothing is claimed of it.
#[verifier::external_body]
fn now_epoch_secs() -> u64 {
    std::time::SystemTime::now().duration_since(std::time::UNIX_EPOCH).unwrap_or_default().as_secs()
}

/// First and last date of the `days`-day range that ends today.
pub fn date_range(days: u32) -> (r: (String, String))
    ensures
        exists|now: u64|
            r.0@ == date_chars(#[trigger] range_start(now, days) / 86400) && r.1@ == date_chars(
                (now / 86400) as nat,
            ),
{
    let now = now_epoch_secs();
    date_range_at(now, days)
}

/// The APOD request for the pictures of the `days` days ending at `now`.
pub open spec fn apod_url_spec(api_key: Seq<char>, days: u32, now: u64) -> Seq<char> {
    "https://api.nasa.gov/planetary/apod?api_key="@ + api_key + "&start_date="@ + date_chars(
        range_start(now, days) / 86400,
    ) + "&end_date="@ + date_chars((now / 86400) as nat)
}

pub fn build_apod_url_at(api_key: &str, days: u32, now: u64) -> (url: String)
    ensures
        url@ == apod_url_spec(api_key@, days, now),
{
    let (start, end) = date_range_at(now, days);
    let mut out: Vec<char> = Vec::new();
    push_str(&mut out, "https://api.nasa.gov/planetary/apod?api_key=");
    push_str(&mut out, api_key);
    push_str(&mut out, "&start_date=");
    push_str(&mut out, start.as_str());
    push_str(&mut out, "&end_date=");
    push_str(&mut out, end.as_str());
    assert(out@ =~= apod_url_spec(api_key@, days, now));
    string_of(&out)
}

/// The APOD request for the pictures of the last `days` days.
pub fn build_apod_url(api_key: &str, days: u32) -> (url: String)
    ensures
        exists|now: u64| url@ == #[trigger] apod_url_spec(api_key@, days, now),
{
    let now = now_epoch_secs();
    build_apod_url_at(api_key, days, now)
}

/// The dates of the `days` days ending at `now`, oldest first.
pub open spec fn date_strings_spec(now: u64, days: nat) -> Seq<Seq<char>> {
    Seq::new(
        days,
        |k: int|
            date_chars(
                (if now >= (days - 1 - k) * 86400 {
                    now - (days - 1 - k) * 86400
                } else {
                    0
                }) as nat / 86400,
            ),
    )
}

pub fn date_strings_at(now: u64, days: u32) -> (r: Vec<String>)
    ensures
        r@.map_values(|s: String| s@) == date_strings_spec(now, days as nat),
{
    let mut out: Vec<String> = Vec::new();
    let mut k: u32 = 0;
    while k < days
        invariant
            k <= days,
            out@.map_values(|s: String| s@) == date_strings_spec(now, days as nat).take(k as int),
        decreases days - k,
    {
        let back: u64 = (days - 1 - k) as u64 * 86400;
        let secs = now.saturating_sub(back);
        let s = format_date(secs);
        let ghost prev = out@.map_values(|s: String| s@);
        out.push(s);
        assert(out@.map_values(|s: String| s@) =~= prev.push(s@));
        k = k + 1;
        assert(date_strings_spec(now, days as nat).take(k as int) =~= date_strings_spec(
            now,
            days as nat,
        ).take(k - 1).push(s@));
    }
    assert(date_strings_spec(now, days as nat).take(days as int) =~= date_strings_spec(
        now,
        days as nat,
    ));
    out
}

/// The dates of the last `days` days, oldest first.
pub fn date_strings(days: u32) -> (r: Vec<String>)
    ensures
        exists|now: u64| r@.map_values(|s: String| s@) == #[trigger] date_strings_spec(now, days as nat),
{
    let now = now_epoch_secs();
    date_strings_at(now, days)
}

/// The `key value` settings of a Kitty configuration text, in order:
/// each non-blank line that is not a `#` comment, split at its first
/// whitespace into a key and a value, both trimmed; lines without
/// whitespace set nothing.
pub open spec fn config_pairs(ls: Seq<Seq<char>>) -> Seq<(Seq<char>, Seq<char>)>
    decreases ls.len(),
{
    if ls.len() == 0 {
        seq![]
    } else {
        let prev = config_pairs(ls.drop_last());
        let t = trim(ls.last());
        if t.len() == 0 || starts_with(t, "#"@) {
            prev
        } else {
            match split_once_ws(t) {
                Some((k, v)) => prev.push((trim(k), trim(v))),
                None => prev,
            }
        }
    }
}

/// The settings of several configuration texts, the earlier ones first.
pub open spec fn all_config_pairs(texts: Seq<Seq<char>>) -> Seq<(Seq<char>, Seq<char>)>
    decreases texts.len(),
{
    if texts.len() == 0 {
        seq![]
    } else {
        all_config_pairs(texts.drop_last()) + config_pairs(lines(texts.last()))
    }
}

/// The value of the first setting of `key`, if any.
pub open spec fn first_value(ps: Seq<(Seq<char>, Seq<char>)>, key: Seq<char>) -> Option<Seq<char>>
    decreases ps.len(),
{
    if ps.len() == 0 {
        None
    } else if ps[0].0 == key {
        Some(ps[0].1)
    } else {
        first_value(ps.drop_first(), key)
    }
}

/// The colour a setting gives, or `fallback` when the setting is missing
/// or not a `#rrggbb` colour.
pub open spec fn color_or(v: Option<Seq<char>>, fallback: Rgb) -> Rgb {
    match v {
        Some(t) => match hex_color_spec(t) {
            Some(c) => c,
            None => fallback,
        },
        None => fallback,
    }
}

/// The name of the setting of basic colour `i`.
pub open spec fn color_key(i: int) -> Seq<char> {
    "color"@.push(digit_char(i as nat))
}

/// Reads the picture-tinting palette from Kitty configuration texts, the
/// earlier ones taking priority: the background and colours 0 to 7 as
/// set, the Catppuccin Mocha ones where not.
pub fn theme_from_configs(texts: &Vec<String>) -> (p: ThemePalette)
    ensures
        ({
            let ps = all_config_pairs(texts@.map_values(|t: String| t@));
            &&& trip(p.bg) == color_or(first_value(ps, "background"@), (30u8, 30u8, 46u8))
            &&& forall|i: int| 0 <= i < 8 ==> trip(#[trigger] p.colors[i]) == color_or(
                first_value(ps, color_key(i)),
                catppuccin_basics()[i],
            )
        }),
{
    let ghost tv = texts@.map_values(|t: String| t@);
    let mut keys: Vec<Vec<char>> = Vec::new();
    let mut vals: Vec<Vec<char>> = Vec::new();
    let mut n: usize = 0;
    assert(tv.take(0) =~= Seq::<Seq<char>>::empty());
    while n < texts.len()
        invariant
            n <= texts@.len(),
            tv == texts@.map_values(|t: String| t@),
            keys@.len() == vals@.len(),
            all_config_pairs(tv.take(n as int)) == Seq::new(keys@.len(), |k: int| (keys@[k]@, vals@[k]@)),
        decreases texts.len() - n,
    {
        let ls = crate::keyval::text_lines(texts[n].as_str());
        let ghost lv = views(ls@);
        let ghost before = Seq::new(keys@.len(), |k: int| (keys@[k]@, vals@[k]@));
        proof {
            assert(tv.take(n + 1).drop_last() =~= tv.take(n as int));
            assert(tv.take(n + 1).last() == texts@[n as int]@);
            assert(lv.take(0) =~= Seq::<Seq<char>>::empty());
            assert(before + config_pairs(lv.take(0)) =~= before);
        }
        let mut i: usize = 0;
        while i < ls.len()
            invariant
                i <= ls@.len(),
                lv == views(ls@),
                lv == lines(texts@[n as int]@),
                keys@.len() == vals@.len(),
                Seq::new(keys@.len(), |k: int| (keys@[k]@, vals@[k]@)) == before + config_pairs(lv.take(i as int)),
            decreases ls.len() - i,
        {
            proof {
                assert(lv.take(i + 1).drop_last() =~= lv.take(i as int));
                assert(lv.take(i + 1).last() == lv[i as int]);
            }
            let t = trim_vec(&ls[i]);
            if t.len() > 0 && !crate::text::has_prefix(&t, "#") {
                let j = find_first_ws(&t);
                if j < t.len() {
                    proof {
                        crate::text::lemma_first_match(t@, |c: char| is_ws(c), j as int);
                    }
                    let k = trim_vec(&slice(&t, 0, j));
                    let v = trim_vec(&slice(&t, j + 1, t.len()));
                    let ghost pk = k@;
                    let ghost pv = v@;
                    let ghost old_view = Seq::new(keys@.len(), |q: int| (keys@[q]@, vals@[q]@));
                    keys.push(k);
                    vals.push(v);
                    proof {
                        assert(Seq::new(keys@.len(), |q: int| (keys@[q]@, vals@[q]@)) =~= old_view.push((pk, pv)));
                        assert(t@.take(j as int) =~= t@.subrange(0, j as int));
                    }
                } else {
                    proof {
                        crate::text::lemma_first_match(t@, |c: char| is_ws(c), j as int);
                    }
                }
            }
            i = i + 1;
        }
        proof {
            assert(lv.take(ls@.len() as int) =~= lv);
            assert(all_config_pairs(tv.take(n + 1)) == all_config_pairs(tv.take(n as int)) + config_pairs(lv));
        }
        n = n + 1;
    }
    assert(tv.take(texts@.len() as int) =~= tv);
    let ghost ps = all_config_pairs(tv);
    let defaults = ThemePalette::default();
    let bg = match lookup_first(&keys, &vals, "background") {
        Some(v) => match parse_hex(string_of(&v).as_str()) {
            Some(c) => c,
            None => defaults.bg,
        },
        None => defaults.bg,
    };
    let mut colors = defaults.colors;
    let mut c: usize = 0;
    while c < 8
        invariant
            c <= 8,
            ps == Seq::new(keys@.len(), |k: int| (keys@[k]@, vals@[k]@)),
            keys@.len() == vals@.len(),
            forall|q: int| c <= q < 8 ==> trip(#[trigger] colors[q]) == catppuccin_basics()[q],
            forall|q: int| 0 <= q < c ==> trip(#[trigger] colors[q]) == color_or(
                first_value(ps, color_key(q)),
                catppuccin_basics()[q],
            ),
        decreases 8 - c,
    {
        let mut key: Vec<char> = Vec::new();
        push_str(&mut key, "color");
        key.push(digit_char_of(c));
        assert(key@ =~= color_key(c as int));
        match lookup_first_vec(&keys, &vals, &key) {
            Some(v) => match parse_hex(string_of(&v).as_str()) {
                Some(col) => {
                    colors[c] = col;
                },
                None => {},
            },
            None => {},
        }
        c = c + 1;
    }
    ThemePalette { bg, colors }
}

fn digit_char_of(d: usize) -> (c: char)
    requires
        d < 10,
    ensures
        c == digit_char(d as nat),
{
    crate::num::digit_char_exec(d as u64)
}

fn find_first_ws(v: &Vec<char>) -> (j: usize)
    ensures
        j <= v.len(),
        forall|k: int| 0 <= k < j ==> !is_ws(#[trigger] v@[k]),
        j < v.len() ==> is_ws(v@[j as int]),
{
    let mut j: usize = 0;
    while j < v.len() && !char_is_ws(v[j])
        invariant
            j <= v.len(),
            forall|k: int| 0 <= k < j ==> !is_ws(#[trigger] v@[k]),
        decreases v.len() - j,
    {
        j = j + 1;
    }
    j
}

proof fn lemma_first_value(ps: Seq<(Seq<char>, Seq<char>)>, key: Seq<char>, k: int)
    requires
        0 <= k <= ps.len(),
        forall|q: int| 0 <= q < k ==> (#[trigger] ps[q]).0 != key,
        k < ps.len() ==> ps[k].0 == key,
    ensures
        first_value(ps, key) == (if k < ps.len() {
            Some(ps[k].1)
        } else {
            None
        }),
    decreases k,
{
    if k > 0 {
        assert forall|q: int| 0 <= q < k - 1 implies (#[trigger] ps.drop_first()[q]).0 != key by {
            assert(ps.drop_first()[q] == ps[q + 1]);
        }
        if k < ps.len() {
            assert(ps.drop_first()[k - 1] == ps[k]);
        }
        lemma_first_value(ps.drop_first(), key, k - 1);
    }
}

fn lookup_first_vec(keys: &Vec<Vec<char>>, vals: &Vec<Vec<char>>, key: &Vec<char>) -> (r: Option<Vec<char>>)
    requires
        keys@.len() == vals@.len(),
    ensures
        match first_value(Seq::new(keys@.len(), |k: int| (keys@[k]@, vals@[k]@)), key@) {
            Some(v) => r matches Some(x) && x@ == v,
            None => r is None,
        },
{
    let ghost ps = Seq::new(keys@.len(), |k: int| (keys@[k]@, vals@[k]@));
    let mut i: usize = 0;
    while i < keys.len()
        invariant
            i <= keys@.len(),
            keys@.len() == vals@.len(),
            ps == Seq::new(keys@.len(), |k: int| (keys@[k]@, vals@[k]@)),
            forall|q: int| 0 <= q < i ==> (#[trigger] ps[q]).0 != key@,
        decreases keys.len() - i,
    {
        if crate::text::vec_has_prefix(&keys[i], key) && keys[i].len() == key.len() {
            proof {
                assert(keys@[i as int]@ =~= key@);
                lemma_first_value(ps, key@, i as int);
            }
            return Some(slice(&vals[i], 0, vals[i].len()));
        }
        proof {
            if keys@[i as int]@ == key@ {
                assert(crate::text::starts_with(keys@[i as int]@, key@)) by {
                    assert(keys@[i as int]@.take(key@.len() as int) =~= keys@[i as int]@);
                }
            }
        }
        i = i + 1;
    }
    proof {
        lemma_first_value(ps, key@, ps.len() as int);
    }
    None
}

fn lookup_first(keys: &Vec<Vec<char>>, vals: &Vec<Vec<char>>, key: &str) -> (r: Option<Vec<char>>)
    requires
        keys@.len() == vals@.len(),
    ensures
        match first_value(Seq::new(keys@.len(), |k: int| (keys@[k]@, vals@[k]@)), key@) {
            Some(v) => r matches Some(x) && x@ == v,
            None => r is None,
        },
{
    lookup_first_vec(keys, vals, &chars_of(key))
}

/// A picture-of-the-day record as the APOD API returns it.
#[derive(Debug, Clone)]
pub struct ApodResponse {
    pub title: String,
    pub explanation: String,
    pub url: String,
    pub hdurl: Option<String>,
    pub date: String,
    pub media_type: String,
    pub copyright: Option<String>,
}

/// The `error` entry of a reply read as JSON: none when the reply is no
/// JSON object with an `error` field; otherwise that field's `message`
/// when the field is an object whose `message` is a string.
pub open spec fn error_entry(parsed: Option<JsonValue>) -> Option<Option<Seq<char>>> {
    match parsed {
        Some(JsonValue::Object(fields)) => match field_value(fields@, "error"@) {
            Some(JsonValue::Object(inner)) => match field_value(inner@, "message"@) {
                Some(JsonValue::Str(m)) => Some(Some(m@)),
                _ => Some(None),
            },
            Some(_) => Some(None),
            None => None,
        },
        _ => None,
    }
}

/// How a reply of the APOD service reads: the service's error message,
/// text that is not JSON at all, a list of records, or a single record.
#[derive(Debug, Clone, PartialEq, Eq)]
pub enum ApodReply {
    ServiceError(String),
    NotJson,
    List,
    Single,
}

/// The classification `apod_reply` gives a reply `text` that reads as
/// `parsed`.
pub open spec fn apod_reply_spec(text: Seq<char>, parsed: Option<JsonValue>, r: ApodReply) -> bool {
    match error_entry(parsed) {
        Some(Some(m)) => r matches ApodReply::ServiceError(s) && s@ == m,
        Some(None) => r matches ApodReply::ServiceError(s) && s@ == "Unknown API error"@,
        None => if parsed is None {
            r is NotJson
        } else if starts_with(trim_start(text), "["@) {
            r is List
        } else {
            r is Single
        },
    }
}

/// Classifies a reply `text`, given what it reads as JSON (`parsed`, none
/// when it is not JSON): an `error` field makes it the service's error
/// (the field's `message`, or `Unknown API error` without one); otherwise
/// text that is not JSON is no reply, a reply that starts with `[` after
/// leading whitespace is a list of records, anything else a single record.
pub fn apod_reply(text: &str, parsed: &Option<JsonValue>) -> (r: ApodReply)
    ensures
        apod_reply_spec(text@, *parsed, r),
{
    let unknown = "Unknown API error";
    proof {
        reveal_strlit("error");
        reveal_strlit("message");
    }
    if let Some(JsonValue::Object(fields)) = parsed {
        match object_field(fields, "error") {
            Some(JsonValue::Object(inner)) => {
                return match object_field(inner, "message") {
                    Some(JsonValue::Str(m)) => ApodReply::ServiceError(string_of(&chars_of(m.as_str()))),
                    _ => ApodReply::ServiceError(string_of(&chars_of(unknown))),
                };
            },
            Some(_) => {
                return ApodReply::ServiceError(string_of(&chars_of(unknown)));
            },
            None => {},
        }
    }
    if parsed.is_none() {
        ApodReply::NotJson
    } else if has_prefix(&trim_start_vec(&chars_of(text)), "[") {
        ApodReply::List
    } else {
        ApodReply::Single
    }
}

/// Reads a reply of the APOD service as JSON and classifies it as
/// `apod_reply` does.
pub fn read_apod_reply(text: &str) -> (r: ApodReply)
    ensures
        apod_reply_spec(text@, json_value_of(text@), r),
{
    let parsed = read_json_value(text);
    apod_reply(text, &parsed)
}

/// A decoded picture: `width * height` RGB pixels, row by row.
#[derive(Debug, Clone)]
pub struct DecodedImage {
    pub width: u32,
    pub height: u32,
    pub pixels: Vec<[u8; 3]>,
}

#[derive(Debug, Clone)]
pub struct ApodEntry {
    pub title: String,
    pub explanation: String,
    pub date: String,
    pub copyright: Option<String>,
    pub media_type: String,
    pub image: Option<DecodedImage>,
    pub ascii_art: Option<String>,
}

/// A picture scaled to the drawing area.
#[derive(Debug, Clone)]
pub struct ResizedImage {
    pub width: u32,
    pub height: u32,
    pub pixels: Vec<[u8; 3]>,
}

/// The pixel at `(x, y)`: black outside the picture or past the end of
/// its pixel data.
pub open spec fn pixel_spec(img: ResizedImage, x: u32, y: u32) -> [u8; 3] {
    if x >= img.width || y >= img.height {
        [0u8, 0u8, 0u8]
    } else {
        let idx = y * img.width + x;
        if idx < img.pixels@.len() {
            img.pixels@[idx]
        } else {
            [0u8, 0u8, 0u8]
        }
    }
}

/// The size of a `sw` x `sh` picture scaled to fit a `tw` x `th` area with
/// its proportions kept, in binary64 arithmetic: the aspect ratios are the
/// quotients `sw / sh` and `tw / th`; a picture whose ratio is the greater
/// takes the full width and the height `tw / ratio`, any other the full
/// height and the width `th * ratio`; the other side is truncated, at least
/// one pixel and clipped to the area.
pub open spec fn fitted_size(sw: int, sh: int, tw: int, th: int) -> (int, int) {
    let a = round_ratio(sw as nat, sh as nat, 0);
    let ta = round_ratio(tw as nat, th as nat, 0);
    if b64_gt(a, ta) {
        let h = b64_to_u32(round_ratio(tw as nat, a.0, -a.1)) as int;
        (tw, clip_side(h, th))
    } else {
        let w = b64_to_u32(round_ratio((th * a.0) as nat, 1, a.1)) as int;
        (clip_side(w, tw), th)
    }
}

/// A fitted side: at least 1 and at most the area's side.
pub open spec fn clip_side(v: int, limit: int) -> int {
    if v < 1 {
        1
    } else if v > limit {
        limit
    } else {
        v
    }
}

/// The source row (or column) that row `i` of `len` fitted rows samples
/// from a source of `src` rows: `(i / len) * src` in binary64, truncated,
/// and at most the last source row.
pub open spec fn sample_index(i: int, len: int, src: int) -> int {
    let v = if i == 0 {
        0
    } else {
        let f = round_ratio(i as nat, len as nat, 0);
        b64_to_u32(round_ratio((src * f.0) as nat, 1, f.1)) as int
    };
    if v > src - 1 {
        src - 1
    } else {
        v
    }
}

/// The pixel at `(dx, dy)` of the `tw` x `th` area: inside the centred,
/// fitted picture the source pixel it falls on (black past the end of the
/// source data), black in the bars around it.
pub open spec fn fitted_pixel(src: DecodedImage, tw: int, th: int, dx: int, dy: int) -> [u8; 3] {
    let sw = src.width as int;
    let sh = src.height as int;
    if sw == 0 || sh == 0 || tw == 0 || th == 0 {
        [0u8, 0u8, 0u8]
    } else {
        let (fw, fh) = fitted_size(sw, sh, tw, th);
        let ox = (tw - fw) / 2;
        let oy = (th - fh) / 2;
        if dx < ox || dx >= ox + fw || dy < oy || dy >= oy + fh {
            [0u8, 0u8, 0u8]
        } else {
            let sx = sample_index(dx - ox, fw, sw);
            let sy = sample_index(dy - oy, fh, sh);
            let idx = sy * sw + sx;
            if idx < src.pixels@.len() {
                src.pixels@[idx]
            } else {
                [0u8, 0u8, 0u8]
            }
        }
    }
}

/// `sample_index(i, len, src)`, computed.
fn sample_index_exec(i: u64, len: u64, src: u64) -> (r: u64)
    requires
        i < len < 0x1_0000_0000,
        0 < src < 0x1_0000_0000,
    ensures
        r == sample_index(i as int, len as int, src as int),
        r < src,
{
    let v: u64 = if i == 0 {
        0
    } else {
        let f = round_ratio_exec(i as u128, len as u128, 0);
        let sw = src as u128;
        assert(sw * f.0 < 0x40_0000_0000_0000_0000_0000) by (nonlinear_arith)
            requires
                sw < 0x1_0000_0000,
                f.0 < 0x20_0000_0000_0000,
        ;
        assert(sw * f.0 > 0) by (nonlinear_arith)
            requires
                sw > 0,
                f.0 > 0,
        ;
        let g = round_ratio_exec(sw * f.0, 1, f.1);
        b64_to_u32_exec(g) as u64
    };
    if v > src - 1 {
        src - 1
    } else {
        v
    }
}

/// `fitted_size`, computed, for a non-empty picture and area.
fn fitted_size_exec(sw: u64, sh: u64, tw: u64, th: u64) -> (r: (u64, u64))
    requires
        0 < sw < 0x1_0000_0000,
        0 < sh < 0x1_0000_0000,
        0 < tw < 0x1_0000_0000,
        0 < th < 0x1_0000_0000,
    ensures
        (r.0 as int, r.1 as int) == fitted_size(sw as int, sh as int, tw as int, th as int),
        1 <= r.0 <= tw,
        1 <= r.1 <= th,
{
    let a = round_ratio_exec(sw as u128, sh as u128, 0);
    let ta = round_ratio_exec(tw as u128, th as u128, 0);
    if b64_gt_exec(a, ta) {
        let hf = round_ratio_exec(tw as u128, a.0, 0 - a.1);
        let h = b64_to_u32_exec(hf) as u64;
        let fh = if h < 1 {
            1
        } else if h > th {
            th
        } else {
            h
        };
        (tw, fh)
    } else {
        let hw = th as u128;
        assert(hw * a.0 < 0x40_0000_0000_0000_0000_0000 && hw * a.0 > 0) by (nonlinear_arith)
            requires
                0 < hw < 0x1_0000_0000,
                0 < a.0 < 0x20_0000_0000_0000,
        ;
        let wf = round_ratio_exec(hw * a.0, 1, a.1);
        let w = b64_to_u32_exec(wf) as u64;
        let fw = if w < 1 {
            1
        } else if w > tw {
            tw
        } else {
            w
        };
        (fw, th)
    }
}

/// Scales a picture to a `target_w` x `target_h` area by nearest-neighbour
/// sampling, keeping its proportions and centring it between black bars;
/// an empty picture or area gives an all-black area.
pub fn resize_nearest(src: &DecodedImage, target_w: u32, target_h: u32) -> (r: ResizedImage)
    requires
        target_w * target_h <= u32::MAX,
        target_w > 0 && target_h > 0 ==> src.width * src.height <= u32::MAX,
    ensures
        r.width == target_w,
        r.height == target_h,
        r.pixels@.len() == target_w * target_h,
        forall|dy: int, dx: int|
            0 <= dy < target_h && 0 <= dx < target_w ==> #[trigger] r.pixels@[dy * target_w + dx]
                == fitted_pixel(*src, target_w as int, target_h as int, dx, dy),
{
    let tw = target_w as u64;
    let th = target_h as u64;
    let sw = src.width as u64;
    let sh = src.height as u64;
    let empty = sw == 0 || sh == 0 || tw == 0 || th == 0;
    let mut fw: u64 = 0;
    let mut fh: u64 = 0;
    if !empty {
        let (w, h) = fitted_size_exec(sw, sh, tw, th);
        fw = w;
        fh = h;
    }
    let ox: u64 = if empty {
        0
    } else {
        (tw - fw) / 2
    };
    let oy: u64 = if empty {
        0
    } else {
        (th - fh) / 2
    };
    let mut pixels: Vec<[u8; 3]> = Vec::new();
    let mut dy: u64 = 0;
    while dy < th
        invariant
            tw == target_w,
            th == target_h,
            sw == src.width,
            sh == src.height,
            empty == (sw == 0 || sh == 0 || tw == 0 || th == 0),
            !empty ==> (fw as int, fh as int) == fitted_size(sw as int, sh as int, tw as int, th as int),
            !empty ==> 1 <= fw <= tw && 1 <= fh <= th,
            !empty ==> ox == (tw - fw) / 2 && oy == (th - fh) / 2,
            tw * th <= u32::MAX,
            tw > 0 && th > 0 ==> sw * sh <= u32::MAX,
            dy <= th,
            pixels@.len() == dy * tw,
            forall|a: int, b: int|
                0 <= a < dy && 0 <= b < tw ==> #[trigger] pixels@[a * tw + b] == fitted_pixel(
                    *src,
                    tw as int,
                    th as int,
                    b,
                    a,
                ),
        decreases th - dy,
    {
        let mut dx: u64 = 0;
        let ghost row_start = pixels@.len();
        while dx < tw
            invariant
                tw == target_w,
                th == target_h,
                sw == src.width,
                sh == src.height,
                empty == (sw == 0 || sh == 0 || tw == 0 || th == 0),
                !empty ==> (fw as int, fh as int) == fitted_size(sw as int, sh as int, tw as int, th as int),
                !empty ==> 1 <= fw <= tw && 1 <= fh <= th,
                !empty ==> ox == (tw - fw) / 2 && oy == (th - fh) / 2,
                tw * th <= u32::MAX,
                tw > 0 && th > 0 ==> sw * sh <= u32::MAX,
                dy < th,
                dx <= tw,
                row_start == dy * tw,
                pixels@.len() == dy * tw + dx,
                forall|a: int, b: int|
                    0 <= a < dy && 0 <= b < tw ==> #[trigger] pixels@[a * tw + b] == fitted_pixel(
                        *src,
                        tw as int,
                        th as int,
                        b,
                        a,
                    ),
                forall|b: int|
                    0 <= b < dx ==> #[trigger] pixels@[dy * tw + b] == fitted_pixel(
                        *src,
                        tw as int,
                        th as int,
                        b,
                        dy as int,
                    ),
            decreases tw - dx,
        {
            let mut p: [u8; 3] = [0, 0, 0];
            if !empty && dx >= ox && dx < ox + fw && dy >= oy && dy < oy + fh {
                let x = dx - ox;
                let y = dy - oy;
                let sx = sample_index_exec(x, fw, sw);
                let sy = sample_index_exec(y, fh, sh);
                assert(sy * sw + sx < sw * sh) by (nonlinear_arith)
                    requires
                        sx < sw,
                        sy < sh,
                ;
                let idx = (sy * sw + sx) as usize;
                if idx < src.pixels.len() {
                    p = src.pixels[idx];
                }
            }
            pixels.push(p);
            proof {
                assert(pixels@[dy * tw + dx] == fitted_pixel(*src, tw as int, th as int, dx as int, dy as int));
                assert forall|a: int, b: int|
                    0 <= a < dy && 0 <= b < tw implies #[trigger] pixels@[a * tw + b] == fitted_pixel(
                        *src,
                        tw as int,
                        th as int,
                        b,
                        a,
                    ) by {
                    assert(a * tw + b < dy * tw) by (nonlinear_arith)
                        requires
                            0 <= a < dy,
                            0 <= b < tw,
                    {
                        assert(a * tw + b < a * tw + tw);
                        assert(a * tw + tw == (a + 1) * tw);
                        assert((a + 1) * tw <= dy * tw);
                    }
                }
            }
            dx = dx + 1;
        }
        proof {
            assert forall|a: int, b: int|
                0 <= a < dy + 1 && 0 <= b < tw implies #[trigger] pixels@[a * tw + b] == fitted_pixel(
                    *src,
                    tw as int,
                    th as int,
                    b,
                    a,
                ) by {
                if a == dy {
                    assert(pixels@[dy * tw + b] == fitted_pixel(*src, tw as int, th as int, b, dy as int));
                }
            }
            assert((dy + 1) * tw == dy * tw + tw) by (nonlinear_arith);
        }
        dy = dy + 1;
    }
    assert(th * tw == tw * th) by (nonlinear_arith);
    ResizedImage { width: target_w, height: target_h, pixels }
}

impl ResizedImage {
    pub fn pixel_at(&self, x: u32, y: u32) -> (p: [u8; 3])
        requires
            x < self.width && y < self.height ==> y * self.width + x <= u32::MAX,
        ensures
            p == pixel_spec(*self, x, y),
    {
        if x >= self.width || y >= self.height {
            return [0, 0, 0];
        }
        let idx = (y * self.width + x) as usize;
        if idx < self.pixels.len() {
            self.pixels[idx]
        } else {
            [0, 0, 0]
        }
    }
}

} // verus!
