//! Network monitor: `/proc/net/dev` parsing, interface ordering, and the
//! pseudo-random katakana of the rain view.
use vstd::prelude::*;
use crate::audio::{keep_latest, latest};
use crate::cpu::numeric_fields;
use crate::error::CollectError;
use crate::keyval::text_lines;
use crate::num::{parse_u64, parse_u64_spec};
use crate::text::{
    chars_of, eq_str, lines, split_char, split_char_vec, split_once, split_once_vec, starts_with,
    string_of, trim, trim_vec, views, words, words_vec,
};

verus! {

#[derive(Debug, Clone, Copy, PartialEq, Eq, Structural, Default)]
pub struct NetSnapshot {
    pub rx_bytes: u64,
    pub tx_bytes: u64,
    pub rx_packets: u64,
    pub tx_packets: u64,
    pub rx_errors: u64,
    pub tx_errors: u64,
    pub rx_drops: u64,
    pub tx_drops: u64,
}

#[derive(Debug, Clone)]
pub struct InterfaceInfo {
    pub name: String,
    pub ip: String,
    pub speed_mbps: Option<u64>,
    pub operstate: String,
}

#[derive(Clone, Copy, Debug, PartialEq, Eq, Structural)]
pub enum ViewMode {
    Charts,
    Rain,
}

/// One character of a falling rain stream.
#[derive(Clone, Copy, Debug, PartialEq, Eq)]
pub struct TrailCell {
    pub row: u16,
    pub ch: char,
    pub age: u8,
}

/// The counters of a `/proc/net/dev` line for `interface`: the line,
/// trimmed, must split at its first `':'` into the interface name (after
/// trimming) and at least 16 numeric fields; receive counters are fields
/// 0-3, transmit counters fields 8-11.
pub open spec fn net_line(line: Seq<char>, interface: Seq<char>) -> Option<NetSnapshot> {
    match split_once(trim(line), ':') {
        None => None,
        Some((iface, rest)) => if trim(iface) != interface {
            None
        } else {
            let f = numeric_fields(words(rest));
            if f.len() < 16 {
                None
            } else {
                Some(
                    NetSnapshot {
                        rx_bytes: f[0],
                        rx_packets: f[1],
                        rx_errors: f[2],
                        rx_drops: f[3],
                        tx_bytes: f[8],
                        tx_packets: f[9],
                        tx_errors: f[10],
                        tx_drops: f[11],
                    },
                )
            }
        },
    }
}

/// The first line that gives counters for `interface`.
pub open spec fn net_scan(ls: Seq<Seq<char>>, interface: Seq<char>) -> Option<NetSnapshot>
    decreases ls.len(),
{
    if ls.len() == 0 {
        None
    } else {
        match net_line(ls[0], interface) {
            Some(s) => Some(s),
            None => net_scan(ls.drop_first(), interface),
        }
    }
}

/// The counters of `interface` in a /proc/net/dev text, whose first two
/// lines are headers.
pub open spec fn net_dev_spec(content: Seq<char>, interface: Seq<char>) -> Option<NetSnapshot> {
    let ls = lines(content);
    net_scan(if ls.len() >= 2 { ls.skip(2) } else { seq![] }, interface)
}

fn numeric_fields_vec(ws: &Vec<Vec<char>>) -> (f: Vec<u64>)
    ensures
        f@ == numeric_fields(views(ws@)),
{
    let ghost wv = views(ws@);
    let mut f: Vec<u64> = Vec::new();
    let mut i: usize = 0;
    while i < ws.len()
        invariant
            i <= ws.len(),
            wv == views(ws@),
            f@ == numeric_fields(wv.take(i as int)),
        decreases ws.len() - i,
    {
        let r = parse_u64(&ws[i]);
        proof {
            assert(wv.take(i + 1).drop_last() =~= wv.take(i as int));
            assert(wv.take(i + 1).last() == ws@[i as int]@);
        }
        if let Some(x) = r {
            f.push(x);
        }
        i = i + 1;
    }
    proof {
        assert(wv.take(ws.len() as int) =~= wv);
    }
    f
}

fn net_line_vec(line: &Vec<char>, interface: &Vec<char>) -> (r: Option<NetSnapshot>)
    ensures
        r == net_line(line@, interface@),
{
    let l = trim_vec(line);
    match split_once_vec(&l, ':') {
        None => None,
        Some((iface, rest)) => {
            let name = trim_vec(&iface);
            if !crate::text::vec_has_prefix(&name, interface) || name.len() != interface.len() {
                proof {
                    if name@ == interface@ {
                        assert(name@.take(interface@.len() as int) =~= name@);
                    }
                }
                return None;
            }
            assert(name@ =~= name@.take(interface@.len() as int));
            let ws = words_vec(&rest);
            let f = numeric_fields_vec(&ws);
            if f.len() < 16 {
                return None;
            }
            Some(
                NetSnapshot {
                    rx_bytes: f[0],
                    rx_packets: f[1],
                    rx_errors: f[2],
                    rx_drops: f[3],
                    tx_bytes: f[8],
                    tx_packets: f[9],
                    tx_errors: f[10],
                    tx_drops: f[11],
                },
            )
        },
    }
}

/// Reads the counters of `interface` from the text of /proc/net/dev; fails
/// when no line gives them.
pub fn parse_net_dev(content: &str, interface: &str) -> (r: Result<NetSnapshot, CollectError>)
    ensures
        match net_dev_spec(content@, interface@) {
            Some(s) => r == Ok::<NetSnapshot, CollectError>(s),
            None => r is Err,
        },
{
    let ls = text_lines(content);
    let ghost lv = views(ls@);
    let iv = chars_of(interface);
    if ls.len() < 2 {
        proof {
            assert(net_scan(seq![], interface@) is None);
        }
        return Err(CollectError::InterfaceNotFound(string_of(&iv)));
    }
    let mut i: usize = 2;
    while i < ls.len()
        invariant
            2 <= i <= ls.len(),
            lv == views(ls@),
            lv == lines(content@),
            iv@ == interface@,
            net_dev_spec(content@, interface@) == net_scan(lv.skip(i as int), interface@),
        decreases ls.len() - i,
    {
        let r = net_line_vec(&ls[i], &iv);
        proof {
            assert(lv.skip(i as int)[0] == ls@[i as int]@);
            assert(lv.skip(i as int).drop_first() =~= lv.skip(i + 1));
        }
        if let Some(s) = r {
            return Ok(s);
        }
        i = i + 1;
    }
    proof {
        assert(lv.skip(i as int) =~= seq![]);
    }
    Err(CollectError::InterfaceNotFound(string_of(&iv)))
}

/// One step of the xorshift generator.
pub open spec fn xorshift_spec(s: u64) -> u64 {
    let a = s ^ (s << 13u64);
    let b = a ^ (a >> 7u64);
    b ^ (b << 17u64)
}

/// Advances the rain's pseudo-random state by one xorshift step.
pub fn xorshift(state: &mut u64)
    ensures
        *final(state) == xorshift_spec(*old(state)),
{
    *state ^= *state << 13;
    *state ^= *state >> 7;
    *state ^= *state << 17;
}

pub open spec fn is_char_value(v: u32) -> bool {
    v < 0xD800 || (0xE000 <= v && v <= 0x10FFFF)
}

/// `char::from_u32`: the character with code `v`, when `v` is a Unicode
/// scalar value (below 0xD800, or from 0xE000 through 0x10FFFF).
#[verifier::external_body]
fn char_from_u32(v: u32) -> (r: Option<char>)
    ensures
        is_char_value(v) ==> r == Some(v as char),
        !is_char_value(v) ==> r is None,
{
    char::from_u32(v)
}

/// First code point of the half-width katakana block (U+FF65..U+FF9C)
/// that the rain draws from.
pub const KATAKANA_START: u32 = 0xFF65;

/// Number of code points the rain draws from.
pub const KATAKANA_COUNT: u32 = 56;

/// The katakana drawn from a generator state.
pub open spec fn katakana_for(state: u64) -> char {
    (KATAKANA_START + (state % (KATAKANA_COUNT as u64)) as u32) as char
}

/// Advances the state and draws a half-width katakana from it.
pub fn rand_katakana(rng: &mut u64) -> (c: char)
    ensures
        *final(rng) == xorshift_spec(*old(rng)),
        c == katakana_for(*final(rng)),
{
    xorshift(rng);
    let offset = (*rng % KATAKANA_COUNT as u64) as u32;
    match char_from_u32(KATAKANA_START + offset) {
        Some(c) => c,
        None => 'ア',
    }
}

/// Every character the rain draws lies in the katakana block it draws from.
pub proof fn katakana_in_range(state: u64)
    ensures
        KATAKANA_START <= katakana_for(state) as u32 && (katakana_for(state) as u32)
            < KATAKANA_START + KATAKANA_COUNT,
{
}

/// Advances the state and draws a value in `min..max` (`min` when the
/// range is empty).
pub fn rand_range(state: &mut u64, min: u64, max: u64) -> (r: u64)
    ensures
        max <= min ==> r == min && *final(state) == *old(state),
        max > min ==> *final(state) == xorshift_spec(*old(state)) && r == min + *final(state) % ((
        max - min) as u64),
        max > min ==> min <= r < max,
{
    if max <= min {
        return min;
    }
    xorshift(state);
    min + (*state % (max - min))
}

/// A trail cell one step older; the age stops at 255.
pub open spec fn aged(c: TrailCell) -> TrailCell {
    TrailCell { row: c.row, ch: c.ch, age: if c.age < 255 { (c.age + 1) as u8 } else { 255u8 } }
}

/// The cells of a trail that are still drawn, those younger than eight
/// steps, in order.
pub open spec fn visible(s: Seq<TrailCell>) -> Seq<TrailCell>
    decreases s.len(),
{
    if s.len() == 0 {
        Seq::empty()
    } else {
        let rest = visible(s.drop_last());
        if s.last().age < 8 {
            rest.push(s.last())
        } else {
            rest
        }
    }
}

/// The trail with the stream's new head cell, when the head is inside the
/// stream's half of the panel: a fresh katakana at the head's row.
pub open spec fn with_head(trail: Seq<TrailCell>, head: Option<u16>, rng: u64) -> Seq<TrailCell> {
    match head {
        Some(row) => trail.push(TrailCell { row, ch: katakana_for(xorshift_spec(rng)), age: 0 }),
        None => trail,
    }
}

/// The generator state after drawing the head cell, if one was drawn.
pub open spec fn rng_after_head(head: Option<u16>, rng: u64) -> u64 {
    if head is Some {
        xorshift_spec(rng)
    } else {
        rng
    }
}

/// The step counter after one step, wrapping from 255 to 0.
pub open spec fn next_counter(c: u8) -> u8 {
    if c == 255 {
        0
    } else {
        (c + 1) as u8
    }
}

/// Every third step of its counter a non-empty trail re-draws one
/// character, at a position taken from the generator state.
pub open spec fn flickers(counter: u8, len: nat) -> bool {
    next_counter(counter) % 3 == 0 && len > 0
}

/// The trail after the head, ageing and flicker parts of a step, before
/// faded cells are dropped.
pub open spec fn stepped_cells(trail: Seq<TrailCell>, head: Option<u16>, rng: u64, counter: u8) -> Seq<TrailCell> {
    let t = with_head(trail, head, rng).map_values(|c: TrailCell| aged(c));
    let r = rng_after_head(head, rng);
    if flickers(counter, t.len()) {
        let i = (r as usize) as int % (t.len() as int);
        t.update(i, TrailCell { row: t[i].row, ch: katakana_for(xorshift_spec(r)), age: t[i].age })
    } else {
        t
    }
}

/// The generator state after a step of a stream whose trail had `len`
/// cells.
pub open spec fn rng_after_step(len: nat, head: Option<u16>, rng: u64, counter: u8) -> u64 {
    let r = rng_after_head(head, rng);
    let n = if head is Some {
        len + 1
    } else {
        len
    };
    if flickers(counter, n) {
        xorshift_spec(r)
    } else {
        r
    }
}

/// Moves a stream's trail one step: adds the head cell when the head is in
/// the stream's half, ages every cell, re-draws one character every third
/// step, drops the faded cells and keeps at most `trail_len` of the newest.
/// Returns whether the stream still shows anything.
pub fn advance_trail(trail: &mut Vec<TrailCell>, head: Option<u16>, rng: &mut u64, counter: &mut u8, trail_len: usize) -> (alive: bool)
    ensures
        final(trail)@ == latest(visible(stepped_cells(old(trail)@, head, *old(rng), *old(counter))), trail_len as nat),
        *final(rng) == rng_after_step(old(trail)@.len(), head, *old(rng), *old(counter)),
        *final(counter) == next_counter(*old(counter)),
        alive == (final(trail)@.len() > 0),
{
    let ghost t0 = trail@;
    let ghost r0 = *rng;
    let ghost c0 = *counter;
    if let Some(row) = head {
        let ch = rand_katakana(rng);
        trail.push(TrailCell { row, ch, age: 0 });
    }
    assert(trail@ == with_head(t0, head, r0));
    let ghost t1 = trail@;
    let mut i: usize = 0;
    while i < trail.len()
        invariant
            i <= trail@.len(),
            trail@.len() == t1.len(),
            forall|k: int| 0 <= k < i ==> trail@[k] == aged(t1[k]),
            forall|k: int| i <= k < t1.len() ==> trail@[k] == t1[k],
        decreases trail@.len() - i,
    {
        let c = trail[i];
        let age: u8 = if c.age < 255 {
            c.age + 1
        } else {
            255
        };
        trail.set(i, TrailCell { row: c.row, ch: c.ch, age });
        i = i + 1;
    }
    assert(trail@ =~= t1.map_values(|c: TrailCell| aged(c)));
    *counter = if *counter == 255 {
        0
    } else {
        *counter + 1
    };
    if *counter % 3 == 0 && trail.len() > 0 {
        let idx = (*rng as usize) % trail.len();
        let ch = rand_katakana(rng);
        let c = trail[idx];
        trail.set(idx, TrailCell { row: c.row, ch, age: c.age });
    }
    let ghost t3 = trail@;
    assert(t3 =~= stepped_cells(t0, head, r0, c0));
    let mut kept: Vec<TrailCell> = Vec::new();
    let mut j: usize = 0;
    while j < trail.len()
        invariant
            j <= t3.len(),
            trail@ == t3,
            kept@ == visible(t3.take(j as int)),
        decreases t3.len() - j,
    {
        let c = trail[j];
        proof {
            assert(t3.take(j + 1).drop_last() =~= t3.take(j as int));
        }
        if c.age < 8 {
            kept.push(c);
        }
        j = j + 1;
    }
    assert(t3.take(t3.len() as int) =~= t3);
    keep_latest(&mut kept, trail_len);
    *trail = kept;
    trail.len() > 0
}

proof fn lemma_visible_young(s: Seq<TrailCell>)
    ensures
        visible(s).len() <= s.len(),
        forall|k: int| 0 <= k < visible(s).len() ==> (#[trigger] visible(s)[k]).age < 8,
    decreases s.len(),
{
    if s.len() > 0 {
        lemma_visible_young(s.drop_last());
    }
}

/// After a step a trail holds at most its length's worth of cells, none of
/// them eight or more steps old, and never more cells than before the
/// faded ones were dropped.
pub proof fn stepped_trail_is_bounded(cells: Seq<TrailCell>, trail_len: nat)
    ensures
        latest(visible(cells), trail_len).len() <= trail_len,
        latest(visible(cells), trail_len).len() <= cells.len(),
        forall|k: int|
            0 <= k < latest(visible(cells), trail_len).len() ==> (#[trigger] latest(visible(cells), trail_len)[k]).age
                < 8,
{
    lemma_visible_young(cells);
    let v = visible(cells);
    if v.len() >= trail_len {
        assert forall|k: int| 0 <= k < latest(v, trail_len).len() implies (#[trigger] latest(v, trail_len)[k]).age < 8 by {
            assert(latest(v, trail_len)[k] == v[k + (v.len() - trail_len)]);
        }
    }
}

/// Ordering rank of an interface: physical interfaces with an address that
/// are up first, then physical ones that are down, then virtual ones with
/// an address (up, then down), then interfaces without an address.
pub open spec fn interface_rank(name: Seq<char>, ip: Seq<char>, operstate: Seq<char>) -> u8 {
    let physical = starts_with(name, "enp"@) || starts_with(name, "eth"@) || starts_with(
        name,
        "wlp"@,
    ) || starts_with(name, "wlan"@);
    let has_ip = ip.len() > 0;
    let up = operstate == "up"@;
    if !has_ip {
        4
    } else if physical && up {
        0
    } else if physical {
        1
    } else if up {
        2
    } else {
        3
    }
}

/// How interfaces rank: a wired (`enp`, `eth`) or wireless (`wlp`, `wlan`)
/// interface with an address ranks first (0) when up and next (1) when not;
/// an interface named otherwise (such as `docker0` or `lo`) with an address
/// ranks 2 when up and 3 when not; an interface without an address ranks
/// last (4).
pub proof fn interfaces_rank_physical_first(prefix: Seq<char>, rest: Seq<char>, other: Seq<char>, ip: Seq<char>)
    requires
        prefix == "enp"@ || prefix == "eth"@ || prefix == "wlp"@ || prefix == "wlan"@,
        ip.len() > 0,
        other.len() > 0,
        other[0] != 'e',
        other[0] != 'w',
    ensures
        interface_rank(prefix + rest, ip, "up"@) == 0,
        interface_rank(prefix + rest, ip, "down"@) == 1,
        interface_rank(other, ip, "up"@) == 2,
        interface_rank(other, ip, "down"@) == 3,
        interface_rank(prefix + rest, Seq::<char>::empty(), "up"@) == 4,
        interface_rank(other, Seq::<char>::empty(), "up"@) == 4,
{
    reveal_strlit("enp");
    reveal_strlit("eth");
    reveal_strlit("wlp");
    reveal_strlit("wlan");
    reveal_strlit("up");
    reveal_strlit("down");
    let name = prefix + rest;
    assert(name.take(prefix.len() as int) =~= prefix);
    assert(starts_with(name, prefix));
    assert(!starts_with(other, "enp"@)) by {
        if other.len() >= 3 {
            assert(other.take(3)[0] == other[0]);
        }
    }
    assert(!starts_with(other, "eth"@)) by {
        if other.len() >= 3 {
            assert(other.take(3)[0] == other[0]);
        }
    }
    assert(!starts_with(other, "wlp"@)) by {
        if other.len() >= 3 {
            assert(other.take(3)[0] == other[0]);
        }
    }
    assert(!starts_with(other, "wlan"@)) by {
        if other.len() >= 4 {
            assert(other.take(4)[0] == other[0]);
        }
    }
    assert("down"@ != "up"@) by {
        assert("down"@.len() != "up"@.len());
    }
}

pub fn interface_score(iface: &InterfaceInfo) -> (r: u8)
    ensures
        r == interface_rank(iface.name@, iface.ip@, iface.operstate@),
{
    let name = chars_of(iface.name.as_str());
    let ip = chars_of(iface.ip.as_str());
    let state = chars_of(iface.operstate.as_str());
    let physical = crate::text::has_prefix(&name, "enp") || crate::text::has_prefix(&name, "eth")
        || crate::text::has_prefix(&name, "wlp") || crate::text::has_prefix(&name, "wlan");
    let has_ip = ip.len() > 0;
    let up = eq_str(&state, "up");
    if !has_ip {
        4
    } else if physical && up {
        0
    } else if physical {
        1
    } else if up {
        2
    } else {
        3
    }
}

pub open spec fn rank_of(i: InterfaceInfo) -> u8 {
    interface_rank(i.name@, i.ip@, i.operstate@)
}

/// The interfaces of rank `r`, in the order given.
pub open spec fn with_rank(v: Seq<InterfaceInfo>, r: u8) -> Seq<InterfaceInfo> {
    v.filter(|i: InterfaceInfo| rank_of(i) == r)
}

/// The interfaces ordered by rank, interfaces of equal rank keeping their
/// order (a stable sort by rank).
pub open spec fn ranked(v: Seq<InterfaceInfo>) -> Seq<InterfaceInfo> {
    with_rank(v, 0) + with_rank(v, 1) + with_rank(v, 2) + with_rank(v, 3) + with_rank(v, 4)
}

/// Orders interfaces for display, as `interface_rank` ranks them.
pub fn sort_interfaces(ifaces: Vec<InterfaceInfo>) -> (r: Vec<InterfaceInfo>)
    ensures
        r@ == ranked(ifaces@),
{
    let ghost all = ifaces@;
    let mut b0: Vec<InterfaceInfo> = Vec::new();
    let mut b1: Vec<InterfaceInfo> = Vec::new();
    let mut b2: Vec<InterfaceInfo> = Vec::new();
    let mut b3: Vec<InterfaceInfo> = Vec::new();
    let mut b4: Vec<InterfaceInfo> = Vec::new();
    let len0 = ifaces.len();
    let mut rest = ifaces;
    let mut taken: usize = 0;
    let ghost n = all.len();
    // Take the interfaces from the front, one at a time, into rank buckets.
    while rest.len() > 0
        invariant
            taken + rest@.len() == n,
            rest@ == all.skip(taken as int),
            b0@ == with_rank(all.take(taken as int), 0),
            b1@ == with_rank(all.take(taken as int), 1),
            b2@ == with_rank(all.take(taken as int), 2),
            b3@ == with_rank(all.take(taken as int), 3),
            b4@ == with_rank(all.take(taken as int), 4),
            n == all.len(),
            n == len0,
        decreases rest.len(),
    {
        let x = rest.remove(0);
        let s = interface_score(&x);
        proof {
            assert(all.take(taken + 1) =~= all.take(taken as int).push(x));
            reveal_with_fuel(Seq::<_>::filter, 1);
            assert(all.take(taken + 1).drop_last() =~= all.take(taken as int));
            assert(rest@ =~= all.skip(taken + 1));
        }
        if s == 0 {
            b0.push(x);
        } else if s == 1 {
            b1.push(x);
        } else if s == 2 {
            b2.push(x);
        } else if s == 3 {
            b3.push(x);
        } else {
            b4.push(x);
        }
        taken = taken + 1;
    }
    assert(all.take(taken as int) =~= all);
    let mut out = b0;
    out.append(&mut b1);
    out.append(&mut b2);
    out.append(&mut b3);
    out.append(&mut b4);
    out
}

/// Interfaces the monitor lists: all but loopback, virtual Ethernet pairs,
/// bridges (`br-`) and Docker's.
pub open spec fn listed_interface_spec(name: Seq<char>) -> bool {
    !(name == "lo"@ || starts_with(name, "veth"@) || starts_with(name, "br-"@) || starts_with(name, "docker"@))
}

pub fn is_listed_interface(name: &str) -> (b: bool)
    ensures
        b == listed_interface_spec(name@),
{
    let v = chars_of(name);
    !(eq_str(&v, "lo") || crate::text::has_prefix(&v, "veth") || crate::text::has_prefix(&v, "br-")
        || crate::text::has_prefix(&v, "docker"))
}

/// A link speed in Mbit/s as the kernel reports it, trimmed: a positive
/// number that fits an `i64`; none for an unknown (negative) speed or
/// anything else.
pub open spec fn link_speed_spec(text: Seq<char>) -> Option<u64> {
    match parse_u64_spec(trim(text)) {
        Some(v) => if 0 < v <= i64::MAX {
            Some(v)
        } else {
            None
        },
        None => None,
    }
}

pub fn parse_link_speed(text: &str) -> (r: Option<u64>)
    ensures
        r == link_speed_spec(text@),
{
    let t = trim_vec(&chars_of(text));
    match parse_u64(&t) {
        Some(v) => if 0 < v && v <= 0x7fff_ffff_ffff_ffff {
            Some(v)
        } else {
            None
        },
        None => None,
    }
}

/// The address in `ip -4 -brief addr show` output: the third word, up to
/// its prefix length; empty when there is none.
pub open spec fn brief_ip_spec(text: Seq<char>) -> Seq<char> {
    let ws = words(text);
    if ws.len() > 2 {
        split_char(ws[2], '/')[0]
    } else {
        seq![]
    }
}

pub fn ip_from_brief(text: &str) -> (r: String)
    ensures
        r@ == brief_ip_spec(text@),
{
    let ws = words_vec(&chars_of(text));
    if ws.len() > 2 {
        let parts = split_char_vec(&ws[2], '/');
        proof {
            crate::text::lemma_split_char_nonempty(ws@[2]@, '/');
        }
        string_of(&parts[0])
    } else {
        string_of(&Vec::new())
    }
}

} // verus!
