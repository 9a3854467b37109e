//! Memory hardware: the memory modules that `dmidecode -t memory` lists,
//! the cache file they are kept in, and the one-line hardware summary.
use vstd::prelude::*;
use crate::error::CollectError;
use crate::num::{dec_chars, push_dec, round_div, round_half_even};
use crate::text::{
    chars_of, contains_seq, is_char, strip_cr, contains_text, lines, lines_vec, push_all, push_str, split_char,
    split_char_vec, string_of, strip_prefix, strip_prefix_str, trim, trim_end_matches,
    trim_end_matches_vec, trim_vec, views,
};

verus! {

/// One installed memory module.
#[derive(Debug, Clone)]
pub struct DimmInfo {
    pub size: String,
    pub memory_type: String,
    pub speed: String,
    pub manufacturer: String,
}

/// A module's fields as text: size, type, speed, manufacturer.
pub type DimmFields = (Seq<char>, Seq<char>, Seq<char>, Seq<char>);

pub open spec fn dimm_fields(d: DimmInfo) -> DimmFields {
    (d.size@, d.memory_type@, d.speed@, d.manufacturer@)
}

pub open spec fn dimms_fields(ds: Seq<DimmInfo>) -> Seq<DimmFields> {
    ds.map_values(|d: DimmInfo| dimm_fields(d))
}

/// Where a scan of `dmidecode` output stands: inside a memory-device
/// section or not, the fields read in the current section, and the
/// modules found so far.
pub struct DmiScan {
    pub in_device: bool,
    pub size: Seq<char>,
    pub mem_type: Seq<char>,
    pub speed: Seq<char>,
    pub manufacturer: Seq<char>,
    pub dimms: Seq<DimmFields>,
}

/// An empty slot: no size, or a size that says no module is installed.
pub open spec fn empty_slot(size: Seq<char>) -> bool {
    contains_seq(size, "No Module"@) || contains_seq(size, "Not Installed"@) || size.len() == 0
}

/// The field a line of a memory-device section sets, if any.
pub open spec fn dmi_field(st: DmiScan, t: Seq<char>) -> DmiScan {
    match strip_prefix(t, "Size: "@) {
        Some(v) => DmiScan { size: v, ..st },
        None => match strip_prefix(t, "Type: "@) {
            Some(v) => DmiScan { mem_type: v, ..st },
            None => match strip_prefix(t, "Configured Memory Speed: "@) {
                Some(v) => DmiScan { speed: trim_end_matches(v, " MT/s"@), ..st },
                None => match strip_prefix(t, "Manufacturer: "@) {
                    Some(v) => DmiScan { manufacturer: v, ..st },
                    None => st,
                },
            },
        },
    }
}

/// One line of `dmidecode` output: a `Memory Device` heading opens a
/// section with empty fields; inside a section `Size: `, `Type: `,
/// `Configured Memory Speed: ` (without its ` MT/s` unit) and
/// `Manufacturer: ` lines set the fields, and a blank line closes it,
/// keeping the module unless its slot is empty. Lines outside a section
/// are skipped.
pub open spec fn dmi_step(st: DmiScan, line: Seq<char>) -> DmiScan {
    let t = trim(line);
    if t == "Memory Device"@ {
        DmiScan { in_device: true, size: seq![], mem_type: seq![], speed: seq![], manufacturer: seq![], dimms: st.dimms }
    } else if !st.in_device {
        st
    } else {
        let s1 = dmi_field(st, t);
        if t.len() == 0 {
            let closed = DmiScan { in_device: false, ..s1 };
            if !empty_slot(s1.size) {
                DmiScan { dimms: s1.dimms.push((s1.size, s1.mem_type, s1.speed, s1.manufacturer)), ..closed }
            } else {
                closed
            }
        } else {
            s1
        }
    }
}

pub open spec fn dmi_start() -> DmiScan {
    DmiScan { in_device: false, size: seq![], mem_type: seq![], speed: seq![], manufacturer: seq![], dimms: seq![] }
}

pub open spec fn dmi_scan(ls: Seq<Seq<char>>) -> DmiScan
    decreases ls.len(),
{
    if ls.len() == 0 {
        dmi_start()
    } else {
        dmi_step(dmi_scan(ls.drop_last()), ls.last())
    }
}

/// The installed modules that `dmidecode -t memory` output lists, in order.
pub fn parse_dmidecode(text: &str) -> (r: Vec<DimmInfo>)
    ensures
        dimms_fields(r@) == dmi_scan(lines(text@)).dimms,
{
    let ls = lines_vec(&chars_of(text));
    let ghost lv = views(ls@);
    let mut dimms: Vec<DimmInfo> = Vec::new();
    let mut in_device = false;
    let mut size: Vec<char> = Vec::new();
    let mut mem_type: Vec<char> = Vec::new();
    let mut speed: Vec<char> = Vec::new();
    let mut manufacturer: Vec<char> = Vec::new();
    let mut i: usize = 0;
    assert(lv.take(0) =~= Seq::<Seq<char>>::empty());
    while i < ls.len()
        invariant
            i <= ls@.len(),
            lv == views(ls@),
            lv == lines(text@),
            ({
                let st = dmi_scan(lv.take(i as int));
                &&& st.in_device == in_device
                &&& st.size == size@
                &&& st.mem_type == mem_type@
                &&& st.speed == speed@
                &&& st.manufacturer == manufacturer@
                &&& st.dimms == dimms_fields(dimms@)
            }),
        decreases ls.len() - i,
    {
        proof {
            assert(lv.take(i + 1).drop_last() =~= lv.take(i as int));
            assert(lv.take(i + 1).last() == ls@[i as int]@);
        }
        let t = trim_vec(&ls[i]);
        if crate::text::eq_str(&t, "Memory Device") {
            in_device = true;
            size = Vec::new();
            mem_type = Vec::new();
            speed = Vec::new();
            manufacturer = Vec::new();
        } else if in_device {
            if let Some(v) = strip_prefix_str(&t, "Size: ") {
                size = v;
            } else if let Some(v) = strip_prefix_str(&t, "Type: ") {
                mem_type = v;
            } else if let Some(v) = strip_prefix_str(&t, "Configured Memory Speed: ") {
                speed = trim_end_matches_vec(&v, " MT/s");
            } else if let Some(v) = strip_prefix_str(&t, "Manufacturer: ") {
                manufacturer = v;
            }
            if t.len() == 0 {
                in_device = false;
                let empty = contains_text(&size, "No Module") || contains_text(&size, "Not Installed")
                    || size.len() == 0;
                if !empty {
                    let d = DimmInfo {
                        size: string_of(&size),
                        memory_type: string_of(&mem_type),
                        speed: string_of(&speed),
                        manufacturer: string_of(&manufacturer),
                    };
                    let ghost before = dimms@;
                    dimms.push(d);
                    proof {
                        assert(dimms_fields(dimms@) =~= dimms_fields(before).push(dimm_fields(d)));
                    }
                }
            }
        }
        i = i + 1;
    }
    assert(lv.take(ls@.len() as int) =~= lv);
    dimms
}

/// One line of the module cache: the four fields separated by tabs.
pub open spec fn cache_line(d: DimmFields) -> Seq<char> {
    d.0 + seq!['\t'] + d.1 + seq!['\t'] + d.2 + seq!['\t'] + d.3
}

/// The module cache: one line per module, separated by newlines.
pub open spec fn cache_text(ds: Seq<DimmFields>) -> Seq<char>
    decreases ds.len(),
{
    if ds.len() == 0 {
        seq![]
    } else if ds.len() == 1 {
        cache_line(ds[0])
    } else {
        cache_text(ds.drop_last()) + seq!['\n'] + cache_line(ds.last())
    }
}

/// The text of the module cache, or an error when `dmidecode` found no
/// modules (it lists none without root rights).
pub fn dimm_cache(dimms: &Vec<DimmInfo>) -> (r: Result<String, CollectError>)
    ensures
        dimms@.len() == 0 ==> r == Err::<String, CollectError>(CollectError::NoDimmData),
        dimms@.len() > 0 ==> (r matches Ok(s) && s@ == cache_text(dimms_fields(dimms@))),
{
    if dimms.len() == 0 {
        return Err(CollectError::NoDimmData);
    }
    let mut out: Vec<char> = Vec::new();
    let mut i: usize = 0;
    while i < dimms.len()
        invariant
            i <= dimms@.len(),
            out@ == cache_text(dimms_fields(dimms@).take(i as int)),
        decreases dimms.len() - i,
    {
        let ghost before = out@;
        let d = &dimms[i];
        if i > 0 {
            out.push('\n');
        }
        push_str(&mut out, d.size.as_str());
        out.push('\t');
        push_str(&mut out, d.memory_type.as_str());
        out.push('\t');
        push_str(&mut out, d.speed.as_str());
        out.push('\t');
        push_str(&mut out, d.manufacturer.as_str());
        proof {
            let f = dimms_fields(dimms@);
            assert(f.take(i + 1).drop_last() =~= f.take(i as int));
            assert(f.take(i + 1).last() == dimm_fields(dimms@[i as int]));
            if i == 0 {
                assert(f.take(1).len() == 1);
                assert(out@ =~= cache_line(f.take(1)[0]));
            } else {
                assert(out@ =~= before + seq!['\n'] + cache_line(f.take(i + 1).last()));
            }
        }
        i = i + 1;
    }
    assert(dimms_fields(dimms@).take(dimms@.len() as int) =~= dimms_fields(dimms@));
    Ok(string_of(&out))
}

/// The modules a line of the cache describes: lines with at least four
/// tab-separated fields, by their first four.
pub open spec fn cache_dimms(ls: Seq<Seq<char>>) -> Seq<DimmFields>
    decreases ls.len(),
{
    if ls.len() == 0 {
        seq![]
    } else {
        let prev = cache_dimms(ls.drop_last());
        let l = ls.last();
        let parts = split_char(l, '\t');
        if l.len() > 0 && parts.len() >= 4 {
            prev.push((parts[0], parts[1], parts[2], parts[3]))
        } else {
            prev
        }
    }
}

/// The modules in the cache file's text, or none when it holds none.
pub fn parse_dimm_cache(content: &str) -> (r: Option<Vec<DimmInfo>>)
    ensures
        cache_dimms(lines(content@)).len() == 0 ==> r is None,
        cache_dimms(lines(content@)).len() > 0 ==> (r matches Some(v) && dimms_fields(v@) == cache_dimms(
            lines(content@),
        )),
{
    let ls = lines_vec(&chars_of(content));
    let ghost lv = views(ls@);
    let mut dimms: Vec<DimmInfo> = Vec::new();
    let mut i: usize = 0;
    assert(lv.take(0) =~= Seq::<Seq<char>>::empty());
    while i < ls.len()
        invariant
            i <= ls@.len(),
            lv == views(ls@),
            lv == lines(content@),
            dimms_fields(dimms@) == cache_dimms(lv.take(i as int)),
        decreases ls.len() - i,
    {
        proof {
            assert(lv.take(i + 1).drop_last() =~= lv.take(i as int));
            assert(lv.take(i + 1).last() == ls@[i as int]@);
        }
        let line = &ls[i];
        if line.len() > 0 {
            let parts = split_char_vec(line, '\t');
            if parts.len() >= 4 {
                let d = DimmInfo {
                    size: string_of(&parts[0]),
                    memory_type: string_of(&parts[1]),
                    speed: string_of(&parts[2]),
                    manufacturer: string_of(&parts[3]),
                };
                let ghost before = dimms@;
                dimms.push(d);
                proof {
                    assert(dimms_fields(dimms@) =~= dimms_fields(before).push(dimm_fields(d)));
                }
            }
        }
        i = i + 1;
    }
    assert(lv.take(ls@.len() as int) =~= lv);
    if dimms.len() == 0 {
        None
    } else {
        Some(dimms)
    }
}

/// A field that the cache keeps as it is: no tab and no newline in it.
pub open spec fn clean_field(f: Seq<char>) -> bool {
    !f.contains('\t') && !f.contains('\n')
}

/// A module whose fields the cache keeps as they are: clean fields, and a
/// maker's name that does not end in a carriage return.
pub open spec fn clean_dimm(d: DimmFields) -> bool {
    &&& clean_field(d.0)
    &&& clean_field(d.1)
    &&& clean_field(d.2)
    &&& clean_field(d.3)
    &&& !(d.3.len() > 0 && d.3.last() == '\r')
}

proof fn lemma_split_clean(a: Seq<char>, rest: Seq<char>, c: char)
    requires
        !a.contains(c),
    ensures
        split_char(a + seq![c] + rest, c) == seq![a] + split_char(rest, c),
        split_char(a, c) == seq![a],
{
    let s = a + seq![c] + rest;
    assert forall|k: int| 0 <= k < a.len() implies !(#[trigger] is_char(c)(s[k])) by {
        assert(s[k] == a[k]);
        if s[k] == c {
            assert(a.contains(c));
        }
    }
    crate::text::lemma_first_match(s, is_char(c), a.len() as int);
    assert(s.take(a.len() as int) =~= a);
    assert(s.skip(a.len() + 1int) =~= rest);
    assert forall|k: int| 0 <= k < a.len() implies !(#[trigger] is_char(c)(a[k])) by {
        if a[k] == c {
            assert(a.contains(c));
        }
    }
    crate::text::lemma_first_match(a, is_char(c), a.len() as int);
}

proof fn lemma_split_line(d: DimmFields)
    requires
        clean_dimm(d),
    ensures
        split_char(cache_line(d), '\t') == seq![d.0, d.1, d.2, d.3],
{
    let t = seq!['\t'];
    lemma_split_clean(d.0, d.1 + t + d.2 + t + d.3, '\t');
    lemma_split_clean(d.1, d.2 + t + d.3, '\t');
    lemma_split_clean(d.2, d.3, '\t');
    lemma_split_clean(d.3, seq![], '\t');
    assert(cache_line(d) =~= d.0 + t + (d.1 + t + d.2 + t + d.3));
    assert(d.1 + t + d.2 + t + d.3 =~= d.1 + t + (d.2 + t + d.3));
    assert(d.2 + t + d.3 =~= d.2 + t + d.3);
    assert(split_char(cache_line(d), '\t') =~= seq![d.0, d.1, d.2, d.3]);
}

proof fn lemma_line_facts(d: DimmFields)
    requires
        clean_dimm(d),
    ensures
        cache_line(d).len() > 0,
        !cache_line(d).contains('\n'),
        cache_line(d).last() != '\n',
        cache_line(d).last() != '\r',
{
    let l = cache_line(d);
    let t = seq!['\t'];
    assert(l =~= d.0 + t + d.1 + t + d.2 + t + d.3);
    if l.contains('\n') {
        let k = choose|k: int| 0 <= k < l.len() && l[k] == '\n';
        let n0 = d.0.len() as int;
        let n1 = d.1.len() as int;
        let n2 = d.2.len() as int;
        if k < n0 {
            assert(d.0[k] == '\n');
        } else if k == n0 {
        } else if k < n0 + 1 + n1 {
            assert(d.1[k - n0 - 1] == '\n');
        } else if k == n0 + 1 + n1 {
        } else if k < n0 + 2 + n1 + n2 {
            assert(d.2[k - n0 - 2 - n1] == '\n');
        } else if k == n0 + 2 + n1 + n2 {
        } else {
            assert(d.3[k - n0 - 3 - n1 - n2] == '\n');
        }
        assert(false);
    }
    if d.3.len() > 0 {
        assert(l.last() == d.3.last());
    } else {
        assert(l.last() == '\t');
    }
}

/// `str::lines` over a text that does not end a line, a newline, and a
/// non-empty last line without newlines: the text's lines, then that line.
proof fn lemma_lines_append(s: Seq<char>, l: Seq<char>)
    requires
        s.len() > 0,
        s.last() != '\n',
        s.last() != '\r',
        l.len() > 0,
        !l.contains('\n'),
    ensures
        lines(s + seq!['\n'] + l) == lines(s).push(l),
    decreases s.len(),
{
    let t = s + seq!['\n'] + l;
    let j = crate::text::first_match(s, |c: char| crate::text::is_nl(c));
    crate::text::lemma_first_match_bounds(s, |c: char| crate::text::is_nl(c));
    assert forall|k: int| 0 <= k < l.len() implies !crate::text::is_nl(#[trigger] l[k]) by {
        if l[k] == '\n' {
            assert(l.contains('\n'));
        }
    }
    crate::text::lemma_first_match(l, |c: char| crate::text::is_nl(c), l.len() as int);
    assert(lines(l) == seq![l]);
    if j < s.len() {
        assert forall|k: int| 0 <= k < j implies !crate::text::is_nl(#[trigger] t[k]) by {
            assert(t[k] == s[k]);
        }
        assert(t[j as int] == s[j as int]);
        crate::text::lemma_first_match(t, |c: char| crate::text::is_nl(c), j as int);
        let rest = s.skip(j + 1int);
        assert(j + 1 < s.len()) by {
            if j + 1 == s.len() {
                assert(s.last() == s[j as int]);
            }
        }
        assert(rest.last() == s.last());
        assert(t.take(j as int) =~= s.take(j as int));
        assert(t.skip(j + 1int) =~= rest + seq!['\n'] + l);
        lemma_lines_append(rest, l);
        assert(lines(t) =~= lines(s).push(l));
    } else {
        assert forall|k: int| 0 <= k < s.len() implies !crate::text::is_nl(#[trigger] t[k]) by {
            assert(t[k] == s[k]);
        }
        assert(t[s.len() as int] == '\n');
        crate::text::lemma_first_match(t, |c: char| crate::text::is_nl(c), s.len() as int);
        assert(t.take(s.len() as int) =~= s);
        assert(t.skip(s.len() + 1int) =~= l);
        assert(strip_cr(s) == s);
        assert(lines(s) == seq![s]);
        assert(lines(t) =~= lines(s).push(l));
    }
}

proof fn lemma_cache_text_lines(ds: Seq<DimmFields>)
    requires
        ds.len() > 0,
        forall|i: int| 0 <= i < ds.len() ==> clean_dimm(#[trigger] ds[i]),
    ensures
        lines(cache_text(ds)) == ds.map_values(|d: DimmFields| cache_line(d)),
        cache_text(ds).len() > 0,
        cache_text(ds).last() != '\n',
        cache_text(ds).last() != '\r',
    decreases ds.len(),
{
    lemma_line_facts(ds.last());
    if ds.len() == 1 {
        let l = cache_line(ds[0]);
        assert forall|k: int| 0 <= k < l.len() implies !crate::text::is_nl(#[trigger] l[k]) by {
            if l[k] == '\n' {
                assert(l.contains('\n'));
            }
        }
        crate::text::lemma_first_match(l, |c: char| crate::text::is_nl(c), l.len() as int);
        assert(ds.map_values(|d: DimmFields| cache_line(d)) =~= seq![l]);
    } else {
        let init = ds.drop_last();
        assert forall|i: int| 0 <= i < init.len() implies clean_dimm(#[trigger] init[i]) by {
            assert(init[i] == ds[i]);
        }
        lemma_cache_text_lines(init);
        lemma_lines_append(cache_text(init), cache_line(ds.last()));
        assert(ds.map_values(|d: DimmFields| cache_line(d)) =~= init.map_values(
            |d: DimmFields| cache_line(d),
        ).push(cache_line(ds.last())));
    }
}

proof fn lemma_cache_dimms_of_lines(ds: Seq<DimmFields>)
    requires
        forall|i: int| 0 <= i < ds.len() ==> clean_dimm(#[trigger] ds[i]),
    ensures
        cache_dimms(ds.map_values(|d: DimmFields| cache_line(d))) == ds,
    decreases ds.len(),
{
    if ds.len() > 0 {
        let init = ds.drop_last();
        assert forall|i: int| 0 <= i < init.len() implies clean_dimm(#[trigger] init[i]) by {
            assert(init[i] == ds[i]);
        }
        lemma_cache_dimms_of_lines(init);
        let ls = ds.map_values(|d: DimmFields| cache_line(d));
        assert(ls.drop_last() =~= init.map_values(|d: DimmFields| cache_line(d)));
        lemma_split_line(ds.last());
        lemma_line_facts(ds.last());
        assert(cache_dimms(ls) =~= ds);
    }
}

/// Writing modules to the cache and reading the cache back gives the same
/// modules, as long as their fields hold no tab or newline and the maker's
/// name does not end in a carriage return.
pub proof fn dimm_cache_round_trip(ds: Seq<DimmFields>)
    requires
        ds.len() > 0,
        forall|i: int| 0 <= i < ds.len() ==> clean_dimm(#[trigger] ds[i]),
    ensures
        cache_dimms(lines(cache_text(ds))) == ds,
{
    lemma_cache_text_lines(ds);
    lemma_cache_dimms_of_lines(ds);
}

/// Kibibytes in whole GiB, rounded to nearest with ties to even.
pub open spec fn whole_gib(kb: nat) -> nat {
    round_half_even(kb, 1048576)
}

/// The hardware summary: the memory size in whole GiB and, when modules
/// are known, their number with the first one's size, type, maker and
/// speed; otherwise the board's vendor and name (trimmed; `Unknown board`
/// without a name) and a hint to read the modules with root rights.
pub open spec fn summary_spec(total_kb: nat, dimms: Seq<DimmFields>, vendor: Seq<char>, board: Seq<char>) -> Seq<char> {
    let gib = dec_chars(whole_gib(total_kb));
    if dimms.len() > 0 {
        let d = dimms[0];
        gib + " GiB | "@ + dec_chars(dimms.len()) + "x "@ + d.0 + " "@ + d.1 + " "@ + d.3 + " @ "@ + d.2
            + " MT/s"@
    } else {
        let b = trim(board);
        let board_str = if b.len() == 0 {
            "Unknown board"@
        } else {
            trim(vendor) + " "@ + b
        };
        gib + " GiB | "@ + board_str + " | (run: sudo ram --refresh-hardware)"@
    }
}

/// The one-line hardware summary, from the total memory in KiB, the known
/// modules, and the board's vendor and name as read.
pub fn hardware_summary(total_kb: u64, dimms: &Vec<DimmInfo>, vendor: &str, board: &str) -> (s: String)
    ensures
        s@ == summary_spec(total_kb as nat, dimms_fields(dimms@), vendor@, board@),
{
    let mut out: Vec<char> = Vec::new();
    let gib = round_div(total_kb as u128, 1048576);
    assert(gib <= u64::MAX) by (nonlinear_arith)
        requires
            gib == round_half_even(total_kb as nat, 1048576),
            total_kb <= u64::MAX,
    {
        assert(round_half_even(total_kb as nat, 1048576) <= total_kb as nat / 1048576 + 1);
    }
    push_dec(&mut out, gib as u64);
    push_str(&mut out, " GiB | ");
    if dimms.len() > 0 {
        let d = &dimms[0];
        push_dec(&mut out, dimms.len() as u64);
        push_str(&mut out, "x ");
        push_str(&mut out, d.size.as_str());
        push_str(&mut out, " ");
        push_str(&mut out, d.memory_type.as_str());
        push_str(&mut out, " ");
        push_str(&mut out, d.manufacturer.as_str());
        push_str(&mut out, " @ ");
        push_str(&mut out, d.speed.as_str());
        push_str(&mut out, " MT/s");
        proof {
            assert(dimms_fields(dimms@)[0] == dimm_fields(dimms@[0]));
            assert(dimms_fields(dimms@).len() == dimms@.len());
        }
    } else {
        let b = trim_vec(&chars_of(board));
        if b.len() == 0 {
            push_str(&mut out, "Unknown board");
        } else {
            let v = trim_vec(&chars_of(vendor));
            push_all(&mut out, &v);
            push_str(&mut out, " ");
            push_all(&mut out, &b);
        }
        push_str(&mut out, " | (run: sudo ram --refresh-hardware)");
    }
    assert(out@ =~= summary_spec(total_kb as nat, dimms_fields(dimms@), vendor@, board@));
    string_of(&out)
}

/// Hardware information read once at start-up: the summary line.
#[derive(Debug, Clone)]
pub struct HardwareInfo {
    pub summary: String,
}

impl HardwareInfo {
    /// The information for the given memory size in KiB, known modules,
    /// and board vendor and name as read.
    pub fn from_readings(total_kb: u64, dimms: &Vec<DimmInfo>, vendor: &str, board: &str) -> (h: Self)
        ensures
            h.summary@ == summary_spec(total_kb as nat, dimms_fields(dimms@), vendor@, board@),
    {
        HardwareInfo { summary: hardware_summary(total_kb, dimms, vendor, board) }
    }
}

} // verus!
