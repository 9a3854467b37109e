//! Reading `key value` lines such as those of `/proc/meminfo` and
//! `/proc/vmstat`: the first word of a line is its key, the second word,
//! read as an unsigned decimal, its value (zero when absent or malformed).
use vstd::prelude::*;
use crate::num::{parse_u64, parse_u64_spec};
use crate::text::{chars_of, lines, lines_vec, slice, views, words, words_vec};

verus! {

/// The first word of a line, or the empty sequence.
pub open spec fn line_key(l: Seq<char>) -> Seq<char> {
    let ws = words(l);
    if ws.len() > 0 {
        ws[0]
    } else {
        seq![]
    }
}

/// The second word of a line read as a `u64`, or zero.
pub open spec fn line_value(l: Seq<char>) -> u64 {
    let ws = words(l);
    if ws.len() > 1 {
        match parse_u64_spec(ws[1]) {
            Some(v) => v,
            None => 0,
        }
    } else {
        0
    }
}

/// The key and value of a line.
pub fn key_value(line: &Vec<char>) -> (r: (Vec<char>, u64))
    ensures
        r.0@ == line_key(line@),
        r.1 == line_value(line@),
{
    let ws = words_vec(line);
    proof {
        assert(views(ws@).len() == ws@.len());
    }
    let key = if ws.len() > 0 {
        assert(views(ws@)[0] == ws@[0]@);
        slice(&ws[0], 0, ws[0].len())
    } else {
        Vec::new()
    };
    let value = if ws.len() > 1 {
        assert(views(ws@)[1] == ws@[1]@);
        match parse_u64(&ws[1]) {
            Some(v) => v,
            None => 0,
        }
    } else {
        0
    };
    assert(key@ =~= line_key(line@));
    (key, value)
}

/// The lines of a text, each as its own character vector.
pub fn text_lines(content: &str) -> (r: Vec<Vec<char>>)
    ensures
        views(r@) == lines(content@),
{
    let cs = chars_of(content);
    lines_vec(&cs)
}

} // verus!
