//! The shape of a line chart drawn with box-drawing characters: which data
//! point lands in which column, and which cells each column paints. Rows
//! are counted from the top of the data area; mapping a value to its row is
//! the caller's.
use vstd::prelude::*;

verus! {

/// Whether a column's stroke rises, falls or stays level.
#[derive(Clone, Copy, Debug, PartialEq, Eq)]
pub enum Direction {
    Flat,
    Rise,
    Fall,
}

/// One painted cell: column, row, character and the direction of the
/// stroke it belongs to (which decides its colour).
#[derive(Clone, Copy, Debug, PartialEq, Eq)]
pub struct Stroke {
    pub col: u16,
    pub row: u16,
    pub ch: char,
    pub dir: Direction,
}

/// The row of each column, one point per column: with no more points than
/// columns the points fill the right end (the left end when `left_aligned`),
/// with more only the last `width` points are shown.
pub open spec fn column_rows_spec(rows: Seq<u16>, width: nat, left_aligned: bool) -> Seq<Option<u16>> {
    let n = rows.len();
    if n <= width {
        let offset: int = if left_aligned {
            0
        } else {
            width - n
        };
        Seq::new(
            width,
            |c: int|
                if offset <= c < offset + n {
                    Some(rows[c - offset])
                } else {
                    None
                },
        )
    } else {
        Seq::new(width, |c: int| Some(rows[n - width + c]))
    }
}

pub open spec fn corners(rounded: bool) -> (char, char, char, char) {
    if rounded {
        ('╭', '╮', '╰', '╯')
    } else {
        ('┌', '┐', '└', '┘')
    }
}

/// A vertical run of `'│'` in column `col`, rows `lo + 1` up to `hi - 1`.
pub open spec fn bar(col: u16, lo: u16, hi: u16, dir: Direction) -> Seq<Stroke> {
    Seq::new(
        if hi > lo + 1 {
            (hi - lo - 1) as nat
        } else {
            0
        },
        |i: int| Stroke { col, row: (lo + 1 + i) as u16, ch: '│', dir },
    )
}

/// The cells column `c` paints. A point with no point before it, or at the
/// same row as the one before, is a level `'─'`. A rise from row `prev` up
/// to `row` is a top-left corner at `row`, a bar between, and a bottom-right
/// corner at `prev`; a fall is a top-right corner at `prev`, a bar, and a
/// bottom-left corner at `row`.
pub open spec fn column_strokes(cols: Seq<Option<u16>>, c: int, rounded: bool) -> Seq<Stroke> {
    let (tl, tr, bl, br) = corners(rounded);
    let x = c as u16;
    match cols[c] {
        None => Seq::empty(),
        Some(row) => {
            let prev = if c == 0 {
                None
            } else {
                cols[c - 1]
            };
            match prev {
                Some(p) => if p > row {
                    seq![Stroke { col: x, row, ch: tl, dir: Direction::Rise }] + bar(
                        x,
                        row,
                        p,
                        Direction::Rise,
                    ) + seq![Stroke { col: x, row: p, ch: br, dir: Direction::Rise }]
                } else if p < row {
                    seq![Stroke { col: x, row: p, ch: tr, dir: Direction::Fall }] + bar(
                        x,
                        p,
                        row,
                        Direction::Fall,
                    ) + seq![Stroke { col: x, row, ch: bl, dir: Direction::Fall }]
                } else {
                    seq![Stroke { col: x, row, ch: '─', dir: Direction::Flat }]
                },
                None => seq![Stroke { col: x, row, ch: '─', dir: Direction::Flat }],
            }
        },
    }
}

/// The cells of the first `k` columns, column by column.
pub open spec fn strokes_upto(cols: Seq<Option<u16>>, k: int, rounded: bool) -> Seq<Stroke>
    decreases k,
{
    if k <= 0 {
        Seq::empty()
    } else {
        strokes_upto(cols, k - 1, rounded) + column_strokes(cols, k - 1, rounded)
    }
}

/// Places the rows of the data points in `width` columns.
pub fn column_rows(rows: &Vec<u16>, width: usize, left_aligned: bool) -> (r: Vec<Option<u16>>)
    ensures
        r@ == column_rows_spec(rows@, width as nat, left_aligned),
{
    let n = rows.len();
    let mut r: Vec<Option<u16>> = Vec::new();
    let mut c: usize = 0;
    let ghost goal = column_rows_spec(rows@, width as nat, left_aligned);
    while c < width
        invariant
            c <= width,
            n == rows.len(),
            goal == column_rows_spec(rows@, width as nat, left_aligned),
            goal.len() == width,
            r@ == goal.take(c as int),
        decreases width - c,
    {
        let v = if n <= width {
            let offset = if left_aligned {
                0
            } else {
                width - n
            };
            if offset <= c && c < offset + n {
                Some(rows[c - offset])
            } else {
                None
            }
        } else {
            Some(rows[n - width + c])
        };
        assert(v == goal[c as int]);
        r.push(v);
        assert(r@ =~= goal.take(c + 1));
        c = c + 1;
    }
    assert(r@ =~= goal);
    r
}

fn push_bar(out: &mut Vec<Stroke>, col: u16, lo: u16, hi: u16, dir: Direction)
    ensures
        final(out)@ == old(out)@ + bar(col, lo, hi, dir),
{
    let ghost start = out@;
    let mut r: u16 = lo;
    if hi > lo {
        r = lo + 1;
        while r < hi
            invariant
                lo < r <= hi,
                out@ == start + bar(col, lo, hi, dir).take(r - lo - 1),
            decreases hi - r,
        {
            out.push(Stroke { col, row: r, ch: '│', dir });
            assert(bar(col, lo, hi, dir).take(r - lo) =~= bar(col, lo, hi, dir).take(r - lo - 1).push(
                Stroke { col, row: r, ch: '│', dir },
            ));
            assert(out@ =~= start + bar(col, lo, hi, dir).take(r - lo));
            r = r + 1;
        }
        assert(bar(col, lo, hi, dir).take(r - lo - 1) =~= bar(col, lo, hi, dir));
    } else {
        assert(out@ =~= start + bar(col, lo, hi, dir));
    }
}

/// The cells a line through the column rows paints, column by column.
pub fn line_strokes(cols: &Vec<Option<u16>>, rounded: bool) -> (r: Vec<Stroke>)
    requires
        cols.len() <= u16::MAX + 1,
    ensures
        r@ == strokes_upto(cols@, cols.len() as int, rounded),
{
    let (tl, tr, bl, br) = if rounded {
        ('╭', '╮', '╰', '╯')
    } else {
        ('┌', '┐', '└', '┘')
    };
    let mut out: Vec<Stroke> = Vec::new();
    let mut c: usize = 0;
    while c < cols.len()
        invariant
            c <= cols.len(),
            cols.len() <= u16::MAX + 1,
            (tl, tr, bl, br) == corners(rounded),
            out@ == strokes_upto(cols@, c as int, rounded),
        decreases cols.len() - c,
    {
        let ghost before = out@;
        if let Some(row) = cols[c] {
            let x = c as u16;
            let prev = if c == 0 {
                None
            } else {
                cols[c - 1]
            };
            match prev {
                Some(p) => {
                    if p > row {
                        out.push(Stroke { col: x, row, ch: tl, dir: Direction::Rise });
                        push_bar(&mut out, x, row, p, Direction::Rise);
                        out.push(Stroke { col: x, row: p, ch: br, dir: Direction::Rise });
                    } else if p < row {
                        out.push(Stroke { col: x, row: p, ch: tr, dir: Direction::Fall });
                        push_bar(&mut out, x, p, row, Direction::Fall);
                        out.push(Stroke { col: x, row, ch: bl, dir: Direction::Fall });
                    } else {
                        out.push(Stroke { col: x, row, ch: '─', dir: Direction::Flat });
                    }
                },
                None => {
                    out.push(Stroke { col: x, row, ch: '─', dir: Direction::Flat });
                },
            }
        }
        assert(out@ =~= before + column_strokes(cols@, c as int, rounded));
        c = c + 1;
    }
    out
}

} // verus!
