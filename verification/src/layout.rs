//! Grid placement of the dashboard panels and keyboard navigation between them.
use vstd::prelude::*;

verus! {

#[derive(Debug, Clone, Copy, PartialEq, Eq, Structural)]
pub enum Direction {
    Up,
    Down,
    Left,
    Right,
}

/// One column for up to three panels, two columns beyond that.
pub open spec fn spec_grid_cols(panel_count: int) -> int {
    if panel_count <= 3 {
        1
    } else {
        2
    }
}

/// Number of grid columns used to lay out `panel_count` panels.
pub fn grid_cols(panel_count: usize) -> (cols: usize)
    ensures
        cols == spec_grid_cols(panel_count as int),
{
    if panel_count <= 3 {
        1
    } else {
        2
    }
}

/// The panel reached from `index` by one step in `dir` on the grid that
/// `grid_cols` gives, panels filling the grid row by row; `None` when the
/// step leaves the grid or lands on an empty cell of the last row.
pub open spec fn spec_neighbor(index: int, panel_count: int, dir: Direction) -> Option<int> {
    if panel_count == 0 {
        None
    } else {
        let cols = spec_grid_cols(panel_count);
        let row = index / cols;
        let col = index % cols;
        let rows = (panel_count + cols - 1) / cols;
        let (new_row, new_col) = match dir {
            Direction::Up => (row - 1, col),
            Direction::Down => (row + 1, col),
            Direction::Left => (row, col - 1),
            Direction::Right => (row, col + 1),
        };
        if new_row < 0 || new_col < 0 || new_row >= rows || new_col >= cols {
            None
        } else if new_row * cols + new_col >= panel_count {
            None
        } else {
            Some(new_row * cols + new_col)
        }
    }
}

/// The inputs on which the navigation arithmetic stays within `usize`.
pub open spec fn neighbor_in_range(index: usize, panel_count: usize, dir: Direction) -> bool {
    panel_count == 0 || (panel_count + spec_grid_cols(panel_count as int) <= usize::MAX && !(
    dir is Down && panel_count <= 3 && index == usize::MAX))
}

pub fn neighbor(index: usize, panel_count: usize, dir: Direction) -> (r: Option<usize>)
    requires
        neighbor_in_range(index, panel_count, dir),
    ensures
        match spec_neighbor(index as int, panel_count as int, dir) {
            Some(j) => r == Some(j as usize),
            None => r is None,
        },
{
    if panel_count == 0 {
        return None;
    }
    let cols = grid_cols(panel_count);
    let row = index / cols;
    let col = index % cols;
    let rows = (panel_count + cols - 1) / cols;
    let (new_row, new_col) = match dir {
        Direction::Up => {
            if row == 0 {
                return None;
            }
            (row - 1, col)
        },
        Direction::Down => (row + 1, col),
        Direction::Left => {
            if col == 0 {
                return None;
            }
            (row, col - 1)
        },
        Direction::Right => (row, col + 1),
    };
    if new_row >= rows || new_col >= cols {
        return None;
    }
    assert(new_row * cols + new_col < rows * cols) by (nonlinear_arith)
        requires
            new_row < rows,
            new_col < cols,
    ;
    assert(rows * cols <= panel_count + cols - 1) by (nonlinear_arith)
        requires
            rows as int == (panel_count + cols - 1) as int / cols as int,
            cols > 0,
    ;
    let new_index = new_row * cols + new_col;
    if new_index >= panel_count {
        return None;
    }
    Some(new_index)
}

/// How many panels each grid row holds, top to bottom: full rows of
/// `grid_cols` panels, and the rest in the last row.
pub open spec fn spec_row_sizes(panel_count: int) -> Seq<int> {
    if panel_count <= 0 {
        Seq::empty()
    } else {
        let cols = spec_grid_cols(panel_count);
        let rows = (panel_count + cols - 1) / cols;
        Seq::new(
            rows as nat,
            |r: int|
                if r < rows - 1 {
                    cols
                } else {
                    panel_count - cols * (rows - 1)
                },
        )
    }
}

/// The number of panels in each row of the dashboard grid.
pub fn row_sizes(panel_count: usize) -> (r: Vec<usize>)
    requires
        panel_count + 2 <= usize::MAX,
    ensures
        r@.len() == spec_row_sizes(panel_count as int).len(),
        forall|i: int| 0 <= i < r@.len() ==> r@[i] == spec_row_sizes(panel_count as int)[i],
{
    let mut out: Vec<usize> = Vec::new();
    if panel_count == 0 {
        return out;
    }
    let cols = grid_cols(panel_count);
    let rows = (panel_count + cols - 1) / cols;
    assert(cols * (rows - 1) <= panel_count) by (nonlinear_arith)
        requires
            rows as int == (panel_count + cols - 1) as int / cols as int,
            cols > 0,
            rows >= 1,
    ;
    let mut row: usize = 0;
    while row < rows
        invariant
            cols == spec_grid_cols(panel_count as int),
            rows as int == (panel_count + cols - 1) as int / cols as int,
            rows >= 1,
            panel_count > 0,
            cols * (rows - 1) <= panel_count,
            row <= rows,
            out@.len() == row,
            forall|i: int| 0 <= i < row ==> out@[i] == spec_row_sizes(panel_count as int)[i],
        decreases rows - row,
    {
        assert(cols * row <= cols * (rows - 1)) by (nonlinear_arith)
            requires
                row <= rows - 1,
                cols > 0,
        ;
        let in_row = if row == rows - 1 {
            panel_count - cols * row
        } else {
            cols
        };
        out.push(in_row);
        row = row + 1;
    }
    out
}

/// The rows of the grid hold every panel, none more than the grid's width.
pub proof fn row_sizes_cover_the_panels(panel_count: int)
    requires
        panel_count > 0,
    ensures
        ({
            let s = spec_row_sizes(panel_count);
            &&& s.len() == (panel_count + spec_grid_cols(panel_count) - 1) / spec_grid_cols(panel_count)
            &&& forall|i: int| 0 <= i < s.len() ==> 1 <= #[trigger] s[i] <= spec_grid_cols(panel_count)
        }),
{
    let cols = spec_grid_cols(panel_count);
    let rows = (panel_count + cols - 1) / cols;
    assert(rows >= 1);
    assert(cols * (rows - 1) < panel_count) by (nonlinear_arith)
        requires
            rows == (panel_count + cols - 1) / cols,
            cols > 0,
            rows >= 1,
            panel_count > 0,
    ;
    assert(panel_count <= cols * rows) by (nonlinear_arith)
        requires
            rows == (panel_count + cols - 1) / cols,
            cols > 0,
    ;
    assert(cols * rows == cols * (rows - 1) + cols) by (nonlinear_arith);
}

proof fn lemma_div_mod_cols(i: int, cols: int)
    requires
        i >= 0,
        cols == 1 || cols == 2,
    ensures
        i == (i / cols) * cols + i % cols,
        0 <= i % cols < cols,
        i / cols >= 0,
{
}

/// A step down followed by a step up returns to the starting panel, and
/// the other way round.
pub proof fn neighbor_up_down_inverse(i: int, j: int, n: int)
    requires
        0 <= i < n,
    ensures
        spec_neighbor(i, n, Direction::Down) == Some(j) ==> spec_neighbor(j, n, Direction::Up)
            == Some(i),
        spec_neighbor(i, n, Direction::Up) == Some(j) ==> spec_neighbor(j, n, Direction::Down)
            == Some(i),
{
    let cols = spec_grid_cols(n);
    lemma_div_mod_cols(i, cols);
    if spec_neighbor(i, n, Direction::Down) == Some(j) {
        let row = i / cols;
        let col = i % cols;
        assert(j == (row + 1) * cols + col);
        assert(j / cols == row + 1 && j % cols == col) by {
            if cols == 2 {
                assert(j == row * 2 + 2 + col);
            }
        }
    }
    if spec_neighbor(i, n, Direction::Up) == Some(j) {
        let row = i / cols;
        let col = i % cols;
        assert(j == (row - 1) * cols + col);
        assert(j / cols == row - 1 && j % cols == col) by {
            if cols == 2 {
                assert(j == row * 2 - 2 + col);
            }
        }
    }
}

/// A step right followed by a step left returns to the starting panel, and
/// the other way round.
pub proof fn neighbor_left_right_inverse(i: int, j: int, n: int)
    requires
        0 <= i < n,
    ensures
        spec_neighbor(i, n, Direction::Right) == Some(j) ==> spec_neighbor(
            j,
            n,
            Direction::Left,
        ) == Some(i),
        spec_neighbor(i, n, Direction::Left) == Some(j) ==> spec_neighbor(j, n, Direction::Right)
            == Some(i),
{
    let cols = spec_grid_cols(n);
    lemma_div_mod_cols(i, cols);
}

/// Every step that succeeds lands on an existing panel.
pub proof fn neighbor_stays_in_grid(i: int, n: int, dir: Direction)
    requires
        0 <= i < n,
    ensures
        spec_neighbor(i, n, dir) matches Some(j) ==> 0 <= j < n && j != i,
{
    let cols = spec_grid_cols(n);
    lemma_div_mod_cols(i, cols);
}

/// The opposite direction.
pub open spec fn opposite(dir: Direction) -> Direction {
    match dir {
        Direction::Up => Direction::Down,
        Direction::Down => Direction::Up,
        Direction::Left => Direction::Right,
        Direction::Right => Direction::Left,
    }
}

/// For every step `neighbor` admits from a panel: when it reaches panel
/// `j`, `neighbor` admits the opposite step from `j`, and that step comes
/// back.
pub proof fn neighbor_steps_undo(index: usize, panel_count: usize, dir: Direction)
    requires
        index < panel_count,
        neighbor_in_range(index, panel_count, dir),
    ensures
        spec_neighbor(index as int, panel_count as int, dir) matches Some(j) ==> {
            &&& 0 <= j < panel_count
            &&& neighbor_in_range(j as usize, panel_count, opposite(dir))
            &&& spec_neighbor(j, panel_count as int, opposite(dir)) == Some(index as int)
        },
{
    neighbor_stays_in_grid(index as int, panel_count as int, dir);
    if let Some(j) = spec_neighbor(index as int, panel_count as int, dir) {
        match dir {
            Direction::Up | Direction::Down => neighbor_up_down_inverse(index as int, j, panel_count as int),
            Direction::Left | Direction::Right => neighbor_left_right_inverse(index as int, j, panel_count as int),
        }
    }
}

} // verus!
