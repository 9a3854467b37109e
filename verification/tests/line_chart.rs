use sysmon::line_chart::{column_rows, line_strokes, Direction, Stroke};

#[test]
fn column_rows_right_aligns_a_short_series() {
    assert_eq!(column_rows(&vec![3, 4], 5, false), vec![None, None, None, Some(3), Some(4)]);
}

#[test]
fn column_rows_left_aligns_on_request() {
    assert_eq!(column_rows(&vec![3, 4], 5, true), vec![Some(3), Some(4), None, None, None]);
}

#[test]
fn column_rows_keeps_the_latest_points_of_a_long_series() {
    assert_eq!(column_rows(&vec![1, 2, 3, 4, 5], 3, false), vec![Some(3), Some(4), Some(5)]);
    assert_eq!(column_rows(&vec![1, 2, 3, 4, 5], 0, false), Vec::<Option<u16>>::new());
}

fn s(col: u16, row: u16, ch: char, dir: Direction) -> Stroke {
    Stroke { col, row, ch, dir }
}

#[test]
fn line_strokes_draw_level_rise_and_fall() {
    let cols = vec![None, Some(4), Some(4), Some(1), Some(3)];
    let got = line_strokes(&cols, false);
    assert_eq!(
        got,
        vec![
            s(1, 4, '─', Direction::Flat),
            s(2, 4, '─', Direction::Flat),
            s(3, 1, '┌', Direction::Rise),
            s(3, 2, '│', Direction::Rise),
            s(3, 3, '│', Direction::Rise),
            s(3, 4, '┘', Direction::Rise),
            s(4, 1, '┐', Direction::Fall),
            s(4, 2, '│', Direction::Fall),
            s(4, 3, '└', Direction::Fall),
        ]
    );
}

#[test]
fn line_strokes_use_rounded_corners_and_restart_after_a_gap() {
    let cols = vec![Some(2), Some(1), None, Some(0)];
    let got = line_strokes(&cols, true);
    assert_eq!(
        got,
        vec![
            s(0, 2, '─', Direction::Flat),
            s(1, 1, '╭', Direction::Rise),
            s(1, 2, '╯', Direction::Rise),
            s(3, 0, '─', Direction::Flat),
        ]
    );
}
