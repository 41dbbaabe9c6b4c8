use mee::paint::PaintOp;
use mee::panel::{
    body_ops, border_text, clear_ops, layout_ops, layout_panel, panel_ops, row_ops, word_ops,
    PanelGeometry, PanelLayout, PlacedWord,
};

fn panel_words(words: &[&str]) -> Vec<String> {
    words.iter().map(|w| w.to_string()).collect()
}

fn geometry(cols: u16, rows: u16, cursor_row: u16, height: u16) -> PanelGeometry {
    PanelGeometry { cols, rows, cursor_row, height }
}

fn placed(index: usize, row: u16, column: u16) -> PlacedWord {
    PlacedWord { index, row, column, highlighted: false }
}

fn write(text: &str) -> PaintOp {
    PaintOp::Write(text.to_string())
}

fn horizontal(left: char, rule: usize, right: char) -> PaintOp {
    let mut text = String::new();
    text.push(left);
    for _ in 0..rule {
        text.push('─');
    }
    text.push(right);
    PaintOp::Write(text)
}

/// Carries the instructions out on a cursor: column, row, and the position
/// last remembered.
fn cursor_after(ops: &[PaintOp], start: (u32, u32), rows: u32) -> (u32, u32) {
    let (mut column, mut row) = start;
    let mut saved = (0, 0);
    for op in ops {
        match op {
            PaintOp::MoveToColumn(c) => column = *c as u32,
            PaintOp::MoveToNextLine(n) => {
                column = 0;
                row = (row + *n as u32).min(rows - 1);
            }
            PaintOp::MoveUp(n) => row = row.saturating_sub(*n as u32),
            PaintOp::MoveLeft(n) => column = column.saturating_sub(*n as u32),
            PaintOp::MoveRight(n) => column += *n as u32,
            PaintOp::SavePosition => saved = (column, row),
            PaintOp::RestorePosition => {
                column = saved.0;
                row = saved.1;
            }
            PaintOp::Write(text) => column += text.chars().count() as u32,
            PaintOp::ClearCurrentLine
            | PaintOp::ClearFromCursorDown
            | PaintOp::ScrollUp(_)
            | PaintOp::InvertColors
            | PaintOp::ResetColors => {}
        }
    }
    (column, row)
}

#[test]
fn geometry_height_is_at_least_three_rows() {
    assert_eq!(geometry(80, 24, 0, 0).panel_height(), 3);
    assert_eq!(geometry(80, 24, 0, 2).panel_height(), 3);
    assert_eq!(geometry(80, 24, 0, 3).panel_height(), 3);
    assert_eq!(geometry(80, 24, 0, 6).panel_height(), 6);
    assert_eq!(geometry(80, 24, 0, 0).body_rows(), 1);
    assert_eq!(geometry(80, 24, 0, 6).body_rows(), 4);
}

#[test]
fn geometry_scrolls_when_the_panel_would_reach_the_bottom() {
    assert!(!geometry(80, 24, 20, 3).needs_scroll());
    assert!(geometry(80, 24, 21, 3).needs_scroll());
    assert!(geometry(80, 24, 23, 3).needs_scroll());
    assert!(geometry(80, 2, 0, 3).needs_scroll());
    assert_eq!(geometry(80, 24, 20, 3).scroll_rows(), 0);
    assert_eq!(geometry(80, 24, 21, 3).scroll_rows(), 3);
    assert_eq!(geometry(80, 24, 21, 6).scroll_rows(), 6);
    assert_eq!(geometry(80, 24, 20, 3).reference_row(), 20);
    assert_eq!(geometry(80, 24, 21, 3).reference_row(), 18);
    assert_eq!(geometry(80, 24, 23, 6).reference_row(), 17);
    assert_eq!(geometry(80, 4, 2, 3).reference_row(), 0);
    assert!(geometry(80, 65535, 65535, 65535).needs_scroll());
}

#[test]
fn layout_puts_words_side_by_side_from_column_three() {
    let words = panel_words(&["select", "send", "set"]);
    let layout = layout_panel(geometry(80, 24, 5, 3), &words, Some(1));
    assert_eq!(
        layout,
        PanelLayout {
            scroll_rows: 0,
            reference_row: 5,
            cols: 80,
            body: vec![vec![
                placed(0, 0, 3),
                PlacedWord { index: 1, row: 0, column: 10, highlighted: true },
                placed(2, 0, 15),
            ]],
        }
    );
}

#[test]
fn layout_wraps_into_the_next_row_and_drops_what_does_not_fit() {
    let words = panel_words(&["alpha", "beta", "gamma", "delta", "epsilon", "zeta"]);
    let layout = layout_panel(geometry(20, 24, 0, 4), &words, None);
    assert_eq!(
        layout.body,
        vec![
            vec![placed(0, 0, 3), placed(1, 0, 9)],
            vec![placed(2, 1, 3), placed(3, 1, 9)],
        ]
    );
    let layout = layout_panel(geometry(20, 24, 0, 3), &words, None);
    assert_eq!(layout.body, vec![vec![placed(0, 0, 3), placed(1, 0, 9)]]);
}

#[test]
fn layout_word_that_ends_at_the_limit_still_fits() {
    let fits = panel_words(&["abcdefghijklm"]);
    let layout = layout_panel(geometry(20, 24, 0, 3), &fits, None);
    assert_eq!(layout.body, vec![vec![placed(0, 0, 3)]]);

    let too_long = panel_words(&["abcdefghijklmn"]);
    let layout = layout_panel(geometry(20, 24, 0, 3), &too_long, None);
    assert_eq!(layout.body, vec![Vec::<PlacedWord>::new()]);
    let layout = layout_panel(geometry(20, 24, 0, 4), &too_long, None);
    assert_eq!(layout.body, vec![Vec::new(), vec![placed(0, 1, 3)]]);
}

#[test]
fn layout_counts_characters_not_bytes() {
    let words = panel_words(&["äöü", "€€"]);
    let layout = layout_panel(geometry(80, 24, 0, 3), &words, None);
    assert_eq!(layout.body, vec![vec![placed(0, 0, 3), placed(1, 0, 7)]]);
}

#[test]
fn layout_keeps_its_height_when_rows_stay_empty() {
    let words = panel_words(&["one"]);
    let layout = layout_panel(geometry(80, 24, 0, 6), &words, None);
    assert_eq!(
        layout.body,
        vec![vec![placed(0, 0, 3)], Vec::new(), Vec::new(), Vec::new()]
    );
    let layout = layout_panel(geometry(80, 24, 0, 0), &Vec::new(), None);
    assert_eq!(layout.body, vec![Vec::<PlacedWord>::new()]);
}

#[test]
fn layout_on_a_terminal_too_narrow_gives_each_word_a_row() {
    let words = panel_words(&["a", "b", "c"]);
    let layout = layout_panel(geometry(2, 24, 0, 5), &words, None);
    assert_eq!(
        layout.body,
        vec![Vec::new(), vec![placed(0, 1, 3)], vec![placed(1, 2, 3)]]
    );
}

#[test]
fn layout_ignores_a_selection_that_names_no_placed_word() {
    let words = panel_words(&["one", "two"]);
    let layout = layout_panel(geometry(80, 24, 0, 3), &words, Some(7));
    assert_eq!(layout.body, vec![vec![placed(0, 0, 3), placed(1, 0, 7)]]);
}

#[test]
fn layout_records_scroll_and_reference_row() {
    let layout = layout_panel(geometry(80, 24, 22, 3), &Vec::new(), None);
    assert_eq!((layout.scroll_rows, layout.reference_row, layout.cols), (3, 19, 80));
    let layout = layout_panel(geometry(80, 24, 2, 3), &Vec::new(), None);
    assert_eq!((layout.scroll_rows, layout.reference_row, layout.cols), (0, 2, 80));
}

#[test]
fn border_spans_the_width_between_two_corners() {
    assert_eq!(border_text('╭', 6, '╮'), "╭────╮");
    assert_eq!(border_text('╰', 3, '╯'), "╰─╯");
    assert_eq!(border_text('╭', 2, '╮'), "╭╮");
    assert_eq!(border_text('╭', 0, '╮'), "╭╮");
    assert_eq!(border_text('╭', 80, '╮').chars().count(), 80);
}

#[test]
fn word_is_written_with_a_space_and_inverted_when_selected() {
    assert_eq!(word_ops(&"send".to_string(), false), vec![write("send ")]);
    assert_eq!(
        word_ops(&"send".to_string(), true),
        vec![PaintOp::InvertColors, write("send"), PaintOp::ResetColors, write(" ")]
    );
}

#[test]
fn body_row_stands_between_its_borders() {
    let words = panel_words(&["one", "two"]);
    let row = vec![placed(0, 0, 3), PlacedWord { index: 1, row: 0, column: 7, highlighted: true }];
    assert_eq!(
        row_ops(&row, &words, 40),
        vec![
            PaintOp::MoveToNextLine(1),
            write("│ "),
            write("one "),
            PaintOp::InvertColors,
            write("two"),
            PaintOp::ResetColors,
            write(" "),
            PaintOp::MoveToColumn(38),
            write(" │"),
        ]
    );
    assert_eq!(
        row_ops(&Vec::new(), &words, 1),
        vec![PaintOp::MoveToNextLine(1), write("│ "), PaintOp::MoveToColumn(0), write(" │")]
    );
}

#[test]
fn body_row_skips_a_place_without_a_word() {
    let words = panel_words(&["one"]);
    let row = vec![placed(0, 0, 3), placed(5, 0, 7)];
    assert_eq!(
        row_ops(&row, &words, 40),
        vec![
            PaintOp::MoveToNextLine(1),
            write("│ "),
            write("one "),
            PaintOp::MoveToColumn(38),
            write(" │"),
        ]
    );
}

#[test]
fn body_rows_are_drawn_from_top_to_bottom() {
    let words = panel_words(&["one", "two"]);
    let body = vec![vec![placed(0, 0, 3)], vec![placed(1, 1, 3)]];
    let mut expected = row_ops(&body[0], &words, 12);
    expected.extend(row_ops(&body[1], &words, 12));
    assert_eq!(body_ops(&body, &words, 12), expected);
    assert_eq!(body_ops(&Vec::new(), &words, 12), Vec::<PaintOp>::new());
}

#[test]
fn panel_is_drawn_below_the_cursor_with_the_selected_word_inverted() {
    let words = panel_words(&["select", "send", "set"]);
    assert_eq!(
        panel_ops(geometry(80, 24, 5, 3), &words, Some(1)),
        vec![
            PaintOp::SavePosition,
            PaintOp::MoveToNextLine(1),
            PaintOp::ClearFromCursorDown,
            horizontal('╭', 78, '╮'),
            PaintOp::MoveToNextLine(1),
            write("│ "),
            write("select "),
            PaintOp::InvertColors,
            write("send"),
            PaintOp::ResetColors,
            write(" "),
            write("set "),
            PaintOp::MoveToColumn(78),
            write(" │"),
            PaintOp::MoveToNextLine(1),
            horizontal('╰', 78, '╯'),
            PaintOp::RestorePosition,
        ]
    );
}

#[test]
fn panel_without_suggestions_is_an_empty_box() {
    assert_eq!(
        panel_ops(geometry(10, 24, 0, 3), &Vec::new(), None),
        vec![
            PaintOp::SavePosition,
            PaintOp::MoveToNextLine(1),
            PaintOp::ClearFromCursorDown,
            horizontal('╭', 8, '╮'),
            PaintOp::MoveToNextLine(1),
            write("│ "),
            PaintOp::MoveToColumn(8),
            write(" │"),
            PaintOp::MoveToNextLine(1),
            horizontal('╰', 8, '╯'),
            PaintOp::RestorePosition,
        ]
    );
}

#[test]
fn panel_wraps_words_over_its_body_rows() {
    let words = panel_words(&["alpha", "beta", "gamma", "delta", "epsilon"]);
    assert_eq!(
        panel_ops(geometry(20, 24, 0, 4), &words, Some(2)),
        vec![
            PaintOp::SavePosition,
            PaintOp::MoveToNextLine(1),
            PaintOp::ClearFromCursorDown,
            horizontal('╭', 18, '╮'),
            PaintOp::MoveToNextLine(1),
            write("│ "),
            write("alpha "),
            write("beta "),
            PaintOp::MoveToColumn(18),
            write(" │"),
            PaintOp::MoveToNextLine(1),
            write("│ "),
            PaintOp::InvertColors,
            write("gamma"),
            PaintOp::ResetColors,
            write(" "),
            write("delta "),
            PaintOp::MoveToColumn(18),
            write(" │"),
            PaintOp::MoveToNextLine(1),
            horizontal('╰', 18, '╯'),
            PaintOp::RestorePosition,
        ]
    );
}

#[test]
fn panel_at_the_bottom_scrolls_before_it_draws() {
    let words = panel_words(&["select"]);
    let ops = panel_ops(geometry(80, 24, 22, 3), &words, None);
    assert_eq!(ops[0], PaintOp::ScrollUp(3));
    assert_eq!(ops[1], PaintOp::MoveUp(3));
    assert_eq!(ops[2], PaintOp::SavePosition);
    let first_write = ops.iter().position(|op| matches!(op, PaintOp::Write(_)));
    assert_eq!(first_write, Some(5));
    assert_eq!(ops.iter().filter(|op| matches!(op, PaintOp::ScrollUp(_))).count(), 1);

    let ops = panel_ops(geometry(80, 24, 20, 3), &words, None);
    assert_eq!(ops[0], PaintOp::SavePosition);
    assert!(ops.iter().all(|op| !matches!(op, PaintOp::ScrollUp(_))));
}

#[test]
fn panel_leaves_the_cursor_where_the_line_is() {
    let words = panel_words(&["alpha", "beta", "gamma", "delta"]);
    let ops = panel_ops(geometry(20, 24, 5, 4), &words, Some(0));
    assert_eq!(cursor_after(&ops, (7, 5), 24), (7, 5));

    let ops = panel_ops(geometry(20, 24, 22, 4), &words, Some(0));
    assert_eq!(cursor_after(&ops, (7, 22), 24), (7, 18));
}

#[test]
fn panel_drawn_twice_is_the_same() {
    let words = panel_words(&["alpha", "beta", "gamma", "delta"]);
    let first = panel_ops(geometry(20, 24, 5, 4), &words, Some(1));
    let second = panel_ops(geometry(20, 24, 5, 4), &words, Some(1));
    assert_eq!(first, second);
}

#[test]
fn panel_drawn_again_after_scrolling_scrolls_no_further() {
    let words = panel_words(&["alpha", "beta", "gamma", "delta"]);
    let first_geometry = geometry(20, 24, 23, 4);
    let first = panel_ops(first_geometry, &words, Some(1));
    let again = geometry(20, 24, first_geometry.reference_row(), 4);
    assert_eq!(again.cursor_row, 19);
    let second = panel_ops(again, &words, Some(1));
    assert_eq!(first[..2], [PaintOp::ScrollUp(4), PaintOp::MoveUp(4)]);
    assert_eq!(first[2..], second[..]);
    let third = panel_ops(geometry(20, 24, again.reference_row(), 4), &words, Some(1));
    assert_eq!(second, third);
}

#[test]
fn layout_ops_draw_what_the_layout_holds() {
    let words = panel_words(&["one", "two"]);
    let layout = PanelLayout {
        scroll_rows: 2,
        reference_row: 0,
        cols: 12,
        body: vec![vec![placed(1, 0, 3)]],
    };
    assert_eq!(
        layout_ops(&layout, &words),
        vec![
            PaintOp::ScrollUp(2),
            PaintOp::MoveUp(2),
            PaintOp::SavePosition,
            PaintOp::MoveToNextLine(1),
            PaintOp::ClearFromCursorDown,
            horizontal('╭', 10, '╮'),
            PaintOp::MoveToNextLine(1),
            write("│ "),
            write("two "),
            PaintOp::MoveToColumn(10),
            write(" │"),
            PaintOp::MoveToNextLine(1),
            horizontal('╰', 10, '╯'),
            PaintOp::RestorePosition,
        ]
    );
}

#[test]
fn clear_blanks_what_is_below_the_cursor() {
    assert_eq!(
        clear_ops(geometry(80, 24, 5, 3)),
        vec![
            PaintOp::SavePosition,
            PaintOp::MoveToNextLine(1),
            PaintOp::ClearFromCursorDown,
            PaintOp::RestorePosition,
        ]
    );
    assert_eq!(clear_ops(geometry(80, 24, 22, 3)).len(), 4);
    assert_eq!(clear_ops(geometry(80, 24, 23, 3)), Vec::<PaintOp>::new());
    assert_eq!(clear_ops(geometry(80, 0, 0, 3)), Vec::<PaintOp>::new());
    assert_eq!(clear_ops(geometry(80, 65535, 65535, 3)), Vec::<PaintOp>::new());
}
