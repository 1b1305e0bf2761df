use sql_console::editor::Editor;
use sql_console::editor::Input;

#[test]
fn straight_line_text_and_column() {
    // Without a line break, the text is the literal concatenation of the
    // appended characters and the column is the sum of their advances.
    let mut inp = Input::default();
    inp.append_char('a');
    inp.append_char('b');
    inp.append_char('\t');
    inp.append_char('c');
    assert_eq!(inp.combine_lines(), "ab\tc");
    assert_eq!(inp.cursor_column, 1 + 1 + 4 + 1);
    assert_eq!(inp.cursor_row, 0);
    assert_eq!(inp.lines.len(), 1);
}

#[test]
fn tab_is_stored_literally_and_advances_four() {
    let mut inp = Input::default();
    inp.tab();
    assert_eq!(inp.combine_lines(), "\t");
    assert_eq!(inp.cursor_column, 4);
}

#[test]
fn newline_splits_row_and_resets_column() {
    let mut inp = Input::default();
    inp.append_char('a');
    inp.append_char('\n');
    assert_eq!(inp.lines.len(), 2);
    assert_eq!(inp.cursor_row, 1);
    assert_eq!(inp.cursor_column, 0);
    assert_eq!(inp.combine_lines(), "a\n");
}

#[test]
fn newline_then_backspace_restores_buffer() {
    // Row split and row merge are inverses: row count and cursor return
    // exactly to the pre-newline state.
    let mut inp = Input::default();
    inp.append_char('a');
    inp.append_char('\t');
    inp.append_char('b');
    let rows_before = inp.lines.len();
    let row_before = inp.cursor_row;
    let col_before = inp.cursor_column;
    let text_before = inp.combine_lines();
    inp.append_char('\n');
    inp.backspace();
    assert_eq!(inp.lines.len(), rows_before);
    assert_eq!(inp.cursor_row, row_before);
    assert_eq!(inp.cursor_column, col_before);
    assert_eq!(inp.combine_lines(), text_before);
}

#[test]
fn backspace_deletes_char_and_retreats() {
    let mut inp = Input::default();
    inp.append_char('a');
    inp.append_char('b');
    inp.backspace();
    assert_eq!(inp.combine_lines(), "a");
    assert_eq!(inp.cursor_column, 1);
}

#[test]
fn backspace_over_tab_retreats_four() {
    let mut inp = Input::default();
    inp.append_char('a');
    inp.tab();
    inp.backspace();
    assert_eq!(inp.combine_lines(), "a");
    assert_eq!(inp.cursor_column, 1);
}

#[test]
fn backspace_on_empty_buffer_is_noop() {
    let mut inp = Input::default();
    inp.backspace();
    assert_eq!(inp.lines.len(), 0);
    assert_eq!(inp.cursor_row, 0);
    assert_eq!(inp.cursor_column, 0);
    assert_eq!(inp.combine_lines(), "");
}

#[test]
fn backspace_merges_across_rows() {
    let mut inp = Input::default();
    inp.append_char('h');
    inp.append_char('i');
    inp.append_char('\n');
    inp.backspace();
    assert_eq!(inp.lines.len(), 1);
    assert_eq!(inp.cursor_row, 0);
    assert_eq!(inp.cursor_column, 2);
    assert_eq!(inp.combine_lines(), "hi");
}

#[test]
fn pop_returns_last_char_of_current_row() {
    let mut inp = Input::default();
    inp.append_char('x');
    inp.append_char('y');
    assert_eq!(inp.pop(), Some('y'));
    assert_eq!(inp.combine_lines(), "x");
    // The cursor is pop's caller's business: it stays where it was.
    assert_eq!(inp.cursor_column, 2);
}

#[test]
fn pop_on_empty_buffer_is_none() {
    let mut inp = Input::default();
    assert_eq!(inp.pop(), None);
    assert_eq!(inp.pop(), None);
}

#[test]
fn up_row_moves_to_end_of_previous_row() {
    let mut inp = Input::default();
    inp.append_char('a');
    inp.append_char('b');
    inp.append_char('\n');
    inp.append_char('c');
    inp.up_row();
    assert_eq!(inp.cursor_row, 0);
    // The closed row "ab\n" is two columns wide: the break adds none.
    assert_eq!(inp.cursor_column, 2);
}

#[test]
fn clear_yields_empty_text_regardless_of_prior_state() {
    let mut inp = Input::default();
    inp.append_char('a');
    inp.append_char('\n');
    inp.tab();
    inp.clear();
    assert_eq!(inp.combine_lines(), "");
    assert_eq!(inp.lines.len(), 0);
    assert_eq!(inp.cursor_row, 0);
    assert_eq!(inp.cursor_column, 0);
}

#[test]
fn semicolon_terminates_statement() {
    let mut ed = Editor::default();
    ed.append_char('a');
    assert!(!ed.sql_terminated);
    ed.append_char(';');
    assert!(ed.sql_terminated);
}

#[test]
fn enter_continues_unterminated_statement() {
    let mut ed = Editor::default();
    ed.append_char('a');
    let r = ed.on_enter();
    assert!(r.is_none());
    assert_eq!(ed.input.combine_lines(), "a\n");
    assert!(!ed.sql_terminated);
}

#[test]
fn enter_submits_terminated_statement_and_clears() {
    let mut ed = Editor::default();
    ed.append_char('a');
    ed.append_char(';');
    let r = ed.on_enter();
    assert_eq!(r, Some(String::from("a;")));
    assert_eq!(ed.input.combine_lines(), "");
    assert_eq!(ed.input.lines.len(), 0);
    assert!(!ed.sql_terminated);
}

#[test]
fn editor_passthrough_and_getters() {
    let mut ed = Editor::default();
    ed.on_tab();
    ed.append_char('z');
    assert_eq!(ed.get_cursor_row(), 0);
    assert_eq!(ed.get_cursor_column(), 5);
    ed.on_backspace();
    assert_eq!(ed.get_cursor_column(), 4);
    assert_eq!(ed.input.combine_lines(), "\t");
}

#[test]
fn screen_cursor_offsets_from_pane_origin() {
    let mut ed = Editor::default();
    ed.append_char('a');
    ed.append_char('b');
    let (x, y) = ed.screen_cursor(3, 7);
    assert_eq!(x, 3 + 2 + 1);
    assert_eq!(y, 7 + 0 + 1);
}

#[test]
fn multiline_statement_flattens_in_order() {
    let mut ed = Editor::default();
    for c in "SELECT *".chars() {
        ed.append_char(c);
    }
    ed.on_enter();
    for c in "FROM t;".chars() {
        ed.append_char(c);
    }
    let r = ed.on_enter();
    assert_eq!(r, Some(String::from("SELECT *\nFROM t;")));
}
