use sql_console::events::Event;
use sql_console::events::Key;
use sql_console::handlers::key_event_handler;
use sql_console::handlers::normal_mode_handler;
use sql_console::handlers::KeyEventAction;
use sql_console::handlers::NormalModeAction;
use sql_console::results::sum_batch_rows;
use sql_console::results::QueryResults;
use sql_console::results::Scroll;
use sql_console::session::is_create_statement;
use sql_console::session::record_query_error;
use sql_console::session::record_query_success;
use sql_console::session::select_results_view;
use sql_console::session::App;
use sql_console::session::AppReturn;
use sql_console::session::InputMode;
use sql_console::session::ResultsView;
use sql_console::session::Tabs;

fn type_statement(app: &mut App, text: &str) -> Option<String> {
    for c in text.chars() {
        let (_, s) = key_event_handler(app, Key::Char(c));
        assert!(s.is_none());
    }
    let (action, s) = key_event_handler(app, Key::Enter);
    assert_eq!(action, KeyEventAction::Continue);
    s
}

#[test]
fn fresh_session_defaults() {
    let app = App::new();
    assert_eq!(app.input_mode, InputMode::Normal);
    assert_eq!(app.tabs.index, 0);
    assert_eq!(app.tabs.titles, vec!["SQL Editor", "Logs"]);
    assert!(app.history.is_empty());
    assert!(app.query_results.is_none());
    assert_eq!(select_results_view(&app), ResultsView::NoQueries);
}

#[test]
fn quit_exits_regardless_of_prior_state() {
    let mut app = App::new();
    key_event_handler(&mut app, Key::Char('1'));
    key_event_handler(&mut app, Key::Char('e'));
    key_event_handler(&mut app, Key::Char('x'));
    key_event_handler(&mut app, Key::Esc);
    let (action, submitted) = key_event_handler(&mut app, Key::Char('q'));
    assert_eq!(action, KeyEventAction::Exit);
    assert!(submitted.is_none());
}

#[test]
fn digit_in_range_selects_tab() {
    let mut app = App::new();
    let r = normal_mode_handler(&mut app, Key::Char('1'));
    assert_eq!(r, NormalModeAction::Continue);
    assert_eq!(app.tabs.index, 1);
    let r = normal_mode_handler(&mut app, Key::Char('0'));
    assert_eq!(r, NormalModeAction::Continue);
    assert_eq!(app.tabs.index, 0);
}

#[test]
fn digit_out_of_range_is_ignored() {
    // Two tabs are declared, so digit 5 leaves the selection alone.
    let mut app = App::new();
    normal_mode_handler(&mut app, Key::Char('1'));
    let r = normal_mode_handler(&mut app, Key::Char('5'));
    assert_eq!(r, NormalModeAction::Continue);
    assert_eq!(app.tabs.index, 1);
}

#[test]
fn e_enters_editing_and_escape_leaves_it() {
    let mut app = App::new();
    key_event_handler(&mut app, Key::Char('e'));
    assert_eq!(app.input_mode, InputMode::Editing);
    key_event_handler(&mut app, Key::Esc);
    assert_eq!(app.input_mode, InputMode::Normal);
}

#[test]
fn other_keys_are_ignored_in_browsing_mode() {
    let mut app = App::new();
    let (action, _) = key_event_handler(&mut app, Key::Char('z'));
    assert_eq!(action, KeyEventAction::Continue);
    let (action, _) = key_event_handler(&mut app, Key::Up);
    assert_eq!(action, KeyEventAction::Continue);
    assert_eq!(app.input_mode, InputMode::Normal);
    assert_eq!(app.tabs.index, 0);
}

#[test]
fn select_one_round_trip() {
    // Engine stub: one batch of one row.
    let mut app = App::new();
    key_event_handler(&mut app, Key::Char('e'));
    let submitted = type_statement(&mut app, "SELECT 1;");
    let sql = submitted.expect("a terminated statement is ready on Enter");
    assert_eq!(sql, "SELECT 1;");
    assert_eq!(app.editor.input.combine_lines(), "");
    assert!(!app.editor.sql_terminated);

    let rows = sum_batch_rows(&vec![1]);
    assert_eq!(rows, 1);
    record_query_success(&mut app, sql, rows, 12);
    assert_eq!(app.history, vec![String::from("SELECT 1;")]);
    let result = app.query_results.expect("a success stores a projection");
    assert_eq!(result.rows, 1);
    assert_eq!(result.elapsed_ms, 12);
    assert_eq!(result.scroll, Scroll { x: 0, y: 0 });
    assert_eq!(select_results_view(&app), ResultsView::QueryTable);
}

#[test]
fn create_statement_selects_history_view() {
    // Engine stub: zero batches returned for a DDL statement.
    let mut app = App::new();
    key_event_handler(&mut app, Key::Char('e'));
    let sql = type_statement(&mut app, "CREATE TABLE t (a INT);").unwrap();
    let rows = sum_batch_rows(&Vec::new());
    assert_eq!(rows, 0);
    record_query_success(&mut app, sql, rows, 3);
    assert_eq!(app.history, vec![String::from("CREATE TABLE t (a INT);")]);
    assert_eq!(select_results_view(&app), ResultsView::TableCreated);
}

#[test]
fn engine_error_appends_message_and_keeps_result() {
    // Engine stub: an error for a misspelled statement.
    let mut app = App::new();
    key_event_handler(&mut app, Key::Char('e'));
    let sql = type_statement(&mut app, "SELECT 1;").unwrap();
    record_query_success(&mut app, sql, 1, 12);
    let before = app.query_results;

    let bad = type_statement(&mut app, "SELEC 1;").unwrap();
    assert_eq!(bad, "SELEC 1;");
    record_query_error(&mut app, String::from("syntax error"));
    assert_eq!(
        app.history,
        vec![String::from("SELECT 1;"), String::from("syntax error")]
    );
    assert_eq!(app.query_results, before);
}

#[test]
fn no_result_yet_echoes_last_history_entry() {
    let mut app = App::new();
    record_query_error(&mut app, String::from("engine offline"));
    assert_eq!(select_results_view(&app), ResultsView::LastEntry);
}

#[test]
fn create_prefix_classification() {
    assert!(is_create_statement("CREATE TABLE t (a INT);"));
    assert!(is_create_statement("CREATE"));
    assert!(!is_create_statement("CREAT"));
    assert!(!is_create_statement("create table"));
    assert!(!is_create_statement(""));
    assert!(!is_create_statement("SELECT 1;"));
}

#[test]
fn sum_batch_rows_totals_batches() {
    assert_eq!(sum_batch_rows(&vec![3, 4, 5]), 12);
    assert_eq!(sum_batch_rows(&Vec::new()), 0);
}

#[test]
fn query_results_start_unscrolled() {
    let r = QueryResults::new(7, 250);
    assert_eq!(r.rows, 7);
    assert_eq!(r.elapsed_ms, 250);
    assert_eq!(r.scroll, Scroll { x: 0, y: 0 });
}

#[test]
fn tabs_declare_editor_and_logs() {
    let t = Tabs::new();
    assert_eq!(t.titles, vec!["SQL Editor", "Logs"]);
    assert_eq!(t.index, 0);
}

#[test]
fn tick_leaves_session_untouched() {
    let mut app = App::new();
    key_event_handler(&mut app, Key::Char('1'));
    let r = app.update_on_tick();
    assert_eq!(r, AppReturn::Continue);
    assert_eq!(app.tabs.index, 1);
    assert_eq!(app.input_mode, InputMode::Normal);
}

#[test]
fn key_handler_matches_dispatcher() {
    let mut app = App::new();
    let (action, submitted) = app.key_handler(Key::Char('e'));
    assert_eq!(action, KeyEventAction::Continue);
    assert!(submitted.is_none());
    assert_eq!(app.input_mode, InputMode::Editing);
}

#[test]
fn events_carry_keys_or_ticks() {
    let e = Event::KeyInput(Key::Enter);
    assert_eq!(e, Event::KeyInput(Key::Enter));
    assert_ne!(e, Event::Tick);
    assert_ne!(Event::KeyInput(Key::Char('a')), Event::KeyInput(Key::Char('b')));
}
