//! Session state: input mode, tab selection, query history, the most recent
//! result projection, and the read side the rendering layer consults.

use vstd::prelude::*;
use vstd::string::StrSliceExecFns;

use crate::editor::Editor;
use crate::editor::empty_buffer;
use crate::results::QueryResults;
use crate::results::Scroll;

verus! {

/// Application tabs: the declared titles and the selected index.
pub struct Tabs {
    pub titles: Vec<&'static str>,
    pub index: usize,
}

impl Tabs {
    pub open spec fn wf(&self) -> bool {
        self.index < self.titles@.len()
    }

    /// The two declared tabs, with the first selected.
    pub fn new() -> (r: Tabs)
        ensures
            r.wf(),
            r.titles@.len() == 2,
            r.titles@[0]@ == "SQL Editor"@,
            r.titles@[1]@ == "Logs"@,
            r.index == 0,
    {
        let mut titles: Vec<&'static str> = Vec::new();
        titles.push("SQL Editor");
        titles.push("Logs");
        Tabs { titles, index: 0 }
    }
}

/// Which transition table the key dispatcher uses.
#[derive(PartialEq, Eq, Structural, Clone, Copy, Debug)]
pub enum InputMode {
    Normal,
    Editing,
}

/// Whether the run loop continues or exits.
#[derive(PartialEq, Eq, Structural, Clone, Copy, Debug)]
pub enum AppReturn {
    Continue,
    Exit,
}

/// App holds the state of the application.
pub struct App {
    /// Application tabs.
    pub tabs: Tabs,
    /// Current input mode.
    pub input_mode: InputMode,
    /// SQL editor and its state.
    pub editor: Editor,
    /// Submitted statements and error messages, oldest first, append-only.
    pub history: Vec<String>,
    /// Projection of the most recent successful query.
    pub query_results: Option<QueryResults>,
}

impl App {
    /// The session invariant: the tab index is in bounds, the editor's
    /// buffer is well formed, and a result projection only ever exists
    /// after some submission has been recorded.
    pub open spec fn wf(&self) -> bool {
        &&& self.tabs.wf()
        &&& self.editor.wf()
        &&& self.query_results is Some ==> self.history@.len() > 0
    }

    /// A fresh session: browsing mode, first tab selected, empty editor,
    /// no history, no results.
    pub fn new() -> (r: App)
        ensures
            r.wf(),
            r.tabs.titles@.len() == 2,
            r.tabs.titles@[0]@ == "SQL Editor"@,
            r.tabs.titles@[1]@ == "Logs"@,
            r.tabs.index == 0,
            r.input_mode == InputMode::Normal,
            r.editor.input@ == empty_buffer(),
            !r.editor.sql_terminated,
            r.history@.len() == 0,
            r.query_results is None,
    {
        App {
            tabs: Tabs::new(),
            input_mode: InputMode::Normal,
            editor: Editor::default(),
            history: Vec::new(),
            query_results: Option::None,
        }
    }
}

/// Records a successful submission: the statement joins the history and a
/// fresh projection with origin scroll replaces any prior result.
pub fn record_query_success(app: &mut App, sql: String, rows: usize, elapsed_ms: u64)
    requires
        old(app).wf(),
    ensures
        final(app).wf(),
        final(app).history@ == old(app).history@.push(sql),
        final(app).query_results == Some(
            QueryResults { rows, elapsed_ms, scroll: Scroll { x: 0, y: 0 } },
        ),
        final(app).editor == old(app).editor,
        final(app).tabs == old(app).tabs,
        final(app).input_mode == old(app).input_mode,
{
    app.history.push(sql);
    app.query_results = Option::Some(QueryResults::new(rows, elapsed_ms));
}

/// Records a failed submission: the engine's message joins the history
/// exactly as a statement would, and the last result is left unchanged,
/// stale but still visible.
pub fn record_query_error(app: &mut App, message: String)
    requires
        old(app).wf(),
    ensures
        final(app).wf(),
        final(app).history@ == old(app).history@.push(message),
        final(app).query_results == old(app).query_results,
        final(app).editor == old(app).editor,
        final(app).tabs == old(app).tabs,
        final(app).input_mode == old(app).input_mode,
{
    app.history.push(message);
}

/// A history entry that begins with the literal token CREATE: such a
/// statement produced no row data worth tabulating.
pub open spec fn starts_with_create(s: Seq<char>) -> bool {
    &&& s.len() >= 6
    &&& s[0] == 'C'
    &&& s[1] == 'R'
    &&& s[2] == 'E'
    &&& s[3] == 'A'
    &&& s[4] == 'T'
    &&& s[5] == 'E'
}

pub fn is_create_statement(s: &str) -> (r: bool)
    ensures
        r == starts_with_create(s@),
{
    let n = s.unicode_len();
    if n < 6 {
        return false;
    }
    s.get_char(0) == 'C' && s.get_char(1) == 'R' && s.get_char(2) == 'E' && s.get_char(3) == 'A'
        && s.get_char(4) == 'T' && s.get_char(5) == 'E'
}

/// What the results pane should show for the current session state.
#[derive(PartialEq, Eq, Structural, Clone, Copy, Debug)]
pub enum ResultsView {
    /// A completed DDL statement: show the plain confirmation message.
    TableCreated,
    /// A completed query with row data: show the tabulated batches.
    QueryTable,
    /// No result projection yet: echo the most recent history entry.
    LastEntry,
    /// Nothing has been submitted yet.
    NoQueries,
}

/// Chooses between the tabular result view and the plain history view:
/// with a result present, the most recent history entry decides by whether
/// it begins with CREATE; without one, the last history entry, if any, is
/// echoed.
pub fn select_results_view(app: &App) -> (v: ResultsView)
    requires
        app.wf(),
    ensures
        app.query_results is Some && starts_with_create(app.history@.last()@) ==> v
            == ResultsView::TableCreated,
        app.query_results is Some && !starts_with_create(app.history@.last()@) ==> v
            == ResultsView::QueryTable,
        app.query_results is None && app.history@.len() > 0 ==> v == ResultsView::LastEntry,
        app.query_results is None && app.history@.len() == 0 ==> v == ResultsView::NoQueries,
{
    if app.query_results.is_some() {
        let last: &String = &app.history[app.history.len() - 1];
        if is_create_statement(last.as_str()) {
            ResultsView::TableCreated
        } else {
            ResultsView::QueryTable
        }
    } else {
        if app.history.len() > 0 {
            ResultsView::LastEntry
        } else {
            ResultsView::NoQueries
        }
    }
}

} // verus!
