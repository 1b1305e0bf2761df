//! The key dispatcher: a two-mode state machine translating key events into
//! editor and session mutations, and surfacing statements ready for
//! submission.

use vstd::prelude::*;

use crate::editor::buffer_text;
use crate::editor::char_advance;
use crate::editor::empty_buffer;
use crate::editor::model_append;
use crate::editor::model_backspace;
use crate::events::Key;
use crate::session::App;
use crate::session::AppReturn;
use crate::session::InputMode;
use crate::session::Tabs;

verus! {

/// Outcome of one dispatched key event.
#[derive(PartialEq, Eq, Structural, Clone, Copy, Debug)]
pub enum KeyEventAction {
    Continue,
    Exit,
}

/// Outcome of a key handled in browsing mode.
#[derive(PartialEq, Eq, Structural, Clone, Copy, Debug)]
pub enum NormalModeAction {
    Continue,
    Exit,
}

/// Outcome of a key handled in editing mode: the session simply continues,
/// or a terminated statement is ready for submission.
#[derive(Debug)]
pub enum EditModeAction {
    Continue,
    Submit(String),
}

pub open spec fn is_digit(c: char) -> bool {
    '0' <= c <= '9'
}

/// The numeric value of a digit key: its distance from the zero digit.
pub open spec fn spec_digit(c: char) -> int {
    c as u32 - 48
}

/// The browsing-mode transition table: `e` starts editing, `q` exits, a
/// digit within the declared tab count selects that tab, and anything else
/// is ignored.
pub open spec fn normal_step(app: App, key: Key) -> (App, NormalModeAction) {
    match key {
        Key::Char(c) => {
            if c == 'e' {
                (App { input_mode: InputMode::Editing, ..app }, NormalModeAction::Continue)
            } else if c == 'q' {
                (app, NormalModeAction::Exit)
            } else if is_digit(c) && spec_digit(c) < app.tabs.titles@.len() {
                (
                    App {
                        tabs: Tabs { titles: app.tabs.titles, index: spec_digit(c) as usize },
                        ..app
                    },
                    NormalModeAction::Continue,
                )
            } else {
                (app, NormalModeAction::Continue)
            }
        },
        _ => (app, NormalModeAction::Continue),
    }
}

/// Browsing-mode dispatch, exactly the transition table.
pub fn normal_mode_handler(app: &mut App, key: Key) -> (r: NormalModeAction)
    requires
        old(app).wf(),
    ensures
        final(app).wf(),
        (*final(app), r) == normal_step(*old(app), key),
{
    match key {
        Key::Char(c) => {
            if c == 'e' {
                app.input_mode = InputMode::Editing;
                NormalModeAction::Continue
            } else if c == 'q' {
                NormalModeAction::Exit
            } else {
                let u = c as u32;
                if 48 <= u && u <= 57 {
                    let idx = (u - 48) as usize;
                    if idx < app.tabs.titles.len() {
                        app.tabs.index = idx;
                    }
                }
                NormalModeAction::Continue
            }
        },
        _ => NormalModeAction::Continue,
    }
}

/// Pressing q while browsing always exits and changes nothing, whatever
/// the history or tab state.
pub proof fn lemma_quit_always_exits(app: App)
    ensures
        normal_step(app, Key::Char('q')) == (app, NormalModeAction::Exit),
{
}

/// Selecting a digit at or beyond the declared tab count leaves the whole
/// session, the selected tab included, unchanged.
pub proof fn lemma_out_of_range_digit_ignored(app: App, c: char)
    requires
        is_digit(c),
        spec_digit(c) >= app.tabs.titles@.len(),
    ensures
        normal_step(app, Key::Char(c)) == (app, NormalModeAction::Continue),
{
}

/// The machine-limit guard for editing keys: the advanced cursor column
/// and, for a row split, the new row index must still fit the terminal
/// coordinate type.
pub open spec fn edit_fits(app: App, key: Key) -> bool {
    match key {
        Key::Char(c) => {
            if c == '\n' {
                app.editor.input@.lines.len() <= u16::MAX
            } else {
                app.editor.input@.col + char_advance(c) <= u16::MAX
            }
        },
        Key::Enter => !app.editor.sql_terminated ==> app.editor.input@.lines.len() <= u16::MAX,
        Key::Tab => app.editor.input@.col + 4 <= u16::MAX,
        _ => true,
    }
}

pub open spec fn submitted_of(r: EditModeAction) -> Option<String> {
    match r {
        EditModeAction::Continue => Option::None,
        EditModeAction::Submit(s) => Option::Some(s),
    }
}

/// The editing-mode transition table, relating the session before and
/// after one key: characters and tabs extend the buffer, Enter either
/// continues the statement or yields it for submission, Backspace deletes,
/// Escape returns to browsing, and everything else is ignored. History,
/// tabs, and results never change here.
pub open spec fn edit_outcome(pre: App, post: App, key: Key, submitted: Option<String>) -> bool {
    &&& post.tabs == pre.tabs
    &&& post.history == pre.history
    &&& post.query_results == pre.query_results
    &&& match key {
        Key::Char(c) => {
            &&& post.editor.input@ == model_append(pre.editor.input@, c)
            &&& post.editor.sql_terminated == (pre.editor.sql_terminated || c == ';')
            &&& post.input_mode == pre.input_mode
            &&& submitted is None
        },
        Key::Enter => {
            if pre.editor.sql_terminated {
                &&& submitted matches Some(sql) && sql@ == buffer_text(pre.editor.input@)
                &&& post.editor.input@ == empty_buffer()
                &&& !post.editor.sql_terminated
                &&& post.input_mode == pre.input_mode
            } else {
                &&& submitted is None
                &&& post.editor.input@ == model_append(pre.editor.input@, '\n')
                &&& !post.editor.sql_terminated
                &&& post.input_mode == pre.input_mode
            }
        },
        Key::Tab => {
            &&& post.editor.input@ == model_append(pre.editor.input@, '\t')
            &&& post.editor.sql_terminated == pre.editor.sql_terminated
            &&& post.input_mode == pre.input_mode
            &&& submitted is None
        },
        Key::Backspace => {
            &&& post.editor.input@ == model_backspace(pre.editor.input@)
            &&& post.editor.sql_terminated == pre.editor.sql_terminated
            &&& post.input_mode == pre.input_mode
            &&& submitted is None
        },
        Key::Esc => {
            &&& post == App { input_mode: InputMode::Normal, ..pre }
            &&& submitted is None
        },
        _ => post == pre && submitted is None,
    }
}

/// Editing-mode dispatch, exactly the transition table.
pub fn edit_mode_handler(app: &mut App, key: Key) -> (r: EditModeAction)
    requires
        old(app).wf(),
        edit_fits(*old(app), key),
    ensures
        final(app).wf(),
        edit_outcome(*old(app), *final(app), key, submitted_of(r)),
{
    match key {
        Key::Enter => {
            let sql = app.editor.on_enter();
            match sql {
                Option::Some(s) => EditModeAction::Submit(s),
                Option::None => EditModeAction::Continue,
            }
        },
        Key::Char(c) => {
            app.editor.append_char(c);
            EditModeAction::Continue
        },
        Key::Tab => {
            app.editor.on_tab();
            EditModeAction::Continue
        },
        Key::Backspace => {
            app.editor.on_backspace();
            EditModeAction::Continue
        },
        Key::Esc => {
            app.input_mode = InputMode::Normal;
            EditModeAction::Continue
        },
        _ => EditModeAction::Continue,
    }
}

/// The whole dispatch contract: in browsing mode the browsing table runs
/// and nothing is submitted; in editing mode the editing table runs and
/// the loop always continues; Exit comes from q in browsing mode and from
/// nowhere else.
pub open spec fn dispatch_post(
    pre: App,
    post: App,
    key: Key,
    r: (KeyEventAction, Option<String>),
) -> bool {
    &&& pre.input_mode is Normal ==> {
        &&& r.1 is None
        &&& post == normal_step(pre, key).0
        &&& (r.0 is Exit <==> normal_step(pre, key).1 is Exit)
    }
    &&& pre.input_mode is Editing ==> {
        &&& r.0 is Continue
        &&& edit_outcome(pre, post, key, r.1)
    }
    &&& (r.0 is Exit <==> pre.input_mode is Normal && key == Key::Char('q'))
}

/// Dispatches one key event through the current mode's transition table.
/// The second component carries a statement that became ready for
/// submission, for the caller to run against the query engine and record
/// through the session's outcome functions.
pub fn key_event_handler(app: &mut App, key: Key) -> (r: (KeyEventAction, Option<String>))
    requires
        old(app).wf(),
        old(app).input_mode is Editing ==> edit_fits(*old(app), key),
    ensures
        final(app).wf(),
        dispatch_post(*old(app), *final(app), key, r),
{
    let mode = app.input_mode;
    match mode {
        InputMode::Normal => {
            let n = normal_mode_handler(app, key);
            match n {
                NormalModeAction::Continue => (KeyEventAction::Continue, Option::None),
                NormalModeAction::Exit => (KeyEventAction::Exit, Option::None),
            }
        },
        InputMode::Editing => {
            let e = edit_mode_handler(app, key);
            match e {
                EditModeAction::Continue => (KeyEventAction::Continue, Option::None),
                EditModeAction::Submit(s) => (KeyEventAction::Continue, Option::Some(s)),
            }
        },
    }
}

impl App {
    /// Dispatches one key event against the current mode.
    pub fn key_handler(&mut self, key: Key) -> (r: (KeyEventAction, Option<String>))
        requires
            old(self).wf(),
            old(self).input_mode is Editing ==> edit_fits(*old(self), key),
        ensures
            final(self).wf(),
            dispatch_post(*old(self), *final(self), key, r),
    {
        key_event_handler(self, key)
    }

    /// Timer ticks leave the session untouched.
    pub fn update_on_tick(&mut self) -> (r: AppReturn)
        ensures
            *final(self) == *old(self),
            r == AppReturn::Continue,
    {
        AppReturn::Continue
    }
}

} // verus!
