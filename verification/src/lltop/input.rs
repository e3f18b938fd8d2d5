//! What the interactive view does with a key press or a mouse action: the
//! decisions of its event loop, which reads the terminal and draws.
use vstd::prelude::*;

use super::model::{ModelView, ObservationModel};
use super::view::{
    click_row, clicked_row_of, clicked_tab, clicked_tab_of, drag_scrollbar, dragged_scroll_of,
    follow_domain, followed_domain_of, App, AppView, Area, Tab,
};

verus! {

/// How many ready events the view takes from the collector before it draws
/// again.
pub const MAX_READY_EVENTS_PER_CYCLE: usize = 1024;

/// Returns whether the view takes one more ready event before drawing,
/// having taken `count` in this cycle: drawing is never held back by more
/// than [`MAX_READY_EVENTS_PER_CYCLE`] events.
pub fn keep_draining(count: usize) -> (more: bool)
    ensures
        more == (count < MAX_READY_EVENTS_PER_CYCLE),
{
    count < MAX_READY_EVENTS_PER_CYCLE
}

/// How many rows one turn of the mouse wheel scrolls.
pub const WHEEL_SCROLL_ROWS: isize = 3;

/// A pressed key that the view tells apart.
#[derive(Clone, Copy, Debug, PartialEq, Eq, Structural)]
pub enum Key {
    Char(char),
    Esc,
    Tab,
    Up,
    Down,
    Enter,
    Other,
}

/// A mouse action that the view tells apart.
#[derive(Clone, Copy, Debug, PartialEq, Eq, Structural)]
pub enum MouseAction {
    ScrollUp,
    ScrollDown,
    LeftDown,
    LeftDrag,
    LeftUp,
    Other,
}

/// Terminal input: a key press, a mouse action at a cell, or anything else.
#[derive(Clone, Copy, Debug, PartialEq, Eq, Structural)]
pub enum Input {
    Key(Key),
    Mouse(MouseAction, u16, u16),
    Other,
}

/// Whether the event loop goes on or ends.
#[derive(Clone, Copy, Debug, PartialEq, Eq, Structural)]
pub enum Outcome {
    Continue,
    Quit,
}

/// The state after scrolling by `delta` rows, saturating at both ends,
/// which stops following the selection.
pub open spec fn scrolled(app: AppView, delta: int) -> AppView {
    AppView {
        follow_selection: false,
        scroll: if delta < 0 {
            if app.scroll >= -delta {
                (app.scroll + delta) as nat
            } else {
                0
            }
        } else if app.scroll + delta <= usize::MAX {
            (app.scroll + delta) as nat
        } else {
            usize::MAX as nat
        },
        ..app
    }
}

/// Whether a cell is on the scrollbar: the list's right border column,
/// strictly between its top and bottom borders.
pub open spec fn on_scrollbar(list: Area, column: u16, row: u16) -> bool {
    let right: int = list.x + if list.width >= 1 {
        list.width - 1
    } else {
        0
    };
    let bottom: int = list.y + if list.height >= 1 {
        list.height - 1
    } else {
        0
    };
    column == right && row > list.y && row < bottom
}

/// The state after a left click: a tab title switches tabs, the scrollbar
/// starts a drag to that row, a list row is selected.
pub open spec fn left_clicked(
    app: AppView,
    tabs: Area,
    list: Area,
    header_rows: u16,
    column: u16,
    row: u16,
) -> AppView {
    match clicked_tab_of(tabs, column, row) {
        Some(tab) => app.with_tab(tab),
        None => if on_scrollbar(list, column, row) {
            AppView {
                dragging_scrollbar: true,
                follow_selection: false,
                scroll: dragged_scroll_of(list, app.rows.len(), row),
                ..app
            }
        } else {
            match clicked_row_of(list, header_rows, app.scroll, app.rows, column, row) {
                Some(kind) => AppView { selected: Some(kind), detail: true, ..app },
                None => app,
            }
        },
    }
}

/// The state after a key press.
pub open spec fn key_handled(app: AppView, model: ModelView, key: Key) -> AppView {
    match key {
        Key::Char(c) => if c == '1' {
            app.with_tab(Tab::Domains)
        } else if c == '2' {
            app.with_tab(Tab::Denials)
        } else if c == '3' {
            app.with_tab(Tab::Rulesets)
        } else if c == '4' {
            app.with_tab(Tab::Stats)
        } else if c == 'p' {
            AppView { paused: !app.paused, ..app }
        } else {
            app
        },
        Key::Esc => AppView { detail: false, ..app },
        Key::Tab => app.with_tab(Tab::at(((app.tab.position() + 1) % 4) as nat)),
        Key::Up => app.with_moved_selection(-1),
        Key::Down => app.with_moved_selection(1),
        Key::Enter => followed_domain_of(app, model),
        Key::Other => app,
    }
}

/// The state after an input, given where the last drawing placed the tabs
/// and the list.
pub open spec fn input_handled(
    app: AppView,
    tabs: Area,
    list: Area,
    header_rows: u16,
    model: ModelView,
    input: Input,
) -> AppView {
    match input {
        Input::Key(key) => key_handled(app, model, key),
        Input::Mouse(action, column, row) => match action {
            MouseAction::ScrollUp => scrolled(app, -3),
            MouseAction::ScrollDown => scrolled(app, 3),
            MouseAction::LeftDown => left_clicked(app, tabs, list, header_rows, column, row),
            MouseAction::LeftDrag => if app.dragging_scrollbar {
                AppView {
                    follow_selection: false,
                    scroll: dragged_scroll_of(list, app.rows.len(), row),
                    ..app
                }
            } else {
                app
            },
            MouseAction::LeftUp => AppView { dragging_scrollbar: false, ..app },
            MouseAction::Other => app,
        },
        Input::Other => app,
    }
}

/// Whether an input ends the view: `q`, or Esc while no detail is open.
pub open spec fn quits(app: AppView, input: Input) -> bool {
    match input {
        Input::Key(Key::Char(c)) => c == 'q',
        Input::Key(Key::Esc) => !app.detail,
        _ => false,
    }
}

/// Applies an input to the view: keys switch tabs, pause, move and follow
/// the selection or close the detail; the mouse scrolls, switches tabs,
/// drags the scrollbar and selects rows. Returns whether the view ends.
pub fn handle_input(app: &mut App, model: &ObservationModel, input: Input) -> (outcome: Outcome)
    requires
        old(app).hit.header_rows <= 1,
        old(app).hit.list.x + old(app).hit.list.width <= 65536,
        old(app).hit.list.y + old(app).hit.list.height <= 65536,
    ensures
        outcome == (if quits(old(app)@, input) {
            Outcome::Quit
        } else {
            Outcome::Continue
        }),
        !quits(old(app)@, input) ==> final(app)@ == input_handled(
            old(app)@,
            old(app).hit.tabs,
            old(app).hit.list,
            old(app).hit.header_rows,
            model@,
            input,
        ),
        quits(old(app)@, input) ==> final(app)@ == old(app)@,
        final(app).hit == old(app).hit,
{
    match input {
        Input::Key(key) => match key {
            Key::Char(c) => {
                if c == 'q' {
                    return Outcome::Quit;
                } else if c == '1' {
                    app.set_tab(Tab::Domains);
                } else if c == '2' {
                    app.set_tab(Tab::Denials);
                } else if c == '3' {
                    app.set_tab(Tab::Rulesets);
                } else if c == '4' {
                    app.set_tab(Tab::Stats);
                } else if c == 'p' {
                    app.paused = !app.paused;
                }
            },
            Key::Esc => {
                if app.detail {
                    app.close_detail();
                } else {
                    return Outcome::Quit;
                }
            },
            Key::Tab => app.cycle_tab(),
            Key::Up => app.move_selection(-1),
            Key::Down => app.move_selection(1),
            Key::Enter => follow_domain(app, model),
            Key::Other => {},
        },
        Input::Mouse(action, column, row) => match action {
            MouseAction::ScrollUp => app.scroll_by(-WHEEL_SCROLL_ROWS),
            MouseAction::ScrollDown => app.scroll_by(WHEEL_SCROLL_ROWS),
            MouseAction::LeftDown => {
                match clicked_tab(app.hit.tabs, column, row) {
                    Some(tab) => {
                        app.set_tab(tab);
                        return Outcome::Continue;
                    },
                    None => {},
                }
                let list = app.hit.list;
                let scrollbar_column = list.x + list.width.saturating_sub(1);
                if column == scrollbar_column && row > list.y && row < list.y
                    + list.height.saturating_sub(1) {
                    app.dragging_scrollbar = true;
                    drag_scrollbar(app, row);
                } else {
                    click_row(app, column, row);
                }
            },
            MouseAction::LeftDrag => {
                if app.dragging_scrollbar {
                    drag_scrollbar(app, row);
                }
            },
            MouseAction::LeftUp => app.dragging_scrollbar = false,
            MouseAction::Other => {},
        },
        Input::Other => {},
    }
    Outcome::Continue
}

/// Why receiving from the collector failed.
#[derive(Clone, Copy, Debug, PartialEq, Eq, Structural)]
pub enum CollectorReceiveErrorKind {
    /// The collector's output queue was full and samples were lost.
    OutputQueueFull,
    /// A sample could not be decoded.
    MalformedSample,
    /// Polling the kernel ring buffer failed.
    PollFailure,
    /// The collector's worker stopped.
    WorkerStop,
}

/// Returns whether collection goes on after a collector failure of `kind`,
/// with a warning: only lost or malformed samples are recoverable, and a
/// failure of unknown kind is not.
pub fn recoverable_collector_error(kind: Option<CollectorReceiveErrorKind>) -> (recoverable: bool)
    ensures
        recoverable == (kind == Some(CollectorReceiveErrorKind::OutputQueueFull) || kind == Some(
            CollectorReceiveErrorKind::MalformedSample,
        )),
{
    match kind {
        Some(CollectorReceiveErrorKind::OutputQueueFull) => true,
        Some(CollectorReceiveErrorKind::MalformedSample) => true,
        _ => false,
    }
}

} // verus!
