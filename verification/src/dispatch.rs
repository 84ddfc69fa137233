//! The modal key dispatcher: one key and the current mode decide how the
//! state changes and what the event loop has to do next.

use vstd::prelude::*;
use vstd::string::*;
use crate::model::ViewMode;
use crate::parse::split_lines;
use crate::state::AppState;
use crate::text::{blank, first_line_or, is_blank, trim_text, trimmed};

verus! {

/// The keys that the dispatcher tells apart.
#[derive(Clone, Copy, Debug, PartialEq, Eq)]
pub enum KeyCode {
    Char(char),
    Enter,
    Esc,
    Backspace,
    Up,
    Down,
    PageUp,
    PageDown,
    Other,
}

/// One key event: the key and whether the control modifier was held.
#[derive(Clone, Copy, Debug, PartialEq, Eq)]
pub struct Key {
    pub code: KeyCode,
    pub control: bool,
}

/// What the event loop has to do after a key.
#[derive(Debug, PartialEq, Eq)]
pub enum Action {
    /// Nothing: go on with the next iteration.
    Continue,
    /// Leave the loop.
    Quit,
    /// Run this shell command in the repository and report its outcome.
    Run(String),
    /// Fetch the commit list again, with this limit.
    Refresh(usize),
    /// Show the diff of the current selection in the external viewer.
    OpenDiff,
}

/// An `Action`, as plain values.
pub enum ActionView {
    Continue,
    Quit,
    Run(Seq<char>),
    Refresh(usize),
    OpenDiff,
}

impl View for Action {
    type V = ActionView;

    open spec fn view(&self) -> ActionView {
        match self {
            Action::Continue => ActionView::Continue,
            Action::Quit => ActionView::Quit,
            Action::Run(cmd) => ActionView::Run(cmd@),
            Action::Refresh(limit) => ActionView::Refresh(*limit),
            Action::OpenDiff => ActionView::OpenDiff,
        }
    }
}

/// The number of lines that a page key scrolls.
pub const PAGE_LINES: isize = 10;

/// The limit of a refresh asked for by key.
pub const REFRESH_LIMIT: usize = 50;

/// The interrupt combination: control held with `c`.
pub open spec fn is_interrupt(key: Key) -> bool {
    key.control && key.code == KeyCode::Char('c')
}

/// The command that approves the commit `id` in the queue.
pub open spec fn approve_command(id: Seq<char>) -> Seq<char> {
    "f commit-queue approve "@ + id
}

/// The status text after a command: the first line of its trimmed output
/// (or `ok`) on success, its trimmed error text on failure.
pub open spec fn command_status(outcome: Result<String, String>) -> Seq<char> {
    match outcome {
        Ok(output) => "> "@ + first_line_or(trimmed(output@), "ok"@),
        Err(error) => "command failed: "@ + trimmed(error@),
    }
}

impl AppState {
    /// The state in which a key in command entry leaves the cursors, caches
    /// and status: as they were.
    pub open spec fn entry_frame(&self, before: &AppState) -> bool {
        *self == (AppState {
            input_mode: self.input_mode,
            input_buffer: self.input_buffer,
            ..*before
        })
    }

    /// The state after a navigation key in normal mode.
    pub open spec fn navigated(&self, key: Key) -> AppState {
        match key.code {
            KeyCode::Char(c) => {
                if c == 'q' {
                    *self
                } else if c == 'j' {
                    self.moved_file(1)
                } else if c == 'k' {
                    self.moved_file(-1)
                } else if c == '[' {
                    self.moved_commit(-1)
                } else if c == ']' {
                    self.moved_commit(1)
                } else if c == 'g' {
                    self.at_file_top()
                } else if c == 'G' {
                    self.at_file_bottom()
                } else {
                    *self
                }
            },
            KeyCode::Down => self.moved_file(1),
            KeyCode::Up => self.moved_file(-1),
            KeyCode::PageDown => self.scrolled(PAGE_LINES as int),
            KeyCode::PageUp => self.scrolled(-PAGE_LINES as int),
            _ => *self,
        }
    }

    /// What the event loop has to do after a key in normal mode.
    pub open spec fn normal_action(&self, key: Key) -> ActionView {
        match key.code {
            KeyCode::Char(c) => {
                if c == 'q' {
                    ActionView::Quit
                } else if c == 'r' {
                    ActionView::Refresh(REFRESH_LIMIT)
                } else if c == 'A' {
                    if self.mode == ViewMode::Queue && self.commit_index < self.commits.len() {
                        ActionView::Run(approve_command(self.commits[self.commit_index as int].id@))
                    } else {
                        ActionView::Continue
                    }
                } else if is_interrupt(key) {
                    ActionView::Quit
                } else {
                    ActionView::Continue
                }
            },
            KeyCode::Enter => {
                if self.commit_index < self.commits.len() {
                    ActionView::OpenDiff
                } else {
                    ActionView::Continue
                }
            },
            _ => ActionView::Continue,
        }
    }

    /// Sets the status from the outcome of `command`; a blank command was
    /// never run and changes nothing.
    pub fn run_command(&mut self, command: &str, outcome: Result<String, String>)
        ensures
            final(self).wf() == old(self).wf(),
            blank(command@) ==> *final(self) == *old(self),
            !blank(command@) ==> *final(self) == (AppState {
                status: final(self).status,
                ..*old(self)
            }) && final(self).status@ == command_status(outcome),
    {
        if is_blank(command) {
            return ;
        }
        match outcome {
            Ok(output) => {
                let text = trim_text(output.as_str());
                let lines = split_lines(text.as_str());
                let mut status = String::from_str("> ");
                if lines.len() > 0 {
                    proof {
                        assert(crate::model::text_view(lines@)[0] == lines@[0]@);
                    }
                    status.append(lines[0].as_str());
                } else {
                    status.append("ok");
                }
                self.status = status;
            },
            Err(error) => {
                let text = trim_text(error.as_str());
                let mut status = String::from_str("command failed: ");
                status.append(text.as_str());
                self.status = status;
            },
        }
    }

    /// The command that approves the selected commit, in queue mode. In
    /// stack mode the status says that approving is not available there;
    /// without a selection nothing happens.
    pub fn approve_selected(&mut self) -> (r: Option<String>)
        ensures
            final(self).wf() == old(self).wf(),
            old(self).mode == ViewMode::Queue ==> *final(self) == *old(self),
            old(self).mode != ViewMode::Queue ==> *final(self) == (AppState {
                status: final(self).status,
                ..*old(self)
            }) && final(self).status@ == "approve only works in queue mode"@,
            match r {
                Some(cmd) => old(self).normal_action(Key { code: KeyCode::Char('A'), control: false })
                    == ActionView::Run(cmd@),
                None => old(self).normal_action(Key { code: KeyCode::Char('A'), control: false })
                    == ActionView::Continue,
            },
    {
        match self.mode {
            ViewMode::Queue => {},
            ViewMode::Stack => {
                self.status = String::from_str("approve only works in queue mode");
                return None;
            },
        }
        match self.selected_commit() {
            Some(commit) => {
                let mut cmd = String::from_str("f commit-queue approve ");
                cmd.append(commit.id.as_str());
                Some(cmd)
            },
            None => None,
        }
    }
}

/// Handles one key in command entry. Cancel leaves the mode and discards
/// the buffer; confirm leaves the mode, empties the buffer and asks for its
/// text to be run unless it is blank; erase removes the last character; a
/// character without the control modifier is appended; the interrupt
/// combination quits. Nothing else changes.
pub fn handle_entry_key(app: &mut AppState, key: Key) -> (r: Action)
    requires
        old(app).input_mode,
    ensures
        final(app).entry_frame(old(app)),
        final(app).wf() == old(app).wf(),
        final(app).input_mode == !(key.code == KeyCode::Esc || key.code == KeyCode::Enter),
        final(app).input_buffer@ == match key.code {
            KeyCode::Esc => Seq::<char>::empty(),
            KeyCode::Enter => Seq::<char>::empty(),
            KeyCode::Backspace => if old(app).input_buffer@.len() > 0 {
                old(app).input_buffer@.drop_last()
            } else {
                old(app).input_buffer@
            },
            KeyCode::Char(ch) => if key.control {
                old(app).input_buffer@
            } else {
                old(app).input_buffer@.push(ch)
            },
            _ => old(app).input_buffer@,
        },
        r@ == if key.code == KeyCode::Enter && !blank(old(app).input_buffer@) {
            ActionView::Run(old(app).input_buffer@)
        } else if is_interrupt(key) {
            ActionView::Quit
        } else {
            ActionView::Continue
        },
{
    match key.code {
        KeyCode::Esc => {
            app.input_mode = false;
            app.input_buffer = String::new();
            Action::Continue
        },
        KeyCode::Enter => {
            let cmd = app.input_buffer.clone();
            app.input_mode = false;
            app.input_buffer = String::new();
            if is_blank(cmd.as_str()) {
                Action::Continue
            } else {
                Action::Run(cmd)
            }
        },
        KeyCode::Backspace => {
            app.input_buffer.pop();
            Action::Continue
        },
        KeyCode::Char(ch) => {
            if key.control {
                if ch == 'c' {
                    Action::Quit
                } else {
                    Action::Continue
                }
            } else {
                app.input_buffer.push(ch);
                Action::Continue
            }
        },
        _ => Action::Continue,
    }
}

/// Handles one key in normal mode: the navigation keys move the cursors,
/// `:` enters command entry with an empty buffer, `A` asks for the selected
/// commit to be approved (queue mode only), `r` asks for a refresh, enter
/// asks for the external viewer, `q` and the interrupt combination quit.
pub fn handle_normal_key(app: &mut AppState, key: Key) -> (r: Action)
    requires
        old(app).wf(),
        !old(app).input_mode,
    ensures
        final(app).wf(),
        r@ == old(app).normal_action(key),
        key.code == KeyCode::Char(':') ==> *final(app) == (AppState {
            input_mode: true,
            input_buffer: final(app).input_buffer,
            ..*old(app)
        }) && final(app).input_buffer@.len() == 0,
        key.code == KeyCode::Char('A') && old(app).mode == ViewMode::Queue ==> *final(app) == *old(
            app,
        ),
        key.code == KeyCode::Char('A') && old(app).mode != ViewMode::Queue ==> *final(app) == (AppState {
            status: final(app).status,
            ..*old(app)
        }) && final(app).status@ == "approve only works in queue mode"@,
        key.code != KeyCode::Char(':') && key.code != KeyCode::Char('A') ==> *final(app) == old(
            app,
        ).navigated(key),
{
    match key.code {
        KeyCode::Char(c) => {
            if c == 'q' {
                return Action::Quit;
            } else if c == 'j' {
                app.move_file_selection(1);
            } else if c == 'k' {
                app.move_file_selection(-1);
            } else if c == '[' {
                app.move_commit(-1);
            } else if c == ']' {
                app.move_commit(1);
            } else if c == 'g' {
                app.jump_file_top();
            } else if c == 'G' {
                app.jump_file_bottom();
            } else if c == 'r' {
                return Action::Refresh(REFRESH_LIMIT);
            } else if c == ':' {
                app.input_mode = true;
                app.input_buffer = String::new();
            } else if c == 'A' {
                return match app.approve_selected() {
                    Some(cmd) => Action::Run(cmd),
                    None => Action::Continue,
                };
            } else if c == 'c' && key.control {
                return Action::Quit;
            }
            Action::Continue
        },
        KeyCode::Down => {
            app.move_file_selection(1);
            Action::Continue
        },
        KeyCode::Up => {
            app.move_file_selection(-1);
            Action::Continue
        },
        KeyCode::PageDown => {
            app.scroll_diff(PAGE_LINES);
            Action::Continue
        },
        KeyCode::PageUp => {
            app.scroll_diff(-PAGE_LINES);
            Action::Continue
        },
        KeyCode::Enter => {
            if app.commit_index < app.commits.len() {
                Action::OpenDiff
            } else {
                Action::Continue
            }
        },
        _ => Action::Continue,
    }
}

/// Handles one key: by `handle_entry_key` in command entry, by
/// `handle_normal_key` otherwise.
pub fn handle_key(app: &mut AppState, key: Key) -> (r: Action)
    requires
        old(app).wf(),
    ensures
        final(app).wf(),
        old(app).input_mode ==> {
            &&& final(app).entry_frame(old(app))
            &&& final(app).input_mode == !(key.code == KeyCode::Esc || key.code == KeyCode::Enter)
            &&& key.code == KeyCode::Esc || key.code == KeyCode::Enter
                ==> final(app).input_buffer@.len() == 0
            &&& key.code == KeyCode::Backspace ==> final(app).input_buffer@ == if old(
                app,
            ).input_buffer@.len() > 0 {
                old(app).input_buffer@.drop_last()
            } else {
                old(app).input_buffer@
            }
            &&& key.code matches KeyCode::Char(ch) ==> final(app).input_buffer@ == if key.control {
                old(app).input_buffer@
            } else {
                old(app).input_buffer@.push(ch)
            }
            &&& !(key.code is Esc || key.code is Enter || key.code is Backspace || key.code is Char)
                ==> final(app).input_buffer@ == old(app).input_buffer@
            &&& r@ == if key.code == KeyCode::Enter && !blank(old(app).input_buffer@) {
                ActionView::Run(old(app).input_buffer@)
            } else if is_interrupt(key) {
                ActionView::Quit
            } else {
                ActionView::Continue
            }
        },
        !old(app).input_mode ==> {
            &&& r@ == old(app).normal_action(key)
            &&& key.code == KeyCode::Char(':') ==> *final(app) == (AppState {
                input_mode: true,
                input_buffer: final(app).input_buffer,
                ..*old(app)
            }) && final(app).input_buffer@.len() == 0
            &&& key.code == KeyCode::Char('A') && old(app).mode == ViewMode::Queue ==> *final(app)
                == *old(app)
            &&& key.code == KeyCode::Char('A') && old(app).mode != ViewMode::Queue ==> *final(app)
                == (AppState { status: final(app).status, ..*old(app) }) && final(app).status@
                == "approve only works in queue mode"@
            &&& key.code != KeyCode::Char(':') && key.code != KeyCode::Char('A') ==> *final(app)
                == old(app).navigated(key)
        },
{
    if app.input_mode {
        handle_entry_key(app, key)
    } else {
        handle_normal_key(app, key)
    }
}

} // verus!
