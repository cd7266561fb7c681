//! The key-event state machine: one transition function per mode, each
//! given both as a spec function (the contract) and as an executable
//! handler proved to implement it. Movement clamps the cursor to the
//! buffer, and scrolling reacts to the cursor against the viewport
//! dimensions handed in by the driver.
use vstd::prelude::*;

use crate::command::spec_execute;
use crate::laws::lemma_wf_preserved;
use crate::state::Action;
use crate::state::ActionView;
use crate::state::Editor;
use crate::state::EditorView;
use crate::state::Key;
use crate::state::Mode;
use crate::text::lemma_vec_char_deep_view;

verus! {

broadcast use lemma_vec_char_deep_view;

/// The smaller of two mathematical integers.
pub open spec fn min_int(a: int, b: int) -> int {
    if a < b {
        a
    } else {
        b
    }
}

/// The state after one key in Normal mode: `i` and `:` switch modes, and
/// `h`/`l`/`k`/`j` move the cursor, panning the scroll offsets when the
/// cursor is at a boundary; every other key is ignored.
pub open spec fn spec_normal_step(e: EditorView, key: Key, width: int, height: int)
    -> EditorView {
    match key {
        Key::Char(c) => if c == 'i' {
            EditorView { mode: Mode::Insert, ..e }
        } else if c == ':' {
            EditorView { mode: Mode::Command, command: Seq::<char>::empty(), ..e }
        } else if c == 'h' {
            if e.cursor_x > 0 {
                EditorView { cursor_x: e.cursor_x - 1, ..e }
            } else if e.scroll_x > 0 {
                EditorView { scroll_x: e.scroll_x - 1, ..e }
            } else {
                e
            }
        } else if c == 'l' {
            if e.cursor_x < e.buffer[e.cursor_y].len() {
                EditorView { cursor_x: e.cursor_x + 1, ..e }
            } else if e.cursor_x >= width {
                EditorView { scroll_x: e.scroll_x + 1, ..e }
            } else {
                e
            }
        } else if c == 'k' {
            if e.cursor_y > e.scroll_y {
                EditorView {
                    cursor_y: e.cursor_y - 1,
                    cursor_x: min_int(e.buffer[e.cursor_y - 1].len() as int, e.cursor_x),
                    ..e
                }
            } else if e.scroll_y > 0 {
                EditorView { scroll_y: e.scroll_y - 1, ..e }
            } else {
                e
            }
        } else if c == 'j' {
            if e.cursor_y + 1 < e.buffer.len() {
                EditorView {
                    cursor_y: e.cursor_y + 1,
                    cursor_x: min_int(e.buffer[e.cursor_y + 1].len() as int, e.cursor_x),
                    ..e
                }
            } else if e.cursor_y >= height {
                EditorView { scroll_y: e.scroll_y + 1, ..e }
            } else {
                e
            }
        } else {
            e
        },
        _ => e,
    }
}

/// The state after one key in Insert mode: a character is inserted at the
/// cursor, the newline key splits the line, Backspace deletes the character
/// left of the cursor or merges the line into the previous one at column 0,
/// and Escape returns to Normal mode.
pub open spec fn spec_insert_step(e: EditorView, key: Key, width: int, height: int)
    -> EditorView {
    match key {
        Key::Esc => EditorView { mode: Mode::Normal, ..e },
        Key::Char(c) => if c == '\n' {
            let row = e.buffer[e.cursor_y];
            let split = e.buffer.update(e.cursor_y, row.take(e.cursor_x)).insert(
                e.cursor_y + 1,
                row.skip(e.cursor_x),
            );
            EditorView {
                buffer: split,
                cursor_y: e.cursor_y + 1,
                cursor_x: 0,
                scroll_y: if e.cursor_y + 3 >= height {
                    e.scroll_y + 1
                } else {
                    e.scroll_y
                },
                ..e
            }
        } else {
            let row = e.buffer[e.cursor_y].insert(e.cursor_x, c);
            EditorView {
                buffer: e.buffer.update(e.cursor_y, row),
                cursor_x: e.cursor_x + 1,
                scroll_x: if e.cursor_x + 1 >= width {
                    e.scroll_x + 1
                } else {
                    e.scroll_x
                },
                ..e
            }
        },
        Key::Backspace => if e.cursor_x > 0 {
            let row = e.buffer[e.cursor_y].remove(e.cursor_x - 1);
            EditorView {
                buffer: e.buffer.update(e.cursor_y, row),
                cursor_x: e.cursor_x - 1,
                scroll_x: if e.cursor_x <= e.scroll_x + 1 && e.scroll_x > 0 {
                    e.scroll_x - 1
                } else {
                    e.scroll_x
                },
                ..e
            }
        } else if e.cursor_y > 0 {
            let merged = e.buffer[e.cursor_y - 1] + e.buffer[e.cursor_y];
            EditorView {
                buffer: e.buffer.update(e.cursor_y - 1, merged).remove(e.cursor_y),
                cursor_y: e.cursor_y - 1,
                cursor_x: e.buffer[e.cursor_y - 1].len() as int,
                ..e
            }
        } else {
            e
        },
        _ => e,
    }
}

/// The state and action after one key in Command mode: characters grow the
/// command text, Backspace shrinks it, Escape discards it and returns to
/// Normal mode, and the newline key submits it to the command interpreter.
pub open spec fn spec_command_step(e: EditorView, key: Key) -> (EditorView, ActionView) {
    match key {
        Key::Esc => (EditorView { mode: Mode::Normal, ..e }, ActionView::Nothing),
        Key::Char(c) => if c == '\n' {
            spec_execute(e)
        } else {
            (EditorView { command: e.command.push(c), ..e }, ActionView::Nothing)
        },
        Key::Backspace => (
            EditorView {
                command: if e.command.len() > 0 {
                    e.command.drop_last()
                } else {
                    e.command
                },
                ..e
            },
            ActionView::Nothing,
        ),
        _ => (e, ActionView::Nothing),
    }
}

/// One key event routed by the active mode: the next state and the action
/// the driver must perform.
pub open spec fn spec_step(e: EditorView, key: Key, width: int, height: int)
    -> (EditorView, ActionView) {
    match e.mode {
        Mode::Normal => (spec_normal_step(e, key, width, height), ActionView::Nothing),
        Mode::Insert => (spec_insert_step(e, key, width, height), ActionView::Nothing),
        Mode::Command => spec_command_step(e, key),
    }
}

/// A mutable borrow of one line of the buffer.
fn row_mut(buffer: &mut Vec<Vec<char>>, i: usize) -> (row: &mut Vec<char>)
    requires
        i < old(buffer).len(),
    ensures
        *row == old(buffer)@[i as int],
        final(buffer)@ == old(buffer)@.update(i as int, *final(row)),
{
    &mut buffer[i]
}

impl Editor {
    /// Handles one key in Normal mode; implements [`spec_normal_step`].
    pub fn handle_normal_mode(&mut self, key: Key, width: usize, height: usize)
        requires
            old(self)@.wf(),
            old(self)@.fits(),
        ensures
            final(self)@ == spec_normal_step(old(self)@, key, width as int, height as int),
    {
        match key {
            Key::Char(c) => {
                if c == 'i' {
                    self.mode = Mode::Insert;
                } else if c == ':' {
                    self.mode = Mode::Command;
                    self.command_buffer = Vec::new();
                } else if c == 'h' {
                    if self.cursor_x > 0 {
                        self.cursor_x = self.cursor_x - 1;
                    } else if self.scroll_x > 0 {
                        self.scroll_x = self.scroll_x - 1;
                    }
                } else if c == 'l' {
                    if self.cursor_x < self.buffer[self.cursor_y].len() {
                        self.cursor_x = self.cursor_x + 1;
                    } else if self.cursor_x >= width {
                        self.scroll_x = self.scroll_x + 1;
                    }
                } else if c == 'k' {
                    if self.cursor_y > self.scroll_y {
                        self.cursor_y = self.cursor_y - 1;
                        let row_len = self.buffer[self.cursor_y].len();
                        if self.cursor_x > row_len {
                            self.cursor_x = row_len;
                        }
                    } else if self.scroll_y > 0 {
                        self.scroll_y = self.scroll_y - 1;
                    }
                } else if c == 'j' {
                    let rows = self.buffer.len();
                    if self.cursor_y + 1 < rows {
                        self.cursor_y = self.cursor_y + 1;
                        let row_len = self.buffer[self.cursor_y].len();
                        if self.cursor_x > row_len {
                            self.cursor_x = row_len;
                        }
                    } else if self.cursor_y >= height {
                        self.scroll_y = self.scroll_y + 1;
                    }
                }
            },
            _ => {},
        }
        proof {
            assert(self@ =~~= spec_normal_step(old(self)@, key, width as int, height as int));
        }
    }

    /// Handles one key in Insert mode; implements [`spec_insert_step`].
    pub fn handle_insert_mode(&mut self, key: Key, width: usize, height: usize)
        requires
            old(self)@.wf(),
            old(self)@.fits(),
        ensures
            final(self)@ == spec_insert_step(old(self)@, key, width as int, height as int),
    {
        match key {
            Key::Esc => {
                self.mode = Mode::Normal;
            },
            Key::Char(c) => {
                if c == '\n' {
                    let cx = self.cursor_x;
                    let row = row_mut(&mut self.buffer, self.cursor_y);
                    let tail = row.split_off(cx);
                    let rows = self.buffer.len();
                    assert(self.cursor_y < rows);
                    self.buffer.insert(self.cursor_y + 1, tail);
                    self.cursor_y = self.cursor_y + 1;
                    self.cursor_x = 0;
                    if height < 2 || self.cursor_y >= height - 2 {
                        self.scroll_y = self.scroll_y + 1;
                    }
                } else {
                    let cx = self.cursor_x;
                    let row = row_mut(&mut self.buffer, self.cursor_y);
                    row.insert(cx, c);
                    self.cursor_x = self.cursor_x + 1;
                    if self.cursor_x >= width {
                        self.scroll_x = self.scroll_x + 1;
                    }
                }
            },
            Key::Backspace => {
                if self.cursor_x > 0 {
                    if self.cursor_x <= self.scroll_x + 1 && self.scroll_x > 0 {
                        self.scroll_x = self.scroll_x - 1;
                    }
                    self.cursor_x = self.cursor_x - 1;
                    let cx = self.cursor_x;
                    let row = row_mut(&mut self.buffer, self.cursor_y);
                    row.remove(cx);
                } else if self.cursor_y > 0 {
                    let mut tail = self.buffer.remove(self.cursor_y);
                    self.cursor_y = self.cursor_y - 1;
                    self.cursor_x = self.buffer[self.cursor_y].len();
                    let row = row_mut(&mut self.buffer, self.cursor_y);
                    row.append(&mut tail);
                }
            },
            _ => {},
        }
        proof {
            assert(self@ =~~= spec_insert_step(old(self)@, key, width as int, height as int));
        }
    }

    /// Handles one key in Command mode; implements [`spec_command_step`].
    pub fn handle_command_mode(&mut self, key: Key) -> (a: Action)
        ensures
            final(self)@ == spec_command_step(old(self)@, key).0,
            a@ == spec_command_step(old(self)@, key).1,
    {
        match key {
            Key::Esc => {
                self.mode = Mode::Normal;
                Action::Nothing
            },
            Key::Char(c) => {
                if c == '\n' {
                    self.execute_command()
                } else {
                    self.command_buffer.push(c);
                    Action::Nothing
                }
            },
            Key::Backspace => {
                self.command_buffer.pop();
                Action::Nothing
            },
            Key::Other => Action::Nothing,
        }
    }

    /// Routes one key event to the handler of the active mode and returns
    /// the action the driver must perform; implements [`spec_step`].
    pub fn process_key(&mut self, key: Key, width: usize, height: usize) -> (a: Action)
        requires
            old(self)@.wf(),
            old(self)@.fits(),
        ensures
            final(self)@ == spec_step(old(self)@, key, width as int, height as int).0,
            a@ == spec_step(old(self)@, key, width as int, height as int).1,
            final(self)@.wf(),
    {
        let a: Action = match self.mode {
            Mode::Normal => {
                self.handle_normal_mode(key, width, height);
                Action::Nothing
            },
            Mode::Insert => {
                self.handle_insert_mode(key, width, height);
                Action::Nothing
            },
            Mode::Command => self.handle_command_mode(key),
        };
        proof {
            lemma_wf_preserved(old(self)@, key, width as int, height as int);
        }
        a
    }
}

} // verus!
