//! The editor's state: the line buffer, the cursor and scroll offsets, the
//! active mode, the status/command text and the optional filename, together
//! with its mathematical view and the well-formedness invariant that every
//! reachable state satisfies.
use vstd::prelude::*;

use crate::text::join_lines;
use crate::text::lines_of;
use crate::text::split_lines;
use crate::text::text_of;

verus! {

/// The editing mode in effect; governs how key events are routed.
#[derive(Clone, Copy, Debug, PartialEq, Eq)]
pub enum Mode {
    Normal,
    Insert,
    Command,
}

/// A decoded key event, as the terminal driver hands it to the core.
/// The newline key arrives as `Char('\n')`.
#[derive(Clone, Copy, Debug, PartialEq, Eq)]
pub enum Key {
    Char(char),
    Esc,
    Backspace,
    Other,
}

/// What the driver must do after a key was handled: nothing, terminate,
/// write the buffer to the given path, write it and then terminate, or read
/// the given path and hand the contents back through [`Editor::apply_load`].
#[derive(Debug, PartialEq, Eq)]
pub enum Action {
    Nothing,
    Quit,
    Save(Vec<char>),
    SaveQuit(Vec<char>),
    Load(Vec<char>),
}

/// The mathematical value of an [`Action`].
#[verifier::ext_equal]
pub ghost enum ActionView {
    Nothing,
    Quit,
    Save(Seq<char>),
    SaveQuit(Seq<char>),
    Load(Seq<char>),
}

impl View for Action {
    type V = ActionView;

    open spec fn view(&self) -> ActionView {
        match self {
            Action::Nothing => ActionView::Nothing,
            Action::Quit => ActionView::Quit,
            Action::Save(p) => ActionView::Save(p@),
            Action::SaveQuit(p) => ActionView::SaveQuit(p@),
            Action::Load(p) => ActionView::Load(p@),
        }
    }
}

/// The full editor state.
pub struct Editor {
    pub mode: Mode,
    pub cursor_x: usize,
    pub cursor_y: usize,
    pub buffer: Vec<Vec<char>>,
    pub command_buffer: Vec<char>,
    pub filename: Option<Vec<char>>,
    pub scroll_x: usize,
    pub scroll_y: usize,
}

/// The mathematical value of an [`Editor`]: the same fields over `Seq` and
/// `int`.
#[verifier::ext_equal]
pub ghost struct EditorView {
    pub mode: Mode,
    pub cursor_x: int,
    pub cursor_y: int,
    pub buffer: Seq<Seq<char>>,
    pub command: Seq<char>,
    pub filename: Option<Seq<char>>,
    pub scroll_x: int,
    pub scroll_y: int,
}

impl View for Editor {
    type V = EditorView;

    open spec fn view(&self) -> EditorView {
        EditorView {
            mode: self.mode,
            cursor_x: self.cursor_x as int,
            cursor_y: self.cursor_y as int,
            buffer: self.buffer.deep_view(),
            command: self.command_buffer@,
            filename: self.filename.deep_view(),
            scroll_x: self.scroll_x as int,
            scroll_y: self.scroll_y as int,
        }
    }
}

impl EditorView {
    /// The state invariant: the buffer always holds at least one line, the
    /// cursor row is a valid line index, and the cursor column is at most
    /// one past the end of its line (the append position).
    pub open spec fn wf(self) -> bool {
        &&& self.buffer.len() >= 1
        &&& 0 <= self.cursor_y < self.buffer.len()
        &&& 0 <= self.cursor_x <= self.buffer[self.cursor_y].len()
        &&& 0 <= self.scroll_x
        &&& 0 <= self.scroll_y
    }

    /// The viewport contains the cursor: neither scroll offset has moved
    /// past it.
    pub open spec fn scroll_ok(self) -> bool {
        self.scroll_y <= self.cursor_y && self.scroll_x <= self.cursor_x
    }

    /// Room for the cursor and scroll offsets to grow by one: a
    /// machine-width bound, not a logical one.
    pub open spec fn fits(self) -> bool {
        self.cursor_x < usize::MAX && self.scroll_x < usize::MAX && self.scroll_y < usize::MAX
    }
}

/// The state the editor starts in: one empty line, Normal mode, everything
/// else at its zero value.
pub open spec fn initial_state() -> EditorView {
    EditorView {
        mode: Mode::Normal,
        cursor_x: 0,
        cursor_y: 0,
        buffer: seq![Seq::<char>::empty()],
        command: Seq::<char>::empty(),
        filename: None,
        scroll_x: 0,
        scroll_y: 0,
    }
}

/// The status message shown when a file could not be read.
pub open spec fn open_error_msg() -> Seq<char> {
    seq!['E', 'r', 'r', 'o', 'r', ':', ' ', 'c', 'o', 'u', 'l', 'd', ' ', 'n', 'o', 't', ' ',
        'o', 'p', 'e', 'n', ' ', 'f', 'i', 'l', 'e']
}

/// The state after a file load: the buffer is replaced by the lines of the
/// contents (a single empty line, and a status message, when the file was
/// unreadable), the filename is recorded even then, and cursor and scroll
/// return to the origin.
pub open spec fn load_state(e: EditorView, filename: Seq<char>, contents: Option<Seq<char>>)
    -> EditorView {
    EditorView {
        buffer: match contents {
            Some(t) => lines_of(t),
            None => seq![Seq::<char>::empty()],
        },
        command: match contents {
            Some(t) => e.command,
            None => open_error_msg(),
        },
        filename: Some(filename),
        cursor_x: 0,
        cursor_y: 0,
        scroll_x: 0,
        scroll_y: 0,
        ..e
    }
}

/// The unreadable-file status message as a vector.
fn open_error_message() -> (r: Vec<char>)
    ensures
        r@ == open_error_msg(),
{
    let mut r: Vec<char> = Vec::new();
    r.push('E');
    r.push('r');
    r.push('r');
    r.push('o');
    r.push('r');
    r.push(':');
    r.push(' ');
    r.push('c');
    r.push('o');
    r.push('u');
    r.push('l');
    r.push('d');
    r.push(' ');
    r.push('n');
    r.push('o');
    r.push('t');
    r.push(' ');
    r.push('o');
    r.push('p');
    r.push('e');
    r.push('n');
    r.push(' ');
    r.push('f');
    r.push('i');
    r.push('l');
    r.push('e');
    proof {
        assert(r@ =~= open_error_msg());
    }
    r
}

impl Editor {
    /// A fresh editor: one empty line, Normal mode, no filename.
    pub fn new() -> (e: Editor)
        ensures
            e@ == initial_state(),
            e@.wf(),
            e@.scroll_ok(),
            e@.fits(),
    {
        let mut buffer: Vec<Vec<char>> = Vec::new();
        buffer.push(Vec::new());
        let e = Editor {
            mode: Mode::Normal,
            cursor_x: 0,
            cursor_y: 0,
            buffer,
            command_buffer: Vec::new(),
            filename: None,
            scroll_x: 0,
            scroll_y: 0,
        };
        proof {
            assert(e@ =~~= initial_state());
        }
        e
    }

    /// Places a transient message in the status/command text slot; nothing
    /// else changes.
    pub fn display_message(&mut self, message: Vec<char>)
        ensures
            final(self)@ == (EditorView { command: message@, ..old(self)@ }),
    {
        self.command_buffer = message;
        proof {
            assert(self@ =~~= (EditorView { command: message@, ..old(self)@ }));
        }
    }

    /// Replaces the buffer with the lines of `contents` (one empty line,
    /// plus a status message, when the read failed and `contents` is
    /// absent), records `filename`, and moves cursor and scroll back to the
    /// origin.
    pub fn apply_load(&mut self, filename: Vec<char>, contents: Option<Vec<char>>)
        ensures
            final(self)@ == load_state(old(self)@, filename@, contents.deep_view()),
            final(self)@.wf(),
            final(self)@.scroll_ok(),
    {
        let ghost c0 = contents.deep_view();
        match contents {
            Some(text) => {
                self.buffer = split_lines(&text);
                proof {
                    assert(text.deep_view() =~= text@);
                }
            },
            None => {
                let mut buffer: Vec<Vec<char>> = Vec::new();
                buffer.push(Vec::new());
                self.buffer = buffer;
                self.command_buffer = open_error_message();
            },
        }
        self.filename = Some(filename);
        self.cursor_x = 0;
        self.cursor_y = 0;
        self.scroll_x = 0;
        self.scroll_y = 0;
        proof {
            if c0 is None {
                assert(self@.buffer =~~= seq![Seq::<char>::empty()]);
            }
            assert(self@ =~~= load_state(old(self)@, filename@, c0));
        }
    }

    /// The buffer as the text a save writes: the lines joined by `'\n'`,
    /// with no trailing newline.
    pub fn to_text(&self) -> (r: Vec<char>)
        ensures
            r@ == text_of(self@.buffer),
    {
        join_lines(&self.buffer)
    }
}

} // verus!
