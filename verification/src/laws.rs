//! The global laws of the state machine: every reachable state is
//! well-formed, the viewport keeps up with the cursor except in the
//! explicitly listed boundary cases, and Escape converges to Normal mode.
use vstd::prelude::*;

use crate::state::EditorView;
use crate::state::ActionView;
use crate::state::Key;
use crate::state::Mode;
use crate::step::spec_step;

verus! {

/// Every key event preserves the state invariant: the buffer keeps at least
/// one line, the cursor row stays inside the buffer, and the cursor column
/// stays at most one past the end of its line.
pub proof fn lemma_wf_preserved(e: EditorView, key: Key, width: int, height: int)
    requires
        e.wf(),
    ensures
        spec_step(e, key, width, height).0.wf(),
{
}

/// The boundary inputs on which one key event moves a scroll offset past
/// the cursor: stepping left onto the left scroll edge, panning right with
/// the viewport already at the cursor, a row change that clamps the cursor
/// column left of the scroll edge, panning down with the viewport already
/// at the cursor row, splitting a line while panned right (the new cursor
/// column is 0), and merging a line upward with the viewport already at the
/// cursor row.
pub open spec fn scroll_break(e: EditorView, key: Key, width: int, height: int) -> bool {
    match e.mode {
        Mode::Normal => match key {
            Key::Char(c) => {
                ||| (c == 'h' && 0 < e.cursor_x <= e.scroll_x)
                ||| (c == 'l' && !(e.cursor_x < e.buffer[e.cursor_y].len()) && e.cursor_x
                    >= width && e.scroll_x >= e.cursor_x)
                ||| (c == 'k' && e.cursor_y > e.scroll_y && e.buffer[e.cursor_y - 1].len()
                    < e.scroll_x)
                ||| (c == 'j' && e.cursor_y + 1 < e.buffer.len() && e.buffer[e.cursor_y
                    + 1].len() < e.scroll_x)
                ||| (c == 'j' && !(e.cursor_y + 1 < e.buffer.len()) && e.cursor_y >= height
                    && e.scroll_y >= e.cursor_y)
            },
            _ => false,
        },
        Mode::Insert => match key {
            Key::Char(c) => c == '\n' && e.scroll_x > 0,
            Key::Backspace => e.cursor_x == 0 && e.cursor_y > 0 && e.scroll_y >= e.cursor_y,
            _ => false,
        },
        Mode::Command => false,
    }
}

/// Outside the boundary cases of [`scroll_break`], every key event keeps
/// both scroll offsets at or before the cursor, so the viewport still
/// contains it.
pub proof fn lemma_scroll_ok_preserved(e: EditorView, key: Key, width: int, height: int)
    requires
        e.wf(),
        e.scroll_ok(),
        !scroll_break(e, key, width, height),
    ensures
        spec_step(e, key, width, height).0.scroll_ok(),
{
}

/// Escape is idempotent: in Normal mode it changes nothing, in any mode one
/// press lands in Normal mode with no action requested, and a second press
/// changes nothing further.
pub proof fn lemma_escape_converges(e: EditorView, width: int, height: int)
    ensures
        e.mode == Mode::Normal ==> spec_step(e, Key::Esc, width, height).0 == e,
        spec_step(e, Key::Esc, width, height).0.mode == Mode::Normal,
        spec_step(e, Key::Esc, width, height).1 == ActionView::Nothing,
        spec_step(spec_step(e, Key::Esc, width, height).0, Key::Esc, width, height).0
            == spec_step(e, Key::Esc, width, height).0,
{
    let e1 = spec_step(e, Key::Esc, width, height).0;
    assert(e1 =~~= (EditorView { mode: Mode::Normal, ..e }));
    if e.mode is Normal {
        assert(e1 =~~= e);
    }
    assert(spec_step(e1, Key::Esc, width, height).0 =~~= e1);
}

} // verus!
