//! The renderer: a pure function from the editor state and the viewport
//! dimensions to a drawing plan — the visible slice of each line, the
//! status line, the command line when one is being edited, and the screen
//! position of the cursor. Painting the plan is the driver's job.
use vstd::prelude::*;

use crate::state::Editor;
use crate::state::EditorView;
use crate::state::Mode;
use crate::step::min_int;
use crate::text::lemma_vec_char_deep_view;

verus! {

broadcast use lemma_vec_char_deep_view;

/// What one frame paints: the visible rows of buffer text, the status line,
/// the command line (only while one is being entered), and the 0-based
/// screen cell the terminal cursor belongs on.
pub struct DrawPlan {
    pub rows: Vec<Vec<char>>,
    pub status: Vec<char>,
    pub command_line: Option<Vec<char>>,
    pub cursor_col: usize,
    pub cursor_row: usize,
}

/// The mathematical value of a [`DrawPlan`].
#[verifier::ext_equal]
pub ghost struct DrawPlanView {
    pub rows: Seq<Seq<char>>,
    pub status: Seq<char>,
    pub command_line: Option<Seq<char>>,
    pub cursor_col: int,
    pub cursor_row: int,
}

impl View for DrawPlan {
    type V = DrawPlanView;

    open spec fn view(&self) -> DrawPlanView {
        DrawPlanView {
            rows: self.rows.deep_view(),
            status: self.status@,
            command_line: self.command_line.deep_view(),
            cursor_col: self.cursor_col as int,
            cursor_row: self.cursor_row as int,
        }
    }
}

/// The horizontal slice of a line that a viewport panned to `scroll_x`
/// shows in `width` columns.
pub open spec fn visible_slice(line: Seq<char>, scroll_x: int, width: int) -> Seq<char> {
    if scroll_x < line.len() {
        line.subrange(scroll_x, min_int(scroll_x + width, line.len() as int))
    } else {
        Seq::<char>::empty()
    }
}

/// The name of a mode as the status line shows it.
pub open spec fn mode_text(m: Mode) -> Seq<char> {
    match m {
        Mode::Normal => seq!['N', 'o', 'r', 'm', 'a', 'l'],
        Mode::Insert => seq!['I', 'n', 's', 'e', 'r', 't'],
        Mode::Command => seq!['C', 'o', 'm', 'm', 'a', 'n', 'd'],
    }
}

/// The filename as the status line shows it: the recorded name, or a
/// placeholder when none was ever set.
pub open spec fn shown_name(filename: Option<Seq<char>>) -> Seq<char> {
    match filename {
        Some(f) => f,
        None => seq!['[', 'N', 'o', ' ', 'N', 'a', 'm', 'e', ']'],
    }
}

/// The status line: a space, the mode name, ` @ `, and the filename.
pub open spec fn status_text(e: EditorView) -> Seq<char> {
    seq![' '] + mode_text(e.mode) + seq![' ', '@', ' '] + shown_name(e.filename)
}

/// The plan one frame paints, for a terminal of `width` columns and
/// `height` rows: the lines from `scroll_y` on that fit above the two
/// reserved bottom rows, each sliced to the visible columns; the status
/// line; the command line while in Command mode; and the cursor cell,
/// which is the cursor position relative to the scroll offsets.
pub open spec fn spec_draw_plan(e: EditorView, width: int, height: int) -> DrawPlanView {
    let last = min_int(e.scroll_y + height - 2, e.buffer.len() as int);
    DrawPlanView {
        rows: Seq::new((last - e.scroll_y) as nat, |i: int|
            visible_slice(e.buffer[e.scroll_y + i], e.scroll_x, width)),
        status: status_text(e),
        command_line: if e.mode is Command {
            Some(seq![':'] + e.command)
        } else {
            None
        },
        cursor_col: e.cursor_x - e.scroll_x,
        cursor_row: e.cursor_y - e.scroll_y,
    }
}

fn push_mode_text(out: &mut Vec<char>, m: Mode)
    ensures
        final(out)@ == old(out)@ + mode_text(m),
{
    match m {
        Mode::Normal => {
            out.push('N');
            out.push('o');
            out.push('r');
            out.push('m');
            out.push('a');
            out.push('l');
        },
        Mode::Insert => {
            out.push('I');
            out.push('n');
            out.push('s');
            out.push('e');
            out.push('r');
            out.push('t');
        },
        Mode::Command => {
            out.push('C');
            out.push('o');
            out.push('m');
            out.push('m');
            out.push('a');
            out.push('n');
            out.push('d');
        },
    }
    proof {
        assert(out@ =~= old(out)@ + mode_text(m));
    }
}

/// The visible part of one line, copied out.
fn slice_line(line: &Vec<char>, scroll_x: usize, width: usize) -> (r: Vec<char>)
    ensures
        r@ == visible_slice(line@, scroll_x as int, width as int),
{
    let mut r: Vec<char> = Vec::new();
    if scroll_x < line.len() {
        let last = if width <= line.len() - scroll_x {
            scroll_x + width
        } else {
            line.len()
        };
        let mut i: usize = scroll_x;
        while i < last
            invariant
                scroll_x <= i <= last <= line.len(),
                last == min_int(scroll_x + width as int, line@.len() as int),
                r@ == line@.subrange(scroll_x as int, i as int),
            decreases last - i,
        {
            let c = line[i];
            r.push(c);
            proof {
                assert(line@.subrange(scroll_x as int, i + 1) =~= line@.subrange(
                    scroll_x as int, i as int).push(c));
            }
            i += 1;
        }
    }
    r
}

impl Editor {
    /// Computes the drawing plan for the current state; implements
    /// [`spec_draw_plan`]. The viewport must contain the cursor, and the
    /// terminal must have its two reserved bottom rows.
    pub fn draw_plan(&self, width: usize, height: usize) -> (plan: DrawPlan)
        requires
            self@.wf(),
            self@.scroll_ok(),
            height >= 2,
        ensures
            plan@ == spec_draw_plan(self@, width as int, height as int),
    {
        let ghost e = self@;
        let ghost lastg = min_int(e.scroll_y + height - 2, e.buffer.len() as int);
        let last = if self.buffer.len() - self.scroll_y <= height - 2 {
            self.buffer.len()
        } else {
            self.scroll_y + (height - 2)
        };
        proof {
            assert(last as int == lastg);
        }
        let mut rows: Vec<Vec<char>> = Vec::new();
        let mut y: usize = self.scroll_y;
        while y < last
            invariant
                e == self@,
                e.wf(),
                e.scroll_y <= y <= last,
                last as int == lastg,
                lastg <= e.buffer.len(),
                rows.deep_view() == Seq::new((y - e.scroll_y) as nat, |i: int|
                    visible_slice(e.buffer[e.scroll_y + i], e.scroll_x, width as int)),
            decreases last - y,
        {
            let slice = slice_line(&self.buffer[y], self.scroll_x, width);
            let ghost rows0 = rows.deep_view();
            let ghost slice0 = slice@;
            rows.push(slice);
            proof {
                assert(slice0 == visible_slice(e.buffer[y as int], e.scroll_x, width as int));
                assert(rows.deep_view() =~~= rows0.push(slice0));
                assert(rows.deep_view() =~~= Seq::new((y + 1 - e.scroll_y) as nat, |i: int|
                    visible_slice(e.buffer[e.scroll_y + i], e.scroll_x, width as int)));
            }
            y += 1;
        }
        let mut status: Vec<char> = Vec::new();
        status.push(' ');
        push_mode_text(&mut status, self.mode);
        status.push(' ');
        status.push('@');
        status.push(' ');
        match &self.filename {
            Some(f) => {
                let mut i: usize = 0;
                let ghost mid = status@;
                while i < f.len()
                    invariant
                        i <= f.len(),
                        status@ == mid + f@.take(i as int),
                    decreases f.len() - i,
                {
                    let c = f[i];
                    status.push(c);
                    proof {
                        assert(mid + f@.take(i + 1) =~= (mid + f@.take(i as int)).push(c));
                    }
                    i += 1;
                }
                proof {
                    assert(f@.take(f@.len() as int) =~= f@);
                }
            },
            None => {
                status.push('[');
                status.push('N');
                status.push('o');
                status.push(' ');
                status.push('N');
                status.push('a');
                status.push('m');
                status.push('e');
                status.push(']');
            },
        }
        proof {
            assert(status@ =~= status_text(e));
        }
        let command_line: Option<Vec<char>> = match self.mode {
            Mode::Command => {
                let mut c: Vec<char> = Vec::new();
                c.push(':');
                let mut i: usize = 0;
                let ghost mid = c@;
                while i < self.command_buffer.len()
                    invariant
                        i <= self.command_buffer.len(),
                        c@ == mid + self.command_buffer@.take(i as int),
                    decreases self.command_buffer.len() - i,
                {
                    let ch = self.command_buffer[i];
                    c.push(ch);
                    proof {
                        assert(mid + self.command_buffer@.take(i + 1) =~= (mid
                            + self.command_buffer@.take(i as int)).push(ch));
                    }
                    i += 1;
                }
                proof {
                    assert(self.command_buffer@.take(self.command_buffer@.len() as int)
                        =~= self.command_buffer@);
                    assert(c@ =~= seq![':'] + e.command);
                }
                Some(c)
            },
            _ => None,
        };
        let plan = DrawPlan {
            rows,
            status,
            command_line,
            cursor_col: self.cursor_x - self.scroll_x,
            cursor_row: self.cursor_y - self.scroll_y,
        };
        proof {
            assert(plan@ =~~= spec_draw_plan(e, width as int, height as int));
        }
        plan
    }
}

} // verus!
