//! The colon-command interpreter: the accumulated command text is trimmed
//! and matched against the recognized forms `q`, `w`, `w <path>`, `wq` and
//! `e <path>`; anything else has no effect. The interpreter never touches a
//! file itself: it returns the requested action to the driver.
use vstd::prelude::*;

use crate::state::Action;
use crate::state::ActionView;
use crate::state::Editor;
use crate::state::EditorView;
use crate::state::Mode;
use crate::text::lemma_vec_char_deep_view;

verus! {

broadcast use lemma_vec_char_deep_view;

/// A character the command parser treats as padding around a command word.
pub open spec fn is_blank(c: char) -> bool {
    c == ' ' || c == '\t'
}

/// `s` without its leading blanks.
pub open spec fn trim_front(s: Seq<char>) -> Seq<char>
    decreases s.len(),
{
    if s.len() > 0 && is_blank(s[0]) {
        trim_front(s.skip(1))
    } else {
        s
    }
}

/// `s` without its trailing blanks.
pub open spec fn trim_back(s: Seq<char>) -> Seq<char>
    decreases s.len(),
{
    if s.len() > 0 && is_blank(s[s.len() - 1]) {
        trim_back(s.drop_last())
    } else {
        s
    }
}

/// `s` without leading and trailing blanks.
pub open spec fn trimmed(s: Seq<char>) -> Seq<char> {
    trim_back(trim_front(s))
}

/// The status message shown when `w` or `wq` finds no filename to write to.
pub open spec fn no_file_msg() -> Seq<char> {
    seq!['E', 'r', 'r', 'o', 'r', ':', ' ', 'n', 'o', ' ', 'f', 'i', 'l', 'e', ' ', 't', 'o',
        ' ', 'w', 'r', 'i', 't', 'e']
}

/// The state and action a submitted command text produces. The mode always
/// returns to Normal. `q` asks the driver to terminate; `w <path>` records
/// the path and asks for a save; `w` asks for a save to the recorded
/// filename, or reports [`no_file_msg`] when none was ever set; `wq` does
/// the same and then terminates; `e <path>` asks the driver to read the
/// path and hand the contents to [`Editor::apply_load`]. Any other text has
/// no effect.
pub open spec fn spec_execute(e: EditorView) -> (EditorView, ActionView) {
    let cmd = trimmed(e.command);
    if cmd == seq!['q'] {
        (EditorView { mode: Mode::Normal, ..e }, ActionView::Quit)
    } else if cmd.len() >= 2 && cmd[0] == 'w' && cmd[1] == ' ' {
        let path = trimmed(cmd.skip(2));
        (
            EditorView { mode: Mode::Normal, filename: Some(path), ..e },
            ActionView::Save(path),
        )
    } else if cmd == seq!['w'] {
        match e.filename {
            Some(f) => (EditorView { mode: Mode::Normal, ..e }, ActionView::Save(f)),
            None => (
                EditorView { mode: Mode::Normal, command: no_file_msg(), ..e },
                ActionView::Nothing,
            ),
        }
    } else if cmd == seq!['w', 'q'] {
        match e.filename {
            Some(f) => (EditorView { mode: Mode::Normal, ..e }, ActionView::SaveQuit(f)),
            None => (
                EditorView { mode: Mode::Normal, command: no_file_msg(), ..e },
                ActionView::Quit,
            ),
        }
    } else if cmd.len() >= 2 && cmd[0] == 'e' && cmd[1] == ' ' {
        let path = trimmed(cmd.skip(2));
        (EditorView { mode: Mode::Normal, ..e }, ActionView::Load(path))
    } else {
        (EditorView { mode: Mode::Normal, ..e }, ActionView::Nothing)
    }
}

fn is_blank_char(c: char) -> (r: bool)
    ensures
        r == is_blank(c),
{
    c == ' ' || c == '\t'
}

/// Dropping a run of leading blanks computes `trim_front`.
proof fn lemma_trim_front_skip(s: Seq<char>, k: int)
    requires
        0 <= k <= s.len(),
        forall|i: int| 0 <= i < k ==> is_blank(s[i]),
        k == s.len() || !is_blank(s[k]),
    ensures
        trim_front(s) == s.skip(k),
    decreases k,
{
    if k == 0 {
        assert(s.skip(0) =~= s);
    } else {
        assert(is_blank(s[0]));
        lemma_trim_front_skip(s.skip(1), k - 1);
        assert(s.skip(1).skip(k - 1) =~= s.skip(k));
    }
}

/// Dropping a run of trailing blanks computes `trim_back`.
proof fn lemma_trim_back_take(s: Seq<char>, m: int)
    requires
        0 <= m <= s.len(),
        forall|i: int| m <= i < s.len() ==> is_blank(s[i]),
        m == 0 || !is_blank(s[m - 1]),
    ensures
        trim_back(s) == s.take(m),
    decreases s.len(),
{
    if m == s.len() {
        if s.len() > 0 {
            assert(!is_blank(s[s.len() - 1]));
        }
        assert(s.take(m) =~= s);
    } else {
        assert(is_blank(s[s.len() - 1]));
        lemma_trim_back_take(s.drop_last(), m);
        assert(s.drop_last().take(m) =~= s.take(m));
    }
}

/// The trimmed tail of `v` from position `from` on, as a fresh vector.
fn trim_from(v: &Vec<char>, from: usize) -> (r: Vec<char>)
    requires
        from <= v.len(),
    ensures
        r@ == trimmed(v@.skip(from as int)),
{
    let ghost s = v@.skip(from as int);
    let mut start: usize = from;
    while start < v.len() && is_blank_char(v[start])
        invariant
            from <= start <= v.len(),
            forall|i: int| from <= i < start ==> is_blank(v@[i]),
        decreases v.len() - start,
    {
        start += 1;
    }
    let mut end: usize = v.len();
    while end > start && is_blank_char(v[end - 1])
        invariant
            start <= end <= v.len(),
            forall|i: int| end <= i < v.len() ==> is_blank(v@[i]),
        decreases end,
    {
        end -= 1;
    }
    proof {
        lemma_trim_front_skip(s, start - from);
        assert(s.skip(start - from) =~= v@.skip(start as int));
        lemma_trim_back_take(v@.skip(start as int), end - start);
        assert(trimmed(s) == v@.skip(start as int).take(end - start));
    }
    let mut r: Vec<char> = Vec::new();
    let mut i: usize = start;
    while i < end
        invariant
            start <= i <= end <= v.len(),
            r@ == v@.subrange(start as int, i as int),
        decreases end - i,
    {
        let c = v[i];
        r.push(c);
        proof {
            assert(v@.subrange(start as int, i + 1) =~= v@.subrange(start as int, i as int)
                .push(c));
        }
        i += 1;
    }
    proof {
        assert(v@.subrange(start as int, end as int) =~= v@.skip(start as int).take(
            end - start));
    }
    r
}

/// A fresh copy of a character vector.
fn copy_chars(v: &Vec<char>) -> (r: Vec<char>)
    ensures
        r@ == v@,
{
    let mut r: Vec<char> = Vec::new();
    let mut i: usize = 0;
    while i < v.len()
        invariant
            i <= v.len(),
            r@ == v@.take(i as int),
        decreases v.len() - i,
    {
        let c = v[i];
        r.push(c);
        proof {
            assert(v@.take(i + 1) =~= v@.take(i as int).push(c));
        }
        i += 1;
    }
    proof {
        assert(v@.take(v@.len() as int) =~= v@);
    }
    r
}

/// The no-filename status message as a vector.
fn no_file_message() -> (r: Vec<char>)
    ensures
        r@ == no_file_msg(),
{
    let mut r: Vec<char> = Vec::new();
    r.push('E');
    r.push('r');
    r.push('r');
    r.push('o');
    r.push('r');
    r.push(':');
    r.push(' ');
    r.push('n');
    r.push('o');
    r.push(' ');
    r.push('f');
    r.push('i');
    r.push('l');
    r.push('e');
    r.push(' ');
    r.push('t');
    r.push('o');
    r.push(' ');
    r.push('w');
    r.push('r');
    r.push('i');
    r.push('t');
    r.push('e');
    proof {
        assert(r@ =~= no_file_msg());
    }
    r
}

impl Editor {
    /// Interprets the accumulated command text and returns the action the
    /// driver must perform; implements [`spec_execute`].
    pub fn execute_command(&mut self) -> (a: Action)
        ensures
            final(self)@ == spec_execute(old(self)@).0,
            a@ == spec_execute(old(self)@).1,
    {
        let cmd = trim_from(&self.command_buffer, 0);
        proof {
            assert(self.command_buffer@.skip(0) =~= self.command_buffer@);
        }
        self.mode = Mode::Normal;
        let a: Action;
        if cmd.len() == 1 && cmd[0] == 'q' {
            proof {
                assert(cmd@ =~= seq!['q']);
            }
            a = Action::Quit;
        } else if cmd.len() >= 2 && cmd[0] == 'w' && cmd[1] == ' ' {
            let path = trim_from(&cmd, 2);
            let path2 = copy_chars(&path);
            self.filename = Some(path);
            a = Action::Save(path2);
        } else if cmd.len() == 1 && cmd[0] == 'w' {
            proof {
                assert(cmd@ =~= seq!['w']);
            }
            match &self.filename {
                Some(f) => {
                    a = Action::Save(copy_chars(f));
                },
                None => {
                    self.command_buffer = no_file_message();
                    a = Action::Nothing;
                },
            }
        } else if cmd.len() == 2 && cmd[0] == 'w' && cmd[1] == 'q' {
            proof {
                assert(cmd@ =~= seq!['w', 'q']);
            }
            match &self.filename {
                Some(f) => {
                    a = Action::SaveQuit(copy_chars(f));
                },
                None => {
                    self.command_buffer = no_file_message();
                    a = Action::Quit;
                },
            }
        } else if cmd.len() >= 2 && cmd[0] == 'e' && cmd[1] == ' ' {
            let path = trim_from(&cmd, 2);
            a = Action::Load(path);
        } else {
            a = Action::Nothing;
        }
        proof {
            assert(self@ =~~= spec_execute(old(self)@).0);
            assert(a@ =~~= spec_execute(old(self)@).1);
        }
        a
    }
}

} // verus!
