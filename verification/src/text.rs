//! Conversion between a flat character sequence (the on-disk text) and the
//! buffer's line structure: text is split on `'\n'` separators into lines,
//! with no empty final line for a trailing newline, and lines are joined
//! back with single `'\n'` separators and no trailing newline.
use vstd::prelude::*;

verus! {

/// All parts of `t` split on `'\n'`: one part per separator plus one, in
/// order, so the result is never empty and no part contains `'\n'`.
pub open spec fn split_parts(t: Seq<char>) -> Seq<Seq<char>>
    decreases t.len(),
{
    if t.len() == 0 {
        seq![Seq::<char>::empty()]
    } else if t[0] == '\n' {
        seq![Seq::<char>::empty()] + split_parts(t.skip(1))
    } else {
        let rest = split_parts(t.skip(1));
        seq![seq![t[0]] + rest[0]] + rest.skip(1)
    }
}

/// The line sequence a text loads as: its parts split on `'\n'`, except that
/// a trailing newline does not produce a final empty line.
pub open spec fn lines_of(t: Seq<char>) -> Seq<Seq<char>> {
    if t.len() > 0 && t[t.len() - 1] == '\n' {
        split_parts(t).drop_last()
    } else {
        split_parts(t)
    }
}

/// The text a line sequence saves as: the lines joined by single `'\n'`
/// separators, with no trailing newline after the last line.
pub open spec fn text_of(lines: Seq<Seq<char>>) -> Seq<char>
    decreases lines.len(),
{
    if lines.len() == 0 {
        Seq::<char>::empty()
    } else if lines.len() == 1 {
        lines[0]
    } else {
        lines[0] + seq!['\n'] + text_of(lines.skip(1))
    }
}

/// A valid line holds no separator character.
pub open spec fn line_has_no_newline(l: Seq<char>) -> bool {
    forall|i: int| 0 <= i < l.len() ==> l[i] != '\n'
}

pub proof fn lemma_split_parts_len(t: Seq<char>)
    ensures
        split_parts(t).len() >= 1,
    decreases t.len(),
{
    if t.len() != 0 {
        lemma_split_parts_len(t.skip(1));
    }
}

/// Appending one character to the text either opens a new empty part (for a
/// separator) or extends the last part (for any other character).
proof fn lemma_split_parts_snoc(t: Seq<char>, c: char)
    ensures
        c == '\n' ==> split_parts(t.push(c)) == split_parts(t) + seq![Seq::<char>::empty()],
        c != '\n' ==> split_parts(t.push(c)) == split_parts(t).update(
            split_parts(t).len() - 1,
            split_parts(t).last().push(c),
        ),
    decreases t.len(),
{
    reveal_with_fuel(split_parts, 2);
    lemma_split_parts_len(t);
    if t.len() == 0 {
        assert(t.push(c) =~= seq![c]);
        assert(t.push(c).skip(1) =~= Seq::<char>::empty());
        assert(split_parts(Seq::<char>::empty()) == seq![Seq::<char>::empty()]);
        if c == '\n' {
            assert(split_parts(t.push(c)) =~~= split_parts(t) + seq![Seq::<char>::empty()]);
        } else {
            assert(seq![c] + Seq::<char>::empty() =~= Seq::<char>::empty().push(c));
            assert(split_parts(t.push(c)) =~~= split_parts(t).update(
                split_parts(t).len() - 1,
                split_parts(t).last().push(c),
            ));
        }
    } else {
        lemma_split_parts_snoc(t.skip(1), c);
        lemma_split_parts_len(t.skip(1));
        assert(t.push(c).skip(1) =~= t.skip(1).push(c));
        assert(t.push(c)[0] == t[0]);
        let rest = split_parts(t.skip(1));
        let rest2 = split_parts(t.skip(1).push(c));
        if t[0] == '\n' {
            assert(split_parts(t) == seq![Seq::<char>::empty()] + rest);
            assert(split_parts(t.push(c)) == seq![Seq::<char>::empty()] + rest2);
            assert(split_parts(t).last() == rest.last());
            if c == '\n' {
                assert(split_parts(t.push(c)) =~~= split_parts(t) + seq![Seq::<char>::empty()]);
            } else {
                assert(split_parts(t.push(c)) =~~= split_parts(t).update(
                    split_parts(t).len() - 1,
                    split_parts(t).last().push(c),
                ));
            }
        } else {
            assert(split_parts(t) == seq![seq![t[0]] + rest[0]] + rest.skip(1));
            assert(split_parts(t.push(c)) == seq![seq![t[0]] + rest2[0]] + rest2.skip(1));
            if c == '\n' {
                assert(rest2 == rest + seq![Seq::<char>::empty()]);
                assert(rest2[0] == rest[0]);
                assert(rest2.skip(1) =~~= rest.skip(1) + seq![Seq::<char>::empty()]);
                assert(split_parts(t.push(c)) =~~= split_parts(t) + seq![Seq::<char>::empty()]);
            } else {
                assert(rest2 == rest.update(rest.len() - 1, rest.last().push(c)));
                if rest.len() == 1 {
                    assert(rest2[0] == rest[0].push(c));
                    assert(rest2.skip(1) =~~= rest.skip(1));
                    assert(seq![t[0]] + rest[0].push(c) =~= (seq![t[0]] + rest[0]).push(c));
                    assert(split_parts(t).len() == 1);
                    assert(split_parts(t).last() == seq![t[0]] + rest[0]);
                    assert(split_parts(t.push(c)) =~~= split_parts(t).update(
                        split_parts(t).len() - 1,
                        split_parts(t).last().push(c),
                    ));
                } else {
                    assert(rest2[0] == rest[0]);
                    assert(rest2.skip(1) =~~= rest.skip(1).update(rest.skip(1).len() - 1,
                        rest.skip(1).last().push(c)));
                    assert(split_parts(t).last() == rest.last());
                    assert(split_parts(t.push(c)) =~~= split_parts(t).update(
                        split_parts(t).len() - 1,
                        split_parts(t).last().push(c),
                    ));
                }
            }
        }
    }
}

/// The deep view of a character vector is its plain view.
pub broadcast proof fn lemma_vec_char_deep_view(v: Vec<char>)
    ensures
        #[trigger] v.deep_view() == v@,
{
    assert(v.deep_view() =~= v@);
}

/// A split text always yields at least one line.
pub proof fn lemma_lines_of_len(t: Seq<char>)
    ensures
        lines_of(t).len() >= 1,
{
    lemma_split_parts_len(t);
    if t.len() > 0 && t[t.len() - 1] == '\n' {
        let t0 = t.drop_last();
        assert(t =~= t0.push('\n'));
        lemma_split_parts_snoc(t0, '\n');
        lemma_split_parts_len(t0);
    }
}

/// Splits a text into its lines. The result always holds at least one
/// (possibly empty) line; a trailing newline yields no final empty line.
pub fn split_lines(text: &Vec<char>) -> (r: Vec<Vec<char>>)
    ensures
        r.deep_view() == lines_of(text@),
        r.len() >= 1,
{
    let mut r: Vec<Vec<char>> = Vec::new();
    let mut cur: Vec<char> = Vec::new();
    let mut i: usize = 0;
    proof {
        assert(text@.take(0) =~= Seq::<char>::empty());
        assert(r.deep_view() + seq![cur@] =~~= split_parts(text@.take(0)));
    }
    while i < text.len()
        invariant
            i <= text.len(),
            r.deep_view() + seq![cur@] == split_parts(text@.take(i as int)),
        decreases text.len() - i,
    {
        let ghost rdv0 = r.deep_view();
        let ghost cur0 = cur@;
        let ghost parts = split_parts(text@.take(i as int));
        proof {
            assert(text@.take(i + 1) =~= text@.take(i as int).push(text@[i as int]));
            lemma_split_parts_snoc(text@.take(i as int), text@[i as int]);
            lemma_split_parts_len(text@.take(i as int));
            assert(parts.last() == cur0);
        }
        if text[i] == '\n' {
            r.push(cur);
            cur = Vec::new();
            proof {
                assert(r.deep_view() =~~= rdv0.push(cur0));
                assert(split_parts(text@.take(i + 1)) == parts + seq![Seq::<char>::empty()]);
                assert(r.deep_view() + seq![cur@] =~~= parts + seq![Seq::<char>::empty()]);
            }
        } else {
            let c = text[i];
            cur.push(c);
            proof {
                assert(split_parts(text@.take(i + 1)) == parts.update(parts.len() - 1,
                    cur0.push(c)));
                assert(r.deep_view() + seq![cur@] =~~= parts.update(parts.len() - 1,
                    cur0.push(c)));
            }
        }
        i += 1;
    }
    proof {
        assert(text@.take(text@.len() as int) =~= text@);
        lemma_split_parts_len(text@);
    }
    let ghost rdv0 = r.deep_view();
    let ghost cur0 = cur@;
    if text.len() == 0 || text[text.len() - 1] != '\n' {
        r.push(cur);
        proof {
            assert(r.deep_view() =~~= rdv0.push(cur0));
            assert(r.deep_view() =~~= split_parts(text@));
            assert(lines_of(text@) == split_parts(text@));
        }
    } else {
        proof {
            let t0 = text@.drop_last();
            assert(text@ =~= t0.push('\n'));
            lemma_split_parts_snoc(t0, '\n');
            lemma_split_parts_len(t0);
            assert(split_parts(text@).len() >= 2);
            assert(split_parts(text@).last() == cur0);
            assert(r.deep_view() =~~= split_parts(text@).drop_last());
            assert(lines_of(text@) == split_parts(text@).drop_last());
        }
    }
    r
}

/// `text_of` distributes over appending one more line.
proof fn lemma_text_of_snoc(lines: Seq<Seq<char>>, l: Seq<char>)
    ensures
        lines.len() == 0 ==> text_of(lines.push(l)) == l,
        lines.len() > 0 ==> text_of(lines.push(l)) == text_of(lines) + seq!['\n'] + l,
    decreases lines.len(),
{
    reveal_with_fuel(text_of, 2);
    if lines.len() == 0 {
        assert(lines.push(l)[0] == l);
    } else if lines.len() == 1 {
        assert(lines.push(l).skip(1) =~~= seq![l]);
        assert(text_of(seq![l]) == l);
        assert(text_of(lines.push(l)) == lines[0] + seq!['\n'] + l);
        assert(text_of(lines) == lines[0]);
    } else {
        lemma_text_of_snoc(lines.skip(1), l);
        assert(lines.push(l).skip(1) =~~= lines.skip(1).push(l));
        assert(text_of(lines.push(l)) == lines[0] + seq!['\n'] + (text_of(lines.skip(1))
            + seq!['\n'] + l));
        assert(lines[0] + seq!['\n'] + (text_of(lines.skip(1)) + seq!['\n'] + l) =~= (lines[0]
            + seq!['\n'] + text_of(lines.skip(1))) + seq!['\n'] + l);
    }
}

/// Joins lines into a single text with `'\n'` separators and no trailing
/// newline.
pub fn join_lines(lines: &Vec<Vec<char>>) -> (r: Vec<char>)
    ensures
        r@ == text_of(lines.deep_view()),
{
    let mut r: Vec<char> = Vec::new();
    let mut i: usize = 0;
    proof {
        assert(lines.deep_view().take(0) =~~= Seq::<Seq<char>>::empty());
    }
    while i < lines.len()
        invariant
            i <= lines.len(),
            r@ == text_of(lines.deep_view().take(i as int)),
        decreases lines.len() - i,
    {
        if i > 0 {
            r.push('\n');
        }
        let line = &lines[i];
        let mut j: usize = 0;
        let ghost mid = r@;
        while j < line.len()
            invariant
                j <= line.len(),
                r@ == mid + line@.take(j as int),
            decreases line.len() - j,
        {
            let c = line[j];
            r.push(c);
            proof {
                assert(mid + line@.take(j + 1) =~= (mid + line@.take(j as int)).push(c));
            }
            j += 1;
        }
        proof {
            assert(line@.take(line@.len() as int) =~= line@);
            lemma_text_of_snoc(lines.deep_view().take(i as int), lines.deep_view()[i as int]);
            assert(lines.deep_view().take(i + 1) =~~= lines.deep_view().take(i as int).push(
                lines.deep_view()[i as int]));
            assert(lines.deep_view()[i as int] =~= line@);
            if i == 0 {
                assert(mid =~= Seq::<char>::empty());
                assert(r@ =~= line@);
            } else {
                assert(mid == text_of(lines.deep_view().take(i as int)) + seq!['\n']);
                assert(r@ =~= text_of(lines.deep_view().take(i as int)) + seq!['\n'] + line@);
            }
        }
        i += 1;
    }
    proof {
        assert(lines.deep_view().take(lines@.len() as int) =~~= lines.deep_view());
    }
    r
}

/// No part of a split text contains a separator.
pub proof fn lemma_split_parts_no_newline(t: Seq<char>)
    ensures
        forall|i: int| 0 <= i < split_parts(t).len() ==> line_has_no_newline(
            #[trigger] split_parts(t)[i]),
    decreases t.len(),
{
    if t.len() == 0 {
    } else {
        lemma_split_parts_no_newline(t.skip(1));
        lemma_split_parts_len(t.skip(1));
        let rest = split_parts(t.skip(1));
        if t[0] == '\n' {
            assert forall|i: int| 0 <= i < split_parts(t).len() implies line_has_no_newline(
                #[trigger] split_parts(t)[i]) by {
                if i > 0 {
                    assert(split_parts(t)[i] == rest[i - 1]);
                }
            }
        } else {
            assert forall|i: int| 0 <= i < split_parts(t).len() implies line_has_no_newline(
                #[trigger] split_parts(t)[i]) by {
                if i == 0 {
                    assert(split_parts(t)[0] == seq![t[0]] + rest[0]);
                    assert(line_has_no_newline(rest[0]));
                } else {
                    assert(split_parts(t)[i] == rest[i]);
                }
            }
        }
    }
}

/// No line of a loaded buffer contains a newline.
pub proof fn lemma_lines_of_no_newline(t: Seq<char>)
    ensures
        forall|i: int| 0 <= i < lines_of(t).len() ==> line_has_no_newline(
            #[trigger] lines_of(t)[i]),
{
    lemma_split_parts_no_newline(t);
}

/// A text all of whose characters are ordinary splits into itself alone.
proof fn lemma_split_parts_whole(t: Seq<char>)
    requires
        line_has_no_newline(t),
    ensures
        split_parts(t) == seq![t],
    decreases t.len(),
{
    if t.len() == 0 {
        assert(split_parts(t) =~~= seq![t]);
    } else {
        lemma_split_parts_whole(t.skip(1));
        assert(seq![t[0]] + t.skip(1) =~= t);
        assert(split_parts(t) =~~= seq![t]);
    }
}

/// Splitting distributes over the first separator: a newline-free prefix
/// becomes the first part.
proof fn lemma_split_parts_prepend(a: Seq<char>, b: Seq<char>)
    requires
        line_has_no_newline(a),
    ensures
        split_parts(a + seq!['\n'] + b) == seq![a] + split_parts(b),
    decreases a.len(),
{
    let s = a + seq!['\n'] + b;
    if a.len() == 0 {
        assert(s.skip(1) =~= b);
        assert(s[0] == '\n');
        assert(a =~= Seq::<char>::empty());
        assert(split_parts(s) =~~= seq![a] + split_parts(b));
    } else {
        lemma_split_parts_prepend(a.skip(1), b);
        lemma_split_parts_len(b);
        assert(s[0] == a[0]);
        assert(s.skip(1) =~= a.skip(1) + seq!['\n'] + b);
        let rest = split_parts(s.skip(1));
        assert(rest == seq![a.skip(1)] + split_parts(b));
        assert(rest[0] == a.skip(1));
        assert(rest.skip(1) =~~= split_parts(b));
        assert(seq![s[0]] + a.skip(1) =~= a);
        assert(split_parts(s) =~~= seq![a] + split_parts(b));
    }
}

/// A line sequence that a save can reproduce: at least one line, no line
/// contains a newline, and the final line is nonempty unless it is the only
/// one. A buffer whose final line is empty among others is the known
/// boundary case: its saved text ends in a newline, which a reload drops.
pub open spec fn saveable(lines: Seq<Seq<char>>) -> bool {
    &&& lines.len() >= 1
    &&& forall|i: int| 0 <= i < lines.len() ==> line_has_no_newline(#[trigger] lines[i])
    &&& (lines.len() == 1 || lines.last().len() > 0)
}

/// Round trip: reloading the text a saveable line sequence saves as yields
/// the same line sequence, and that text never ends in a newline.
pub proof fn lemma_save_then_load(lines: Seq<Seq<char>>)
    requires
        saveable(lines),
    ensures
        lines_of(text_of(lines)) == lines,
        text_of(lines).len() > 0 ==> text_of(lines).last() != '\n',
    decreases lines.len(),
{
    reveal_with_fuel(text_of, 2);
    if lines.len() == 1 {
        let t = lines[0];
        lemma_split_parts_whole(t);
        if t.len() > 0 {
            assert(t.last() != '\n');
        }
        assert(lines_of(t) =~~= lines);
    } else {
        let l0 = lines[0];
        let rest = lines.skip(1);
        assert(rest.last() == lines.last());
        assert(forall|i: int| 0 <= i < rest.len() ==> rest[i] == lines[i + 1]);
        lemma_save_then_load(rest);
        let tr = text_of(rest);
        if rest.len() == 1 {
            assert(tr == rest[0]);
        }
        assert(tr.len() > 0);
        let t = text_of(lines);
        assert(t == l0 + seq!['\n'] + tr);
        assert(t.last() == tr.last());
        assert(t.last() != '\n');
        lemma_split_parts_prepend(l0, tr);
        assert(lines_of(t) == split_parts(t));
        assert(lines_of(tr) == split_parts(tr));
        assert(split_parts(tr) == rest);
        assert(lines_of(t) =~~= lines);
    }
}

/// Round trip from a text: loading, saving unmodified, and reloading gives
/// back the same lines, whenever the loaded buffer does not end in an empty
/// line it shares with others (the trailing-newline boundary case).
pub proof fn lemma_load_save_load(t: Seq<char>)
    requires
        lines_of(t).len() == 1 || lines_of(t).last().len() > 0,
    ensures
        lines_of(text_of(lines_of(t))) == lines_of(t),
{
    lemma_lines_of_no_newline(t);
    lemma_lines_of_len(t);
    lemma_save_then_load(lines_of(t));
}

} // verus!
