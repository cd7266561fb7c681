use vedit::{Action, Editor, Key, Mode};

const W: usize = 80;
const H: usize = 24;

fn chars(s: &str) -> Vec<char> {
    s.chars().collect()
}

fn text(v: &Vec<char>) -> String {
    v.iter().collect()
}

fn buffer_strings(e: &Editor) -> Vec<String> {
    e.buffer.iter().map(|l| l.iter().collect()).collect()
}

fn type_str(e: &mut Editor, s: &str) -> Action {
    let mut last = Action::Nothing;
    for c in s.chars() {
        last = e.process_key(Key::Char(c), W, H);
    }
    last
}

#[test]
fn starts_with_one_empty_line_in_normal_mode() {
    let e = Editor::new();
    assert_eq!(buffer_strings(&e), vec![String::new()]);
    assert_eq!(e.mode, Mode::Normal);
    assert_eq!((e.cursor_x, e.cursor_y), (0, 0));
    assert_eq!((e.scroll_x, e.scroll_y), (0, 0));
    assert!(e.filename.is_none());
}

#[test]
fn insert_type_and_save_quit() {
    // Opened on a missing file: empty buffer, filename recorded.
    let mut e = Editor::new();
    e.apply_load(chars("note.txt"), None);
    type_str(&mut e, "i");
    assert_eq!(e.mode, Mode::Insert);
    type_str(&mut e, "hi\nthere");
    e.process_key(Key::Esc, W, H);
    assert_eq!(e.mode, Mode::Normal);
    type_str(&mut e, ":wq");
    let a = e.process_key(Key::Char('\n'), W, H);
    assert_eq!(a, Action::SaveQuit(chars("note.txt")));
    assert_eq!(text(&e.to_text()), "hi\nthere");
}

#[test]
fn vertical_moves_clamp_column() {
    let mut e = Editor::new();
    e.apply_load(chars("f.txt"), Some(chars("alpha\nbe\ngamma")));
    type_str(&mut e, "lll");
    assert_eq!((e.cursor_x, e.cursor_y), (3, 0));
    type_str(&mut e, "jj");
    assert_eq!(e.cursor_y, 2);
    assert_eq!(e.cursor_x, 2, "clamped to the short middle line on the way");
    type_str(&mut e, "kk");
    assert_eq!(e.cursor_y, 0);
    assert_eq!(e.cursor_x, 2);
}

#[test]
fn edit_missing_file_resets_buffer_and_sets_filename() {
    let mut e = Editor::new();
    type_str(&mut e, "i");
    type_str(&mut e, "draft");
    e.process_key(Key::Esc, W, H);
    type_str(&mut e, ":e missing.txt");
    let a = e.process_key(Key::Char('\n'), W, H);
    assert_eq!(a, Action::Load(chars("missing.txt")));
    assert_eq!(e.mode, Mode::Normal);
    // The driver finds no such file and reports the read failure.
    e.apply_load(chars("missing.txt"), None);
    assert_eq!(buffer_strings(&e), vec![String::new()]);
    assert_eq!(e.filename.as_ref().map(text), Some("missing.txt".to_string()));
    assert_eq!(text(&e.command_buffer), "Error: could not open file");
}

#[test]
fn backspace_at_column_zero_merges_lines() {
    let mut e = Editor::new();
    e.apply_load(chars("f.txt"), Some(chars("ab\ncd")));
    type_str(&mut e, "j");
    assert_eq!((e.cursor_x, e.cursor_y), (0, 1));
    type_str(&mut e, "i");
    e.process_key(Key::Backspace, W, H);
    assert_eq!(buffer_strings(&e), vec!["abcd"]);
    assert_eq!((e.cursor_x, e.cursor_y), (2, 0));
}

#[test]
fn backspace_within_line_deletes_left_of_cursor() {
    let mut e = Editor::new();
    type_str(&mut e, "i");
    type_str(&mut e, "abc");
    e.process_key(Key::Backspace, W, H);
    assert_eq!(buffer_strings(&e), vec!["ab"]);
    assert_eq!(e.cursor_x, 2);
}

#[test]
fn write_without_filename_reports_error() {
    let mut e = Editor::new();
    type_str(&mut e, "i");
    type_str(&mut e, "kept");
    e.process_key(Key::Esc, W, H);
    type_str(&mut e, ":w");
    let a = e.process_key(Key::Char('\n'), W, H);
    assert_eq!(a, Action::Nothing);
    assert_eq!(buffer_strings(&e), vec!["kept"], "buffer unchanged");
    assert_eq!(text(&e.command_buffer), "Error: no file to write");
    assert_eq!(e.mode, Mode::Normal);
}

#[test]
fn write_quit_without_filename_reports_error_and_quits() {
    let mut e = Editor::new();
    type_str(&mut e, ":wq");
    let a = e.process_key(Key::Char('\n'), W, H);
    assert_eq!(a, Action::Quit);
    assert_eq!(text(&e.command_buffer), "Error: no file to write");
}

#[test]
fn write_with_filename_saves_to_it() {
    let mut e = Editor::new();
    e.apply_load(chars("f.txt"), Some(chars("x")));
    type_str(&mut e, ":w");
    let a = e.process_key(Key::Char('\n'), W, H);
    assert_eq!(a, Action::Save(chars("f.txt")));
}

#[test]
fn write_with_path_records_and_saves_trimmed_path() {
    let mut e = Editor::new();
    type_str(&mut e, ":  w   out.txt  ");
    let a = e.process_key(Key::Char('\n'), W, H);
    assert_eq!(a, Action::Save(chars("out.txt")));
    assert_eq!(e.filename.as_ref().map(text), Some("out.txt".to_string()));
}

#[test]
fn quit_command_requests_termination() {
    let mut e = Editor::new();
    type_str(&mut e, ":q");
    let a = e.process_key(Key::Char('\n'), W, H);
    assert_eq!(a, Action::Quit);
}

#[test]
fn unknown_command_does_nothing() {
    let mut e = Editor::new();
    type_str(&mut e, "i");
    type_str(&mut e, "body");
    e.process_key(Key::Esc, W, H);
    type_str(&mut e, ":frobnicate");
    let a = e.process_key(Key::Char('\n'), W, H);
    assert_eq!(a, Action::Nothing);
    assert_eq!(e.mode, Mode::Normal);
    assert_eq!(buffer_strings(&e), vec!["body"]);
}

#[test]
fn escape_is_idempotent() {
    let mut e = Editor::new();
    type_str(&mut e, "i");
    type_str(&mut e, "x");
    let a1 = e.process_key(Key::Esc, W, H);
    assert_eq!(a1, Action::Nothing);
    assert_eq!(e.mode, Mode::Normal);
    let before = buffer_strings(&e);
    let (cx, cy) = (e.cursor_x, e.cursor_y);
    let a2 = e.process_key(Key::Esc, W, H);
    assert_eq!(a2, Action::Nothing);
    assert_eq!(e.mode, Mode::Normal);
    assert_eq!(buffer_strings(&e), before);
    assert_eq!((e.cursor_x, e.cursor_y), (cx, cy));
}

#[test]
fn command_mode_backspace_and_escape() {
    let mut e = Editor::new();
    type_str(&mut e, ":ab");
    e.process_key(Key::Backspace, W, H);
    assert_eq!(text(&e.command_buffer), "a");
    e.process_key(Key::Esc, W, H);
    assert_eq!(e.mode, Mode::Normal);
}

#[test]
fn typing_past_viewport_width_pans_right() {
    let mut e = Editor::new();
    type_str(&mut e, "i");
    for c in "abc".chars() {
        e.process_key(Key::Char(c), 3, H);
    }
    assert_eq!(e.cursor_x, 3);
    assert_eq!(e.scroll_x, 1);
}

#[test]
fn cursor_down_past_viewport_bottom_pans_down() {
    let mut e = Editor::new();
    e.apply_load(chars("f.txt"), Some(chars("a\nb")));
    let a = e.process_key(Key::Char('j'), W, 2);
    assert_eq!(a, Action::Nothing);
    assert_eq!(e.cursor_y, 1);
    assert_eq!(e.scroll_y, 0);
    // At the last line already: a further `j` pans the viewport instead.
    e.process_key(Key::Char('j'), W, 1);
    assert_eq!(e.cursor_y, 1);
    assert_eq!(e.scroll_y, 1);
}

#[test]
fn newline_near_viewport_bottom_pans_down() {
    let mut e = Editor::new();
    e.apply_load(chars("f.txt"), Some(chars("ab")));
    type_str(&mut e, "i");
    // Height 3 leaves the new cursor row within two rows of the bottom.
    e.process_key(Key::Char('\n'), W, 3);
    assert_eq!(buffer_strings(&e), vec!["", "ab"]);
    assert_eq!((e.cursor_x, e.cursor_y), (0, 1));
    assert_eq!(e.scroll_y, 1);
}

#[test]
fn backspace_at_left_scroll_edge_pans_left() {
    let mut e = Editor::new();
    type_str(&mut e, "i");
    for c in "abcd".chars() {
        e.process_key(Key::Char(c), 3, H);
    }
    assert_eq!((e.cursor_x, e.scroll_x), (4, 2));
    // Deleting back to within one column of the scroll edge pans left first.
    e.process_key(Key::Backspace, 3, H);
    assert_eq!((e.cursor_x, e.scroll_x), (3, 2));
    e.process_key(Key::Backspace, 3, H);
    assert_eq!((e.cursor_x, e.scroll_x), (2, 1));
    assert_eq!(buffer_strings(&e), vec!["ab"]);
}

#[test]
fn cursor_left_pans_when_column_pinned_at_zero() {
    let mut e = Editor::new();
    e.apply_load(chars("f.txt"), Some(chars("abcdef")));
    e.scroll_x = 2;
    e.cursor_x = 0;
    type_str(&mut e, "h");
    assert_eq!((e.cursor_x, e.scroll_x), (0, 1));
}

#[test]
fn cursor_up_at_viewport_top_pans_up() {
    let mut e = Editor::new();
    e.apply_load(chars("f.txt"), Some(chars("a\nb\nc")));
    type_str(&mut e, "jj");
    e.scroll_y = 2;
    type_str(&mut e, "k");
    assert_eq!((e.cursor_y, e.scroll_y), (2, 1));
    type_str(&mut e, "k");
    assert_eq!((e.cursor_y, e.scroll_y), (1, 1));
}

#[test]
fn backspace_at_origin_is_a_no_op() {
    let mut e = Editor::new();
    e.apply_load(chars("f.txt"), Some(chars("ab")));
    type_str(&mut e, "i");
    e.process_key(Key::Backspace, W, H);
    assert_eq!(buffer_strings(&e), vec!["ab"]);
    assert_eq!((e.cursor_x, e.cursor_y), (0, 0));
}

#[test]
fn cursor_right_at_line_end_inside_viewport_is_a_no_op() {
    let mut e = Editor::new();
    e.apply_load(chars("f.txt"), Some(chars("ab")));
    type_str(&mut e, "lll");
    assert_eq!((e.cursor_x, e.scroll_x), (2, 0));
}

#[test]
fn insert_in_middle_of_line() {
    let mut e = Editor::new();
    e.apply_load(chars("f.txt"), Some(chars("ad")));
    type_str(&mut e, "l");
    type_str(&mut e, "i");
    type_str(&mut e, "bc");
    assert_eq!(buffer_strings(&e), vec!["abcd"]);
    assert_eq!(e.cursor_x, 3);
}

#[test]
fn split_line_in_middle() {
    let mut e = Editor::new();
    e.apply_load(chars("f.txt"), Some(chars("abcd")));
    type_str(&mut e, "ll");
    type_str(&mut e, "i");
    e.process_key(Key::Char('\n'), W, H);
    assert_eq!(buffer_strings(&e), vec!["ab", "cd"]);
    assert_eq!((e.cursor_x, e.cursor_y), (0, 1));
}

#[test]
fn edit_existing_file_replaces_buffer() {
    let mut e = Editor::new();
    type_str(&mut e, ":e notes.txt");
    let a = e.process_key(Key::Char('\n'), W, H);
    assert_eq!(a, Action::Load(chars("notes.txt")));
    // The driver reads the file and hands its contents back.
    e.apply_load(chars("notes.txt"), Some(chars("x\ny")));
    assert_eq!(buffer_strings(&e), vec!["x", "y"]);
    assert_eq!(e.filename.as_ref().map(text), Some("notes.txt".to_string()));
    assert_eq!((e.cursor_x, e.cursor_y), (0, 0));
}

#[test]
fn ignored_keys_change_nothing_in_normal_mode() {
    let mut e = Editor::new();
    e.apply_load(chars("f.txt"), Some(chars("xy")));
    let a = e.process_key(Key::Char('z'), W, H);
    assert_eq!(a, Action::Nothing);
    assert_eq!(e.mode, Mode::Normal);
    assert_eq!(buffer_strings(&e), vec!["xy"]);
    let a2 = e.process_key(Key::Other, W, H);
    assert_eq!(a2, Action::Nothing);
    assert_eq!(buffer_strings(&e), vec!["xy"]);
}
