use vedit::{Editor, Key};

fn chars(s: &str) -> Vec<char> {
    s.chars().collect()
}

fn text(v: &Vec<char>) -> String {
    v.iter().collect()
}

fn rows_strings(rows: &[Vec<char>]) -> Vec<String> {
    rows.iter().map(|l| l.iter().collect()).collect()
}

#[test]
fn plan_shows_lines_status_and_cursor() {
    let mut e = Editor::new();
    e.apply_load(chars("f.txt"), Some(chars("one\ntwo\nthree")));
    let plan = e.draw_plan(80, 24);
    assert_eq!(rows_strings(&plan.rows), vec!["one", "two", "three"]);
    assert_eq!(text(&plan.status), " Normal @ f.txt");
    assert!(plan.command_line.is_none());
    assert_eq!((plan.cursor_col, plan.cursor_row), (0, 0));
}

#[test]
fn plan_without_filename_shows_placeholder() {
    let e = Editor::new();
    let plan = e.draw_plan(80, 24);
    assert_eq!(text(&plan.status), " Normal @ [No Name]");
    assert_eq!(rows_strings(&plan.rows), vec![""]);
}

#[test]
fn plan_limits_rows_to_viewport() {
    let mut e = Editor::new();
    e.apply_load(chars("f.txt"), Some(chars("a\nb\nc\nd\ne")));
    // Four terminal rows leave two for buffer text.
    let plan = e.draw_plan(80, 4);
    assert_eq!(rows_strings(&plan.rows), vec!["a", "b"]);
}

#[test]
fn plan_slices_columns_horizontally() {
    let mut e = Editor::new();
    e.apply_load(chars("f.txt"), Some(chars("abcdef\nxy")));
    e.scroll_x = 2;
    e.cursor_x = 2;
    let plan = e.draw_plan(3, 24);
    assert_eq!(rows_strings(&plan.rows), vec!["cde", ""]);
    assert_eq!((plan.cursor_col, plan.cursor_row), (0, 0));
}

#[test]
fn plan_shows_command_line_in_command_mode() {
    let mut e = Editor::new();
    for c in ":wq".chars() {
        e.process_key(Key::Char(c), 80, 24);
    }
    let plan = e.draw_plan(80, 24);
    assert_eq!(text(&plan.status), " Command @ [No Name]");
    assert_eq!(plan.command_line.as_ref().map(text), Some(":wq".to_string()));
}

#[test]
fn plan_tracks_cursor_relative_to_scroll() {
    let mut e = Editor::new();
    e.apply_load(chars("f.txt"), Some(chars("a\nb\nc")));
    e.process_key(Key::Char('j'), 80, 24);
    e.process_key(Key::Char('j'), 80, 24);
    e.scroll_y = 1;
    let plan = e.draw_plan(80, 24);
    assert_eq!((plan.cursor_col, plan.cursor_row), (0, 1));
    assert_eq!(rows_strings(&plan.rows), vec!["b", "c"]);
}
