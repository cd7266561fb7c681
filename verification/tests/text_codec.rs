use vedit::{join_lines, split_lines};

fn chars(s: &str) -> Vec<char> {
    s.chars().collect()
}

fn strings(lines: &[Vec<char>]) -> Vec<String> {
    lines.iter().map(|l| l.iter().collect()).collect()
}

#[test]
fn split_empty_text_is_one_empty_line() {
    assert_eq!(strings(&split_lines(&chars(""))), vec![String::new()]);
}

#[test]
fn split_single_newline_is_one_empty_line() {
    assert_eq!(strings(&split_lines(&chars("\n"))), vec![String::new()]);
}

#[test]
fn split_drops_trailing_newline() {
    assert_eq!(strings(&split_lines(&chars("a\nb\n"))), vec!["a", "b"]);
}

#[test]
fn split_without_trailing_newline() {
    assert_eq!(strings(&split_lines(&chars("a\nb"))), vec!["a", "b"]);
}

#[test]
fn split_keeps_inner_empty_lines() {
    assert_eq!(strings(&split_lines(&chars("a\n\nb"))), vec!["a", "", "b"]);
}

#[test]
fn split_double_trailing_newline_keeps_one_empty_line() {
    assert_eq!(strings(&split_lines(&chars("a\n\n"))), vec!["a", ""]);
}

#[test]
fn join_two_lines_no_trailing_newline() {
    let lines = vec![chars("hi"), chars("there")];
    let joined: String = join_lines(&lines).iter().collect();
    assert_eq!(joined, "hi\nthere");
}

#[test]
fn join_single_empty_line_is_empty_text() {
    let lines = vec![chars("")];
    let joined: String = join_lines(&lines).iter().collect();
    assert_eq!(joined, "");
}

#[test]
fn round_trip_after_load() {
    for text in ["", "one", "one\ntwo", "one\ntwo\nthree\n", "a\n\nb"] {
        let loaded = split_lines(&chars(text));
        let saved = join_lines(&loaded);
        let reloaded = split_lines(&saved);
        assert_eq!(strings(&reloaded), strings(&loaded));
    }
}

#[test]
fn round_trip_boundary_trailing_empty_line() {
    // The known boundary case: a buffer whose last line is empty saves as a
    // text ending in a newline, which a reload drops again.
    let loaded = split_lines(&chars("a\n\n"));
    assert_eq!(strings(&loaded), vec!["a", ""]);
    let saved: String = join_lines(&loaded).iter().collect();
    assert_eq!(saved, "a\n");
    let reloaded = split_lines(&chars(&saved));
    assert_eq!(strings(&reloaded), vec!["a"]);
}
