use islog::sanitizer::sanitize_new_content;

fn strings(lines: &[&str]) -> Vec<String> {
    lines.iter().map(|line| line.to_string()).collect()
}

#[test]
fn sanitize_cuts_the_white_space_at_the_end_of_each_line() {
    let lines = strings(&["hello  ", "world\t", "a b \r", "  indented", "x\u{a0}", "y\u{3000} "]);
    assert_eq!(
        sanitize_new_content(lines),
        strings(&["hello", "world", "a b", "  indented", "x", "y"])
    );
}

#[test]
fn sanitize_keeps_blank_lines_as_empty_lines() {
    let lines = strings(&["", "   ", "\t\r", "a", ""]);
    assert_eq!(sanitize_new_content(lines), strings(&["", "", "", "a", ""]));
}

#[test]
fn sanitize_keeps_count_and_order() {
    let lines = strings(&["c ", "a", "b  ", "a "]);
    let sanitized = sanitize_new_content(lines.clone());
    assert_eq!(sanitized.len(), lines.len());
    for (clean, line) in sanitized.iter().zip(lines.iter()) {
        assert_eq!(clean, line.trim_end());
    }
    assert_eq!(sanitize_new_content(Vec::new()), Vec::<String>::new());
}

#[test]
fn sanitize_twice_is_sanitize_once() {
    let lines = strings(&["hello  ", " ", "", "a \t b \t", "x\r", "## 2024-01-02 "]);
    let once = sanitize_new_content(lines);
    let twice = sanitize_new_content(once.clone());
    assert_eq!(twice, once);
}

#[test]
fn sanitize_leaves_what_is_inside_a_line() {
    let lines = strings(&["a  b", "\ta", "a\u{200b} ", "é ü  "]);
    assert_eq!(
        sanitize_new_content(lines),
        strings(&["a  b", "\ta", "a\u{200b}", "é ü"])
    );
}
