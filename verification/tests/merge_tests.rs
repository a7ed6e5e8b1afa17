use islog::constants::TITLE;
use islog::database::{format_content, format_content_on};
use islog::merge::{merge, newline, position, splice, subtitle};

fn strings(lines: &[&str]) -> Vec<String> {
    lines.iter().map(|line| line.to_string()).collect()
}

#[test]
fn merge_opens_a_section_under_the_title() {
    let old_lines = strings(&["# Title", "## 2024-01-01", "entry1"]);
    let new_lines = strings(&["hello"]);
    let merged = merge(&new_lines, &old_lines, "2024-01-02");
    assert_eq!(
        merged,
        strings(&["# Title", "## 2024-01-02", "", "hello", "## 2024-01-01", "entry1"])
    );
}

#[test]
fn merge_puts_an_entry_with_its_header_before_an_empty_document() {
    let old_lines: Vec<String> = Vec::new();
    let new_lines = strings(&["## 2024-01-02", "hello"]);
    let merged = merge(&new_lines, &old_lines, "2024-01-02");
    assert_eq!(merged, strings(&["## 2024-01-02", "hello", ""]));
}

#[test]
fn merge_puts_an_entry_with_its_header_before_the_document() {
    let old_lines = strings(&[TITLE, "", "## 2024-01-01", "old"]);
    let new_lines = strings(&["## 2024-01-02", "hello"]);
    let merged = merge(&new_lines, &old_lines, "2024-01-02");
    assert_eq!(
        merged,
        strings(&["## 2024-01-02", "hello", "", TITLE, "", "## 2024-01-01", "old"])
    );
}

#[test]
fn merge_appends_under_the_header_of_today() {
    let old_lines = strings(&["## 2024-01-02", "a"]);
    let new_lines = strings(&["b"]);
    let merged = merge(&new_lines, &old_lines, "2024-01-02");
    assert_eq!(merged, strings(&["## 2024-01-02", "b", "a"]));
}

#[test]
fn merge_keeps_the_order_of_a_block_under_the_header() {
    let old_lines = strings(&[TITLE, "", "## 2024-01-02", "a", "## 2024-01-01", "z"]);
    let new_lines = strings(&["b", "", "c"]);
    let merged = merge(&new_lines, &old_lines, "2024-01-02");
    assert_eq!(
        merged,
        strings(&[TITLE, "", "## 2024-01-02", "b", "", "c", "a", "## 2024-01-01", "z"])
    );
}

#[test]
fn merge_leaves_the_header_twice_where_both_have_it() {
    let old_lines = strings(&[TITLE, "## 2024-01-02", "a"]);
    let new_lines = strings(&["## 2024-01-02", "b"]);
    let merged = merge(&new_lines, &old_lines, "2024-01-02");
    assert_eq!(
        merged,
        strings(&[TITLE, "## 2024-01-02", "## 2024-01-02", "b", "a"])
    );
}

#[test]
fn merge_goes_under_the_first_of_two_headers() {
    let old_lines = strings(&["x", "## 2024-01-02", "a", "## 2024-01-02", "b"]);
    let new_lines = strings(&["n"]);
    let merged = merge(&new_lines, &old_lines, "2024-01-02");
    assert_eq!(
        merged,
        strings(&["x", "## 2024-01-02", "n", "a", "## 2024-01-02", "b"])
    );
}

#[test]
fn merge_finds_a_title_that_is_not_the_first_line() {
    let old_lines = strings(&["", "note", TITLE, "## 2024-01-01", "old"]);
    let new_lines = strings(&["hello"]);
    let merged = merge(&new_lines, &old_lines, "2024-01-02");
    assert_eq!(
        merged,
        strings(&["", "note", TITLE, "## 2024-01-02", "", "hello", "## 2024-01-01", "old"])
    );
}

#[test]
fn merge_into_a_document_without_lines_opens_the_section() {
    let old_lines: Vec<String> = Vec::new();
    let new_lines = strings(&["hello"]);
    let merged = merge(&new_lines, &old_lines, "2024-01-02");
    assert_eq!(merged, strings(&["## 2024-01-02", "", "hello"]));
}

#[test]
fn merge_of_no_lines_leaves_a_document_with_the_header_unchanged() {
    let old_lines = strings(&[TITLE, "", "## 2024-01-02", "a", "## 2024-01-01", "b"]);
    let merged = merge(&Vec::new(), &old_lines, "2024-01-02");
    assert_eq!(merged, old_lines);
}

#[test]
fn merge_of_no_lines_opens_the_section_where_it_is_missing() {
    let old_lines = strings(&[TITLE, "", "## 2024-01-01", "b"]);
    let merged = merge(&Vec::new(), &old_lines, "2024-01-02");
    assert_eq!(
        merged,
        strings(&[TITLE, "## 2024-01-02", "", "", "## 2024-01-01", "b"])
    );
}

#[test]
fn merge_keeps_every_line_of_both() {
    let documents = [
        strings(&[]),
        strings(&[TITLE]),
        strings(&[TITLE, "", "## 2024-01-02", "a", "a"]),
        strings(&[TITLE, "", "## 2024-01-01", "a", "", "b"]),
    ];
    let entries = [
        strings(&[]),
        strings(&["x"]),
        strings(&["## 2024-01-02", "x", "", "y"]),
        strings(&["a", "a", "b"]),
    ];
    for old_lines in documents.iter() {
        for new_lines in entries.iter() {
            let merged = merge(new_lines, old_lines, "2024-01-02");
            let mut expected: Vec<String> = old_lines.clone();
            expected.extend(new_lines.iter().cloned());
            let has = |lines: &Vec<String>| lines.iter().any(|line| line == "## 2024-01-02");
            if !has(old_lines) {
                expected.push(String::new());
                if !has(new_lines) {
                    expected.push("## 2024-01-02".to_string());
                }
            }
            let mut got = merged.clone();
            got.sort();
            expected.sort();
            assert_eq!(got, expected);
            assert!(merged.iter().any(|line| line == "## 2024-01-02"));
        }
    }
}

#[test]
fn merge_keeps_one_title_and_one_header() {
    let old_lines = strings(&[TITLE, "", "## 2024-01-01", "a"]);
    let new_lines = strings(&["## 2024-01-02", "x"]);
    let first = merge(&new_lines, &old_lines, "2024-01-02");
    let second = merge(&strings(&["y"]), &first, "2024-01-02");
    let count = |lines: &Vec<String>, wanted: &str| lines.iter().filter(|line| *line == wanted).count();
    assert_eq!(count(&second, TITLE), 1);
    assert_eq!(count(&second, "## 2024-01-02"), 1);
    assert_eq!(count(&second, "## 2024-01-01"), 1);
    assert_eq!(
        second,
        strings(&["## 2024-01-02", "y", "x", "", TITLE, "", "## 2024-01-01", "a"])
    );
}

#[test]
fn title_stays_first_when_a_section_is_opened() {
    let old_lines = strings(&[TITLE, "", "## 2024-01-01", "a"]);
    let merged = merge(&strings(&["x"]), &old_lines, "2024-01-02");
    assert_eq!(merged[0], TITLE);
    assert_eq!(merged[1], "## 2024-01-02");
}

#[test]
fn subtitle_is_two_hashes_a_space_and_the_day() {
    assert_eq!(subtitle("2024-01-02"), "## 2024-01-02");
    assert_eq!(subtitle(""), "## ");
}

#[test]
fn newline_is_the_empty_line() {
    assert_eq!(newline(), "");
}

#[test]
fn position_is_the_first_index() {
    let lines = strings(&["a", "b", "a", "c"]);
    assert_eq!(position(&lines, &"a".to_string()), Some(0));
    assert_eq!(position(&lines, &"c".to_string()), Some(3));
    assert_eq!(position(&lines, &"d".to_string()), None);
    assert_eq!(position(&Vec::new(), &"a".to_string()), None);
}

#[test]
fn splice_puts_a_block_at_an_index() {
    let lines = strings(&["a", "b"]);
    let block = strings(&["x", "y"]);
    assert_eq!(splice(&lines, 0, &block), strings(&["x", "y", "a", "b"]));
    assert_eq!(splice(&lines, 1, &block), strings(&["a", "x", "y", "b"]));
    assert_eq!(splice(&lines, 2, &block), strings(&["a", "b", "x", "y"]));
    assert_eq!(splice(&lines, 1, &Vec::new()), lines);
}

#[test]
fn format_content_on_joins_the_merged_lines() {
    let old_lines = strings(&["# Title", "## 2024-01-01", "entry1"]);
    let new_lines = strings(&["hello"]);
    assert_eq!(
        format_content_on(new_lines, old_lines, "2024-01-02"),
        "# Title\n## 2024-01-02\n\nhello\n## 2024-01-01\nentry1"
    );
    assert_eq!(
        format_content_on(strings(&["## 2024-01-02", "hello"]), Vec::new(), "2024-01-02"),
        "## 2024-01-02\nhello\n"
    );
}

#[test]
fn format_content_opens_a_section_for_today() {
    let content =
        format_content(strings(&["hello"]), strings(&[TITLE, "", "## 0001-01-01", "a"])).unwrap();
    let lines: Vec<&str> = content.split('\n').collect();
    assert_eq!(lines.len(), 7);
    assert_eq!(lines[0], TITLE);
    assert!(lines[1].starts_with("## "));
    assert!(lines[1].len() == 13 || lines[1].len() == 14);
    assert_eq!(&lines[2..], &["", "hello", "", "## 0001-01-01", "a"]);
}
