use trench::github::base64_decode;
use trench::scrolling::{count_visible_items, details_scroll_on_select, follow_selection};
use trench::syntax::{highlight_file, split_lines};

#[test]
fn split_lines_matches_str_lines() {
    for s in ["", "a", "a\n", "a\r\nb\n\nc", "x\r", "\n", "\r\n\r\n", "one\ntwo\r\nthree\r"] {
        let expected: Vec<String> = s.lines().map(|l| l.to_string()).collect();
        assert_eq!(split_lines(s), expected, "input {:?}", s);
    }
}

#[test]
fn highlight_file_gives_none_for_plain_and_unknown_files() {
    assert!(highlight_file("just text", "notes.txt").is_none());
    assert!(highlight_file("just text", "LICENSE").is_none());
    assert!(highlight_file("just text", "data.unknownext").is_none());
}

#[test]
fn highlight_file_colours_code_line_by_line() {
    let content = "fn main() {\n    let x = 1;\n}\n";
    let lines = highlight_file(content, "src/main.rs").expect("rust is highlighted");
    assert_eq!(lines.len(), 3);
    let texts: Vec<String> = lines
        .iter()
        .map(|runs| runs.iter().map(|(_, _, _, t)| t.as_str()).collect::<String>())
        .collect();
    assert_eq!(texts, vec!["fn main() {", "    let x = 1;", "}"]);
    // More than one colour is used for a line of code.
    let first = &lines[0];
    assert!(first.len() > 1);
    assert!(first.iter().any(|(r, g, b, _)| (*r, *g, *b) != (first[0].0, first[0].1, first[0].2)));
}

#[test]
fn highlight_file_handles_crlf_and_empty_content() {
    let lines = highlight_file("x = 1\r\ny = 2", "a.py").expect("python is highlighted");
    let texts: Vec<String> = lines
        .iter()
        .map(|runs| runs.iter().map(|(_, _, _, t)| t.as_str()).collect::<String>())
        .collect();
    assert_eq!(texts, vec!["x = 1", "y = 2"]);
    assert_eq!(highlight_file("", "a.py"), Some(vec![]));
}

#[test]
fn count_visible_items_counts_rows_from_offset() {
    // Titles of length 5 fit a 10-wide column (2 rows); 20 wraps (3 rows).
    let lens = [5, 20, 5, 5, 20];
    assert_eq!(count_visible_items(&lens, 0, 7, 10), 3);
    assert_eq!(count_visible_items(&lens, 1, 7, 10), 3);
    assert_eq!(count_visible_items(&lens, 0, 100, 10), 5);
    assert_eq!(count_visible_items(&lens, 0, 1, 10), 1);
    assert_eq!(count_visible_items(&lens, 9, 10, 10), 1);
    assert_eq!(count_visible_items(&[], 0, 10, 10), 1);
}

#[test]
fn follow_selection_keeps_selection_in_view() {
    // Selection above the window scrolls up to it.
    assert_eq!(follow_selection(2, 5, 10, 50), 2);
    // Within two items of the bottom scrolls down.
    assert_eq!(follow_selection(13, 5, 10, 50), 5);
    assert_eq!(follow_selection(14, 5, 10, 50), 6);
    // Otherwise unchanged.
    assert_eq!(follow_selection(7, 5, 10, 50), 5);
    // Never past the last item.
    assert_eq!(follow_selection(3, 9, 1, 4), 3);
    assert_eq!(follow_selection(0, 0, 10, 0), 0);
}

#[test]
fn details_scroll_resets_on_new_selection() {
    let a = Some("https://a".to_string());
    let b = Some("https://b".to_string());
    assert_eq!(details_scroll_on_select(&a, &a, 7), 7);
    assert_eq!(details_scroll_on_select(&a, &b, 7), 0);
    assert_eq!(details_scroll_on_select(&None, &a, 7), 0);
    assert_eq!(details_scroll_on_select(&None, &None, 7), 7);
}

#[test]
fn base64_decode_ignores_layout() {
    assert_eq!(base64_decode("aGVs\nbG8"), Ok(b"hello".to_vec()));
    assert_eq!(base64_decode("aGVs\r\nbG8=\r\n"), Ok(b"hello".to_vec()));
    assert_eq!(base64_decode(" a G k "), Ok(b"hi".to_vec()));
}
