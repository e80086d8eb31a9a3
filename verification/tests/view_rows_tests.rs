use trench::details::{repo_display, summary_room, user_tags_line};
use trench::settings_view::{masked, secret_status, secret_value};
use trench::theme_picker::{picker_scroll, row_of, theme_picker_rows};

#[test]
fn secrets_are_masked_and_summarised() {
    assert_eq!(masked("abc"), "***");
    assert_eq!(masked("héé"), "***");
    assert_eq!(masked(""), "");
    assert_eq!(secret_status(""), "not set");
    assert_eq!(secret_status("sk-12345"), "8 chars stored");
    assert_eq!(secret_status("0123456789ab"), "12 chars stored");
    assert_eq!(secret_value(true, "ab", "stored"), "**_");
    assert_eq!(secret_value(true, "", "stored"), "_");
    assert_eq!(secret_value(false, "ab", ""), "not set");
    assert_eq!(secret_value(false, "ab", "xyz1"), "****");
}

#[test]
fn theme_picker_rows_group_presets_and_list_customs() {
    let rows = theme_picker_rows(&[0, 0, 1], 2);
    assert_eq!(
        rows,
        vec![None, Some(0), Some(1), None, Some(2), None, None, Some(3), Some(4), Some(5)]
    );
    assert_eq!(theme_picker_rows(&[], 0), vec![None, None, Some(0)]);
    assert_eq!(row_of(&rows, 4), 8);
    assert_eq!(row_of(&rows, 0), 1);
    assert_eq!(row_of(&rows, 42), 0);
}

#[test]
fn picker_scroll_shows_selected_row() {
    assert_eq!(picker_scroll(8, 10, 0, 5), 4);
    assert_eq!(picker_scroll(1, 10, 4, 5), 1);
    assert_eq!(picker_scroll(3, 10, 9, 5), 3);
    assert_eq!(picker_scroll(6, 10, 4, 5), 4);
    assert_eq!(picker_scroll(2, 3, 0, 5), 0);
}

#[test]
fn details_panel_fields() {
    let tags = vec!["ml".to_string(), "safety".to_string(), "rl".to_string()];
    assert_eq!(user_tags_line(&tags), "[ml]  [safety]  [rl]");
    assert_eq!(user_tags_line(&vec!["x".to_string()]), "[x]");
    assert_eq!(user_tags_line(&vec![]), "");
    assert_eq!(repo_display("https://github.com/a/b"), "github.com/a/b");
    assert_eq!(repo_display("http://github.com/a/b"), "http://github.com/a/b");
    assert_eq!(summary_room(30, 10, 3), 7);
    assert_eq!(summary_room(18, 10, 3), 3);
    assert_eq!(summary_room(5, 10, 3), 0);
    assert_eq!(summary_room(100, usize::MAX, 3), 0);
}
