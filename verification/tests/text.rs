//! Positions, lines, words and selections.

use line_editor::completion::{contains_text, matching_commands, same_texts, slash_command_prefix};
use line_editor::lines::{
    byte_index_for_char_column, count_newlines, current_line_delete_range, line_end, line_start,
    line_starts, move_vertical,
};
use line_editor::selection::{render_selected_text, selection_bounds};
use line_editor::text::{
    char_len, insert_text, next_boundary, previous_boundary, previous_command_boundary,
    remove_previous_char, remove_range, replace_text, slice_text, split_text, text_len,
};
use line_editor::words::{
    contains_white_space, same_text, starts_with, strip_line_breaks, trim, white_space,
};

#[test]
fn white_space_is_that_of_unicode() {
    for c in '\0'..=char::MAX {
        assert_eq!(white_space(c), c.is_whitespace(), "{:?}", c);
    }
}

#[test]
fn char_len_is_the_utf8_length() {
    for c in '\0'..=char::MAX {
        assert_eq!(char_len(c), c.len_utf8(), "{:?}", c);
    }
}

#[test]
fn boundaries_step_over_whole_characters() {
    let text = "aé€😀";
    assert_eq!(text_len(text), 10);
    assert_eq!(next_boundary(text, 0), 1);
    assert_eq!(next_boundary(text, 1), 3);
    assert_eq!(next_boundary(text, 3), 6);
    assert_eq!(next_boundary(text, 6), 10);
    assert_eq!(next_boundary(text, 10), 10);
    assert_eq!(next_boundary(text, 50), 10);
    assert_eq!(previous_boundary(text, 10), 6);
    assert_eq!(previous_boundary(text, 6), 3);
    assert_eq!(previous_boundary(text, 3), 1);
    assert_eq!(previous_boundary(text, 1), 0);
    assert_eq!(previous_boundary(text, 0), 0);
    assert_eq!(next_boundary("", 0), 0);
}

#[test]
fn command_boundary_stays_behind_the_colon() {
    assert_eq!(previous_command_boundary(":é", 3), 1);
    assert_eq!(previous_command_boundary(":é", 1), 1);
    assert_eq!(previous_command_boundary(":", 0), 1);
    assert_eq!(previous_command_boundary(":ab", 3), 2);
}

#[test]
fn parts_of_a_text_are_cut_and_replaced() {
    assert_eq!(split_text("aé€", 3), ("aé", "€"));
    assert_eq!(slice_text("aé€", 1, 3), "é");
    assert_eq!(slice_text("aé€", 1, 1), "");
    assert_eq!(replace_text("aé€", 1, 3, "xyz"), "axyz€");

    let mut text = "aé".to_string();
    let mut cursor = 1;
    insert_text(&mut text, &mut cursor, "€");
    assert_eq!((text.as_str(), cursor), ("a€é", 4));
    remove_previous_char(&mut text, &mut cursor);
    assert_eq!((text.as_str(), cursor), ("aé", 1));
    remove_previous_char(&mut text, &mut cursor);
    assert_eq!((text.as_str(), cursor), ("é", 0));
    remove_previous_char(&mut text, &mut cursor);
    assert_eq!((text.as_str(), cursor), ("é", 0));
    remove_range(&mut text, 0, 2);
    assert_eq!(text, "");
}

#[test]
fn lines_start_and_end_at_newlines() {
    let text = "é\nbc\n\nd";
    assert_eq!(line_starts(text), vec![0, 3, 6, 7]);
    assert_eq!(count_newlines(text), 3);
    assert_eq!(line_start(text, 2), 0);
    assert_eq!(line_start(text, 4), 3);
    assert_eq!(line_start(text, 6), 6);
    assert_eq!(line_end(text, 0), 2);
    assert_eq!(line_end(text, 3), 5);
    assert_eq!(line_end(text, 6), 6);
    assert_eq!(line_end(text, 7), 8);
    assert_eq!(line_starts(""), vec![0]);
    assert_eq!(line_starts("\n"), vec![0, 1]);
}

#[test]
fn columns_count_characters() {
    assert_eq!(byte_index_for_char_column("aé€", 0), 0);
    assert_eq!(byte_index_for_char_column("aé€", 2), 3);
    assert_eq!(byte_index_for_char_column("aé€", 3), 6);
    assert_eq!(byte_index_for_char_column("aé€", 9), 6);
    assert_eq!(byte_index_for_char_column("", 1), 0);
}

#[test]
fn vertical_motion_keeps_the_column_where_it_can() {
    let text = "éabc\nx\nwxyz";
    // From the third column of the first line.
    assert_eq!(move_vertical(text, 4, 1), 7);
    assert_eq!(move_vertical(text, 4, 2), 11);
    assert_eq!(move_vertical(text, 4, 9), 11);
    assert_eq!(move_vertical(text, 4, -1), 4);
    assert_eq!(move_vertical(text, 11, -2), 4);
    assert_eq!(move_vertical(text, 11, isize::MIN), 4);
    assert_eq!(move_vertical(text, 4, isize::MAX), 11);
    assert_eq!(move_vertical(text, 12, 1), 12);
    assert_eq!(move_vertical(text, 7, 0), 7);
}

#[test]
fn deleted_lines_take_a_newline_along() {
    assert_eq!(current_line_delete_range("a\nb\nc", 0), (0, 2, 0));
    assert_eq!(current_line_delete_range("a\nb\nc", 2), (2, 4, 2));
    assert_eq!(current_line_delete_range("a\nb\nc", 4), (4, 5, 3));
    assert_eq!(current_line_delete_range("a\nb\n", 2), (2, 4, 1));
    assert_eq!(current_line_delete_range("a", 0), (0, 1, 0));
    assert_eq!(current_line_delete_range("", 0), (0, 0, 0));
}

#[test]
fn trimming_drops_white_space_around() {
    assert_eq!(trim("  a b \u{3000}\n"), "a b");
    assert_eq!(trim("ab"), "ab");
    assert_eq!(trim(" \t"), "");
    assert_eq!(trim(""), "");
    assert_eq!(trim("é "), "é");
}

#[test]
fn line_breaks_are_stripped_from_the_end_only() {
    assert_eq!(strip_line_breaks("a\nb\r\n"), "a\nb");
    assert_eq!(strip_line_breaks("é"), "é");
    assert_eq!(strip_line_breaks("\r\n\n"), "");
    assert_eq!(strip_line_breaks(" \n "), " \n ");
}

#[test]
fn texts_are_compared() {
    assert!(same_text("é", "é"));
    assert!(!same_text("é", "e"));
    assert!(!same_text("ab", "a"));
    assert!(starts_with("/help", "/he"));
    assert!(starts_with("/help", ""));
    assert!(!starts_with("/he", "/help"));
    assert!(!starts_with("€", "\u{e1}"));
    assert!(contains_white_space("a b"));
    assert!(!contains_white_space("ab"));
}

#[test]
fn slash_words_hold_no_white_space() {
    assert_eq!(slash_command_prefix("/", 1), Some("/"));
    assert_eq!(slash_command_prefix("/é", 3), Some("/é"));
    assert_eq!(slash_command_prefix("/é", 2), None);
    assert_eq!(slash_command_prefix("/a b", 4), None);
    assert_eq!(slash_command_prefix("", 0), None);
    assert_eq!(slash_command_prefix("/a", 9), None);
}

#[test]
fn matching_commands_keep_their_order() {
    let all = vec![
        "/model".to_string(),
        "/memory".to_string(),
        "/m".to_string(),
        "/help".to_string(),
    ];
    let found = matching_commands(&all, "/m");
    assert_eq!(found, vec!["/model".to_string(), "/memory".to_string()]);
    assert!(contains_text(&found, "/memory"));
    assert!(!contains_text(&found, "/m"));
    assert!(same_texts(&found, &matching_commands(&all, "/m")));
    assert!(!same_texts(&found, &all));
    assert!(matching_commands(&all, "/x").is_empty());
}

#[test]
fn selections_run_through_both_ends() {
    assert_eq!(selection_bounds("aé€", 0, 1), Some((0, 3)));
    assert_eq!(selection_bounds("aé€", 1, 0), Some((0, 3)));
    assert_eq!(selection_bounds("aé€", 3, 3), Some((3, 6)));
    assert_eq!(selection_bounds("aé€", 6, 6), Some((6, 6)));
    assert_eq!(selection_bounds("aé€", 9, 1), Some((1, 6)));
    assert_eq!(selection_bounds("", 0, 0), None);
}

#[test]
fn selections_are_shown_in_reverse_video() {
    assert_eq!(render_selected_text("aé€b", 1, 6), "a\x1b[7mé€\x1b[0mb");
    assert_eq!(render_selected_text("aé", 1, 3), "a\x1b[7mé\x1b[0m");
    assert_eq!(render_selected_text("aé", 0, 0), "\x1b[7m\x1b[0maé");
    assert_eq!(render_selected_text("aé", 1, 0), "a\x1b[7mé\x1b[0m");
    assert_eq!(render_selected_text("aé", 3, 3), "aé");
    assert_eq!(render_selected_text("aé", 2, 3), "aé");
    assert_eq!(render_selected_text("aéb", 0, 2), "\x1b[7maéb\x1b[0m");
}
