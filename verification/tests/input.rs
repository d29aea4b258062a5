use solite::input::{InputState, InputType, TextCommit, BLINK_INTERVAL};

#[test]
fn insert_typed_chars_grow_value() {
    let mut s = InputState::default();
    assert!(s.insert('h'));
    assert!(s.insert('i'));
    assert_eq!(s.value(), "hi");
    assert_eq!(s.caret(), 2);
}

#[test]
fn backspace_deletes_previous_char() {
    let mut s = InputState::default();
    s.set_value("ab");
    assert!(s.backspace());
    assert_eq!(s.value(), "a");
    assert_eq!(s.caret(), 1);
    assert!(s.backspace());
    assert_eq!(s.value(), "");
    assert!(!s.backspace(), "no-op at start of field");
}

#[test]
fn arrows_clamp_at_ends() {
    let mut s = InputState::default();
    s.set_value("abc");
    assert!(!s.move_right(), "already at end");
    assert!(s.move_left());
    assert!(s.move_left());
    assert!(s.move_left());
    assert!(!s.move_left(), "already at start");
    assert_eq!(s.caret(), 0);
}

#[test]
fn shift_arrows_extend_selection_and_typing_replaces_it() {
    let mut s = InputState::default();
    s.set_value("abcd");
    assert!(s.move_left_extending(true));
    assert!(s.move_left_extending(true));
    assert_eq!((s.selection_start(), s.selection_end()), (2, 4));
    assert_eq!(s.selected_text().as_deref(), Some("cd"));
    assert!(s.insert('X'));
    assert_eq!(s.value(), "abX");
    assert_eq!(s.caret(), 3);
    assert!(!s.has_selection());
}

#[test]
fn delete_removes_selected_text() {
    let mut s = InputState::default();
    s.set_value("abcdef");
    s.set_selection(2, 5);
    assert!(s.delete_forward());
    assert_eq!(s.value(), "abf");
    assert_eq!(s.caret(), 2);
}

#[test]
fn select_all_uses_full_char_range() {
    let mut s = InputState::default();
    s.set_value("hé");
    assert!(s.select_all());
    assert_eq!((s.selection_start(), s.selection_end()), (0, 2));
    assert_eq!(s.selection_byte_range(), (0, 3));
}

#[test]
fn word_range_expands_from_char_index() {
    let mut s = InputState::default();
    s.set_value("hello world");
    assert_eq!(s.word_range_at(2), Some((0, 5)));
    assert_eq!(s.word_range_at(8), Some((6, 11)));
}

#[test]
fn multibyte_caret_uses_char_boundaries() {
    let mut s = InputState::default();
    s.insert_str("héllo");
    assert_eq!(s.caret(), 5);
    s.move_left();
    s.backspace();
    assert_eq!(s.value(), "hélo");
    s.move_left();
    s.backspace();
    assert_eq!(s.value(), "hlo");
    assert_eq!(s.caret(), 1);
}

#[test]
fn readonly_blocks_edits_but_allows_caret() {
    let mut s = InputState::default();
    s.set_value("hi");
    s.set_readonly(true);
    assert!(!s.insert('x'));
    assert!(!s.backspace());
    assert!(s.move_left(), "caret movement is still allowed");
}

#[test]
fn render_keeps_caret_out_of_text() {
    let mut s = InputState::default();
    s.set_value("ab");
    let (text, ph) = s.render(true);
    assert_eq!(text, "ab");
    assert!(!ph);
}

#[test]
fn render_shows_placeholder_when_empty() {
    let mut s = InputState::default();
    s.set_placeholder(Some("type here".into()));
    let (text, ph) = s.render(false);
    assert_eq!(text, "type here");
    assert!(ph);
    let (text, ph) = s.render(true);
    assert_eq!(text, "type here");
    assert!(ph);
    s.insert('a');
    let (text, ph) = s.render(true);
    assert_eq!(text, "a");
    assert!(!ph);
}

#[test]
fn render_masks_password_chars() {
    let mut s = InputState::default();
    s.set_value("hunter2");
    s.set_masked(true);
    let (text, _) = s.render(false);
    assert!(text.chars().all(|c| c == '\u{2022}'));
    assert_eq!(s.value(), "hunter2");
}

#[test]
fn ctrl_left_jumps_by_word() {
    let mut s = InputState::default();
    s.set_value("hello world here");
    s.move_end();
    assert!(s.move_word_left_extending(false));
    assert_eq!(s.caret(), 12);
    assert!(s.move_word_left_extending(false));
    assert_eq!(s.caret(), 6);
    assert!(s.move_word_left_extending(false));
    assert_eq!(s.caret(), 0);
}

#[test]
fn ctrl_right_jumps_by_word() {
    let mut s = InputState::default();
    s.set_value("hello world here");
    s.move_home();
    assert!(s.move_word_right_extending(false));
    assert_eq!(s.caret(), 5);
    assert!(s.move_word_right_extending(false));
    assert_eq!(s.caret(), 11);
    assert!(s.move_word_right_extending(false));
    assert_eq!(s.caret(), 16);
}

#[test]
fn ctrl_shift_right_extends_selection_by_word() {
    let mut s = InputState::default();
    s.set_value("foo bar");
    s.move_home();
    assert!(s.move_word_right_extending(true));
    assert_eq!(s.selection_start(), 0);
    assert_eq!(s.selection_end(), 3);
}

#[test]
fn ctrl_backspace_deletes_previous_word() {
    let mut s = InputState::default();
    s.set_value("hello world");
    s.move_end();
    assert!(s.delete_word_left());
    assert_eq!(s.value(), "hello ");
    assert!(s.delete_word_left());
    assert_eq!(s.value(), "");
}

#[test]
fn ctrl_delete_removes_next_word() {
    let mut s = InputState::default();
    s.set_value("hello world");
    s.move_home();
    assert!(s.delete_word_right());
    assert_eq!(s.value(), " world");
}

#[test]
fn words_are_told_by_unicode_classes() {
    let mut s = InputState::default();
    s.set_value("naïve — größe_2 ok");
    s.move_home();
    assert!(s.move_word_right_extending(false));
    assert_eq!(s.caret(), 5);
    assert!(s.move_word_right_extending(false));
    assert_eq!(s.caret(), 15);
    assert_eq!(s.word_range_at(9), Some((8, 15)));
    assert_eq!(s.word_range_at(6), Some((6, 7)));
    assert_eq!(s.word_range_at(99), Some((16, 18)));
    assert_eq!(InputState::default().word_range_at(0), None);
}

#[test]
fn types_are_named_whatever_the_case() {
    let mut s = InputState::default();
    s.set_input_type("PassWord");
    assert_eq!(s.kind(), InputType::Password);
    assert!(s.is_password());
    s.set_input_type("radio");
    assert!(s.is_radio() && s.is_checked_like() && !s.is_text_like());
    s.set_input_type("checkbox");
    assert!(s.is_checkbox());
    s.set_input_type("NUMBER");
    assert!(s.is_number() && s.is_numeric_like() && s.is_text_like());
    s.set_input_type("date");
    assert_eq!(s.kind(), InputType::Text);
    assert!(InputType::Range.is_range() && !InputType::Number.is_range());
}

#[test]
fn sliders_get_bounds_and_a_value() {
    let mut s = InputState::default();
    s.set_input_type("range");
    assert_eq!(s.min(), Some(0f64.to_bits()));
    assert_eq!(s.max(), Some(100f64.to_bits()));
    assert_eq!(s.step(), 1f64.to_bits());
    assert_eq!(s.value(), "0");
    assert_eq!(s.caret(), 1);
    s.set_step(Some(0.5f64.to_bits()));
    assert_eq!(s.step(), 0.5f64.to_bits());
    s.set_step(Some((-2.0f64).to_bits()));
    assert_eq!(s.step(), 1f64.to_bits());
    s.set_step(Some(f64::NAN.to_bits()));
    assert_eq!(s.step(), 1f64.to_bits());
    s.set_step(Some(f64::INFINITY.to_bits()));
    assert_eq!(s.step(), f64::INFINITY.to_bits());
    s.set_step(Some(0f64.to_bits()));
    assert_eq!(s.step(), 1f64.to_bits());
}

#[test]
fn numbers_take_what_leads_to_a_number() {
    let mut s = InputState::default();
    s.set_input_type("number");
    assert!(!s.insert_numeric_char('a'));
    assert!(s.insert_numeric_char('1'));
    assert!(s.insert_numeric_char('.'));
    assert!(!s.insert_numeric_char('.'));
    assert!(s.insert_numeric_char('5'));
    assert!(!s.insert_numeric_char('-'), "a sign fits at the start only");
    s.move_home();
    assert!(s.insert_numeric_char('-'));
    assert_eq!(s.value(), "-1.5");
    assert_eq!(s.caret(), 1);
    s.select_all();
    assert!(!s.insert_numeric_str("2x"), "judged before the selection goes");
    assert_eq!(s.value(), "");
    assert!(s.insert_numeric_str("42"));
    assert_eq!(s.value(), "42");
    assert_eq!(s.caret(), 2);
}

#[test]
fn a_value_that_does_not_fit_a_number_still_clears_the_selection() {
    let mut s = InputState::default();
    s.set_input_type("number");
    s.insert_numeric_str("12.5");
    s.set_selection(0, 2);
    assert!(s.insert_numeric_char('7'));
    assert_eq!(s.value(), "7.5");
    s.set_selection(0, 1);
    assert!(!s.insert_numeric_char('.'));
    assert_eq!(s.value(), ".5");
}

#[test]
fn values_of_numbers_wait_for_their_bounds() {
    let mut s = InputState::default();
    s.set_input_type("number");
    assert!(!s.set_value("abc"), "no number: taken over as it is");
    assert_eq!(s.value(), "abc");
    assert!(s.set_value("250"));
    assert_eq!(s.value(), "abc");
    s.store_number("100");
    assert_eq!(s.value(), "100");
    assert_eq!(s.caret(), 3);
    assert!(!s.set_numeric_value("100"));
    assert!(s.set_numeric_value("7"));
    assert_eq!(s.set_numeric_value_from_text("  "), TextCommit::Unchanged);
    assert_eq!(s.set_numeric_value_from_text(" 12 "), TextCommit::Number("12".to_owned()));
    assert_eq!(s.value(), "7");
    assert_eq!(s.set_numeric_value_from_text("\u{a0}-\t"), TextCommit::Changed);
    assert_eq!(s.value(), "-");
    assert_eq!(s.update_range_value("3"), TextCommit::Unchanged, "not a slider");
    assert!(s.commit_numeric_preview("3."));
    assert!(!s.commit_numeric_preview("3.."));
    assert_eq!(s.value(), "3.");
    s.set_readonly(true);
    assert!(!s.commit_numeric_preview("4"));
    assert_eq!(s.set_numeric_value_from_text("4"), TextCommit::Unchanged);
}

#[test]
fn checkboxes_and_radios_show_their_state() {
    let mut s = InputState::default();
    s.set_input_type("checkbox");
    assert_eq!(s.render(false).0, "false");
    assert!(s.toggle_checked());
    assert_eq!(s.render(false).0, "true");
    s.set_disabled(true);
    assert!(!s.toggle_checked());
    s.set_disabled(false);
    s.set_input_type("radio");
    s.set_checked(false);
    assert_eq!(s.render(false).0, "off");
    s.set_checked(true);
    assert_eq!(s.render(false).0, "on");
    assert!(!s.set_value("picked"));
    assert_eq!(s.value(), "picked");
    assert!(!s.insert('x') && !s.select_all());
}

#[test]
fn bullets_take_three_bytes_each() {
    let mut s = InputState::default();
    s.set_input_type("password");
    s.insert_str("aé");
    assert_eq!(s.display_caret_byte_index(), 6);
    s.move_left();
    assert_eq!(s.display_caret_byte_index(), 3);
    assert_eq!(s.caret_byte_index(), 1);
    s.set_input_type("text");
    s.move_end();
    assert_eq!(s.display_caret_byte_index(), 3);
}

#[test]
fn typing_and_backspace_cancel() {
    let mut s = InputState::default();
    s.set_value("ab");
    s.place_caret(1);
    assert!(s.insert('ß'));
    assert_eq!(s.value(), "aßb");
    assert!(s.backspace());
    assert_eq!((s.value(), s.caret()), ("ab", 1));
    s.place_caret(99);
    assert_eq!(s.caret(), 2);
    assert!(!s.delete_forward());
    assert!(!s.delete_selection());
}

#[test]
fn moves_collapse_a_selection_to_its_ends() {
    let mut s = InputState::default();
    s.set_value("abcdef");
    s.set_selection(1, 4);
    assert!(s.move_left());
    assert_eq!((s.caret(), s.has_selection()), (1, false));
    s.set_selection(4, 1);
    assert!(s.move_right());
    assert_eq!((s.caret(), s.has_selection()), (4, false));
    assert!(s.move_end_extending(true));
    assert_eq!((s.selection_start(), s.selection_end()), (4, 6));
    assert!(s.move_home_extending(true));
    assert_eq!((s.selection_start(), s.selection_end()), (0, 4));
    assert!(s.delete_selection());
    assert_eq!(s.value(), "ef");
}

#[test]
fn bytes_map_back_to_characters() {
    let mut s = InputState::default();
    s.set_value("héllo");
    assert_eq!(s.char_index_for_byte(0), 0);
    assert_eq!(s.char_index_for_byte(1), 1);
    assert_eq!(s.char_index_for_byte(2), 2);
    assert_eq!(s.char_index_for_byte(3), 2);
    assert_eq!(s.char_index_for_byte(99), 5);
}

#[test]
fn the_caret_blinks_each_half_second() {
    let mut s = InputState::default();
    s.set_value("x");
    let due = s.next_blink_at();
    assert!(due >= BLINK_INTERVAL);
    assert!(!s.tick_blink(due - 1));
    assert!(s.blink_visible());
    assert!(s.tick_blink(due));
    assert!(!s.blink_visible());
    assert!(!s.tick_blink(due + BLINK_INTERVAL - 1));
    assert!(s.tick_blink(due + BLINK_INTERVAL));
    assert!(s.blink_visible());
    s.tick_blink(due + 2 * BLINK_INTERVAL);
    assert!(!s.blink_visible());
    s.insert('y');
    assert!(s.blink_visible(), "an edit shows the caret");
}

#[test]
fn the_clock_runs_on() {
    let s = InputState::default();
    let first = s.now();
    let mut later = s.now();
    let mut rounds: u64 = 0;
    while later == first && rounds < 100_000_000 {
        later = s.now();
        rounds += 1;
    }
    assert!(later > first);
    assert!(s.next_blink_at() <= later + BLINK_INTERVAL);
}

#[test]
fn a_copy_is_independent() {
    let mut s = InputState::default();
    s.set_name(Some("group".to_owned()));
    s.set_value("one");
    let mut copy = s.clone();
    copy.insert('!');
    assert_eq!(s.value(), "one");
    assert_eq!(copy.value(), "one!");
    assert_eq!(copy.name(), Some("group"));
}

#[test]
fn edits_start_the_blink_interval_anew() {
    let mut s = InputState::default();
    s.restart_blink(7);
    assert_eq!(s.next_blink_at(), 7 + BLINK_INTERVAL);
    s.set_name(Some("a".to_owned()));
    s.set_readonly(true);
    assert!(!s.insert('x'));
    assert!(!s.tick_blink(7));
    assert_eq!(s.next_blink_at(), 7 + BLINK_INTERVAL, "no edit, no restart");
    assert_eq!(s.clone().next_blink_at(), 7 + BLINK_INTERVAL);
    s.restart_blink(u64::MAX);
    s.set_readonly(false);
    assert!(s.insert('x'));
    assert!(s.next_blink_at() < u64::MAX, "an edit starts the interval at the present");
}

#[test]
fn a_value_put_again_moves_the_caret_to_its_end() {
    let mut s = InputState::default();
    s.set_value("abc");
    s.set_selection(2, 1);
    assert!(!s.set_value("abc"));
    assert_eq!((s.caret(), s.has_selection()), (1, true));
    assert!(!s.put_value("abc"));
    assert_eq!((s.caret(), s.has_selection()), (3, false));
    assert!(!s.put_value("de"));
    assert_eq!((s.value(), s.caret()), ("de", 2));
}

#[test]
fn numbers_stay_numbers() {
    let mut s = InputState::default();
    s.set_input_type("number");
    for c in "-1.2-x.3".chars() {
        s.insert_numeric_char(c);
    }
    assert_eq!(s.value(), "-1.23");
    s.set_selection(0, 3);
    assert!(!s.insert_numeric_char('x'));
    assert_eq!(s.value(), "-1.23");
    assert!(s.insert_numeric_char('.'));
    assert_eq!((s.value(), s.caret()), (".23", 1));
}

#[test]
fn carets_stay_within_the_value() {
    let mut s = InputState::default();
    s.set_value("héllo");
    s.set_input_type("checkbox");
    s.set_value("");
    assert_eq!((s.caret(), s.selection_start(), s.selection_end()), (0, 0, 0));
    s.set_input_type("text");
    s.set_value("ab");
    s.set_selection(9, 1);
    assert_eq!((s.caret(), s.selection_start(), s.selection_end()), (1, 1, 2));
    s.set_disabled(true);
    assert_eq!((s.caret(), s.selection_end()), (0, 0));
}
