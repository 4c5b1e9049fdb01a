use jackdull::content::{typing_file_display, TypingFile, TypingFileDisplay};
use jackdull::state::AppState;

fn active_state() -> AppState {
    AppState::initialized()
}

#[test]
fn fresh_session_is_empty() {
    let state = active_state();
    assert!(state.is_initialized());
    assert_eq!(state.duration(), Some(0));
    assert_eq!(state.count_tick(), Some(0));
    assert_eq!(state.typed_text(), Some(String::new()));
    assert!(!state.is_time_over());
    assert!(state.is_finished());
}

#[test]
fn default_state_has_no_session() {
    let state = AppState::default();
    assert!(!state.is_initialized());
    assert_eq!(state.duration(), None);
    assert_eq!(state.count_tick(), None);
}

#[test]
fn add_then_remove_restores_typed_text() {
    let mut state = active_state();
    state.add_char(&'a');
    state.add_char(&'b');
    assert_eq!(state.typed_text(), Some("ab".to_owned()));
    state.remove_char();
    assert_eq!(state.typed_text(), Some("a".to_owned()));
    state.add_char(&'\'');
    state.remove_char();
    assert_eq!(state.typed_text(), Some("a".to_owned()));
}

#[test]
fn remove_char_on_empty_text_is_a_no_op() {
    let mut state = active_state();
    state.remove_char();
    assert_eq!(state.typed_text(), Some(String::new()));
}

#[test]
fn mutators_outside_a_session_change_nothing() {
    let mut state = AppState::default();
    state.add_char(&'a');
    assert_eq!(state.typed_text(), None);
    state.remove_char();
    state.set_to_type("abc".to_owned());
    state.set_words_count(9);
    state.increase_duaration_tick();
    state.set_message_finished();
    state.set_message_timeup();
    state.stop_timer();
    assert!(!state.is_initialized());
    assert_eq!(state.typed_text(), None);
    assert_eq!(state.to_type(), None);
    assert_eq!(state.duration(), None);
    assert!(!state.is_finished());
    assert!(!state.is_time_over());
}

#[test]
fn menu_phase_gates_every_mutator() {
    let mut state = AppState::Menu;
    state.add_char(&'a');
    state.set_to_type("abc".to_owned());
    state.increase_duaration_tick();
    assert!(!state.is_initialized());
    assert_eq!(state.typed_text(), None);
    assert_eq!(state.to_type(), None);
    assert_eq!(state.duration(), None);
    assert!(!state.is_finished());
    assert!(!state.is_time_over());
}

#[test]
fn timer_expires_exactly_at_the_ceiling() {
    let mut state = active_state();
    for tick in 0..60 {
        assert!(!state.is_time_over(), "not expired after {} ticks", tick);
        state.increase_duaration_tick();
    }
    assert_eq!(state.duration(), Some(60));
    assert!(state.is_time_over());
    state.increase_duaration_tick();
    assert!(state.is_time_over());
}

#[test]
fn stop_timer_resets_the_elapsed_seconds() {
    let mut state = active_state();
    state.increase_duaration_tick();
    state.increase_duaration_tick();
    assert_eq!(state.duration(), Some(2));
    state.stop_timer();
    assert_eq!(state.duration(), Some(0));
}

#[test]
fn completion_needs_exact_equality() {
    let mut state = active_state();
    state.set_to_type("abc".to_owned());
    assert!(!state.is_finished());
    state.add_char(&'a');
    state.add_char(&'b');
    assert!(!state.is_finished(), "a proper prefix does not complete");
    state.add_char(&'c');
    assert!(state.is_finished(), "the exact text completes");
    state.add_char(&'c');
    assert!(!state.is_finished(), "a proper extension does not complete");
}

#[test]
fn completion_is_case_sensitive() {
    let mut state = active_state();
    state.set_to_type("abc".to_owned());
    state.add_char(&'A');
    state.add_char(&'b');
    state.add_char(&'c');
    assert!(!state.is_finished());
}

#[test]
fn report_with_no_elapsed_time_is_guarded() {
    let mut state = active_state();
    state.set_words_count(60);
    assert_eq!(state.duration(), Some(0));
    state.set_message_finished();
    assert_eq!(
        state.to_type(),
        Some(vec!["Finished! Result not available".to_owned()])
    );
}

#[test]
fn report_divides_words_by_elapsed_seconds() {
    let mut state = active_state();
    state.set_words_count(100);
    for _ in 0..30 {
        state.increase_duaration_tick();
    }
    state.set_message_finished();
    assert_eq!(
        state.to_type(),
        Some(vec!["Finished! Your speed is 200 WPM".to_owned()])
    );
}

#[test]
fn report_rounds_down_and_renders_zero() {
    let mut state = active_state();
    state.set_words_count(0);
    state.increase_duaration_tick();
    state.set_message_finished();
    assert_eq!(
        state.to_type(),
        Some(vec!["Finished! Your speed is 0 WPM".to_owned()])
    );

    let mut slow = active_state();
    slow.set_words_count(1);
    for _ in 0..59 {
        slow.increase_duaration_tick();
    }
    slow.set_message_finished();
    assert_eq!(
        slow.to_type(),
        Some(vec!["Finished! Your speed is 1 WPM".to_owned()])
    );
}

#[test]
fn timeup_notice_replaces_the_target() {
    let mut state = active_state();
    state.set_to_type("abc".to_owned());
    state.set_message_timeup();
    assert_eq!(state.to_type(), Some(vec!["Time is up!".to_owned()]));
}

#[test]
fn target_text_is_cut_at_every_slash() {
    let mut state = active_state();
    state.set_to_type("one/two//three".to_owned());
    assert_eq!(
        state.to_type(),
        Some(vec![
            "one".to_owned(),
            "two".to_owned(),
            String::new(),
            "three".to_owned()
        ])
    );
    state.set_to_type("plain".to_owned());
    assert_eq!(state.to_type(), Some(vec!["plain".to_owned()]));
    state.set_to_type(String::new());
    assert_eq!(state.to_type(), Some(vec![String::new()]));
}

#[test]
fn typing_information_round_trips() {
    let mut state = active_state();
    let info = TypingFileDisplay {
        from: "a book".to_owned(),
        content: "some text".to_owned(),
        url: "somewhere".to_owned(),
        words_count: 2,
    };
    state.set_typing_information(info);
    let back = state.typing_information().unwrap();
    assert_eq!(back.from, "a book");
    assert_eq!(back.content, "some text");
    assert_eq!(back.url, "somewhere");
    assert_eq!(back.words_count, 2);
}

#[test]
fn typing_information_outside_a_session_is_unavailable() {
    let state = AppState::default();
    assert!(state.typing_information().is_none());
}

#[test]
fn word_count_splits_on_whitespace() {
    let display = typing_file_display(TypingFile {
        from: "f".to_owned(),
        content: "hello  world\n foo\tbar".to_owned(),
        url: "u".to_owned(),
    });
    assert_eq!(display.words_count, 4);
    assert_eq!(display.content, "hello  world\n foo\tbar");
    assert_eq!(display.from, "f");
    assert_eq!(display.url, "u");
}

#[test]
fn word_count_of_blank_content_is_zero() {
    let display = typing_file_display(TypingFile {
        from: String::new(),
        content: "   \n\t ".to_owned(),
        url: String::new(),
    });
    assert_eq!(display.words_count, 0);

    let empty = typing_file_display(TypingFile {
        from: String::new(),
        content: String::new(),
        url: String::new(),
    });
    assert_eq!(empty.words_count, 0);
}

#[test]
fn word_count_treats_unicode_spaces_as_separators() {
    let display = typing_file_display(TypingFile {
        from: String::new(),
        content: "one\u{2003}two\u{00A0}three".to_owned(),
        url: String::new(),
    });
    assert_eq!(display.words_count, 3);
}

#[test]
fn word_count_ignores_leading_and_trailing_space() {
    let display = typing_file_display(TypingFile {
        from: String::new(),
        content: "  one two  ".to_owned(),
        url: String::new(),
    });
    assert_eq!(display.words_count, 2);
}
