use jackdull::content::{typing_file_display, TypingFile};
use jackdull::keys::Key;
use jackdull::orchestrator::{App, AppReturn, IoEvent};

fn loaded_app() -> App {
    let mut app = App::new();
    let display = typing_file_display(TypingFile {
        from: "a test".to_owned(),
        content: "two words".to_owned(),
        url: "nowhere".to_owned(),
    });
    app.content_loaded(display);
    app
}

#[test]
fn new_app_has_no_session_and_nothing_loading() {
    let app = App::new();
    assert!(!app.is_loading());
    assert!(!app.state().is_initialized());
}

#[test]
fn quit_chord_exits_before_a_session() {
    let mut app = App::new();
    assert_eq!(app.do_action(Key::Ctrl('c')), AppReturn::Exit);
}

#[test]
fn typing_chords_are_unbound_before_a_session() {
    let mut app = App::new();
    assert_eq!(app.do_action(Key::Char('a')), AppReturn::Continue);
    assert!(!app.state().is_initialized());
    assert_eq!(app.state().typed_text(), None);
}

#[test]
fn session_keys_type_and_delete() {
    let mut app = loaded_app();
    assert_eq!(app.do_action(Key::Char('t')), AppReturn::Continue);
    assert_eq!(app.do_action(Key::Char('w')), AppReturn::Continue);
    assert_eq!(app.state().typed_text(), Some("tw".to_owned()));
    assert_eq!(app.do_action(Key::Backspace), AppReturn::Continue);
    assert_eq!(app.state().typed_text(), Some("t".to_owned()));
    assert_eq!(app.do_action(Key::Ctrl('c')), AppReturn::Exit);
}

#[test]
fn unbound_chords_in_a_session_change_nothing() {
    let mut app = loaded_app();
    assert_eq!(app.do_action(Key::Alt('w')), AppReturn::Continue);
    assert_eq!(app.do_action(Key::Enter), AppReturn::Continue);
    assert_eq!(app.do_action(Key::Ctrl('x')), AppReturn::Continue);
    assert_eq!(app.state().typed_text(), Some(String::new()));
}

#[test]
fn session_binds_the_whole_alphabet() {
    let mut app = loaded_app();
    assert_eq!(app.do_action(Key::Char('.')), AppReturn::Continue);
    assert_eq!(app.do_action(Key::Char('\'')), AppReturn::Continue);
    assert_eq!(app.do_action(Key::Char(' ')), AppReturn::Continue);
    assert_eq!(app.do_action(Key::Char('Z')), AppReturn::Continue);
    assert_eq!(app.state().typed_text(), Some(".' Z".to_owned()));
}

#[test]
fn content_loaded_starts_the_session() {
    let app = loaded_app();
    assert!(!app.is_loading());
    assert!(app.state().is_initialized());
    assert_eq!(app.state().duration(), Some(0));
    assert_eq!(app.state().to_type(), Some(vec!["two words".to_owned()]));
    let info = app.state().typing_information().unwrap();
    assert_eq!(info.words_count, 2);
    assert_eq!(info.from, "a test");
}

#[test]
fn dispatch_marks_loading_and_hands_the_intent_on() {
    let mut app = App::new();
    let intent = app.dispatch(IoEvent::Initialize);
    assert!(matches!(intent, IoEvent::Initialize));
    assert!(app.is_loading());
    app.dispatch_failed();
    assert!(!app.is_loading());
}

#[test]
fn failed_content_load_leaves_no_session() {
    let mut app = App::new();
    let _intent = app.dispatch(IoEvent::Initialize);
    assert!(app.is_loading());
    app.load_failed();
    assert!(!app.is_loading());
    assert!(!app.state().is_initialized());
}

#[test]
fn update_on_tick_advances_the_timer() {
    let mut app = loaded_app();
    assert_eq!(app.update_on_tick(), AppReturn::Continue);
    assert_eq!(app.update_on_tick(), AppReturn::Continue);
    assert_eq!(app.state().duration(), Some(2));
}

#[test]
fn cadence_tick_does_nothing() {
    let mut app = loaded_app();
    assert_eq!(app.tick(), AppReturn::Continue);
    assert_eq!(app.state().duration(), Some(0));
    assert_eq!(app.state().typed_text(), Some(String::new()));
}

#[test]
fn finishing_the_text_shows_the_report() {
    let mut app = loaded_app();
    app.update_on_tick();
    app.finished_text();
    assert_eq!(
        app.state().to_type(),
        Some(vec!["Finished! Your speed is 120 WPM".to_owned()])
    );
}

#[test]
fn time_up_shows_the_notice() {
    let mut app = loaded_app();
    app.send_message_timeup();
    assert_eq!(app.state().to_type(), Some(vec!["Time is up!".to_owned()]));
}
