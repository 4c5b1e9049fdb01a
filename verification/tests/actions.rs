use jackdull::actions::{Action, Actions};
use jackdull::keys::Key;

#[test]
fn should_find_action_by_key() {
    let actions: Actions = Actions::build(vec![Action::Quit]).unwrap();
    let result = actions.find(Key::Ctrl('c'));
    assert_eq!(result, Some(&Action::Quit));
}

#[test]
fn should_find_action_by_key_not_found() {
    let actions: Actions = Actions::build(vec![Action::Quit]).unwrap();
    let result = actions.find(Key::Alt('w'));
    assert_eq!(result, None);
}

#[test]
fn should_create_actions_from_vec() {
    let _actions: Actions = Actions::build(vec![Action::Quit]).unwrap();
}

#[test]
#[should_panic]
fn should_panic_when_create_actions_conflict_key() {
    let _actions: Actions = Actions::build(vec![Action::Quit, Action::Quit]).unwrap();
}

#[test]
fn build_failure_enumerates_every_conflicting_chord() {
    let result = Actions::build(vec![
        Action::Quit,
        Action::Typing('a'),
        Action::Quit,
        Action::Typing('a'),
        Action::Typing('b'),
    ]);
    let err = result.err().expect("two chords collide");
    assert_eq!(err.conflicts.len(), 2);
    let ctrl_c = err
        .conflicts
        .iter()
        .find(|c| c.key == Key::Ctrl('c'))
        .expect("the quit chord is reported");
    assert_eq!(ctrl_c.actions, vec![Action::Quit, Action::Quit]);
    let char_a = err
        .conflicts
        .iter()
        .find(|c| c.key == Key::Char('a'))
        .expect("the 'a' chord is reported");
    assert_eq!(char_a.actions, vec![Action::Typing('a'), Action::Typing('a')]);
}

#[test]
fn failure_message_names_chords_and_actions() {
    let err = Actions::build(vec![Action::Quit, Action::Quit]).err().unwrap();
    assert_eq!(err.describe(), "Conflict key Ctrl+c with actions Quit, Quit");

    let err = Actions::build(vec![
        Action::Typing('a'),
        Action::Typing('a'),
        Action::Quit,
        Action::Quit,
    ])
    .err()
    .unwrap();
    assert_eq!(
        err.describe(),
        "Conflict key a with actions a, a; Conflict key Ctrl+c with actions Quit, Quit"
    );
}

#[test]
fn labels_name_actions_and_chords() {
    assert_eq!(Action::Quit.label(), "Quit");
    assert_eq!(Action::Typing('q').label(), "q");
    assert_eq!(Action::BackwardDeleteChar.label(), "remove char");
    assert_eq!(Key::Ctrl('c').label(), "Ctrl+c");
    assert_eq!(Key::Alt('x').label(), "Alt+x");
    assert_eq!(Key::Char('z').label(), "z");
    assert_eq!(Key::Backspace.label(), "Backspace");
}

#[test]
fn build_keeps_the_actions_in_order() {
    let set = vec![Action::Quit, Action::Typing('x'), Action::BackwardDeleteChar];
    let actions = Actions::build(set.clone()).unwrap();
    assert_eq!(actions.actions(), set.as_slice());
}

#[test]
fn quit_registry_resolves_only_its_own_chord() {
    let actions = Actions::build(vec![Action::Quit]).unwrap();
    assert_eq!(actions.find(Key::Ctrl('c')), Some(&Action::Quit));
    assert_eq!(actions.find(Key::Char('c')), None);
}

#[test]
fn find_ignores_modifier_fallback() {
    let actions = Actions::build(vec![Action::Typing('c')]).unwrap();
    assert_eq!(actions.find(Key::Char('c')), Some(&Action::Typing('c')));
    assert_eq!(actions.find(Key::Ctrl('c')), None);
}

#[test]
fn iterator_lists_the_whole_action_universe() {
    let all = Action::iterator();
    assert_eq!(all.len(), 57);
    assert_eq!(all[0], Action::Quit);
    assert_eq!(all[56], Action::BackwardDeleteChar);
    assert!(all.contains(&Action::Typing('z')));
    assert!(all.contains(&Action::Typing(' ')));
    assert!(all.contains(&Action::Typing('.')));
    assert!(all.contains(&Action::Typing('\'')));
}

#[test]
fn keys_gives_the_bound_chord() {
    assert_eq!(Action::Quit.keys(), vec![Key::Ctrl('c')]);
    assert_eq!(Action::Typing('x').keys(), vec![Key::Char('x')]);
    assert_eq!(Action::BackwardDeleteChar.keys(), vec![Key::Backspace]);
}
