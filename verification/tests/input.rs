use snake_game::direction::Direction;
use snake_game::input::{key_action, KeyAction, KeyPress};

#[test]
fn arrows_turn_the_snake() {
    assert_eq!(key_action(KeyPress::Up), KeyAction::Turn(Direction::Up));
    assert_eq!(key_action(KeyPress::Down), KeyAction::Turn(Direction::Down));
    assert_eq!(key_action(KeyPress::Left), KeyAction::Turn(Direction::Left));
    assert_eq!(key_action(KeyPress::Right), KeyAction::Turn(Direction::Right));
}

#[test]
fn wasd_turns_the_snake() {
    assert_eq!(key_action(KeyPress::Char('w')), KeyAction::Turn(Direction::Up));
    assert_eq!(key_action(KeyPress::Char('a')), KeyAction::Turn(Direction::Left));
    assert_eq!(key_action(KeyPress::Char('s')), KeyAction::Turn(Direction::Down));
    assert_eq!(key_action(KeyPress::Char('d')), KeyAction::Turn(Direction::Right));
}

#[test]
fn hjkl_turns_the_snake() {
    assert_eq!(key_action(KeyPress::Char('h')), KeyAction::Turn(Direction::Left));
    assert_eq!(key_action(KeyPress::Char('j')), KeyAction::Turn(Direction::Down));
    assert_eq!(key_action(KeyPress::Char('k')), KeyAction::Turn(Direction::Up));
    assert_eq!(key_action(KeyPress::Char('l')), KeyAction::Turn(Direction::Right));
}

#[test]
fn control_c_quits() {
    assert_eq!(key_action(KeyPress::Ctrl('c')), KeyAction::Quit);
}

#[test]
fn other_keys_mean_nothing() {
    assert_eq!(key_action(KeyPress::Char('c')), KeyAction::Ignore);
    assert_eq!(key_action(KeyPress::Char('W')), KeyAction::Ignore);
    assert_eq!(key_action(KeyPress::Char(' ')), KeyAction::Ignore);
    assert_eq!(key_action(KeyPress::Ctrl('w')), KeyAction::Ignore);
    assert_eq!(key_action(KeyPress::Ctrl('d')), KeyAction::Ignore);
    assert_eq!(key_action(KeyPress::Other), KeyAction::Ignore);
}
