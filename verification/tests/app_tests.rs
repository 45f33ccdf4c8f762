use snake_game::app::{select_game_action, should_close, Action, ActiveMode, App};
use snake_game::game::GameAction;
use snake_game::input::{Event, Key, KeyEvent};
use snake_game::leaderboard::default_records;
use snake_game::menu::AppMenuState;

fn key(code: Key) -> Event {
    Event::Key(KeyEvent { code, is_press: true })
}

#[test]
fn fresh_app_starts_in_the_menu() {
    let app = App::new(default_records());
    assert!(matches!(app.active, ActiveMode::Menu));
    assert_eq!(app.menu.selected, None);
    assert_eq!(app.leaderboard.leaderboard.len(), 10);
}

#[test]
fn menu_navigation_clamps_to_three_rows() {
    let mut menu = AppMenuState::new();
    let press = |code| KeyEvent { code, is_press: true };
    menu.handle_key_press(press(Key::Down));
    assert_eq!(menu.selected, Some(0));
    menu.handle_key_press(press(Key::Down));
    menu.handle_key_press(press(Key::Down));
    menu.handle_key_press(press(Key::Down));
    assert_eq!(menu.selected, Some(2));
    menu.handle_key_press(press(Key::Up));
    assert_eq!(menu.selected, Some(1));
    menu.handle_key_press(press(Key::Up));
    menu.handle_key_press(press(Key::Up));
    assert_eq!(menu.selected, Some(0));
}

#[test]
fn menu_up_with_no_selection_lands_on_the_last_row() {
    let mut menu = AppMenuState::new();
    menu.handle_key_press(KeyEvent { code: Key::Up, is_press: true });
    assert_eq!(menu.selected, Some(2));
}

#[test]
fn space_on_exit_row_closes_the_app() {
    let mut app = App::new(default_records());
    app.handle_event(key(Key::Down));
    app.handle_event(key(Key::Down));
    app.handle_event(key(Key::Down));
    let action = app.handle_event(key(Key::Char(' ')));
    assert!(matches!(action, Action::CloseApp));
}

#[test]
fn switch_to_game_falls_through_to_the_game() {
    let mut app = App::new(default_records());
    app.handle_event(key(Key::Down)); // select the first row
    let action = app.handle_event(key(Key::Char(' ')));
    assert!(matches!(app.active, ActiveMode::Game));
    // The confirming space reaches the freshly active game within the
    // same event, where it asks for nothing.
    assert!(matches!(action, Action::UpdateGameState(GameAction::DoNothing)));
}

#[test]
fn switch_to_leaderboard_and_back() {
    let mut app = App::new(default_records());
    app.handle_event(key(Key::Down));
    app.handle_event(key(Key::Down)); // second row
    app.handle_event(key(Key::Char(' ')));
    assert!(matches!(app.active, ActiveMode::Leaderboard));
    app.handle_event(key(Key::Char('q')));
    assert!(matches!(app.active, ActiveMode::Menu));
}

#[test]
fn finished_game_updates_the_board_with_the_entered_name() {
    let mut app = App::new(default_records());
    app.handle_event(key(Key::Down));
    app.handle_event(key(Key::Char(' ')));
    assert!(matches!(app.active, ActiveMode::Game));
    app.game.lost_flag = true;
    app.handle_event(key(Key::Char('A')));
    app.handle_event(key(Key::Char('B')));
    app.handle_event(key(Key::Backspace));
    let action = app.handle_event(key(Key::Enter));
    // The game reported its nickname and score on the way out...
    match action {
        Action::UpdateGameState(GameAction::ReturnToMenu(name, score)) => {
            assert_eq!(name, vec!['A']);
            assert_eq!(score, 8);
        },
        other => panic!("expected the return to the menu, got {:?}", other),
    }
    // ...the board ranked it with the space-padded name...
    let top = &app.leaderboard.leaderboard[0];
    assert_eq!(top.score, 8);
    let mut expected = vec!['A'];
    while expected.len() < 16 {
        expected.push(' ');
    }
    assert_eq!(top.name, expected);
    // ...the menu is active again and the game is reset.
    assert!(matches!(app.active, ActiveMode::Menu));
    assert!(!app.game.lost_flag);
    assert_eq!(app.game.username, Vec::<char>::new());
    assert_eq!(app.game.snake.total_length, 16);
}

#[test]
fn non_key_events_are_ignored() {
    let mut app = App::new(default_records());
    let action = app.handle_event(Event::Other);
    assert!(matches!(action, Action::DoNothing));
    assert!(matches!(app.active, ActiveMode::Menu));
}

#[test]
fn select_game_action_takes_the_most_recent_real_action() {
    let mut actions = vec![
        Action::UpdateGameState(GameAction::TurnLeft),
        Action::DoNothing,
        Action::UpdateGameState(GameAction::TurnUp),
        Action::UpdateGameState(GameAction::DoNothing),
    ];
    let picked = select_game_action(&mut actions);
    assert_eq!(picked, vec![GameAction::TurnUp]);
    assert!(actions.is_empty());
}

#[test]
fn select_game_action_on_idle_queue_is_empty() {
    let mut actions = vec![
        Action::DoNothing,
        Action::UpdateGameState(GameAction::DoNothing),
    ];
    let picked = select_game_action(&mut actions);
    assert!(picked.is_empty());
}

#[test]
fn should_close_finds_a_close_request() {
    let actions = vec![
        Action::DoNothing,
        Action::CloseApp,
        Action::UpdateGameState(GameAction::TurnLeft),
    ];
    assert!(should_close(&actions));
    let quiet = vec![Action::DoNothing];
    assert!(!should_close(&quiet));
}
