use snake_game::input::{Key, KeyEvent};
use snake_game::leaderboard::{default_records, AppLeaderboardState, LeaderboardAction, Record};

fn name_of(s: &str) -> Vec<char> {
    s.chars().collect()
}

fn padded(s: &str) -> Vec<char> {
    let mut v: Vec<char> = s.chars().collect();
    while v.len() < 16 {
        v.push(' ');
    }
    v
}

#[test]
fn default_table_shape() {
    let rs = default_records();
    assert_eq!(rs.len(), 10);
    for r in rs.iter() {
        assert_eq!(r.name.len(), 16);
        assert_eq!(r.score, 0);
        assert!(r.name.iter().all(|c| *c == 'a'));
    }
}

#[test]
fn insertion_ordering_50_30_70() {
    let mut board = AppLeaderboardState::new(default_records());
    board.update_board(&name_of("carol"), 50);
    board.update_board(&name_of("bob"), 30);
    board.update_board(&name_of("alice"), 70);
    assert_eq!(board.leaderboard[0].score, 70);
    assert_eq!(board.leaderboard[1].score, 50);
    assert_eq!(board.leaderboard[2].score, 30);
    assert_eq!(board.leaderboard[0].name, padded("alice"));
    assert_eq!(board.leaderboard[1].name, padded("carol"));
    assert_eq!(board.leaderboard[2].name, padded("bob"));
    for i in 3..10 {
        assert_eq!(board.leaderboard[i].score, 0);
    }
}

#[test]
fn insertion_below_all_is_noop() {
    let mut board = AppLeaderboardState::new(default_records());
    for _ in 0..10 {
        board.update_board(&name_of("ten"), 10);
    }
    for r in board.leaderboard.iter() {
        assert_eq!(r.score, 10);
    }
    let before: Vec<Record> = board.leaderboard.clone();
    board.update_board(&name_of("low"), 5);
    assert_eq!(board.leaderboard, before);
}

#[test]
fn insertion_equal_score_does_not_qualify() {
    let mut board = AppLeaderboardState::new(default_records());
    for _ in 0..10 {
        board.update_board(&name_of("ten"), 10);
    }
    let before: Vec<Record> = board.leaderboard.clone();
    board.update_board(&name_of("same"), 10);
    assert_eq!(board.leaderboard, before);
}

#[test]
fn insertion_drops_worst_record() {
    let mut board = AppLeaderboardState::new(default_records());
    for s in 1..=10u16 {
        board.update_board(&name_of("x"), s);
    }
    // Table now holds 10..=1 descending; a new 5 pushes the 1 off.
    board.update_board(&name_of("five"), 5);
    let scores: Vec<u16> = board.leaderboard.iter().map(|r| r.score).collect();
    assert_eq!(scores, vec![10, 9, 8, 7, 6, 5, 5, 4, 3, 2]);
}

#[test]
fn long_name_is_truncated_to_sixteen() {
    let mut board = AppLeaderboardState::new(default_records());
    board.update_board(&name_of("abcdefghijklmnopqrstuvwxyz"), 3);
    assert_eq!(board.leaderboard[0].name, name_of("abcdefghijklmnop"));
    assert_eq!(board.leaderboard[0].name.len(), 16);
}

#[test]
fn leaderboard_key_q_returns_to_menu() {
    let board = AppLeaderboardState::new(default_records());
    let press = |code| KeyEvent { code, is_press: true };
    assert!(matches!(
        board.handle_key_press(press(Key::Char('q'))),
        LeaderboardAction::ReturnToMenu
    ));
    assert!(matches!(
        board.handle_key_press(press(Key::Char('x'))),
        LeaderboardAction::DoNothing
    ));
    assert!(matches!(
        board.handle_key_press(KeyEvent { code: Key::Char('q'), is_press: false }),
        LeaderboardAction::DoNothing
    ));
}
