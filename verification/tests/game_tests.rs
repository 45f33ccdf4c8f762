use snake_game::game::{AppGameState, GameAction, SnakeSegmentDirection};
use snake_game::input::{Key, KeyEvent};

fn press(code: Key) -> KeyEvent {
    KeyEvent { code, is_press: true }
}

/// The drawn length: the summed extent of all segments, in grid steps
/// (one step is half a playground cell).
fn drawn_length(g: &AppGameState) -> i64 {
    let mut total: i64 = 0;
    for s in g.snake.segments.iter() {
        total += (s.x2 as i64 - s.x1 as i64).abs() + (s.y2 as i64 - s.y1 as i64).abs();
    }
    total
}

fn far_food() -> Option<(i32, i32)> {
    // A grid point the head never reaches in these tests.
    Some((22, 22))
}

#[test]
fn fresh_game_shape() {
    let g = AppGameState::new();
    assert_eq!(g.snake.segments.len(), 1);
    let h = g.snake.segments[0];
    assert_eq!((h.x1, h.y1, h.x2, h.y2), (50, 50, 66, 50));
    assert!(matches!(h.direction, SnakeSegmentDirection::Right));
    assert_eq!(g.snake.total_length, 16);
    assert!(!g.lost_flag);
    assert!(!g.playground_borders_kill);
    assert_eq!(drawn_length(&g), 16);
}

#[test]
fn killing_boundary_loss_exactly_at_edge() {
    let mut g = AppGameState::new();
    g.playground_borders_kill = true;
    // Head starts at x = 66 moving right; the right bound is 120 grid
    // steps; the head reaches it after 54 ticks and must be lost exactly
    // then.
    for tick in 1..=54 {
        g.new_food = far_food();
        g.on_tick(&Vec::new()).unwrap();
        let head_x = g.snake.segments[0].x2;
        assert_eq!(head_x, 66 + tick);
        if head_x < 120 {
            assert!(!g.lost_flag, "lost too early at x = {}", head_x);
        } else {
            assert!(g.lost_flag, "not lost at the boundary, x = {}", head_x);
        }
    }
    assert!(g.lost_flag);
    // Lost is terminal: further ticks change nothing.
    let head_before = g.snake.segments[0];
    g.on_tick(&Vec::new()).unwrap();
    assert_eq!(g.snake.segments[0], head_before);
}

#[test]
fn plain_tick_conserves_drawn_length() {
    let mut g = AppGameState::new();
    for _ in 0..40 {
        g.new_food = far_food();
        g.on_tick(&Vec::new()).unwrap();
        assert_eq!(drawn_length(&g), 16);
    }
}

#[test]
fn turn_tick_conserves_drawn_length() {
    let mut g = AppGameState::new();
    g.new_food = far_food();
    g.on_tick(&vec![GameAction::TurnUp]).unwrap();
    assert_eq!(drawn_length(&g), 16);
    assert_eq!(g.snake.segments.len(), 2);
    assert!(matches!(g.snake.segments[0].direction, SnakeSegmentDirection::Up));
    g.new_food = far_food();
    g.on_tick(&vec![GameAction::TurnLeft]).unwrap();
    assert_eq!(drawn_length(&g), 16);
    assert_eq!(g.snake.segments.len(), 3);
}

#[test]
fn growth_arrives_at_the_tail() {
    let mut g = AppGameState::new();
    // Food two cells ahead of the head (head at 66 moving right reaches
    // x = 68 at the start of the second tick after this one).
    g.new_food = Some((68, 50));
    g.on_tick(&Vec::new()).unwrap(); // head 66 -> 67, food not reached
    assert_eq!(g.snake.total_length, 16);
    g.new_food = Some((68, 50));
    g.on_tick(&Vec::new()).unwrap(); // head 67 -> 68
    g.new_food = Some((68, 50));
    g.on_tick(&Vec::new()).unwrap(); // head sits on food: swallowed
    assert_eq!(g.snake.total_length, 18);
    assert_eq!(g.snake.consumed_food.len(), 1);
    assert_eq!(g.snake.consumed_food[0], (68, 50));
    // The drawn length is still the old one: growth waits for the tail.
    assert_eq!(drawn_length(&g), 16);
    // The tail started at x = 53 after three ticks and reaches the food
    // point at x = 68 after 15 more; the tick after that pauses the tail
    // and the drawn length grows by exactly one step.
    for _ in 0..15 {
        g.new_food = far_food();
        g.on_tick(&Vec::new()).unwrap();
        assert_eq!(drawn_length(&g), 16);
        assert_eq!(g.snake.consumed_food.len(), 1);
    }
    g.new_food = far_food();
    g.on_tick(&Vec::new()).unwrap();
    assert_eq!(g.snake.consumed_food.len(), 0);
    assert_eq!(drawn_length(&g), 17);
}

#[test]
fn wraparound_keeps_target_length_and_wraps_head() {
    let mut g = AppGameState::new();
    assert!(!g.playground_borders_kill);
    // 54 ticks to reach the right bound at x = 120, one more to cross it.
    for _ in 0..55 {
        g.new_food = far_food();
        g.on_tick(&Vec::new()).unwrap();
        assert!(!g.lost_flag);
    }
    // The head wrapped to the left bound; the old segment keeps its
    // overshoot until the tail consumes it.
    assert_eq!(g.snake.segments.len(), 2);
    assert_eq!(g.snake.segments[0].x2, 20);
    assert!(matches!(g.snake.segments[0].direction, SnakeSegmentDirection::Right));
    assert_eq!(g.snake.total_length, 16);
}

#[test]
fn reversal_rejected_but_orthogonal_turn_allowed() {
    let mut g = AppGameState::new();
    // Turn the snake upward first (the request takes effect on the tick).
    g.new_food = far_food();
    g.on_tick(&vec![GameAction::TurnUp]).unwrap();
    assert!(matches!(g.snake.segments[0].direction, SnakeSegmentDirection::Up));
    // Moving up: Down is a reversal and yields no action; Left turns.
    assert!(matches!(g.handle_key_press(press(Key::Down)), GameAction::DoNothing));
    assert!(matches!(g.handle_key_press(press(Key::Up)), GameAction::DoNothing));
    assert!(matches!(g.handle_key_press(press(Key::Left)), GameAction::TurnLeft));
    assert!(matches!(g.handle_key_press(press(Key::Right)), GameAction::TurnRight));
}

#[test]
fn initial_direction_rejects_horizontal_requests() {
    let mut g = AppGameState::new();
    assert!(matches!(g.handle_key_press(press(Key::Left)), GameAction::DoNothing));
    assert!(matches!(g.handle_key_press(press(Key::Right)), GameAction::DoNothing));
    assert!(matches!(g.handle_key_press(press(Key::Up)), GameAction::TurnUp));
    assert!(matches!(g.handle_key_press(press(Key::Down)), GameAction::TurnDown));
}

#[test]
fn release_events_do_nothing() {
    let mut g = AppGameState::new();
    let release = KeyEvent { code: Key::Up, is_press: false };
    assert!(matches!(g.handle_key_press(release), GameAction::DoNothing));
}

#[test]
fn nickname_entry_edits_and_confirms() {
    let mut g = AppGameState::new();
    g.lost_flag = true;
    assert!(matches!(g.handle_key_press(press(Key::Char('A'))), GameAction::DoNothing));
    assert!(matches!(g.handle_key_press(press(Key::Char('B'))), GameAction::DoNothing));
    assert_eq!(g.username, vec!['A', 'B']);
    assert_eq!(g.character_index, 2);
    assert!(matches!(g.handle_key_press(press(Key::Backspace)), GameAction::DoNothing));
    assert_eq!(g.username, vec!['A']);
    assert_eq!(g.character_index, 1);
    match g.handle_key_press(press(Key::Enter)) {
        GameAction::ReturnToMenu(name, score) => {
            assert_eq!(name, vec!['A']);
            assert_eq!(score, 8);
        },
        other => panic!("expected the return to the menu, got {:?}", other),
    }
}

#[test]
fn nickname_cursor_moves_and_inserts_in_the_middle() {
    let mut g = AppGameState::new();
    g.lost_flag = true;
    g.handle_key_press(press(Key::Char('a')));
    g.handle_key_press(press(Key::Char('c')));
    g.handle_key_press(press(Key::Left));
    assert_eq!(g.character_index, 1);
    g.handle_key_press(press(Key::Char('b')));
    assert_eq!(g.username, vec!['a', 'b', 'c']);
    assert_eq!(g.character_index, 2);
    // The cursor clamps at both ends.
    g.handle_key_press(press(Key::Left));
    g.handle_key_press(press(Key::Left));
    g.handle_key_press(press(Key::Left));
    assert_eq!(g.character_index, 0);
    g.handle_key_press(press(Key::Backspace));
    assert_eq!(g.username, vec!['a', 'b', 'c']);
    for _ in 0..5 {
        g.handle_key_press(press(Key::Right));
    }
    assert_eq!(g.character_index, 3);
}

#[test]
fn score_is_whole_cells() {
    let mut g = AppGameState::new();
    assert_eq!(g.score(), 8);
    g.snake.total_length = 19;
    assert_eq!(g.score(), 9);
    g.snake.total_length = u64::MAX;
    assert_eq!(g.score(), u16::MAX);
}

#[test]
fn food_is_drawn_inside_the_playground() {
    let mut g = AppGameState::new();
    g.on_tick(&Vec::new()).unwrap();
    let (fx, fy) = match g.new_food {
        Some(c) => c,
        None => {
            // The head cannot sit on fresh food on the first tick unless
            // the draw landed exactly there; it was swallowed then.
            assert_eq!(g.snake.consumed_food.len(), 1);
            g.snake.consumed_food[0]
        },
    };
    assert!(fx % 2 == 0 && fy % 2 == 0, "food sits on a whole cell");
    assert!((20..120).contains(&fx));
    assert!((20..120).contains(&fy));
}

#[test]
fn self_collision_sets_lost() {
    let mut g = AppGameState::new();
    // A tight square turn drives the head back into the body.
    g.new_food = far_food();
    g.on_tick(&vec![GameAction::TurnUp]).unwrap();
    g.new_food = far_food();
    g.on_tick(&vec![GameAction::TurnLeft]).unwrap();
    g.new_food = far_food();
    g.on_tick(&vec![GameAction::TurnDown]).unwrap();
    assert!(g.lost_flag, "the head turned back into its own segment");
}

#[test]
fn last_queued_action_wins() {
    let mut g = AppGameState::new();
    g.new_food = far_food();
    g.on_tick(&vec![GameAction::TurnDown, GameAction::TurnUp]).unwrap();
    assert!(matches!(g.snake.segments[0].direction, SnakeSegmentDirection::Up));
}
