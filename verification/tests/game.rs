use snake_game::geometry::{Location, MoveDirection};
use snake_game::snake::{CollisionType, Segment, SnakeGameLogic};

fn game_with(
    body: Vec<(i32, i32, MoveDirection)>,
    apple: (i32, i32),
    last_direction: MoveDirection,
) -> SnakeGameLogic {
    let snake: Vec<Segment> = body
        .into_iter()
        .map(|(x, y, direction)| Segment { location: Location { x, y }, direction })
        .collect();
    let apples_eaten = (snake.len() - 1) as u32;
    SnakeGameLogic {
        width: 8,
        height: 6,
        snake,
        apple: Location { x: apple.0, y: apple.1 },
        last_direction,
        key_buffer: Vec::new(),
        last_frame: 0,
        duration_between_frames: 250,
        history: Vec::new(),
        apples_eaten,
        turns_passed: apples_eaten,
        eaten_this_frame: false,
    }
}

fn body_cells(g: &SnakeGameLogic) -> Vec<(i32, i32)> {
    g.snake.iter().map(|s| (s.location.x, s.location.y)).collect()
}

#[test]
fn new_game_starts_at_center_facing_right() {
    let g = SnakeGameLogic::new(8, 6, 4, 1000);
    assert_eq!(g.snake.len(), 1);
    assert_eq!(g.snake[0].location, Location { x: 4, y: 3 });
    assert!(matches!(g.snake[0].direction, MoveDirection::Right));
    assert!(matches!(g.last_direction, MoveDirection::Right));
    assert_eq!(g.duration_between_frames, 250);
    assert_eq!(g.turns_passed, 0);
    assert_eq!(g.apples_eaten, 0);
}

#[test]
fn new_game_apple_is_on_board_and_off_body() {
    for _ in 0..20 {
        let g = SnakeGameLogic::new(8, 6, 4, 0);
        assert!(g.apple.x >= 0 && g.apple.x < 8);
        assert!(g.apple.y >= 0 && g.apple.y < 6);
        assert_ne!(g.apple, g.snake[0].location);
    }
}

#[test]
fn opposite_holds_exactly_for_antiparallel_pairs() {
    assert!(MoveDirection::Up.opposite(MoveDirection::Down));
    assert!(MoveDirection::Down.opposite(MoveDirection::Up));
    assert!(MoveDirection::Left.opposite(MoveDirection::Right));
    assert!(MoveDirection::Right.opposite(MoveDirection::Left));
    assert!(!MoveDirection::Up.opposite(MoveDirection::Left));
    assert!(!MoveDirection::Up.opposite(MoveDirection::Up));
    assert!(!MoveDirection::Right.opposite(MoveDirection::Down));
}

#[test]
fn pure_reversal_is_deferred_to_next_tick() {
    let mut g = game_with(vec![(4, 3, MoveDirection::Right)], (0, 0), MoveDirection::Right);
    g.press_key(MoveDirection::Left);
    let next = g.process_key_buffer();
    assert!(matches!(next, MoveDirection::Right));
    assert_eq!(g.key_buffer.len(), 1);
    assert!(matches!(g.key_buffer[0], MoveDirection::Left));
}

#[test]
fn last_non_reversing_direction_wins() {
    // the queued reversal (Left, the reverse of Right) is withheld;
    // the last non-reversing entry, Up, wins, and since Up overrode
    // the current direction the withheld reversal is discarded
    let mut g = game_with(vec![(4, 3, MoveDirection::Right)], (0, 0), MoveDirection::Right);
    g.press_key(MoveDirection::Up);
    g.press_key(MoveDirection::Left);
    let next = g.process_key_buffer();
    assert!(matches!(next, MoveDirection::Up));
    assert_eq!(g.key_buffer.len(), 0);

    let mut g2 = game_with(vec![(4, 3, MoveDirection::Right)], (0, 0), MoveDirection::Right);
    g2.press_key(MoveDirection::Up);
    g2.press_key(MoveDirection::Down);
    let next2 = g2.process_key_buffer();
    assert!(matches!(next2, MoveDirection::Down));
    assert_eq!(g2.key_buffer.len(), 0);
}

#[test]
fn reversal_is_dropped_when_another_direction_overrides() {
    let mut g = game_with(vec![(4, 3, MoveDirection::Right)], (0, 0), MoveDirection::Right);
    g.press_key(MoveDirection::Left);
    g.press_key(MoveDirection::Up);
    let next = g.process_key_buffer();
    assert!(matches!(next, MoveDirection::Up));
    assert_eq!(g.key_buffer.len(), 0);
}

#[test]
fn classification_order_border_apple_snake() {
    let g = game_with(
        vec![(3, 3, MoveDirection::Right), (4, 3, MoveDirection::Right)],
        (5, 3),
        MoveDirection::Right,
    );
    assert!(matches!(
        g.detect_collision(&Location { x: -1, y: 3 }),
        CollisionType::Border
    ));
    assert!(matches!(
        g.detect_collision(&Location { x: 8, y: 3 }),
        CollisionType::Border
    ));
    assert!(matches!(
        g.detect_collision(&Location { x: 3, y: 6 }),
        CollisionType::Border
    ));
    assert!(matches!(g.detect_collision(&Location { x: 5, y: 3 }), CollisionType::Apple));
    assert!(matches!(g.detect_collision(&Location { x: 3, y: 3 }), CollisionType::Snake));
    assert!(matches!(
        g.detect_collision(&Location { x: 0, y: 0 }),
        CollisionType::Nothing
    ));
}

#[test]
fn eating_the_apple_grows_body_and_replaces_apple() {
    let mut g = game_with(vec![(4, 3, MoveDirection::Right)], (5, 3), MoveDirection::Right);
    let out = g.advance(250);
    assert!(!out.terminal);
    assert_eq!(g.snake.len(), 2);
    assert_eq!(g.apples_eaten, 1);
    assert_eq!(g.snake[1].location, Location { x: 5, y: 3 });
    assert!(g.eaten_this_frame);
    for cell in body_cells(&g) {
        assert_ne!((g.apple.x, g.apple.y), cell);
    }
    assert!(g.apple.x >= 0 && g.apple.x < 8 && g.apple.y >= 0 && g.apple.y < 6);
}

#[test]
fn normal_move_keeps_length_and_vacates_tail() {
    let mut g = game_with(
        vec![(3, 3, MoveDirection::Right), (4, 3, MoveDirection::Right)],
        (0, 0),
        MoveDirection::Right,
    );
    let out = g.advance(250);
    assert!(!out.terminal);
    assert_eq!(g.snake.len(), 2);
    assert_eq!(body_cells(&g), vec![(4, 3), (5, 3)]);
    assert_eq!(g.snake[1].location, Location { x: 5, y: 3 });
    assert!(!g.eaten_this_frame);
    assert_eq!(g.apples_eaten, 1);
}

#[test]
fn moving_off_the_left_edge_is_terminal() {
    let mut g = game_with(vec![(0, 3, MoveDirection::Left)], (7, 5), MoveDirection::Left);
    assert!(matches!(
        g.detect_collision(&Location { x: -1, y: 3 }),
        CollisionType::Border
    ));
    let out = g.advance(250);
    assert!(out.terminal);
    assert_eq!(out.wait_ms, 0);
    assert_eq!(g.turns_passed, 1);
    assert_eq!(body_cells(&g), vec![(0, 3)]);
}

#[test]
fn running_into_own_body_is_terminal() {
    let mut g = game_with(
        vec![
            (4, 4, MoveDirection::Up),
            (4, 3, MoveDirection::Up),
            (5, 3, MoveDirection::Right),
            (5, 4, MoveDirection::Down),
        ],
        (0, 0),
        MoveDirection::Down,
    );
    g.press_key(MoveDirection::Left);
    let out = g.advance(250);
    assert!(out.terminal);
    assert_eq!(g.snake.len(), 4);
}

#[test]
fn no_tick_before_interval_elapses() {
    let mut g = game_with(vec![(4, 3, MoveDirection::Right)], (0, 0), MoveDirection::Right);
    let out = g.advance(100);
    assert!(!out.terminal);
    assert_eq!(g.turns_passed, 0);
    assert_eq!(body_cells(&g), vec![(4, 3)]);
    assert_eq!(out.wait_ms, 150);
}

#[test]
fn scenario_one_tick_without_input() {
    let mut g = SnakeGameLogic::new(8, 6, 4, 1000);
    assert_eq!(g.snake[0].location, Location { x: 4, y: 3 });
    let apple_before = g.apple;
    assert_ne!(apple_before, Location { x: 4, y: 3 });
    let out = g.advance(1250);
    assert!(!out.terminal);
    assert_eq!(g.turns_passed, 1);
    assert_eq!(g.snake.last().unwrap().location, Location { x: 5, y: 3 });
    if apple_before != (Location { x: 5, y: 3 }) {
        assert_eq!(g.snake.len(), 1);
        assert!(!body_cells(&g).contains(&(4, 3)));
    } else {
        assert_eq!(g.snake.len(), 2);
    }
}

#[test]
fn snapshot_records_pre_move_state() {
    let mut g = game_with(vec![(4, 3, MoveDirection::Right)], (0, 0), MoveDirection::Right);
    g.press_key(MoveDirection::Down);
    let out = g.advance(300);
    assert!(!out.terminal);
    assert_eq!(g.history.len(), 1);
    let turn = &g.history[0];
    assert_eq!(turn.time, 300);
    assert_eq!(turn.snake, Location { x: 4, y: 3 });
    assert_eq!(turn.apple, Location { x: 0, y: 0 });
    assert!(matches!(turn.next_direction, MoveDirection::Down));
    assert_eq!(g.snake.last().unwrap().location, Location { x: 4, y: 4 });
}
