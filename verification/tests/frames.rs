use snake_game::geometry::{Location, MoveDirection};
use snake_game::pixels::{Frac, PixelColor, PixelData};
use snake_game::snake::{Segment, SnakeGameLogic};

fn two_segment_game() -> SnakeGameLogic {
    SnakeGameLogic {
        width: 8,
        height: 6,
        snake: vec![
            Segment { location: Location { x: 3, y: 3 }, direction: MoveDirection::Right },
            Segment { location: Location { x: 4, y: 3 }, direction: MoveDirection::Right },
        ],
        apple: Location { x: 1, y: 1 },
        last_direction: MoveDirection::Right,
        key_buffer: Vec::new(),
        last_frame: 0,
        duration_between_frames: 250,
        history: Vec::new(),
        apples_eaten: 1,
        turns_passed: 1,
        eaten_this_frame: false,
    }
}

fn frac(num: i64, den: u64) -> Frac {
    Frac { num, den }
}

#[test]
fn frame_lists_apple_body_tail_and_head_in_order() {
    let g = two_segment_game();
    let buffer = g.draw_screen(100, 250);
    assert_eq!(buffer.width, 8);
    assert_eq!(buffer.height, 6);
    let full = frac(250, 250);
    let expected = vec![
        PixelData::Pixel { x: 1, y: 1, color: PixelColor::Red },
        PixelData::Pixel { x: 3, y: 3, color: PixelColor::Green },
        PixelData::SubPixel {
            x: 3,
            y: 3,
            c1: (frac(-150, 250), frac(0, 250)),
            c2: (full, full),
            color: PixelColor::Green,
        },
        PixelData::Pixel { x: 4, y: 3, color: PixelColor::White },
        PixelData::SubPixel {
            x: 4,
            y: 3,
            c1: (frac(-150, 250), frac(0, 250)),
            c2: (full, full),
            color: PixelColor::Blue,
        },
    ];
    assert_eq!(buffer.pixels, expected);
}

#[test]
fn head_partial_cell_sits_on_previous_cell_at_progress_zero() {
    let g = two_segment_game();
    let buffer = g.draw_screen(0, 250);
    let head_sub = buffer.pixels.last().unwrap();
    match head_sub {
        PixelData::SubPixel { x, y, c1, c2, color } => {
            assert_eq!((*x, *y), (4, 3));
            // moving right: displaced one full cell to the left, so
            // nothing of the head cell itself is covered yet
            assert_eq!(c1.0, frac(-250, 250));
            assert_eq!(c1.1, frac(0, 250));
            assert_eq!(c2.0, frac(250, 250));
            assert_eq!(c2.1, frac(250, 250));
            assert!(matches!(color, PixelColor::Blue));
        }
        _ => panic!("expected the head's partial cell last"),
    }
}

#[test]
fn head_partial_cell_covers_head_cell_at_full_progress() {
    let g = two_segment_game();
    let buffer = g.draw_screen(250, 250);
    let head_sub = buffer.pixels.last().unwrap();
    match head_sub {
        PixelData::SubPixel { c1, c2, .. } => {
            assert_eq!(c1.0, frac(0, 250));
            assert_eq!(c1.1, frac(0, 250));
            assert_eq!(c2.0, frac(250, 250));
            assert_eq!(c2.1, frac(250, 250));
        }
        _ => panic!("expected the head's partial cell last"),
    }
}

#[test]
fn vertical_movement_offsets_the_vertical_axis() {
    let mut g = two_segment_game();
    g.snake = vec![
        Segment { location: Location { x: 4, y: 4 }, direction: MoveDirection::Up },
        Segment { location: Location { x: 4, y: 3 }, direction: MoveDirection::Up },
    ];
    g.last_direction = MoveDirection::Up;
    let buffer = g.draw_screen(100, 250);
    let head_sub = buffer.pixels.last().unwrap();
    match head_sub {
        PixelData::SubPixel { c1, .. } => {
            assert_eq!(c1.0, frac(0, 250));
            assert_eq!(c1.1, frac(150, 250));
        }
        _ => panic!("expected the head's partial cell last"),
    }
}

#[test]
fn tail_partial_cell_is_omitted_right_after_eating() {
    let mut g = two_segment_game();
    g.eaten_this_frame = true;
    let buffer = g.draw_screen(100, 250);
    // apple + one body cell + head cell + head partial: no tail partial
    assert_eq!(buffer.pixels.len(), 4);
    let with_tail = {
        let mut g2 = two_segment_game();
        g2.eaten_this_frame = false;
        g2.draw_screen(100, 250).pixels.len()
    };
    assert_eq!(with_tail, 5);
}

#[test]
fn mid_tick_frame_comes_without_state_change() {
    let mut g = two_segment_game();
    let out = g.advance(125);
    assert!(!out.terminal);
    assert_eq!(out.wait_ms, 125);
    assert_eq!(g.turns_passed, 1);
    let head_sub = out.buffer.pixels.last().unwrap();
    match head_sub {
        PixelData::SubPixel { c1, .. } => {
            assert_eq!(c1.0, frac(-125, 250));
        }
        _ => panic!("expected the head's partial cell last"),
    }
}
