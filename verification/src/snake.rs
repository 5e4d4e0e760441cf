//! The game core: the state of one running game, the collision rules,
//! the per-tick transition, sub-tick frame synthesis, and the terminal
//! summary with its compressed replay.

use vstd::prelude::*;
use vstd::arithmetic::div_mod::{
    lemma_div_pos_is_pos, lemma_fundamental_div_mod, lemma_mod_division_less_than_divisor,
    lemma_multiply_divide_lt,
};
use vstd::arithmetic::mul::lemma_mul_is_commutative;
use vstd::set_lib::{lemma_int_range, lemma_len_subset, set_int_range};
use crate::external::{brotli_compress, brotli_compressed, random_below};
use crate::geometry::{in_bounds, step_cell, Location, MoveDirection};
use crate::input::{requeued, resolved_direction};
use crate::pixels::{Frac, GraphicsData, PixelColor, PixelData};
use crate::replay::{encode_replay, encoded_replay, GameTurn};

verus! {

/// One cell of the snake body, tagged with the direction the snake was
/// moving when the cell was entered.
#[derive(Clone, Copy, PartialEq, Eq, Structural, Debug)]
pub struct Segment {
    pub location: Location,
    pub direction: MoveDirection,
}

/// What a candidate cell collides with, checked in the order border,
/// apple, body.
#[derive(Clone, Copy, PartialEq, Eq, Structural, Debug)]
pub enum CollisionType {
    Snake,
    Border,
    Apple,
    Nothing,
}

/// The terminal summary of a finished game.
pub struct GameResult {
    pub apples_eaten: u32,
    pub turns_passed: u32,
    pub history: Vec<u8>,
    pub width: u32,
    pub height: u32,
    pub duration_between_frames: u64,
}

/// What one call to `advance` hands back: the frame to draw, how long
/// the host may wait before calling again, and whether the game ended.
pub struct AdvanceOutcome {
    pub buffer: GraphicsData,
    pub wait_ms: u64,
    pub terminal: bool,
}

/// The state of one running game. The body is ordered tail first:
/// index 0 is the tail, the last element is the head; a move appends
/// at the end and removes at index 0. Timestamps and the tick interval
/// are in milliseconds.
pub struct SnakeGameLogic {
    pub width: u32,
    pub height: u32,
    pub snake: Vec<Segment>,
    pub apple: Location,
    pub last_direction: MoveDirection,
    pub key_buffer: Vec<MoveDirection>,
    pub last_frame: u64,
    pub duration_between_frames: u64,
    pub history: Vec<GameTurn>,
    pub apples_eaten: u32,
    pub turns_passed: u32,
    pub eaten_this_frame: bool,
}

/// `num / den` as a corner fraction.
pub open spec fn frac(num: int, den: u64) -> Frac {
    Frac { num: num as i64, den }
}

/// The corner offset of the moving partial cell for a segment moving
/// in direction `d`, `num / den` of the way through the tick: the
/// offset starts one whole cell behind along the motion axis and
/// shrinks to zero as the tick completes.
pub open spec fn sub_corner(d: MoveDirection, num: u64, den: u64) -> (Frac, Frac) {
    match d {
        MoveDirection::Up => (frac(0, den), frac(den - num, den)),
        MoveDirection::Down => (frac(0, den), frac(num - den, den)),
        MoveDirection::Left => (frac(den - num, den), frac(0, den)),
        MoveDirection::Right => (frac(num - den, den), frac(0, den)),
    }
}

/// A full one-by-one cell extent.
pub open spec fn full_extent(den: u64) -> (Frac, Frac) {
    (frac(den as int, den), frac(den as int, den))
}

/// The frame drawn `num / den` of the way through a tick: the apple;
/// every body cell except the head; unless the apple was just eaten, a
/// partial cell showing the tail retracting; the head cell; and a
/// partial cell showing the head advancing.
pub open spec fn frame_pixels(s: SnakeGameLogic, num: u64, den: u64) -> Seq<PixelData> {
    let body = s.snake@;
    let head = body.last();
    let tail = body.first();
    let apple_px = PixelData::Pixel {
        x: s.apple.x as u32,
        y: s.apple.y as u32,
        color: PixelColor::Red,
    };
    let greens = Seq::new(
        (body.len() - 1) as nat,
        |i: int|
            PixelData::Pixel {
                x: body[i].location.x as u32,
                y: body[i].location.y as u32,
                color: PixelColor::Green,
            },
    );
    let tail_px: Seq<PixelData> = if !s.eaten_this_frame {
        seq![
            (PixelData::SubPixel {
                x: tail.location.x as u32,
                y: tail.location.y as u32,
                c1: sub_corner(tail.direction, num, den),
                c2: full_extent(den),
                color: PixelColor::Green,
            }),
        ]
    } else {
        Seq::<PixelData>::empty()
    };
    let head_px = PixelData::Pixel {
        x: head.location.x as u32,
        y: head.location.y as u32,
        color: PixelColor::White,
    };
    let head_sub = PixelData::SubPixel {
        x: head.location.x as u32,
        y: head.location.y as u32,
        c1: sub_corner(s.last_direction, num, den),
        c2: full_extent(den),
        color: PixelColor::Blue,
    };
    seq![apple_px] + greens + tail_px + seq![head_px, head_sub]
}

impl SnakeGameLogic {
    /// The head segment: the most recently appended one.
    pub open spec fn head(self) -> Segment {
        self.snake@.last()
    }

    /// True iff some body segment occupies `loc`.
    pub open spec fn body_contains(self, loc: Location) -> bool {
        exists|i: int| 0 <= i < self.snake@.len() && self.snake@[i].location == loc
    }

    /// What `loc` collides with, checked in the order border, apple,
    /// body.
    pub open spec fn classify_spec(self, loc: Location) -> CollisionType {
        if !in_bounds(loc, self.width, self.height) {
            CollisionType::Border
        } else if loc == self.apple {
            CollisionType::Apple
        } else if self.body_contains(loc) {
            CollisionType::Snake
        } else {
            CollisionType::Nothing
        }
    }

    /// The board and the tick interval are non-degenerate and within
    /// the ranges the signed coordinates and the fraction arithmetic
    /// rely on.
    pub open spec fn board_ok(self) -> bool {
        &&& 1 <= self.width <= i32::MAX
        &&& 1 <= self.height <= i32::MAX
        &&& 1 <= self.duration_between_frames <= u32::MAX
    }

    /// The body is non-empty, on the board, and no two segments share
    /// a cell.
    pub open spec fn body_ok(self) -> bool {
        &&& 1 <= self.snake@.len()
        &&& forall|i: int|
            0 <= i < self.snake@.len() ==> in_bounds(
                (#[trigger] self.snake@[i]).location,
                self.width,
                self.height,
            )
        &&& forall|i: int, j: int|
            0 <= i < j < self.snake@.len() ==> self.snake@[i].location != self.snake@[j].location
    }

    /// The apple is on the board and on no body cell.
    pub open spec fn apple_ok(self) -> bool {
        in_bounds(self.apple, self.width, self.height) && !self.body_contains(self.apple)
    }

    /// The counters agree with the body and the log: one apple per
    /// growth, one snapshot per tick.
    pub open spec fn counters_ok(self) -> bool {
        &&& self.apples_eaten <= self.turns_passed
        &&& self.snake@.len() == self.apples_eaten + 1
        &&& self.history@.len() == self.turns_passed
    }

    /// Everything that stays true of a game even at the terminal tick.
    pub open spec fn wf_core(self) -> bool {
        self.board_ok() && self.body_ok() && self.apple_ok() && self.counters_ok()
    }

    /// A live game: additionally the recorded direction is the one the
    /// head was appended with.
    pub open spec fn wf(self) -> bool {
        self.wf_core() && self.last_direction == self.head().direction
    }

    /// A fresh game: a one-segment snake at the board's center moving
    /// right, an apple on some free cell, empty input queue and log.
    /// `frame_rate` is in ticks per second; the tick interval is its
    /// whole-millisecond reciprocal.
    pub fn new(width: u32, height: u32, frame_rate: u32, now_ms: u64) -> (r: SnakeGameLogic)
        requires
            1 <= width <= i32::MAX,
            1 <= height <= i32::MAX,
            3 <= width * height,
            1 <= frame_rate <= 1000,
        ensures
            r.wf(),
            r.width == width,
            r.height == height,
            r.snake@ == seq![
                (Segment {
                    location: Location { x: (width / 2) as i32, y: (height / 2) as i32 },
                    direction: MoveDirection::Right,
                }),
            ],
            r.last_direction == MoveDirection::Right,
            r.key_buffer@.len() == 0,
            r.history@.len() == 0,
            r.apples_eaten == 0,
            r.turns_passed == 0,
            r.eaten_this_frame == false,
            r.last_frame == now_ms,
            r.duration_between_frames == 1000u64 / frame_rate as u64,
    {
        let mut snake: Vec<Segment> = Vec::new();
        snake.push(
            Segment {
                location: Location { x: (width / 2) as i32, y: (height / 2) as i32 },
                direction: MoveDirection::Right,
            },
        );
        let mut s = SnakeGameLogic {
            width,
            height,
            snake,
            apple: Location { x: 0, y: 0 },
            last_direction: MoveDirection::Right,
            key_buffer: Vec::new(),
            last_frame: now_ms,
            duration_between_frames: 1000u64 / (frame_rate as u64),
            history: Vec::new(),
            apples_eaten: 0,
            turns_passed: 0,
            eaten_this_frame: false,
        };
        proof {
            assert(1 <= 1000u64 / (frame_rate as u64) <= 1000) by (nonlinear_arith)
                requires 1 <= frame_rate <= 1000;
            let occ = seq![s.snake@[0].location, s.apple];
            lemma_free_cell_exists(occ, width, height);
            let c = choose|c: Location| in_bounds(c, width, height) && !occ.contains(c);
            assert(occ[0] == s.snake@[0].location && occ[1] == s.apple);
            assert(!s.body_contains(c) && c != s.apple) by {
                if s.body_contains(c) {
                    let i = choose|i: int| 0 <= i < s.snake@.len() && s.snake@[i].location == c;
                    assert(occ[0] == c);
                    assert(occ.contains(c));
                }
                if c == s.apple {
                    assert(occ.contains(c));
                }
            }
        }
        s.place_new_apple();
        proof {
            assert(s.snake@ =~= seq![
                (Segment {
                    location: Location { x: (width / 2) as i32, y: (height / 2) as i32 },
                    direction: MoveDirection::Right,
                }),
            ]);
        }
        s
    }

    /// Queues one directional intent; it takes effect at the next tick.
    pub fn press_key(&mut self, direction: MoveDirection)
        ensures
            final(self).key_buffer@ == old(self).key_buffer@.push(direction),
            final(self).snake == old(self).snake,
            final(self).apple == old(self).apple,
            final(self).last_direction == old(self).last_direction,
            final(self).width == old(self).width,
            final(self).height == old(self).height,
            final(self).last_frame == old(self).last_frame,
            final(self).duration_between_frames == old(self).duration_between_frames,
            final(self).history == old(self).history,
            final(self).apples_eaten == old(self).apples_eaten,
            final(self).turns_passed == old(self).turns_passed,
            final(self).eaten_this_frame == old(self).eaten_this_frame,
    {
        self.key_buffer.push(direction);
    }

    /// Drains the queued intents to the direction of this tick and
    /// re-queues a withheld reversal when nothing overrode the current
    /// direction.
    pub fn process_key_buffer(&mut self) -> (next: MoveDirection)
        ensures
            next == resolved_direction(old(self).key_buffer@, old(self).last_direction),
            final(self).key_buffer@ == requeued(old(self).key_buffer@, old(self).last_direction),
            final(self).snake == old(self).snake,
            final(self).apple == old(self).apple,
            final(self).last_direction == old(self).last_direction,
            final(self).width == old(self).width,
            final(self).height == old(self).height,
            final(self).last_frame == old(self).last_frame,
            final(self).duration_between_frames == old(self).duration_between_frames,
            final(self).history == old(self).history,
            final(self).apples_eaten == old(self).apples_eaten,
            final(self).turns_passed == old(self).turns_passed,
            final(self).eaten_this_frame == old(self).eaten_this_frame,
    {
        let last = self.last_direction;
        let ghost q = self.key_buffer@;
        let mut next = last;
        let mut buffered: Option<MoveDirection> = None;
        let n = self.key_buffer.len();
        let mut i: usize = 0;
        while i < n
            invariant
                i <= n,
                n == q.len(),
                self.key_buffer@ == q,
                last == self.last_direction,
                next == resolved_direction(q.take(i as int), last),
                buffered is Some <==> q.take(i as int).contains(MoveDirection::reverse_of(last)),
                buffered is Some ==> buffered->0 == MoveDirection::reverse_of(last),
            decreases n - i,
        {
            let key = self.key_buffer[i];
            proof {
                let t1 = q.take(i as int + 1);
                let t0 = q.take(i as int);
                assert(t1.drop_last() =~= t0);
                assert(t1.last() == q[i as int]);
                if t0.contains(MoveDirection::reverse_of(last)) {
                    let w = choose|k: int|
                        0 <= k < t0.len() && t0[k] == MoveDirection::reverse_of(last);
                    assert(t1[w] == MoveDirection::reverse_of(last));
                    assert(t1.contains(MoveDirection::reverse_of(last)));
                }
                if q[i as int] == MoveDirection::reverse_of(last) {
                    assert(t1[i as int] == MoveDirection::reverse_of(last));
                    assert(t1.contains(MoveDirection::reverse_of(last)));
                }
                if t1.contains(MoveDirection::reverse_of(last)) && q[i as int]
                    != MoveDirection::reverse_of(last) {
                    let w = choose|k: int|
                        0 <= k < t1.len() && t1[k] == MoveDirection::reverse_of(last);
                    assert(t0[w] == MoveDirection::reverse_of(last));
                    assert(t0.contains(MoveDirection::reverse_of(last)));
                }
            }
            if key.opposite(last) {
                buffered = Some(key);
            } else if key != last {
                next = key;
            }
            i += 1;
        }
        proof {
            assert(q.take(n as int) =~= q);
        }
        self.key_buffer.clear();
        if let Some(key) = buffered {
            if next == last {
                self.key_buffer.push(key);
                proof {
                    assert(self.key_buffer@ =~= seq![MoveDirection::reverse_of(last)]);
                }
            }
        }
        next
    }

    /// The cell one step from the head in the direction of this tick.
    pub fn next_square(&self) -> (r: Location)
        requires
            self.snake@.len() >= 1,
            in_bounds(self.head().location, self.width, self.height),
            self.width <= i32::MAX,
            self.height <= i32::MAX,
        ensures
            r == step_cell(self.head().location, self.last_direction),
    {
        let seg = self.snake[self.snake.len() - 1];
        match self.last_direction {
            MoveDirection::Up => Location { x: seg.location.x, y: seg.location.y - 1 },
            MoveDirection::Down => Location { x: seg.location.x, y: seg.location.y + 1 },
            MoveDirection::Left => Location { x: seg.location.x - 1, y: seg.location.y },
            MoveDirection::Right => Location { x: seg.location.x + 1, y: seg.location.y },
        }
    }

    /// What `loc` collides with: out of bounds is a border hit, then
    /// the apple, then any body cell; otherwise nothing.
    pub fn detect_collision(&self, loc: &Location) -> (r: CollisionType)
        ensures
            r == self.classify_spec(*loc),
    {
        if loc.x < 0 || (loc.x as i64) >= (self.width as i64) || loc.y < 0 || (loc.y as i64)
            >= (self.height as i64) {
            return CollisionType::Border;
        }
        if loc.x == self.apple.x && loc.y == self.apple.y {
            return CollisionType::Apple;
        }
        let n = self.snake.len();
        let mut i: usize = 0;
        while i < n
            invariant
                i <= n,
                n == self.snake@.len(),
                forall|k: int| 0 <= k < i ==> (#[trigger] self.snake@[k]).location != *loc,
                in_bounds(*loc, self.width, self.height),
                *loc != self.apple,
            decreases n - i,
        {
            let seg = self.snake[i];
            if seg.location.x == loc.x && seg.location.y == loc.y {
                return CollisionType::Snake;
            }
            i += 1;
        }
        CollisionType::Nothing
    }

    /// Removes the tail segment (the oldest cell).
    pub fn lob_tail(&mut self)
        requires
            old(self).snake@.len() >= 1,
        ensures
            final(self).snake@ == old(self).snake@.subrange(1, old(self).snake@.len() as int),
            final(self).apple == old(self).apple,
            final(self).last_direction == old(self).last_direction,
            final(self).key_buffer == old(self).key_buffer,
            final(self).width == old(self).width,
            final(self).height == old(self).height,
            final(self).last_frame == old(self).last_frame,
            final(self).duration_between_frames == old(self).duration_between_frames,
            final(self).history == old(self).history,
            final(self).apples_eaten == old(self).apples_eaten,
            final(self).turns_passed == old(self).turns_passed,
            final(self).eaten_this_frame == old(self).eaten_this_frame,
    {
        self.snake.remove(0);
        proof {
            assert(self.snake@ =~= old(self).snake@.subrange(1, old(self).snake@.len() as int));
        }
    }

    /// Appends the snapshot of this tick: taken after the direction is
    /// resolved and before the move, so it records the state that led
    /// to the move.
    pub fn record_turn(&mut self)
        requires
            old(self).snake@.len() >= 1,
        ensures
            final(self).history@ == old(self).history@.push(
                (GameTurn {
                    time: old(self).last_frame,
                    snake: old(self).head().location,
                    apple: old(self).apple,
                    next_direction: old(self).last_direction,
                }),
            ),
            final(self).snake == old(self).snake,
            final(self).apple == old(self).apple,
            final(self).last_direction == old(self).last_direction,
            final(self).key_buffer == old(self).key_buffer,
            final(self).width == old(self).width,
            final(self).height == old(self).height,
            final(self).last_frame == old(self).last_frame,
            final(self).duration_between_frames == old(self).duration_between_frames,
            final(self).apples_eaten == old(self).apples_eaten,
            final(self).turns_passed == old(self).turns_passed,
            final(self).eaten_this_frame == old(self).eaten_this_frame,
    {
        let turn = GameTurn {
            time: self.last_frame,
            snake: self.snake[self.snake.len() - 1].location,
            apple: self.apple,
            next_direction: self.last_direction,
        };
        self.history.push(turn);
    }

    /// Rejection sampling: draws uniform cells, accepting the first
    /// that collides with nothing. So that the draw provably
    /// terminates, a bounded number of draws is followed by a
    /// deterministic scan for a free cell, which the precondition
    /// guarantees to exist; the scan is reached only with vanishing
    /// probability.
    pub fn place_new_apple(&mut self)
        requires
            1 <= old(self).width <= i32::MAX,
            1 <= old(self).height <= i32::MAX,
            exists|c: Location|
                in_bounds(c, old(self).width, old(self).height) && !old(self).body_contains(c)
                    && c != old(self).apple,
        ensures
            in_bounds(final(self).apple, old(self).width, old(self).height),
            !final(self).body_contains(final(self).apple),
            final(self).snake == old(self).snake,
            final(self).last_direction == old(self).last_direction,
            final(self).key_buffer == old(self).key_buffer,
            final(self).width == old(self).width,
            final(self).height == old(self).height,
            final(self).last_frame == old(self).last_frame,
            final(self).duration_between_frames == old(self).duration_between_frames,
            final(self).history == old(self).history,
            final(self).apples_eaten == old(self).apples_eaten,
            final(self).turns_passed == old(self).turns_passed,
            final(self).eaten_this_frame == old(self).eaten_this_frame,
    {
        let mut attempts: u32 = 0;
        while attempts < 64
            invariant
                1 <= self.width <= i32::MAX,
                1 <= self.height <= i32::MAX,
                self.snake == old(self).snake,
                self.apple == old(self).apple,
                self.last_direction == old(self).last_direction,
                self.key_buffer == old(self).key_buffer,
                self.width == old(self).width,
                self.height == old(self).height,
                self.last_frame == old(self).last_frame,
                self.duration_between_frames == old(self).duration_between_frames,
                self.history == old(self).history,
                self.apples_eaten == old(self).apples_eaten,
                self.turns_passed == old(self).turns_passed,
                self.eaten_this_frame == old(self).eaten_this_frame,
            decreases 64 - attempts,
        {
            let x = random_below(self.width);
            let y = random_below(self.height);
            let loc = Location { x: x as i32, y: y as i32 };
            match self.detect_collision(&loc) {
                CollisionType::Nothing => {
                    self.apple = loc;
                    return ;
                },
                _ => {},
            }
            attempts += 1;
        }
        let mut yy: u32 = 0;
        while yy < self.height
            invariant
                yy <= self.height,
                1 <= self.width <= i32::MAX,
                1 <= self.height <= i32::MAX,
                self.snake == old(self).snake,
                self.apple == old(self).apple,
                self.last_direction == old(self).last_direction,
                self.key_buffer == old(self).key_buffer,
                self.width == old(self).width,
                self.height == old(self).height,
                self.last_frame == old(self).last_frame,
                self.duration_between_frames == old(self).duration_between_frames,
                self.history == old(self).history,
                self.apples_eaten == old(self).apples_eaten,
                self.turns_passed == old(self).turns_passed,
                self.eaten_this_frame == old(self).eaten_this_frame,
                forall|c: Location|
                    #[trigger] in_bounds(c, self.width, self.height) && c.y < yy ==> (
                    self.body_contains(c) || c == self.apple),
            decreases self.height - yy,
        {
            let mut xx: u32 = 0;
            while xx < self.width
                invariant
                    yy < self.height,
                    xx <= self.width,
                    1 <= self.width <= i32::MAX,
                    1 <= self.height <= i32::MAX,
                    self.snake == old(self).snake,
                    self.apple == old(self).apple,
                    self.last_direction == old(self).last_direction,
                    self.key_buffer == old(self).key_buffer,
                    self.width == old(self).width,
                    self.height == old(self).height,
                    self.last_frame == old(self).last_frame,
                    self.duration_between_frames == old(self).duration_between_frames,
                    self.history == old(self).history,
                    self.apples_eaten == old(self).apples_eaten,
                    self.turns_passed == old(self).turns_passed,
                    self.eaten_this_frame == old(self).eaten_this_frame,
                    forall|c: Location|
                        #[trigger] in_bounds(c, self.width, self.height) && (c.y < yy || (c.y == yy
                            && c.x < xx)) ==> (self.body_contains(c) || c == self.apple),
                decreases self.width - xx,
            {
                let loc = Location { x: xx as i32, y: yy as i32 };
                match self.detect_collision(&loc) {
                    CollisionType::Nothing => {
                        self.apple = loc;
                        return ;
                    },
                    _ => {
                        proof {
                            assert forall|c: Location|
                                #[trigger] in_bounds(c, self.width, self.height) && (c.y < yy || (
                                c.y == yy && c.x < xx + 1)) implies (self.body_contains(c) || c
                                == self.apple) by {
                                if c.y == yy && c.x == xx {
                                    assert(c == loc);
                                }
                            }
                        }
                    },
                }
                xx += 1;
            }
            yy += 1;
        }
        proof {
            let c = choose|c: Location|
                in_bounds(c, old(self).width, old(self).height) && !old(self).body_contains(c)
                    && c != old(self).apple;
            assert(in_bounds(c, self.width, self.height));
            assert(false);
        }
    }

    /// Synthesizes the frame `progress_num / progress_den` of the way
    /// through the current tick.
    pub fn draw_screen(&self, progress_num: u64, progress_den: u64) -> (r: GraphicsData)
        requires
            self.snake@.len() >= 1,
            forall|i: int|
                0 <= i < self.snake@.len() ==> in_bounds(
                    (#[trigger] self.snake@[i]).location,
                    self.width,
                    self.height,
                ),
            in_bounds(self.apple, self.width, self.height),
            progress_num <= u32::MAX,
            progress_den <= u32::MAX,
        ensures
            r.width == self.width,
            r.height == self.height,
            r.pixels@ == frame_pixels(*self, progress_num, progress_den),
    {
        let mut graphics = GraphicsData::new(self.width, self.height);
        graphics.add_pixel(self.apple.x as u32, self.apple.y as u32, PixelColor::Red);
        let ghost greens = Seq::new(
            (self.snake@.len() - 1) as nat,
            |i: int|
                PixelData::Pixel {
                    x: self.snake@[i].location.x as u32,
                    y: self.snake@[i].location.y as u32,
                    color: PixelColor::Green,
                },
        );
        let ghost apple_px = PixelData::Pixel {
            x: self.apple.x as u32,
            y: self.apple.y as u32,
            color: PixelColor::Red,
        };
        let n = self.snake.len();
        let mut i: usize = 0;
        while i < n - 1
            invariant
                i <= n - 1,
                n == self.snake@.len(),
                1 <= n,
                forall|k: int|
                    0 <= k < self.snake@.len() ==> in_bounds(
                        (#[trigger] self.snake@[k]).location,
                        self.width,
                        self.height,
                    ),
                greens == Seq::new(
                    (self.snake@.len() - 1) as nat,
                    |k: int|
                        PixelData::Pixel {
                            x: self.snake@[k].location.x as u32,
                            y: self.snake@[k].location.y as u32,
                            color: PixelColor::Green,
                        },
                ),
                graphics.width == self.width,
                graphics.height == self.height,
                graphics.pixels@ == seq![apple_px] + greens.take(i as int),
            decreases n - 1 - i,
        {
            let seg = self.snake[i];
            graphics.add_pixel(seg.location.x as u32, seg.location.y as u32, PixelColor::Green);
            proof {
                assert(greens.take(i as int + 1) =~= greens.take(i as int).push(greens[i as int]));
                assert(graphics.pixels@ =~= seq![apple_px] + greens.take(i as int + 1));
            }
            i += 1;
        }
        proof {
            assert(greens.take(n - 1 as int) =~= greens);
        }
        if !self.eaten_this_frame {
            let first = self.snake[0];
            let c1 = sub_corner_exec(first.direction, progress_num, progress_den);
            graphics.add_sub_pixel(
                first.location.x as u32,
                first.location.y as u32,
                c1,
                full_extent_exec(progress_den),
                PixelColor::Green,
            );
        }
        let last = self.snake[n - 1];
        graphics.add_pixel(last.location.x as u32, last.location.y as u32, PixelColor::White);
        let c1h = sub_corner_exec(self.last_direction, progress_num, progress_den);
        graphics.add_sub_pixel(
            last.location.x as u32,
            last.location.y as u32,
            c1h,
            full_extent_exec(progress_den),
            PixelColor::Blue,
        );
        proof {
            assert(graphics.pixels@ =~= frame_pixels(*self, progress_num, progress_den));
        }
        graphics
    }

    /// One call of the host loop. If less than one tick interval has
    /// elapsed, nothing changes and the frame interpolates within the
    /// current tick. Otherwise one tick fires: the queued input is
    /// resolved, the snapshot is recorded, and the head steps one cell;
    /// an apple grows the body and places a fresh apple, a free cell
    /// moves the body, and a border or body hit ends the game with a
    /// final full-progress frame.
    pub fn advance(&mut self, now_ms: u64) -> (out: AdvanceOutcome)
        requires
            old(self).wf(),
            old(self).turns_passed < u32::MAX,
            old(self).last_frame <= now_ms,
            now_ms - old(self).last_frame <= u32::MAX,
            ({
                let dir = resolved_direction(old(self).key_buffer@, old(self).last_direction);
                let cand = step_cell(old(self).head().location, dir);
                (now_ms - old(self).last_frame >= old(self).duration_between_frames && old(
                    self,
                ).classify_spec(cand) == CollisionType::Apple) ==> old(self).snake@.len() + 1 < old(
                    self,
                ).width * old(self).height
            }),
        ensures
            final(self).width == old(self).width,
            final(self).height == old(self).height,
            final(self).duration_between_frames == old(self).duration_between_frames,
            out.buffer.width == old(self).width,
            out.buffer.height == old(self).height,
            !out.terminal ==> final(self).wf(),
            out.terminal ==> final(self).wf_core(),
            now_ms - old(self).last_frame < old(self).duration_between_frames ==> ({
                &&& *final(self) == *old(self)
                &&& !out.terminal
                &&& out.wait_ms == old(self).duration_between_frames - (now_ms - old(
                    self,
                ).last_frame)
                &&& out.buffer.pixels@ == frame_pixels(
                    *old(self),
                    (now_ms - old(self).last_frame) as u64,
                    old(self).duration_between_frames,
                )
            }),
            now_ms - old(self).last_frame >= old(self).duration_between_frames ==> ({
                let pre = *old(self);
                let dir = resolved_direction(pre.key_buffer@, pre.last_direction);
                let cand = step_cell(pre.head().location, dir);
                let cls = pre.classify_spec(cand);
                let den = pre.duration_between_frames;
                let prog = (now_ms - pre.last_frame - den) as u64;
                &&& final(self).last_frame == now_ms
                &&& final(self).last_direction == dir
                &&& final(self).turns_passed == pre.turns_passed + 1
                &&& final(self).history@ == pre.history@.push(
                    (GameTurn {
                        time: now_ms,
                        snake: pre.head().location,
                        apple: pre.apple,
                        next_direction: dir,
                    }),
                )
                &&& final(self).key_buffer@ == requeued(pre.key_buffer@, pre.last_direction)
                &&& out.terminal == (cls == CollisionType::Border || cls == CollisionType::Snake)
                &&& (cls == CollisionType::Apple ==> {
                    &&& final(self).snake@ == pre.snake@.push(
                        (Segment { location: cand, direction: dir }),
                    )
                    &&& final(self).snake@.len() == pre.snake@.len() + 1
                    &&& final(self).apples_eaten == pre.apples_eaten + 1
                    &&& final(self).eaten_this_frame == true
                    &&& !final(self).body_contains(final(self).apple)
                })
                &&& (cls == CollisionType::Nothing ==> {
                    &&& final(self).snake@ == pre.snake@.subrange(
                        1,
                        pre.snake@.len() as int,
                    ).push((Segment { location: cand, direction: dir }))
                    &&& final(self).snake@.len() == pre.snake@.len()
                    &&& final(self).apple == pre.apple
                    &&& final(self).apples_eaten == pre.apples_eaten
                    &&& final(self).eaten_this_frame == false
                })
                &&& (out.terminal ==> {
                    &&& final(self).snake@ == pre.snake@
                    &&& final(self).apple == pre.apple
                    &&& final(self).apples_eaten == pre.apples_eaten
                    &&& final(self).eaten_this_frame == false
                    &&& out.wait_ms == 0
                    &&& out.buffer.pixels@ == frame_pixels(*final(self), den, den)
                })
                &&& (!out.terminal ==> {
                    &&& out.wait_ms == (if prog < den {
                        (den - prog) as u64
                    } else {
                        0u64
                    })
                    &&& out.buffer.pixels@ == frame_pixels(*final(self), prog, den)
                })
            }),
    {
        let elapsed: u64 = now_ms - self.last_frame;
        if elapsed < self.duration_between_frames {
            let buffer = self.draw_screen(elapsed, self.duration_between_frames);
            return AdvanceOutcome {
                buffer,
                wait_ms: self.duration_between_frames - elapsed,
                terminal: false,
            };
        }
        let prog: u64 = elapsed - self.duration_between_frames;
        let den: u64 = self.duration_between_frames;
        self.last_frame = now_ms;
        let dir = self.process_key_buffer();
        self.last_direction = dir;
        self.turns_passed = self.turns_passed + 1;
        self.record_turn();
        self.eaten_this_frame = false;
        let next = self.next_square();
        match self.detect_collision(&next) {
            CollisionType::Apple => {
                self.eaten_this_frame = true;
                self.apples_eaten = self.apples_eaten + 1;
                self.snake.push(Segment { location: next, direction: dir });
                proof {
                    let occ = self.snake@.map_values(|seg: Segment| seg.location);
                    lemma_free_cell_exists(occ, self.width, self.height);
                    let c = choose|c: Location|
                        in_bounds(c, self.width, self.height) && !occ.contains(c);
                    assert(!self.body_contains(c)) by {
                        if self.body_contains(c) {
                            let i = choose|i: int|
                                0 <= i < self.snake@.len() && self.snake@[i].location == c;
                            assert(occ[i] == c);
                            assert(occ.contains(c));
                        }
                    }
                    assert(self.body_contains(self.apple)) by {
                        assert(self.snake@[self.snake@.len() - 1].location == self.apple);
                    }
                    assert(c != self.apple);
                }
                self.place_new_apple();
                let buffer = self.draw_screen(prog, den);
                let wait_ms = if prog < den {
                    den - prog
                } else {
                    0
                };
                AdvanceOutcome { buffer, wait_ms, terminal: false }
            },
            CollisionType::Nothing => {
                self.snake.push(Segment { location: next, direction: dir });
                self.lob_tail();
                let buffer = self.draw_screen(prog, den);
                let wait_ms = if prog < den {
                    den - prog
                } else {
                    0
                };
                AdvanceOutcome { buffer, wait_ms, terminal: false }
            },
            _ => {
                let buffer = self.draw_screen(den, den);
                AdvanceOutcome { buffer, wait_ms: 0, terminal: true }
            },
        }
    }

    /// The terminal summary: the counters, the board, the tick
    /// interval, and the replay log serialized and then compressed.
    pub fn get_results(&self) -> (r: GameResult)
        requires
            self.history@.len() <= u32::MAX,
        ensures
            r.apples_eaten == self.apples_eaten,
            r.turns_passed == self.turns_passed,
            r.width == self.width,
            r.height == self.height,
            r.duration_between_frames == self.duration_between_frames,
            r.history@ == brotli_compressed(encoded_replay(self.history@)),
    {
        let encoded = encode_replay(&self.history);
        let compressed = brotli_compress(&encoded);
        GameResult {
            apples_eaten: self.apples_eaten,
            turns_passed: self.turns_passed,
            history: compressed,
            width: self.width,
            height: self.height,
            duration_between_frames: self.duration_between_frames,
        }
    }
}

/// The corner offset, computed exactly.
fn sub_corner_exec(d: MoveDirection, num: u64, den: u64) -> (r: (Frac, Frac))
    requires
        num <= u32::MAX,
        den <= u32::MAX,
    ensures
        r == sub_corner(d, num, den),
{
    let fwd = Frac { num: (den as i64) - (num as i64), den };
    let back = Frac { num: (num as i64) - (den as i64), den };
    let zero = Frac { num: 0, den };
    match d {
        MoveDirection::Up => (zero, fwd),
        MoveDirection::Down => (zero, back),
        MoveDirection::Left => (fwd, zero),
        MoveDirection::Right => (back, zero),
    }
}

/// A full one-by-one cell extent, computed exactly.
fn full_extent_exec(den: u64) -> (r: (Frac, Frac))
    requires
        den <= u32::MAX,
    ensures
        r == full_extent(den),
{
    (Frac { num: den as i64, den }, Frac { num: den as i64, den })
}

/// Pigeonhole: fewer occupied cells than the board has cells leaves
/// at least one board cell unoccupied.
pub proof fn lemma_free_cell_exists(occupied: Seq<Location>, width: u32, height: u32)
    requires
        1 <= width <= i32::MAX,
        1 <= height <= i32::MAX,
        occupied.len() < width * height,
    ensures
        exists|c: Location| in_bounds(c, width, height) && !occupied.contains(c),
{
    let w = width as int;
    let h = height as int;
    if !(exists|c: Location| in_bounds(c, width, height) && !occupied.contains(c))  {
        let idxs = occupied.map_values(|c: Location| c.y * w + c.x);
        assert forall|v: int| 0 <= v < w * h implies idxs.to_set().contains(v) by {
            lemma_mod_division_less_than_divisor(v, w);
            lemma_div_pos_is_pos(v, w);
            lemma_multiply_divide_lt(v, w, h);
            lemma_fundamental_div_mod(v, w);
            let c = Location { x: (v % w) as i32, y: (v / w) as i32 };
            assert(in_bounds(c, width, height));
            assert(occupied.contains(c));
            let i = choose|i: int| 0 <= i < occupied.len() && occupied[i] == c;
            assert(idxs[i] == c.y * w + c.x);
            assert(c.y as int == v / w && c.x as int == v % w);
            lemma_mul_is_commutative(w, v / w);
            assert(c.y * w + c.x == v);
            assert(idxs.contains(idxs[i]));
        }
        assert(set_int_range(0, w * h).subset_of(idxs.to_set()));
        lemma_int_range(0, w * h);
        idxs.lemma_cardinality_of_set();
        lemma_len_subset(set_int_range(0, w * h), idxs.to_set());
        assert(false);
    }
}

/// No two body segments share a cell, and the apple shares a cell with
/// no segment; this holds of every reachable game state, since `new`
/// establishes it and `advance` preserves it.
pub proof fn lemma_state_disjointness(s: SnakeGameLogic)
    requires
        s.wf_core(),
    ensures
        forall|i: int, j: int|
            0 <= i < j < s.snake@.len() ==> s.snake@[i].location != s.snake@[j].location,
        forall|i: int| 0 <= i < s.snake@.len() ==> s.apple != (#[trigger] s.snake@[i]).location,
{
    assert forall|i: int| 0 <= i < s.snake@.len() implies s.apple != (
    #[trigger] s.snake@[i]).location by {
        if s.apple == s.snake@[i].location {
            assert(s.body_contains(s.apple));
        }
    }
}

/// At the start of a tick (`num == 0`) the head's partial cell is
/// displaced one whole cell along the motion axis, back toward the
/// previous head position: it covers none of the head cell. At the end
/// of the tick (`num == den`) the displacement vanishes and the
/// partial cell coincides with the head cell.
pub proof fn lemma_head_interpolation(d: MoveDirection, den: u64)
    requires
        1 <= den <= u32::MAX,
    ensures
        ({
            let start = sub_corner(d, 0, den);
            match d {
                MoveDirection::Up => start.0.num == 0 && start.1.num == den,
                MoveDirection::Down => start.0.num == 0 && start.1.num == -(den as int),
                MoveDirection::Left => start.0.num == den && start.1.num == 0,
                MoveDirection::Right => start.0.num == -(den as int) && start.1.num == 0,
            }
        }),
        sub_corner(d, den, den).0.num == 0,
        sub_corner(d, den, den).1.num == 0,
        full_extent(den).0.num == den,
        full_extent(den).1.num == den,
{
}

} // verus!
