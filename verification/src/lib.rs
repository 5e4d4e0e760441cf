//! A verified core for a fixed-timestep snake game: board geometry,
//! collision rules, input buffering, the per-tick state transition,
//! sub-tick frame interpolation, and a compressed replay log.

pub mod external;
pub mod geometry;
pub mod input;
pub mod pixels;
pub mod replay;
pub mod snake;
pub mod triangle;

pub use geometry::{Location, MoveDirection};
pub use pixels::{Frac, GraphicsData, PixelColor, PixelData};
pub use replay::GameTurn;
pub use triangle::{Point, Triangle};
pub use snake::{AdvanceOutcome, CollisionType, GameResult, Segment, SnakeGameLogic};
