//! A grid-based snake game core: bounds-checked grid storage, the snake's
//! movement state machine and a text snapshot of the board.

pub mod cell;
pub mod grid;
pub mod point;
pub mod session;
pub mod snake;

pub use cell::CellState;
pub use grid::Grid;
pub use point::{Point, SnakeDirection};
pub use session::{App, Key};
pub use snake::{DirectionChange, MoveOutcome, Snake, SnakeGrid};
