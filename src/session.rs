use vstd::prelude::*;

use crate::point::{step_spec, SnakeDirection};
use crate::snake::{DirectionChange, MoveOutcome, SnakeGrid};

verus! {

/// A key press, as far as the game is concerned.
#[derive(Clone, Copy, Debug, PartialEq, Eq, Structural)]
pub enum Key {
    Left,
    Up,
    Down,
    Right,
    Char(char),
    Other,
}

/// The direction an arrow key asks for.
pub open spec fn key_direction(key: Key) -> Option<SnakeDirection> {
    match key {
        Key::Left => Some(SnakeDirection::Left),
        Key::Up => Some(SnakeDirection::Up),
        Key::Down => Some(SnakeDirection::Down),
        Key::Right => Some(SnakeDirection::Right),
        _ => None,
    }
}

/// One interactive session: the board, how long a tick lasts, the size it
/// was made with and whether it is to stop.
#[derive(Debug)]
pub struct App {
    pub grid: SnakeGrid,
    pub tick_rate_ms: u64,
    pub exit: bool,
    pub height: usize,
    pub width: usize,
}

/// The board after a requested turn to `dir`: only the direction may change,
/// and it does exactly when the head would stay on the board.
pub open spec fn turned(before: SnakeGrid, after: SnakeGrid, dir: SnakeDirection) -> bool {
    let accepted = before.grid.contains_xy(step_spec(before.snake.head(), dir));
    &&& after.well_formed()
    &&& after.grid == before.grid
    &&& after.snake.body_seq() == before.snake.body_seq()
    &&& after.snake.target() == before.snake.target()
    &&& after.snake.dir() == (if accepted {
        dir
    } else {
        before.snake.dir()
    })
}

impl App {
    pub open spec fn well_formed(&self) -> bool {
        self.grid.well_formed()
    }

    /// A session on a fresh `width` by `height` board, ticking every 50 ms.
    pub fn new(height: usize, width: usize) -> (r: App)
        requires
            5 <= width <= i32::MAX,
            1 <= height <= i32::MAX,
            width * height <= usize::MAX,
        ensures
            r.well_formed(),
            r.grid.is_initial(width, height),
            r.tick_rate_ms == 50,
            !r.exit,
            r.height == height,
            r.width == width,
    {
        let grid = SnakeGrid::new_empty(width, height);
        App { grid, tick_rate_ms: 50, exit: false, height, width }
    }

    /// Arrow keys request a turn, `q` asks to stop, anything else is ignored.
    pub fn handle_key_event(&mut self, key: Key)
        requires
            old(self).well_formed(),
        ensures
            final(self).well_formed(),
            final(self).tick_rate_ms == old(self).tick_rate_ms,
            final(self).height == old(self).height,
            final(self).width == old(self).width,
            match key_direction(key) {
                Some(d) => {
                    &&& turned(old(self).grid, final(self).grid, d)
                    &&& final(self).exit == old(self).exit
                },
                None => if key == Key::Char('q') {
                    &&& final(self).grid == old(self).grid
                    &&& final(self).exit
                } else {
                    *final(self) == *old(self)
                },
            },
    {
        match key {
            Key::Left => {
                self.change_direction(SnakeDirection::Left);
            },
            Key::Up => {
                self.change_direction(SnakeDirection::Up);
            },
            Key::Down => {
                self.change_direction(SnakeDirection::Down);
            },
            Key::Right => {
                self.change_direction(SnakeDirection::Right);
            },
            Key::Char('q') => self.exit(),
            _ => {},
        }
    }

    /// Requests a turn to `dir`; see `SnakeGrid::change_direction`.
    pub fn change_direction(&mut self, dir: SnakeDirection) -> (r: DirectionChange)
        requires
            old(self).well_formed(),
        ensures
            turned(old(self).grid, final(self).grid, dir),
            (r == DirectionChange::Accepted) == old(self).grid.grid.contains_xy(
                step_spec(old(self).grid.snake.head(), dir),
            ),
            final(self).exit == old(self).exit,
            final(self).tick_rate_ms == old(self).tick_rate_ms,
            final(self).height == old(self).height,
            final(self).width == old(self).width,
    {
        self.grid.change_direction(dir)
    }

    /// Runs one tick; a wall collision ends the session and marks it to stop.
    pub fn move_snake(&mut self) -> (r: MoveOutcome)
        requires
            old(self).well_formed(),
        ensures
            final(self).well_formed(),
            final(self).exit == (old(self).exit || r == MoveOutcome::SessionEnded),
            r == MoveOutcome::SessionEnded ==> final(self).grid == old(self).grid,
            (r == MoveOutcome::Advanced) == old(self).grid.grid.contains_xy(
                step_spec(old(self).grid.snake.head(), old(self).grid.snake.dir()),
            ),
            final(self).tick_rate_ms == old(self).tick_rate_ms,
            final(self).height == old(self).height,
            final(self).width == old(self).width,
    {
        let r = self.grid.move_snake();
        if r == MoveOutcome::SessionEnded {
            self.exit();
        }
        r
    }

    /// Marks the session to stop.
    pub fn exit(&mut self)
        ensures
            final(self).exit,
            final(self).grid == old(self).grid,
            final(self).tick_rate_ms == old(self).tick_rate_ms,
            final(self).height == old(self).height,
            final(self).width == old(self).width,
    {
        self.exit = true;
    }
}

impl Default for App {
    /// A session on the default ten by ten board, with a zero tick rate and
    /// zero recorded size.
    fn default() -> (r: App)
        ensures
            r.well_formed(),
            r.grid.is_initial(10, 10),
            r.tick_rate_ms == 0,
            !r.exit,
            r.height == 0,
            r.width == 0,
    {
        App { grid: SnakeGrid::default(), tick_rate_ms: 0, exit: false, height: 0, width: 0 }
    }
}

} // verus!
