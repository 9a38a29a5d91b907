use vstd::prelude::*;

use crate::cell::CellState;
use crate::grid::{lemma_index_in_range, lemma_index_injective, Grid};
use crate::point::{adjacent, step_spec, Point, SnakeDirection};

verus! {

/// The answer to a requested change of direction.
#[derive(Clone, Copy, Debug, PartialEq, Eq, Structural)]
pub enum DirectionChange {
    /// The direction was taken over.
    Accepted,
    /// The head would leave the grid; the direction is unchanged.
    Rejected,
}

/// What one tick of movement did.
#[derive(Clone, Copy, Debug, PartialEq, Eq, Structural)]
pub enum MoveOutcome {
    /// The snake moved one cell forward.
    Advanced,
    /// The head would have hit a wall: the session is over and nothing moved.
    SessionEnded,
}

/// An ordered run of occupied coordinates, head first, with the direction it
/// travels in and the number of segments it is kept at.
#[derive(Debug)]
pub struct Snake {
    body: Vec<Point>,
    direction: SnakeDirection,
    target_length: usize,
}

/// Whether each segment of `body` is one unit step from the next.
pub open spec fn connected(body: Seq<Point>) -> bool {
    forall|i: int| 0 <= i < body.len() - 1 ==> #[trigger] adjacent(body[i], body[i + 1])
}

/// The body after one step: `head` put in front, then cut to at most
/// `target` segments by dropping the tail end.
pub open spec fn next_body(body: Seq<Point>, head: Point, target: int) -> Seq<Point> {
    let s = seq![head] + body;
    if s.len() <= target {
        s
    } else {
        s.take(target)
    }
}

/// The integer coordinate `q` as a point.
pub open spec fn point_of(q: (int, int)) -> Point {
    Point { x: q.0 as i32, y: q.1 as i32 }
}

/// The state a cell holds when the grid mirrors `body`.
pub open spec fn mirrored(body: Seq<Point>, p: Point) -> CellState {
    if body.contains(p) {
        CellState::Snake
    } else {
        CellState::Empty
    }
}

impl Snake {
    /// The segments, head first.
    pub closed spec fn body_seq(&self) -> Seq<Point> {
        self.body@
    }

    /// The direction of travel.
    pub closed spec fn dir(&self) -> SnakeDirection {
        self.direction
    }

    /// The number of segments the body is kept at.
    pub closed spec fn target(&self) -> int {
        self.target_length as int
    }

    pub open spec fn well_formed(&self) -> bool {
        &&& 1 <= self.body_seq().len() <= self.target()
        &&& connected(self.body_seq())
    }

    pub open spec fn head(&self) -> Point {
        self.body_seq()[0]
    }

    /// The segments, head first.
    pub fn body(&self) -> (r: &Vec<Point>)
        ensures
            r@ == self.body_seq(),
    {
        &self.body
    }

    /// The direction of travel.
    pub fn direction(&self) -> (r: SnakeDirection)
        ensures
            r == self.dir(),
    {
        self.direction
    }

    /// The number of segments the body is kept at.
    pub fn target_length(&self) -> (r: usize)
        ensures
            r == self.target(),
    {
        self.target_length
    }
}

/// A board together with the snake on it. The board's `Snake` cells are
/// exactly the snake's segments and every other cell is `Empty`.
///
/// The head running into the snake's own body is not detected: the body may
/// then hold one coordinate twice, and the board marks it once.
#[derive(Debug)]
pub struct SnakeGrid {
    pub grid: Grid<CellState>,
    pub snake: Snake,
}

impl SnakeGrid {
    pub open spec fn well_formed(&self) -> bool {
        &&& self.grid.well_formed()
        &&& self.snake.well_formed()
        &&& forall|i: int|
            0 <= i < self.snake.body_seq().len() ==> self.grid.in_bounds(
                #[trigger] self.snake.body_seq()[i],
            )
        &&& forall|p: Point|
            self.grid.in_bounds(p) ==> #[trigger] self.grid.cell(p) == mirrored(
                self.snake.body_seq(),
                p,
            )
    }

    /// The board as `new_empty(width, height)` leaves it.
    pub open spec fn is_initial(&self, width: usize, height: usize) -> bool {
        &&& self.grid.width == width
        &&& self.grid.height == height
        &&& self.snake.body_seq() == seq![
            Point { x: (width / 2) as i32, y: (height / 2) as i32 },
            Point { x: (width / 2 + 1) as i32, y: (height / 2) as i32 },
            Point { x: (width / 2 + 2) as i32, y: (height / 2) as i32 },
        ]
        &&& self.snake.dir() == SnakeDirection::Right
        &&& self.snake.target() == 3
    }

    /// The coordinates tagged `Snake` on the board.
    pub open spec fn snake_cells(&self) -> Set<Point> {
        Set::new(|p: Point| self.grid.in_bounds(p) && self.grid.cell(p) == CellState::Snake)
    }

    /// A `width` by `height` board with a three-segment snake in the middle
    /// row, head at the centre, body trailing to the right, facing right.
    pub fn new_empty(width: usize, height: usize) -> (r: SnakeGrid)
        requires
            5 <= width <= i32::MAX,
            1 <= height <= i32::MAX,
            width * height <= usize::MAX,
        ensures
            r.well_formed(),
            r.is_initial(width, height),
    {
        let mut grid = Grid::new_empty(width, height);
        let ghost empty = grid;
        let hx = (width / 2) as i32;
        let hy = (height / 2) as i32;
        let head = Point::new(hx, hy);
        let neck = Point::new(hx + 1, hy);
        let tail = Point::new(hx + 2, hy);
        grid.set(head, CellState::Snake);
        let ghost g1 = grid;
        grid.set(neck, CellState::Snake);
        let ghost g2 = grid;
        grid.set(tail, CellState::Snake);
        let body = vec![head, neck, tail];
        proof {
            let w = width as int;
            assert(body@ =~= seq![head, neck, tail]);
            lemma_index_in_range(w, height as int, head.x as int, head.y as int);
            lemma_index_in_range(w, height as int, neck.x as int, neck.y as int);
            lemma_index_in_range(w, height as int, tail.x as int, tail.y as int);
            assert forall|p: Point| grid.in_bounds(p) implies #[trigger] grid.cell(p) == mirrored(
                body@,
                p,
            ) by {
                lemma_index_in_range(w, height as int, p.x as int, p.y as int);
                assert(grid.index_of(p) == empty.index_of(p));
                if grid.index_of(p) == grid.index_of(tail) {
                    lemma_index_injective(w, p.x as int, p.y as int, tail.x as int, tail.y as int);
                    assert(body@[2] == p);
                } else if grid.index_of(p) == grid.index_of(neck) {
                    lemma_index_injective(w, p.x as int, p.y as int, neck.x as int, neck.y as int);
                    assert(grid.cell(p) == g2.cell(p));
                    assert(body@[1] == p);
                } else if grid.index_of(p) == grid.index_of(head) {
                    lemma_index_injective(w, p.x as int, p.y as int, head.x as int, head.y as int);
                    assert(grid.cell(p) == g2.cell(p));
                    assert(g2.cell(p) == g1.cell(p));
                    assert(body@[0] == p);
                } else {
                    assert(grid.cell(p) == g2.cell(p));
                    assert(g2.cell(p) == g1.cell(p));
                    assert(g1.cell(p) == empty.cell(p));
                    assert(!body@.contains(p));
                }
            }
        }
        let snake = Snake { body, direction: SnakeDirection::Right, target_length: 3 };
        SnakeGrid { grid, snake }
    }

    /// The cell the head would move to in direction `dir`.
    fn convert_direction_to_next_point(&self, dir: SnakeDirection) -> (r: Point)
        requires
            self.well_formed(),
        ensures
            (r.x as int, r.y as int) == step_spec(self.snake.head(), dir),
            adjacent(self.snake.head(), r),
    {
        let head = self.snake.body[0];
        head.step(dir)
    }

    /// Turns the snake to `dir` unless its head would then leave the grid.
    /// Only the direction changes; moving back into the neck is accepted.
    pub fn change_direction(&mut self, dir: SnakeDirection) -> (r: DirectionChange)
        requires
            old(self).well_formed(),
        ensures
            final(self).well_formed(),
            final(self).grid == old(self).grid,
            final(self).snake.body_seq() == old(self).snake.body_seq(),
            final(self).snake.target() == old(self).snake.target(),
            (r == DirectionChange::Accepted) == old(self).grid.contains_xy(
                step_spec(old(self).snake.head(), dir),
            ),
            final(self).snake.dir() == (if r == DirectionChange::Accepted {
                dir
            } else {
                old(self).snake.dir()
            }),
    {
        let head = self.snake.body[0];
        let valid_moves = self.grid.get_valid_moves(head);
        let candidate = self.convert_direction_to_next_point(dir);
        let mut found = false;
        let mut i: usize = 0;
        while i < valid_moves.len()
            invariant
                i <= valid_moves@.len(),
                found <==> exists|k: int| 0 <= k < i && valid_moves@[k] == candidate,
            decreases valid_moves@.len() - i,
        {
            if valid_moves[i] == candidate {
                found = true;
            }
            i = i + 1;
        }
        assert(found == valid_moves@.contains(candidate));
        if found {
            self.snake.direction = dir;
            DirectionChange::Accepted
        } else {
            DirectionChange::Rejected
        }
    }

    /// One tick: the head advances one cell in the current direction and the
    /// body follows, kept at most at its target length; the board is then
    /// rewritten to mirror the new body. Where the head would leave the grid
    /// the session ends and nothing changes.
    pub fn move_snake(&mut self) -> (r: MoveOutcome)
        requires
            old(self).well_formed(),
        ensures
            final(self).well_formed(),
            ({
                let next = step_spec(old(self).snake.head(), old(self).snake.dir());
                if old(self).grid.contains_xy(next) {
                    &&& r == MoveOutcome::Advanced
                    &&& final(self).snake.body_seq() == next_body(
                        old(self).snake.body_seq(),
                        point_of(next),
                        old(self).snake.target(),
                    )
                    &&& final(self).snake.dir() == old(self).snake.dir()
                    &&& final(self).snake.target() == old(self).snake.target()
                    &&& final(self).grid.width == old(self).grid.width
                    &&& final(self).grid.height == old(self).grid.height
                } else {
                    &&& r == MoveOutcome::SessionEnded
                    &&& *final(self) == *old(self)
                }
            }),
            r == MoveOutcome::Advanced ==> final(self).snake.body_seq().len()
                <= final(self).snake.target(),
            r == MoveOutcome::Advanced ==> connected(final(self).snake.body_seq()),
    {
        let head = self.snake.body[0];
        let new_head = head.step(self.snake.direction);
        if !self.grid.contains(&new_head) {
            return MoveOutcome::SessionEnded;
        }
        let ghost old_body = self.snake.body@;
        let target = self.snake.target_length;
        let mut new_body: Vec<Point> = vec![new_head];
        let mut i: usize = 0;
        while i < self.snake.body.len() && new_body.len() < target
            invariant
                old_body == self.snake.body@,
                1 <= target,
                i <= old_body.len(),
                new_body@ == seq![new_head] + old_body.subrange(0, i as int),
                new_body@.len() <= target,
            decreases old_body.len() - i,
        {
            new_body.push(self.snake.body[i]);
            i = i + 1;
        }
        proof {
            let s = seq![new_head] + old_body;
            if s.len() <= target {
                assert(new_body@ =~= s);
            } else {
                assert(new_body@ =~= s.take(target as int));
            }
            assert(new_body@ == next_body(old_body, new_head, target as int));
            assert forall|k: int| 0 <= k < new_body@.len() - 1 implies #[trigger] adjacent(
                new_body@[k],
                new_body@[k + 1],
            ) by {
                if k > 0 {
                    let j = k - 1;
                    assert(new_body@[k] == old_body[j]);
                    assert(new_body@[k + 1] == old_body[j + 1]);
                    assert(adjacent(old_body[j], old_body[j + 1]));
                }
            }
        }
        // The board's cell count is a `usize`, so a board of the same size fits.
        let len = self.grid.cells.len();
        assert(len == self.grid.width * self.grid.height);
        let mut grid = Grid::new_empty(self.grid.width, self.grid.height);
        let ghost w = grid.width as int;
        let ghost h = grid.height as int;
        proof {
            assert forall|p: Point| grid.in_bounds(p) implies #[trigger] grid.cell(p) == mirrored(
                new_body@.take(0),
                p,
            ) by {
                lemma_index_in_range(w, h, p.x as int, p.y as int);
            }
        }
        let mut k: usize = 0;
        while k < new_body.len()
            invariant
                grid.well_formed(),
                grid.width == w,
                grid.height == h,
                k <= new_body@.len(),
                forall|m: int| 0 <= m < new_body@.len() ==> grid.in_bounds(#[trigger] new_body@[m]),
                forall|p: Point|
                    grid.in_bounds(p) ==> #[trigger] grid.cell(p) == mirrored(
                        new_body@.take(k as int),
                        p,
                    ),
            decreases new_body@.len() - k,
        {
            let q = new_body[k];
            let ghost before = grid;
            grid.set(q, CellState::Snake);
            k = k + 1;
            proof {
                lemma_index_in_range(w, h, q.x as int, q.y as int);
                assert(new_body@.take(k as int) =~= new_body@.take(k - 1).push(q));
                assert forall|p: Point| grid.in_bounds(p) implies #[trigger] grid.cell(p)
                    == mirrored(new_body@.take(k as int), p) by {
                    lemma_index_in_range(w, h, p.x as int, p.y as int);
                    if grid.index_of(p) == grid.index_of(q) {
                        lemma_index_injective(w, p.x as int, p.y as int, q.x as int, q.y as int);
                        assert(new_body@.take(k as int)[k - 1] == p);
                    } else {
                        assert(grid.cell(p) == before.cell(p));
                        if new_body@.take(k as int).contains(p) {
                            let j = choose|j: int|
                                0 <= j < k && #[trigger] new_body@.take(k as int)[j] == p;
                            assert(new_body@.take(k - 1)[j] == p);
                        }
                        if new_body@.take(k - 1).contains(p) {
                            let j = choose|j: int|
                                0 <= j < k - 1 && #[trigger] new_body@.take(k - 1)[j] == p;
                            assert(new_body@.take(k as int)[j] == p);
                        }
                    }
                }
            }
        }
        proof {
            assert(new_body@.take(new_body@.len() as int) =~= new_body@);
        }
        self.grid = grid;
        self.snake.body = new_body;
        MoveOutcome::Advanced
    }
}

impl Default for SnakeGrid {
    /// A ten by ten board.
    fn default() -> (r: SnakeGrid)
        ensures
            r.well_formed(),
            r.is_initial(10, 10),
    {
        SnakeGrid::new_empty(10, 10)
    }
}

/// On a well-formed board (which construction, `change_direction` and
/// `move_snake` all leave behind) the cells tagged `Snake` are exactly the
/// coordinates of the snake's body.
pub proof fn lemma_snake_cells_are_body(sg: &SnakeGrid)
    requires
        sg.well_formed(),
    ensures
        sg.snake_cells() == sg.snake.body_seq().to_set(),
{
    let body = sg.snake.body_seq();
    assert forall|p: Point| sg.snake_cells().contains(p) <==> body.to_set().contains(p) by {
        if body.contains(p) {
            let i = choose|i: int| 0 <= i < body.len() && body[i] == p;
            assert(sg.grid.in_bounds(body[i]));
        }
        if sg.grid.in_bounds(p) {
            assert(sg.grid.cell(p) == mirrored(body, p));
        }
    }
    assert(sg.snake_cells() =~= body.to_set());
}

} // verus!
