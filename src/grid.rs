use vstd::prelude::*;

use crate::point::{adjacent, step_spec, steppable, Point, SnakeDirection};

verus! {

/// A fixed-size two-dimensional array of cells, stored row by row.
#[derive(Debug)]
pub struct Grid<T> {
    pub width: usize,
    pub height: usize,
    pub cells: Vec<T>,
}

impl<T> Grid<T> {
    /// One backing cell per coordinate, and every coordinate expressible as a
    /// `Point`.
    pub open spec fn well_formed(&self) -> bool {
        &&& self.cells@.len() == self.width * self.height
        &&& self.width <= i32::MAX
        &&& self.height <= i32::MAX
    }

    pub open spec fn in_bounds(&self, p: Point) -> bool {
        0 <= p.x < self.width && 0 <= p.y < self.height
    }

    /// The linear index backing coordinate `p`.
    pub open spec fn index_of(&self, p: Point) -> int {
        self.width * p.y + p.x
    }

    /// Whether the integer coordinate `q` lies inside the grid.
    pub open spec fn contains_xy(&self, q: (int, int)) -> bool {
        0 <= q.0 < self.width && 0 <= q.1 < self.height
    }

    /// The coordinate backed by linear index `i`.
    pub open spec fn position_of(&self, i: int) -> Point {
        Point { x: (i % self.width as int) as i32, y: (i / self.width as int) as i32 }
    }

    /// The value held at coordinate `p`.
    pub open spec fn cell(&self, p: Point) -> T {
        self.cells@[self.index_of(p)]
    }

    /// `s` extended by the coordinate `q` where `q` lies inside the grid.
    pub open spec fn keep_inside(&self, s: Seq<Point>, q: (int, int)) -> Seq<Point> {
        if 0 <= q.0 < self.width && 0 <= q.1 < self.height {
            s.push(Point { x: q.0 as i32, y: q.1 as i32 })
        } else {
            s
        }
    }

    /// The neighbours of `p` one unit away, in the order up, down, left,
    /// right, keeping those inside the grid.
    pub open spec fn valid_moves_spec(&self, p: Point) -> Seq<Point> {
        let s0 = Seq::<Point>::empty();
        let s1 = self.keep_inside(s0, step_spec(p, SnakeDirection::Up));
        let s2 = self.keep_inside(s1, step_spec(p, SnakeDirection::Down));
        let s3 = self.keep_inside(s2, step_spec(p, SnakeDirection::Left));
        self.keep_inside(s3, step_spec(p, SnakeDirection::Right))
    }

    pub fn contains(&self, p: &Point) -> (r: bool)
        ensures
            r == self.in_bounds(*p),
    {
        p.x >= 0 && (p.x as usize) < self.width && p.y >= 0 && (p.y as usize) < self.height
    }

    /// The coordinate of linear index `p`.
    pub fn pos(&self, p: usize) -> (r: Point)
        requires
            self.well_formed(),
            p < self.cells@.len(),
        ensures
            r == self.position_of(p as int),
            self.in_bounds(r),
            self.index_of(r) == p,
    {
        proof {
            lemma_position_in_range(self.width as int, self.height as int, p as int);
        }
        Point::new((p % self.width) as i32, (p / self.width) as i32)
    }

    fn idx(&self, p: &Point) -> (r: usize)
        requires
            self.well_formed(),
            self.in_bounds(*p),
        ensures
            r == self.index_of(*p),
            r < self.cells@.len(),
    {
        // The vector's length is a `usize`, which bounds the index below.
        let _len = self.cells.len();
        proof {
            lemma_index_in_range(self.width as int, self.height as int, p.x as int, p.y as int);
        }
        (p.y as usize) * self.width + (p.x as usize)
    }

    /// The cell at `p`, or `None` where `p` lies outside the grid.
    pub fn try_get(&self, p: Point) -> (r: Option<&T>)
        requires
            self.well_formed(),
        ensures
            r.is_some() == self.in_bounds(p),
            r.is_some() ==> *r.unwrap() == self.cell(p),
    {
        if self.contains(&p) {
            Some(&self.cells[self.idx(&p)])
        } else {
            None
        }
    }

    /// Mutable access to the cell at `p`, or `None` where `p` lies outside the
    /// grid.
    pub fn try_get_mut(&mut self, p: Point) -> (r: Option<&mut T>)
        requires
            old(self).well_formed(),
        ensures
            r.is_some() == old(self).in_bounds(p),
            final(self).width == old(self).width,
            final(self).height == old(self).height,
            match r {
                Some(c) => {
                    &&& *c == old(self).cell(p)
                    &&& final(self).cells@ == old(self).cells@.update(
                        old(self).index_of(p),
                        *final(c),
                    )
                },
                None => *final(self) == *old(self),
            },
    {
        if self.contains(&p) {
            let i = self.idx(&p);
            Some(&mut self.cells[i])
        } else {
            None
        }
    }

    /// Replaces the cell at `p`, which must lie inside the grid.
    pub fn set(&mut self, p: Point, v: T)
        requires
            old(self).well_formed(),
            old(self).in_bounds(p),
        ensures
            final(self).well_formed(),
            final(self).width == old(self).width,
            final(self).height == old(self).height,
            final(self).cells@ == old(self).cells@.update(old(self).index_of(p), v),
    {
        let i = self.idx(&p);
        self.cells.set(i, v);
    }

    /// The orthogonal neighbours of `point` that lie inside the grid, in the
    /// order up, down, left, right. Occupancy is not considered.
    pub fn get_valid_moves(&self, point: Point) -> (r: Vec<Point>)
        requires
            steppable(point),
        ensures
            r@ == self.valid_moves_spec(point),
            forall|q: Point| r@.contains(q) <==> (self.in_bounds(q) && adjacent(point, q)),
    {
        let mut r: Vec<Point> = Vec::new();
        let up = point.step(SnakeDirection::Up);
        let ghost i_up: int = r@.len() as int;
        if self.contains(&up) {
            r.push(up);
        }
        let down = point.step(SnakeDirection::Down);
        let ghost i_down: int = r@.len() as int;
        if self.contains(&down) {
            r.push(down);
        }
        let left = point.step(SnakeDirection::Left);
        let ghost i_left: int = r@.len() as int;
        if self.contains(&left) {
            r.push(left);
        }
        let right = point.step(SnakeDirection::Right);
        let ghost i_right: int = r@.len() as int;
        if self.contains(&right) {
            r.push(right);
        }
        assert forall|q: Point| r@.contains(q) <==> (self.in_bounds(q) && adjacent(point, q)) by {
            if r@.contains(q) {
                let k = choose|k: int| 0 <= k < r@.len() && r@[k] == q;
                assert(q == up || q == down || q == left || q == right);
            }
            if self.in_bounds(q) && adjacent(point, q) {
                if q.x == point.x && q.y == point.y - 1 {
                    assert(r@[i_up] == q);
                } else if q.x == point.x && q.y == point.y + 1 {
                    assert(r@[i_down] == q);
                } else if q.x == point.x - 1 {
                    assert(r@[i_left] == q);
                } else {
                    assert(r@[i_right] == q);
                }
            }
        }
        r
    }

    /// The cell at `p`, which must lie inside the grid.
    pub fn at(&self, p: Point) -> (r: &T)
        requires
            self.well_formed(),
            self.in_bounds(p),
        ensures
            *r == self.cell(p),
    {
        &self.cells[self.idx(&p)]
    }
}

/// Every linear index of a grid maps to a coordinate inside it, and turning
/// that coordinate back into a linear index gives the same index.
pub proof fn lemma_position_round_trip<T>(g: &Grid<T>, i: int)
    requires
        g.well_formed(),
        0 <= i < g.cells@.len(),
    ensures
        g.in_bounds(g.position_of(i)),
        g.index_of(g.position_of(i)) == i,
{
    lemma_position_in_range(g.width as int, g.height as int, i);
}

/// Coordinate `(x, y)` inside a `w` by `h` grid has a linear index below `w * h`.
pub proof fn lemma_index_in_range(w: int, h: int, x: int, y: int)
    requires
        0 <= x < w,
        0 <= y < h,
    ensures
        0 <= w * y + x < w * h,
        w * y == y * w,
{
    assert(w * y == y * w) by (nonlinear_arith);
    assert(w * y + x < w * h) by (nonlinear_arith)
        requires
            0 <= x < w,
            0 <= y < h,
    ;
    assert(0 <= w * y) by (nonlinear_arith)
        requires
            0 <= y,
            0 <= w,
    ;
}

/// Two coordinates inside a grid `w` wide with the same linear index are equal.
pub proof fn lemma_index_injective(w: int, x1: int, y1: int, x2: int, y2: int)
    requires
        0 <= x1 < w,
        0 <= x2 < w,
        0 <= y1,
        0 <= y2,
        w * y1 + x1 == w * y2 + x2,
    ensures
        x1 == x2,
        y1 == y2,
{
    let u = w * y1 + x1;
    assert(w * y1 == y1 * w && w * y2 == y2 * w) by (nonlinear_arith);
    vstd::arithmetic::div_mod::lemma_fundamental_div_mod_converse(u, w, y1, x1);
    vstd::arithmetic::div_mod::lemma_fundamental_div_mod_converse(u, w, y2, x2);
}

/// A linear index below `w * h` maps to a coordinate inside the grid, which
/// maps back to the same index.
pub proof fn lemma_position_in_range(w: int, h: int, i: int)
    requires
        0 <= i < w * h,
        0 < w,
    ensures
        0 <= i % w < w,
        0 <= i / w < h,
        w * (i / w) + i % w == i,
{
    vstd::arithmetic::div_mod::lemma_fundamental_div_mod(i, w);
    vstd::arithmetic::div_mod::lemma_div_pos_is_pos(i, w);
    let q = i / w;
    assert(q < h) by (nonlinear_arith)
        requires
            w * q + i % w == i,
            0 <= i % w,
            i < w * h,
            0 < w,
    ;
}

} // verus!
