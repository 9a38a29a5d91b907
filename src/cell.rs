use vstd::prelude::*;

use crate::grid::Grid;

verus! {

/// What occupies one cell of the board. `Apple` is part of the model but no
/// operation of this library places one.
#[derive(Clone, Copy, Debug, PartialEq, Eq, Structural)]
pub enum CellState {
    Snake,
    Empty,
    Apple,
}

/// The single character that stands for a cell in the text snapshot.
pub open spec fn glyph(c: CellState) -> char {
    match c {
        CellState::Snake => '#',
        CellState::Empty => '-',
        CellState::Apple => '*',
    }
}

/// The glyphs of a run of cells.
pub open spec fn glyphs(cells: Seq<CellState>) -> Seq<char> {
    cells.map_values(|c: CellState| glyph(c))
}

/// The text of the first `rows` rows of a grid `width` cells wide: each row's
/// glyphs followed by a newline.
pub open spec fn rows_text(cells: Seq<CellState>, width: int, rows: int) -> Seq<char>
    decreases rows,
{
    if rows <= 0 {
        Seq::empty()
    } else {
        rows_text(cells, width, rows - 1) + glyphs(cells.subrange((rows - 1) * width, rows * width))
            + seq!['\n']
    }
}

impl CellState {
    /// The glyph of this cell as a string.
    pub fn glyph_str(&self) -> (r: &'static str)
        ensures
            r@ == seq![glyph(*self)],
    {
        match self {
            CellState::Snake => {
                proof {
                    reveal_strlit("#");
                }
                "#"
            },
            CellState::Empty => {
                proof {
                    reveal_strlit("-");
                }
                "-"
            },
            CellState::Apple => {
                proof {
                    reveal_strlit("*");
                }
                "*"
            },
        }
    }
}

impl Grid<CellState> {
    /// The text snapshot of the whole grid, rows top to bottom.
    pub open spec fn text(&self) -> Seq<char> {
        rows_text(self.cells@, self.width as int, self.height as int)
    }

    /// A `width` by `height` grid with every cell `Empty`.
    pub fn new_empty(width: usize, height: usize) -> (r: Grid<CellState>)
        requires
            width <= i32::MAX,
            height <= i32::MAX,
            width * height <= usize::MAX,
        ensures
            r.well_formed(),
            r.width == width,
            r.height == height,
            forall|i: int| 0 <= i < r.cells@.len() ==> r.cells@[i] == CellState::Empty,
    {
        let size = width * height;
        let mut cells: Vec<CellState> = Vec::new();
        let mut i: usize = 0;
        while i < size
            invariant
                i <= size,
                cells@.len() == i,
                forall|j: int| 0 <= j < i ==> cells@[j] == CellState::Empty,
            decreases size - i,
        {
            cells.push(CellState::Empty);
            i = i + 1;
        }
        Grid { width, height, cells }
    }

    /// One line per row, top to bottom, one glyph per cell (`#` snake, `-`
    /// empty, `*` apple), each line ended by a newline.
    pub fn render(&self) -> (r: String)
        requires
            self.well_formed(),
        ensures
            r@ == self.text(),
    {
        // The vector's length is a `usize`, which bounds every index below.
        let n = self.cells.len();
        let mut s = String::new();
        let mut row: usize = 0;
        while row < self.height
            invariant
                self.well_formed(),
                n == self.cells@.len(),
                row <= self.height,
                s@ == rows_text(self.cells@, self.width as int, row as int),
            decreases self.height - row,
        {
            let ghost w = self.width as int;
            proof {
                assert(0 <= row * w && row * w + w <= w * self.height) by (nonlinear_arith)
                    requires
                        0 <= row < self.height,
                        0 <= w,
                ;
                assert(w * row == row * w) by (nonlinear_arith);
            }
            let start: usize = row * self.width;
            let mut col: usize = 0;
            while col < self.width
                invariant
                    self.well_formed(),
                    n == self.cells@.len(),
                    row < self.height,
                    col <= self.width,
                    start == row * w,
                    w == self.width,
                    start + w <= self.cells@.len(),
                    s@ == rows_text(self.cells@, w, row as int) + glyphs(
                        self.cells@.subrange(start as int, start + col),
                    ),
                decreases self.width - col,
            {
                let c = self.cells[start + col];
                s.append(c.glyph_str());
                col = col + 1;
                proof {
                    assert(self.cells@.subrange(start as int, start + col) =~= self.cells@.subrange(
                        start as int,
                        start + col - 1,
                    ).push(c));
                    assert(glyphs(self.cells@.subrange(start as int, start + col)) =~= glyphs(
                        self.cells@.subrange(start as int, start + col - 1),
                    ).push(glyph(c)));
                }
            }
            proof {
                reveal_strlit("\n");
            }
            s.append("\n");
            row = row + 1;
            proof {
                assert((row - 1) * w == start && row * w == start + w) by (nonlinear_arith)
                    requires
                        start == (row - 1) * w,
                ;
                assert(s@ =~= rows_text(self.cells@, w, row as int));
            }
        }
        s
    }
}

impl Default for Grid<CellState> {
    /// A ten by ten grid of `Empty` cells.
    fn default() -> (r: Grid<CellState>)
        ensures
            r.well_formed(),
            r.width == 10,
            r.height == 10,
            forall|i: int| 0 <= i < r.cells@.len() ==> r.cells@[i] == CellState::Empty,
    {
        Grid::new_empty(10, 10)
    }
}

} // verus!
