//! The character grid that a frame is drawn on.

use vstd::prelude::*;

verus! {

/// The character of a cell that nothing was drawn on.
pub const BLANK: char = ' ';

/// The character of a cell that a line passes through.
pub const GLYPH: char = '#';

/// A grid of `height` rows by `width` columns, stored row by row. Each cell
/// is either blank or marked with the glyph.
pub struct Grid {
    width: usize,
    height: usize,
    cells: Vec<char>,
}

impl Grid {
    /// The storage holds one character for each cell, and every character
    /// is the blank or the glyph. Every grid that this module hands out is
    /// well formed.
    pub closed spec fn wf(&self) -> bool {
        &&& self.cells@.len() == self.width * self.height
        &&& forall|i: int|
            0 <= i < self.cells@.len() ==> {
                let c = #[trigger] self.cells@[i];
                c == BLANK || c == GLYPH
            }
    }

    /// The number of columns.
    pub closed spec fn cols(&self) -> nat {
        self.width as nat
    }

    /// The number of rows.
    pub closed spec fn rows(&self) -> nat {
        self.height as nat
    }

    /// Whether column `x` of row `y` lies on the grid.
    pub open spec fn contains(&self, x: int, y: int) -> bool {
        0 <= x < self.cols() && 0 <= y < self.rows()
    }

    /// Whether the cell in column `x` of row `y` is on the grid and marked.
    pub closed spec fn marked(&self, x: int, y: int) -> bool {
        &&& 0 <= x < self.width
        &&& 0 <= y < self.height
        &&& y * self.width + x < self.cells@.len()
        &&& self.cells@[y * self.width + x] == GLYPH
    }

    /// The marked cells, each as column and row.
    pub open spec fn marked_cells(&self) -> Set<(int, int)> {
        Set::new(|cell: (int, int)| self.marked(cell.0, cell.1))
    }

    /// The characters of row `y`, from the first column to the last.
    pub open spec fn row_chars(&self, y: int) -> Seq<char> {
        Seq::new(
            self.cols(),
            |x: int|
                if self.marked(x, y) {
                    GLYPH
                } else {
                    BLANK
                },
        )
    }

    /// The marked cells that come before place `end` of the storage.
    spec fn marked_before(&self, end: int) -> Set<(int, int)> {
        Set::new(
            |cell: (int, int)| self.marked(cell.0, cell.1) && cell.1 * self.width + cell.0 < end,
        )
    }

    /// A grid of the given size with every cell blank.
    pub fn new(width: usize, height: usize) -> (grid: Grid)
        requires
            width * height <= usize::MAX,
        ensures
            grid.wf(),
            grid.cols() == width,
            grid.rows() == height,
            forall|x: int, y: int| !grid.marked(x, y),
    {
        let total: usize = width * height;
        let mut cells: Vec<char> = Vec::new();
        let mut i: usize = 0;
        while i < total
            invariant
                i <= total,
                cells@.len() == i,
                forall|j: int| 0 <= j < i ==> #[trigger] cells@[j] == BLANK,
            decreases total - i,
        {
            cells.push(BLANK);
            i += 1;
        }
        Grid { width, height, cells }
    }

    /// Marks the cell in column `x` of row `y`.
    pub fn mark(&mut self, x: usize, y: usize)
        requires
            old(self).wf(),
            old(self).contains(x as int, y as int),
        ensures
            final(self).wf(),
            final(self).cols() == old(self).cols(),
            final(self).rows() == old(self).rows(),
            forall|i: int, j: int|
                final(self).marked(i, j) <==> old(self).marked(i, j) || (i == x && j == y),
    {
        let len: usize = self.cells.len();
        proof {
            lemma_cell_index(x as int, y as int, self.width as int, self.height as int);
            assert(y * self.width + x < len);
        }
        let at: usize = y * self.width + x;
        self.cells.set(at, GLYPH);
        proof {
            assert forall|i: int, j: int|
                self.marked(i, j) <==> old(self).marked(i, j) || (i == x && j == y) by {
                if 0 <= i < self.width && 0 <= j < self.height {
                    lemma_cell_index(i, j, self.width as int, self.height as int);
                    lemma_cell_index_injective(i, j, x as int, y as int, self.width as int);
                }
            }
        }
    }

    /// Marks the cell in column `x` of row `y` if it lies on the grid, and
    /// leaves the grid as it is otherwise.
    pub fn plot(&mut self, x: i64, y: i64)
        requires
            old(self).wf(),
        ensures
            final(self).wf(),
            final(self).cols() == old(self).cols(),
            final(self).rows() == old(self).rows(),
            forall|i: int, j: int|
                final(self).marked(i, j) <==> old(self).marked(i, j) || (i == x && j == y
                    && old(self).contains(i, j)),
    {
        if x >= 0 && y >= 0 && (x as u64) < (self.width as u64) && (y as u64) < (self.height as u64) {
            self.mark(x as usize, y as usize);
        }
    }

    /// The number of columns.
    pub fn width(&self) -> (width: usize)
        ensures
            width == self.cols(),
    {
        self.width
    }

    /// The number of rows.
    pub fn height(&self) -> (height: usize)
        ensures
            height == self.rows(),
    {
        self.height
    }

    /// Whether the cell in column `x` of row `y` is marked. No cell off the
    /// grid is.
    pub fn is_marked(&self, x: usize, y: usize) -> (marked: bool)
        requires
            self.wf(),
        ensures
            marked == self.marked(x as int, y as int),
    {
        if x < self.width && y < self.height {
            let len: usize = self.cells.len();
            proof {
                lemma_cell_index(x as int, y as int, self.width as int, self.height as int);
                assert(y * self.width + x < len);
            }
            self.cells[y * self.width + x] == GLYPH
        } else {
            false
        }
    }

    /// The number of marked cells.
    pub fn marked_count(&self) -> (count: usize)
        requires
            self.wf(),
        ensures
            self.marked_cells().finite(),
            count == self.marked_cells().len(),
    {
        let len: usize = self.cells.len();
        let mut count: usize = 0;
        let mut i: usize = 0;
        proof {
            assert(self.marked_before(0) =~= Set::empty()) by {
                assert forall|cell: (int, int)| !self.marked_before(0).contains(cell) by {
                    if self.marked(cell.0, cell.1) {
                        lemma_cell_index(cell.0, cell.1, self.width as int, self.height as int);
                    }
                }
            }
        }
        while i < len
            invariant
                self.wf(),
                len == self.cells@.len(),
                i <= len,
                count <= i,
                self.marked_before(i as int).finite(),
                count == self.marked_before(i as int).len(),
            decreases len - i,
        {
            proof {
                self.lemma_marked_before_next(i as int);
            }
            if self.cells[i] == GLYPH {
                count += 1;
            }
            i += 1;
        }
        proof {
            assert(self.marked_before(len as int) =~= self.marked_cells()) by {
                assert forall|cell: (int, int)| self.marked_cells().contains(cell) implies cell.1
                    * self.width + cell.0 < len by {
                    lemma_cell_index(cell.0, cell.1, self.width as int, self.height as int);
                }
            }
        }
        count
    }

    /// Row `y` as text: one character for each column.
    pub fn row_text(&self, y: usize) -> (text: String)
        requires
            self.wf(),
            y < self.rows(),
        ensures
            text@ == self.row_chars(y as int),
    {
        let mut text = String::new();
        let mut x: usize = 0;
        while x < self.width
            invariant
                self.wf(),
                y < self.rows(),
                x <= self.width,
                text@.len() == x,
                forall|i: int| 0 <= i < x ==> #[trigger] text@[i] == self.row_chars(y as int)[i],
            decreases self.width - x,
        {
            proof {
                reveal_strlit("#");
                reveal_strlit(" ");
            }
            if self.is_marked(x, y) {
                text.append("#");
            } else {
                text.append(" ");
            }
            x += 1;
        }
        assert(text@ =~= self.row_chars(y as int));
        text
    }

    /// The grid as text, one line for each row from the first to the last.
    pub fn lines(&self) -> (lines: Vec<String>)
        requires
            self.wf(),
        ensures
            lines@.len() == self.rows(),
            forall|y: int| 0 <= y < self.rows() ==> (#[trigger] lines@[y])@ == self.row_chars(y),
    {
        let mut lines: Vec<String> = Vec::new();
        let mut y: usize = 0;
        while y < self.height
            invariant
                self.wf(),
                y <= self.height,
                lines@.len() == y,
                forall|j: int| 0 <= j < y ==> (#[trigger] lines@[j])@ == self.row_chars(j),
            decreases self.height - y,
        {
            let text = self.row_text(y);
            lines.push(text);
            y += 1;
        }
        lines
    }

    /// Nothing is ever marked off the grid.
    pub proof fn law_marked_cells_are_on_the_grid(&self, x: int, y: int)
        ensures
            self.marked(x, y) ==> self.contains(x, y),
    {
    }

    /// The marked cells before place `at + 1` are those before place `at`,
    /// and the cell at that place if it is marked.
    proof fn lemma_marked_before_next(&self, at: int)
        requires
            self.wf(),
            0 <= at < self.cells@.len(),
            self.marked_before(at).finite(),
        ensures
            self.marked_before(at + 1).finite(),
            self.marked_before(at + 1).len() == self.marked_before(at).len() + if self.cells@[at]
                == GLYPH {
                1int
            } else {
                0int
            },
    {
        let width = self.width as int;
        let height = self.height as int;
        assert(width > 0 && height > 0) by (nonlinear_arith)
            requires
                0 <= at < width * height,
                0 <= width,
                0 <= height,
        ;
        let x = at % width;
        let y = at / width;
        vstd::arithmetic::div_mod::lemma_fundamental_div_mod(at, width);
        vstd::arithmetic::div_mod::lemma_mod_bound(at, width);
        assert(y * width + x == at) by (nonlinear_arith)
            requires
                at == width * y + x,
        ;
        assert(0 <= y < height) by (nonlinear_arith)
            requires
                0 <= y * width + x < width * height,
                0 <= x < width,
        ;
        assert forall|cell: (int, int)|
            self.marked(cell.0, cell.1) && cell.1 * width + cell.0 == at implies cell == (x, y) by {
            lemma_cell_index_injective(cell.0, cell.1, x, y, width);
        }
        if self.cells@[at] == GLYPH {
            assert(self.marked(x, y));
            assert(self.marked_before(at + 1) =~= self.marked_before(at).insert((x, y)));
        } else {
            assert(self.marked_before(at + 1) =~= self.marked_before(at));
        }
    }
}

/// A cell of a `width` by `height` grid has its place inside the row-major
/// storage.
proof fn lemma_cell_index(x: int, y: int, width: int, height: int)
    requires
        0 <= x < width,
        0 <= y < height,
    ensures
        0 <= y * width + x < width * height,
        0 <= y * width <= y * width + x,
{
    assert(y * width + x < width * height) by (nonlinear_arith)
        requires
            0 <= x < width,
            0 <= y < height,
    ;
    assert(0 <= y * width) by (nonlinear_arith)
        requires
            0 <= y,
            0 < width,
    ;
}

/// Two cells have the same place in the storage only if they are the same
/// cell.
proof fn lemma_cell_index_injective(x1: int, y1: int, x2: int, y2: int, width: int)
    requires
        0 <= x1 < width,
        0 <= x2 < width,
    ensures
        y1 * width + x1 == y2 * width + x2 <==> x1 == x2 && y1 == y2,
{
    if y1 * width + x1 == y2 * width + x2 {
        assert(y1 == y2) by (nonlinear_arith)
            requires
                0 <= x1 < width,
                0 <= x2 < width,
                y1 * width + x1 == y2 * width + x2,
        ;
    }
}

} // verus!
