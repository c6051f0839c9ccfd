//! A rectangular grid stored row by row in one buffer.

use vstd::prelude::*;

verus! {

/// A cell position: column first, then row.
pub type IndexXY = (usize, usize);

/// A `size_x` by `size_y` grid whose cell `(x, y)` lives at offset `y * size_x + x`.
#[derive(Debug)]
pub struct Vec2D<T> {
    data: Vec<T>,
    size_x: usize,
    size_y: usize,
}

/// Offset of cell `(x, y)` in a row-major buffer whose rows are `width` long.
pub open spec fn offset_of(width: int, x: int, y: int) -> int {
    y * width + x
}

/// Every cell of a row lies inside a buffer that holds `height` rows of `width` cells.
pub proof fn lemma_row_in_bounds(width: int, height: int, y: int)
    by (nonlinear_arith)
    requires
        0 <= width,
        0 <= y < height,
    ensures
        0 <= y * width,
        y * width + width <= width * height,
{
}

fn raw_idx(size_x: usize, idx: IndexXY) -> (r: usize)
    requires
        offset_of(size_x as int, idx.0 as int, idx.1 as int) <= usize::MAX,
    ensures
        r == offset_of(size_x as int, idx.0 as int, idx.1 as int),
{
    assert(0 <= idx.1 * size_x <= idx.1 * size_x + idx.0) by (nonlinear_arith);
    (idx.1 * size_x) + idx.0
}

impl<T> View for Vec2D<T> {
    type V = Seq<T>;

    /// The cells, row after row.
    closed spec fn view(&self) -> Seq<T> {
        self.data@
    }
}

impl<T> Vec2D<T> {
    /// Number of columns.
    pub closed spec fn width(&self) -> usize {
        self.size_x
    }

    /// Number of rows.
    pub closed spec fn height(&self) -> usize {
        self.size_y
    }

    /// The buffer holds exactly one cell per position.
    pub open spec fn wf(&self) -> bool {
        self@.len() == self.width() * self.height()
    }

    /// The cell at column `x` of row `y`.
    pub open spec fn at(&self, x: int, y: int) -> T {
        self@[offset_of(self.width() as int, x, y)]
    }

    /// Row `y` as a sequence of `width()` cells.
    pub open spec fn row(&self, y: int) -> Seq<T> {
        self@.subrange(y * self.width(), y * self.width() + self.width())
    }

    /// Builds a grid whose every cell is a value that `init` produced.
    pub fn new(size_x: usize, size_y: usize, init: impl Fn() -> T) -> (grid: Vec2D<T>)
        requires
            size_x * size_y <= usize::MAX,
            init.requires(()),
        ensures
            grid.wf(),
            grid.width() == size_x,
            grid.height() == size_y,
            forall|i: int| 0 <= i < grid@.len() ==> init.ensures((), #[trigger] grid@[i]),
    {
        let mut data: Vec<T> = Vec::new();
        let total: usize = size_x * size_y;
        let mut i: usize = 0;
        while i < total
            invariant
                i <= total,
                data@.len() == i,
                init.requires(()),
                forall|k: int| 0 <= k < i ==> init.ensures((), #[trigger] data@[k]),
            decreases total - i,
        {
            data.push(init());
            i += 1;
        }
        Vec2D { data, size_x, size_y }
    }

    /// Replaces every cell by a value that `f` produced.
    pub fn fill_with_fn(&mut self, f: impl Fn() -> T)
        requires
            old(self).wf(),
            f.requires(()),
        ensures
            final(self).wf(),
            final(self).width() == old(self).width(),
            final(self).height() == old(self).height(),
            forall|i: int| 0 <= i < final(self)@.len() ==> f.ensures((), #[trigger] final(self)@[i]),
    {
        let total: usize = self.data.len();
        self.data.clear();
        let mut i: usize = 0;
        while i < total
            invariant
                i <= total,
                self.data@.len() == i,
                self.size_x == old(self).size_x,
                self.size_y == old(self).size_y,
                f.requires(()),
                forall|k: int| 0 <= k < i ==> f.ensures((), #[trigger] self.data@[k]),
            decreases total - i,
        {
            self.data.push(f());
            i += 1;
        }
    }

    /// Row `y`, borrowed.
    pub fn get_row(&self, y: usize) -> (r: &[T])
        requires
            self.wf(),
            y < self.height(),
        ensures
            r@ == self.row(y as int),
            r@.len() == self.width(),
    {
        proof {
            lemma_row_in_bounds(self.size_x as int, self.size_y as int, y as int);
            assert(self.data@.len() == self.size_x as int * self.size_y as int);
            assert(self.data@.len() == self.data.len());
        }
        let start: usize = raw_idx(self.size_x, (0, y));
        vstd::slice::slice_subrange(self.data.as_slice(), start, start + self.size_x)
    }

    /// Row `y`, borrowed for writing; the other rows stay as they are.
    pub fn get_row_mut(&mut self, y: usize) -> (r: &mut [T])
        requires
            old(self).wf(),
            y < old(self).height(),
        ensures
            r@ == old(self).row(y as int),
            r@.len() == old(self).width(),
            final(self).width() == old(self).width(),
            final(self).height() == old(self).height(),
            final(self)@ == old(self)@.subrange(
                0,
                y * old(self).width(),
            ) + final(r)@ + old(self)@.subrange(
                y * old(self).width() + old(self).width(),
                old(self)@.len() as int,
            ),
    {
        proof {
            lemma_row_in_bounds(self.size_x as int, self.size_y as int, y as int);
            assert(self.data@.len() == self.size_x as int * self.size_y as int);
            assert(self.data@.len() == self.data.len());
        }
        let start: usize = raw_idx(self.size_x, (0, y));
        let width: usize = self.size_x;
        let whole: &mut [T] = self.data.as_mut_slice();
        let (_, tail) = whole.split_at_mut(start);
        let (row, _) = tail.split_at_mut(width);
        row
    }

    /// All rows from top to bottom, borrowed.
    pub fn row_iter(&self) -> (rows: Vec<&[T]>)
        requires
            self.wf(),
        ensures
            rows@.len() == self.height(),
            forall|y: int| 0 <= y < rows@.len() ==> (#[trigger] rows@[y])@ == self.row(y),
    {
        let mut rows: Vec<&[T]> = Vec::new();
        let mut y: usize = 0;
        while y < self.size_y
            invariant
                self.wf(),
                y <= self.size_y,
                rows@.len() == y,
                forall|k: int| 0 <= k < y ==> (#[trigger] rows@[k])@ == self.row(k),
            decreases self.size_y - y,
        {
            rows.push(self.get_row(y));
            y += 1;
        }
        rows
    }
}

impl<T: Copy> Vec2D<T> {
    /// Overwrites every cell with `f`.
    pub fn fill_with(&mut self, f: T)
        requires
            old(self).wf(),
        ensures
            final(self).wf(),
            final(self).width() == old(self).width(),
            final(self).height() == old(self).height(),
            final(self)@ == Seq::new(old(self)@.len(), |i: int| f),
    {
        let total: usize = self.data.len();
        self.data.clear();
        let mut i: usize = 0;
        while i < total
            invariant
                i <= total,
                self.size_x == old(self).size_x,
                self.size_y == old(self).size_y,
                self.data@ == Seq::new(i as nat, |k: int| f),
            decreases total - i,
        {
            self.data.push(f);
            i += 1;
            assert(self.data@ =~= Seq::new(i as nat, |k: int| f));
        }
    }
}

impl<T> Vec2D<T> {
    /// The cell at column `idx.0` of row `idx.1`, borrowed.
    pub fn index(&self, idx: IndexXY) -> (cell: &T)
        requires
            self.wf(),
            idx.0 < self.width(),
            idx.1 < self.height(),
        ensures
            *cell == self.at(idx.0 as int, idx.1 as int),
    {
        proof {
            lemma_row_in_bounds(self.size_x as int, self.size_y as int, idx.1 as int);
            assert(self.data@.len() == self.data.len());
        }
        &self.data[raw_idx(self.size_x, idx)]
    }

    /// The cell at column `idx.0` of row `idx.1`, borrowed for writing; no other cell changes.
    pub fn index_mut(&mut self, idx: IndexXY) -> (cell: &mut T)
        requires
            old(self).wf(),
            idx.0 < old(self).width(),
            idx.1 < old(self).height(),
        ensures
            *cell == old(self).at(idx.0 as int, idx.1 as int),
            final(self).width() == old(self).width(),
            final(self).height() == old(self).height(),
            final(self)@ == old(self)@.update(
                offset_of(old(self).width() as int, idx.0 as int, idx.1 as int),
                *final(cell),
            ),
    {
        proof {
            lemma_row_in_bounds(self.size_x as int, self.size_y as int, idx.1 as int);
            assert(self.data@.len() == self.data.len());
        }
        let i: usize = raw_idx(self.size_x, idx);
        &mut self.data[i]
    }
}

} // verus!
