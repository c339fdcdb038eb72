use rayon::iter::{IntoParallelRefMutIterator, ParallelIterator};
use vstd::prelude::*;

verus! {

/// How many particle indices one cell holds; further additions are dropped.
pub const CELL_CAPACITY: usize = 4;

/// The largest width or height a grid may have, so that every coordinate fits an `i16`.
pub const MAX_DIM: u16 = 32767;

/// A fixed-capacity bucket of particle indices.
#[derive(Clone, Copy, Debug)]
pub struct Cell {
    objects: [usize; 4],
    len: u8,
}

impl View for Cell {
    type V = Seq<usize>;

    closed spec fn view(&self) -> Seq<usize> {
        self.objects@.subrange(0, self.len as int)
    }
}

impl Cell {
    pub closed spec fn wf(&self) -> bool {
        self.len <= 4
    }

    fn new() -> (r: Cell)
        ensures
            r.wf(),
            r@ == Seq::<usize>::empty(),
    {
        let r = Cell { objects: [0; 4], len: 0 };
        assert(r@ =~= Seq::<usize>::empty());
        r
    }

    fn add(&mut self, index: usize)
        requires
            old(self).wf(),
        ensures
            final(self).wf(),
            final(self)@ == (if old(self)@.len() < 4 {
                old(self)@.push(index)
            } else {
                old(self)@
            }),
    {
        if (self.len as usize) < CELL_CAPACITY {
            let n = self.len as usize;
            self.objects[n] = index;
            self.len = self.len + 1;
            assert(self@ =~= old(self)@.push(index));
        }
    }

    fn clear(&mut self)
        requires
            old(self).wf(),
        ensures
            final(self).wf(),
            final(self)@ == Seq::<usize>::empty(),
            final(self).objects == old(self).objects,
    {
        self.len = 0;
        assert(self@ =~= Seq::<usize>::empty());
    }

    /// The indices held, in the order they were added.
    pub fn iter(&self) -> (r: Vec<usize>)
        requires
            self.wf(),
        ensures
            r@ == self@,
    {
        let mut r: Vec<usize> = Vec::new();
        let n = self.len as usize;
        let mut i: usize = 0;
        while i < n
            invariant
                self.wf(),
                n == self.len,
                i <= n,
                r@ == self@.subrange(0, i as int),
            decreases n - i,
        {
            r.push(self.objects[i]);
            i = i + 1;
            assert(r@ =~= self@.subrange(0, i as int));
        }
        assert(r@ =~= self@);
        r
    }
}

/// Relies on rayon's `par_iter_mut().for_each`, which applies the closure to
/// every element of the vector exactly once.
#[verifier::external_body]
fn clear_all(cells: &mut Vec<Cell>)
    requires
        forall|i: int| 0 <= i < old(cells)@.len() ==> (#[trigger] old(cells)@[i]).wf(),
    ensures
        final(cells)@.len() == old(cells)@.len(),
        forall|i: int|
            0 <= i < final(cells)@.len() ==> (#[trigger] final(cells)@[i]).wf()
                && final(cells)@[i]@ == Seq::<usize>::empty(),
{
    cells.par_iter_mut().for_each(|c| c.clear());
}

/// What the cell of `coords` holds once `n` indices have been added in order:
/// the first four `i < n` whose coordinates fall in cell `c` of a grid `w` cells wide.
pub open spec fn bucket(coords: Seq<(usize, usize)>, w: int, n: int, c: int) -> Seq<usize>
    decreases n,
{
    if n <= 0 {
        Seq::empty()
    } else {
        let b = bucket(coords, w, n - 1, c);
        let (x, y) = coords[n - 1];
        if y * w + x == c && b.len() < 4 {
            b.push((n - 1) as usize)
        } else {
            b
        }
    }
}

/// A uniform lattice of cells, one per unit square of the simulation bounds.
pub struct Grid {
    width: i16,
    height: i16,
    cells: Vec<Cell>,
    empty: Cell,
}

impl View for Grid {
    type V = Seq<Seq<usize>>;

    closed spec fn view(&self) -> Seq<Seq<usize>> {
        Seq::new(self.cells@.len(), |i: int| self.cells@[i]@)
    }
}

impl Grid {
    pub closed spec fn spec_width(&self) -> int {
        self.width as int
    }

    pub closed spec fn spec_height(&self) -> int {
        self.height as int
    }

    pub closed spec fn wf(&self) -> bool {
        &&& 0 <= self.width <= MAX_DIM
        &&& 0 <= self.height <= MAX_DIM
        &&& self.cells@.len() == self.width * self.height
        &&& forall|i: int| 0 <= i < self.cells@.len() ==> (#[trigger] self.cells@[i]).wf()
        &&& self.empty.wf()
        &&& self.empty@ == Seq::<usize>::empty()
    }

    /// One cell per unit square of the bounds.
    pub proof fn lemma_view_len(&self)
        requires
            self.wf(),
        ensures
            self@.len() == self.spec_width() * self.spec_height(),
            0 <= self.spec_width() <= MAX_DIM,
            0 <= self.spec_height() <= MAX_DIM,
    {
    }

    /// What the neighbour lookup sees at column `x`, row `y`: that cell's
    /// indices, or nothing outside the grid.
    pub open spec fn cell_at(&self, x: int, y: int) -> Seq<usize> {
        if 0 <= x < self.spec_width() && 0 <= y < self.spec_height() {
            self@[y * self.spec_width() + x]
        } else {
            Seq::empty()
        }
    }

    /// A grid of `width` by `height` empty cells.
    pub fn new(width: u16, height: u16) -> (r: Grid)
        requires
            width <= MAX_DIM,
            height <= MAX_DIM,
        ensures
            r.wf(),
            r.spec_width() == width,
            r.spec_height() == height,
            r@.len() == width * height,
            forall|i: int| 0 <= i < r@.len() ==> #[trigger] r@[i] == Seq::<usize>::empty(),
    {
        proof {
            assert((width as int) * (height as int) <= 32767 * 32767) by (nonlinear_arith)
                requires
                    width <= 32767,
                    height <= 32767,
            ;
        }
        let area = width as usize * height as usize;
        let mut cells: Vec<Cell> = Vec::with_capacity(area);
        let mut i: usize = 0;
        while i < area
            invariant
                i <= area,
                cells@.len() == i,
                forall|j: int|
                    0 <= j < i ==> (#[trigger] cells@[j]).wf() && cells@[j]@ == Seq::<
                        usize,
                    >::empty(),
            decreases area - i,
        {
            cells.push(Cell::new());
            i = i + 1;
        }
        Grid { width: width as i16, height: height as i16, cells, empty: Cell::new() }
    }

    /// Width in cells.
    pub fn width(&self) -> (r: usize)
        requires
            self.wf(),
        ensures
            r == self.spec_width(),
    {
        self.width as usize
    }

    /// Height in cells.
    pub fn height(&self) -> (r: usize)
        requires
            self.wf(),
        ensures
            r == self.spec_height(),
    {
        self.height as usize
    }

    /// Number of cells.
    pub fn cell_count(&self) -> (r: usize)
        requires
            self.wf(),
        ensures
            r == self@.len(),
            r == self.spec_width() * self.spec_height(),
    {
        self.cells.len()
    }

    /// The cell at flat index `i`.
    pub fn cell(&self, i: usize) -> (r: &Cell)
        requires
            self.wf(),
            i < self@.len(),
        ensures
            r.wf(),
            r@ == self@[i as int],
    {
        &self.cells[i]
    }

    fn get_index(&self, x: usize, y: usize) -> (r: usize)
        requires
            self.wf(),
            x < self.spec_width(),
            y < self.spec_height(),
        ensures
            r == y * self.spec_width() + x,
            r < self@.len(),
    {
        let w = self.width as usize;
        let h = self.height as usize;
        let n = self.cells.len();
        proof {
            assert(y * w + x < w * h) by (nonlinear_arith)
                requires
                    x < w,
                    y < h,
            ;
            assert(w * h == self.cells@.len());
            assert(y * w + x < self.cells@.len());
            assert(0 <= y * w) by (nonlinear_arith)
                requires
                    0 <= y,
                    0 <= w,
            ;
        }
        y * w + x
    }

    /// Adds particle `index` to the cell at column `x`, row `y`, unless that
    /// cell is already full.
    pub fn add_index(&mut self, index: usize, x: usize, y: usize)
        requires
            old(self).wf(),
            x < old(self).spec_width(),
            y < old(self).spec_height(),
        ensures
            final(self).wf(),
            final(self).spec_width() == old(self).spec_width(),
            final(self).spec_height() == old(self).spec_height(),
            ({
                let c = y * old(self).spec_width() + x;
                let b = old(self)@[c];
                final(self)@ == old(self)@.update(c, if b.len() < 4 { b.push(index) } else { b })
            }),
    {
        let c = self.get_index(x, y);
        let mut cell = self.cells[c];
        cell.add(index);
        self.cells.set(c, cell);
        let ghost b = old(self)@[c as int];
        assert(self@ =~= old(self)@.update(c as int, if b.len() < 4 { b.push(index) } else { b }));
    }

    /// Empties every cell.
    pub fn clear(&mut self)
        requires
            old(self).wf(),
        ensures
            final(self).wf(),
            final(self).spec_width() == old(self).spec_width(),
            final(self).spec_height() == old(self).spec_height(),
            final(self)@.len() == old(self)@.len(),
            forall|i: int| 0 <= i < final(self)@.len() ==> #[trigger] final(self)@[i] == Seq::<usize>::empty(),
    {
        clear_all(&mut self.cells);
    }

    /// The cell at column `x`, row `y`, or the shared empty cell outside the grid.
    fn get_cell(&self, x: i32, y: i32) -> (r: &Cell)
        requires
            self.wf(),
        ensures
            r.wf(),
            r@ == self.cell_at(x as int, y as int),
    {
        if x < 0 || y < 0 || x >= self.width as i32 || y >= self.height as i32 {
            &self.empty
        } else {
            let i = self.get_index(x as usize, y as usize);
            &self.cells[i]
        }
    }

    /// The 3×3 neighbourhood of the cell at flat index `index`, row by row
    /// from the upper left; neighbours outside the grid read as empty.
    pub fn get_nearby_cells(&self, index: usize) -> (r: [&Cell; 9])
        requires
            self.wf(),
            index < self@.len(),
        ensures
            forall|k: int| 0 <= k < 9 ==> (#[trigger] r@[k]).wf(),
            forall|k: int|
                0 <= k < 9 ==> (#[trigger] r@[k])@ == self.cell_at(
                    index as int % self.spec_width() + k % 3 - 1,
                    index as int / self.spec_width() + k / 3 - 1,
                ),
    {
        let w = self.width as usize;
        let h = self.height as usize;
        proof {
            if w == 0 {
                assert(self.cells@.len() == 0) by (nonlinear_arith)
                    requires
                        self.cells@.len() == self.width * self.height,
                        self.width == 0,
                ;
            }
            assert(index / w < h) by (nonlinear_arith)
                requires
                    w > 0,
                    index < w * h,
            ;
        }
        let x = (index % w) as i32;
        let y = (index / w) as i32;
        [
            self.get_cell(x - 1, y - 1),
            self.get_cell(x, y - 1),
            self.get_cell(x + 1, y - 1),
            self.get_cell(x - 1, y),
            self.get_cell(x, y),
            self.get_cell(x + 1, y),
            self.get_cell(x - 1, y + 1),
            self.get_cell(x, y + 1),
            self.get_cell(x + 1, y + 1),
        ]
    }
}

} // verus!
