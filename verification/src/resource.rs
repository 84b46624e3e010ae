//! Square grid of resource cells, addressed by cell coordinates.

use vstd::prelude::*;

verus! {

/// A `width` by `height` grid of cells over a scalar type `T`, stored row by
/// row.
#[derive(Debug)]
pub struct ResourceField<T> {
    width: usize,
    height: usize,
    data: Vec<T>,
}

impl<T> View for ResourceField<T> {
    type V = Seq<T>;

    closed spec fn view(&self) -> Seq<T> {
        self.data@
    }
}

/// The coordinate that a request for `c` reaches in a row or column of
/// `extent` cells: `c` itself, or the last cell when `c` lies beyond it.
pub open spec fn clamp_coord(c: int, extent: int) -> int {
    if c < extent - 1 {
        c
    } else {
        extent - 1
    }
}

impl<T: Copy> ResourceField<T> {
    /// Number of cells in a row.
    pub closed spec fn spec_width(&self) -> nat {
        self.width as nat
    }

    /// Number of rows.
    pub closed spec fn spec_height(&self) -> nat {
        self.height as nat
    }

    /// The grid holds exactly `width * height` cells.
    pub open spec fn wf(&self) -> bool {
        self@.len() == self.spec_width() * self.spec_height()
    }

    /// Position in the row-major store of the cell that `(cx, cy)` reaches.
    pub open spec fn cell_index(&self, cx: int, cy: int) -> int {
        clamp_coord(cy, self.spec_height() as int) * self.spec_width() + clamp_coord(
            cx,
            self.spec_width() as int,
        )
    }

    /// The cell index of any request lies inside a non-empty grid.
    pub proof fn lemma_cell_index_in_range(&self, cx: int, cy: int)
        requires
            self.wf(),
            self.spec_width() >= 1,
            self.spec_height() >= 1,
            0 <= cx,
            0 <= cy,
        ensures
            0 <= self.cell_index(cx, cy) < self@.len(),
    {
        let w = self.spec_width() as int;
        let h = self.spec_height() as int;
        let x = clamp_coord(cx, w);
        let y = clamp_coord(cy, h);
        assert(y * w + x < h * w) by (nonlinear_arith)
            requires
                0 <= x < w,
                0 <= y < h,
        ;
    }

    /// A square grid of `width * width` cells, each holding `initial_value`.
    pub fn new(width: usize, initial_value: T) -> (field: Self)
        requires
            width * width <= usize::MAX,
        ensures
            field.wf(),
            field.spec_width() == width,
            field.spec_height() == width,
            field@ == Seq::new((width * width) as nat, |i: int| initial_value),
    {
        let cells: usize = width * width;
        let mut data: Vec<T> = Vec::with_capacity(cells);
        let mut k: usize = 0;
        while k < cells
            invariant
                k <= cells,
                data@ == Seq::new(k as nat, |i: int| initial_value),
            decreases cells - k,
        {
            data.push(initial_value);
            k = k + 1;
        }
        ResourceField { width, height: width, data }
    }

    /// Number of cells in a row.
    pub fn width(&self) -> (w: usize)
        ensures
            w == self.spec_width(),
    {
        self.width
    }

    /// Number of rows.
    pub fn height(&self) -> (h: usize)
        ensures
            h == self.spec_height(),
    {
        self.height
    }

    /// The cell that `(cx, cy)` reaches; coordinates beyond the last row or
    /// column reach the last one.
    pub fn get(&self, cx: usize, cy: usize) -> (value: T)
        requires
            self.wf(),
            self.spec_width() >= 1,
            self.spec_height() >= 1,
        ensures
            value == self@[self.cell_index(cx as int, cy as int)],
    {
        proof {
            self.lemma_cell_index_in_range(cx as int, cy as int);
            assert(self.data@.len() == self.data.len());
        }
        let x: usize = if cx < self.width - 1 { cx } else { self.width - 1 };
        let y: usize = if cy < self.height - 1 { cy } else { self.height - 1 };
        self.data[y * self.width + x]
    }

    /// Stores `value` in the cell that `(cx, cy)` reaches and leaves every
    /// other cell as it was.
    pub fn set(&mut self, cx: usize, cy: usize, value: T)
        requires
            old(self).wf(),
            old(self).spec_width() >= 1,
            old(self).spec_height() >= 1,
        ensures
            final(self).wf(),
            final(self).spec_width() == old(self).spec_width(),
            final(self).spec_height() == old(self).spec_height(),
            final(self)@ == old(self)@.update(old(self).cell_index(cx as int, cy as int), value),
    {
        proof {
            self.lemma_cell_index_in_range(cx as int, cy as int);
            assert(self.data@.len() == self.data.len());
        }
        let x: usize = if cx < self.width - 1 { cx } else { self.width - 1 };
        let y: usize = if cy < self.height - 1 { cy } else { self.height - 1 };
        let at: usize = y * self.width + x;
        self.data[at] = value;
    }

    /// Every cell, row after row.
    pub fn cells(&self) -> (r: &[T])
        ensures
            r@ == self@,
    {
        self.data.as_slice()
    }

    /// Stores `value` in the cell at position `index` of the row-major store.
    pub fn set_at(&mut self, index: usize, value: T)
        requires
            index < old(self)@.len(),
        ensures
            final(self)@ == old(self)@.update(index as int, value),
            final(self).spec_width() == old(self).spec_width(),
            final(self).spec_height() == old(self).spec_height(),
            old(self).wf() ==> final(self).wf(),
    {
        self.data[index] = value;
    }
}

impl<T: Copy> Clone for ResourceField<T> {
    /// The copy has the same extent and the same cells.
    fn clone(&self) -> (field: Self)
        ensures
            field@ == self@,
            field.spec_width() == self.spec_width(),
            field.spec_height() == self.spec_height(),
    {
        let mut data: Vec<T> = Vec::with_capacity(self.data.len());
        let mut k: usize = 0;
        while k < self.data.len()
            invariant
                k <= self.data@.len(),
                data@ == self.data@.subrange(0, k as int),
            decreases self.data@.len() - k,
        {
            data.push(self.data[k]);
            k = k + 1;
        }
        ResourceField { width: self.width, height: self.height, data }
    }
}

} // verus!
