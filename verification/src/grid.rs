use vstd::prelude::*;

verus! {

/// One grid cell: a three-valued ("database") boolean.
#[derive(Clone, Copy, Debug, PartialEq, Eq, Structural)]
pub enum Ternary {
    True,
    False,
    Unset,
}

/// Failures of grid construction and cell access.
#[derive(Clone, Copy, Debug, PartialEq, Eq, Structural)]
pub enum GridError {
    InvalidDimensions,
    OutOfBounds,
}

/// A two-dimensional grid of ternary cells, stored row-major:
/// the cell at column `x`, row `y` sits at index `y * width + x`.
#[derive(Clone, Debug, PartialEq, Eq)]
pub struct Image {
    pub width: u32,
    pub height: u32,
    pub pixels: Vec<Ternary>,
}

/// A cell coordinate `(x, y)` inside a `w`-by-`h` grid maps to a
/// row-major index below `w * h`.
pub proof fn lemma_cell_index(x: int, y: int, w: int, h: int)
    requires
        0 <= x < w,
        0 <= y < h,
    ensures
        0 <= y * w + x < w * h,
{
    assert(0 <= y * w + x < w * h) by (nonlinear_arith)
        requires
            0 <= x < w,
            0 <= y < h,
    ;
}

impl Image {
    /// Shape invariant: the cell vector holds exactly `width * height` entries.
    pub open spec fn wf(self) -> bool {
        self.pixels@.len() == self.width * self.height
    }

    /// The cell at column `x`, row `y`.
    pub open spec fn cell(self, x: int, y: int) -> Ternary {
        self.pixels@[y * self.width + x]
    }

    /// A grid with every cell `Unset`.
    pub fn new(width: u32, height: u32) -> (r: Self)
        requires
            width * height <= u32::MAX,
        ensures
            r.width == width,
            r.height == height,
            r.wf(),
            forall|i: int| 0 <= i < r.pixels@.len() ==> r.pixels@[i] == Ternary::Unset,
    {
        let pixel_count: usize = (width * height) as usize;
        let mut pixels: Vec<Ternary> = Vec::new();
        let mut i: usize = 0;
        while i < pixel_count
            invariant
                i <= pixel_count,
                pixels@.len() == i,
                forall|j: int| 0 <= j < i ==> pixels@[j] == Ternary::Unset,
            decreases pixel_count - i,
        {
            pixels.push(Ternary::Unset);
            i = i + 1;
        }
        Image { width, height, pixels }
    }

    /// An all-`Unset` grid, rejecting empty or overflowing dimensions.
    pub fn create(width: u32, height: u32) -> (r: Result<Self, GridError>)
        ensures
            (width == 0 || height == 0 || width * height > u32::MAX) <==> r is Err,
            r is Err ==> r->Err_0 == GridError::InvalidDimensions,
            r is Ok ==> {
                &&& r->Ok_0.width == width
                &&& r->Ok_0.height == height
                &&& r->Ok_0.wf()
                &&& forall|i: int|
                    0 <= i < r->Ok_0.pixels@.len() ==> r->Ok_0.pixels@[i] == Ternary::Unset
            },
    {
        if width == 0 || height == 0 {
            return Err(GridError::InvalidDimensions);
        }
        proof {
            assert((width as int) * (height as int) <= u64::MAX) by (nonlinear_arith)
                requires
                    width <= u32::MAX,
                    height <= u32::MAX,
            ;
        }
        let product: u64 = (width as u64) * (height as u64);
        if product > u32::MAX as u64 {
            return Err(GridError::InvalidDimensions);
        }
        Ok(Self::new(width, height))
    }

    /// Reads the cell at `(x, y)`, rejecting out-of-range coordinates.
    pub fn get(&self, x: u32, y: u32) -> (r: Result<Ternary, GridError>)
        requires
            self.wf(),
        ensures
            x < self.width && y < self.height
                ==> r == Ok::<Ternary, GridError>(self.cell(x as int, y as int)),
            !(x < self.width && y < self.height)
                ==> r == Err::<Ternary, GridError>(GridError::OutOfBounds),
    {
        if x >= self.width || y >= self.height {
            return Err(GridError::OutOfBounds);
        }
        proof {
            lemma_cell_index(x as int, y as int, self.width as int, self.height as int);
        }
        let _pixel_count: usize = self.pixels.len();
        let idx: usize = (y as usize) * (self.width as usize) + (x as usize);
        Ok(self.pixels[idx])
    }

    /// Reads the cell at `(x, y)`, which must be in range.
    pub fn at(&self, x: u32, y: u32) -> (c: Ternary)
        requires
            self.wf(),
            x < self.width,
            y < self.height,
        ensures
            c == self.cell(x as int, y as int),
    {
        proof {
            lemma_cell_index(x as int, y as int, self.width as int, self.height as int);
        }
        let _pixel_count: usize = self.pixels.len();
        let idx: usize = (y as usize) * (self.width as usize) + (x as usize);
        self.pixels[idx]
    }

    /// Writes `value` at `(x, y)`, rejecting out-of-range coordinates;
    /// every other cell and the dimensions are untouched.
    pub fn set(&mut self, x: u32, y: u32, value: Ternary) -> (r: Result<(), GridError>)
        requires
            old(self).wf(),
        ensures
            final(self).wf(),
            final(self).width == old(self).width,
            final(self).height == old(self).height,
            x < old(self).width && y < old(self).height ==> {
                &&& r == Ok::<(), GridError>(())
                &&& final(self).pixels@ == old(self).pixels@.update(
                    y * old(self).width + x,
                    value,
                )
            },
            !(x < old(self).width && y < old(self).height) ==> {
                &&& r == Err::<(), GridError>(GridError::OutOfBounds)
                &&& final(self).pixels@ == old(self).pixels@
            },
    {
        if x >= self.width || y >= self.height {
            return Err(GridError::OutOfBounds);
        }
        proof {
            lemma_cell_index(x as int, y as int, self.width as int, self.height as int);
        }
        let _pixel_count: usize = self.pixels.len();
        let idx: usize = (y as usize) * (self.width as usize) + (x as usize);
        self.pixels.set(idx, value);
        Ok(())
    }
}

} // verus!
