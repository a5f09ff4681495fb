use std::ops::RangeInclusive;
use vstd::prelude::*;

verus! {

/// Relies on `RangeInclusive::start`: it returns the lower bound the range holds.
pub assume_specification<Idx>[ RangeInclusive::<Idx>::start ](r: &RangeInclusive<Idx>) -> (s: &Idx)
    ensures
        *s == r@.start,
;

/// Relies on `RangeInclusive::end`: it returns the upper bound the range holds.
pub assume_specification<Idx>[ RangeInclusive::<Idx>::end ](r: &RangeInclusive<Idx>) -> (e: &Idx)
    ensures
        *e == r@.end,
;

/// The symmetry that `set_at_index_sym` replicates a write across.
#[derive(Clone, Copy, Debug, PartialEq, Eq, Structural)]
#[allow(non_camel_case_types)]
pub enum Symmetry {
    X,
    Y,
    XY,
    ROT90,
    ROT180,
    DONUT,
}

/// The ways a grid operation can be refused.
#[derive(Clone, Copy, Debug, PartialEq, Eq, Structural)]
pub enum GridError {
    /// A coordinate lies outside the grid.
    IndexOutOfRange,
    /// A grid cannot have these dimensions: one is zero, or the cell count overflows.
    InvalidDimensions,
}

/// Folds coordinate `c` of an axis of length `n` onto the near half of that axis.
pub open spec fn fold(c: int, n: int) -> int {
    if c <= n - 1 - c {
        c
    } else {
        n - 1 - c
    }
}

/// Whether cell (x, y) of a grid `width` cells wide lies on one of the square rings
/// `lo..=hi`, counted inwards from the border. Rings are laid out on the
/// `width` x `width` square at the top of the grid; rows below it are never on a ring.
pub open spec fn on_ring(width: int, lo: int, hi: int, x: int, y: int) -> bool {
    let fx = fold(x, width);
    let fy = fold(y, width);
    &&& y < width
    &&& (lo <= fx <= hi || lo <= fy <= hi)
    &&& fx >= lo
    &&& fy >= lo
}

/// The ring that cell (x, y) lies on in a grid `width` cells wide.
pub open spec fn ring_of(width: int, x: int, y: int) -> int {
    let near = if x <= y { x } else { y };
    let far = width - 1 - (if x >= y { x } else { y });
    if near <= far { near } else { far }
}

/// Whether `set_at_index_sym(sym, (x, y), _)` on a `width` x `height` grid writes cell (i, j).
pub open spec fn sym_target(
    sym: Symmetry,
    width: int,
    height: int,
    x: int,
    y: int,
    i: int,
    j: int,
) -> bool {
    let w = width - 1;
    let h = height - 1;
    let s = w / 2 + h / 2;
    match sym {
        Symmetry::X => (i == x || i == w - x) && j == y,
        Symmetry::Y => i == x && (j == y || j == h - y),
        Symmetry::XY => (i == x || i == w - x) && (j == y || j == h - y),
        Symmetry::ROT180 => (i == x && j == y) || (i == w - x && j == h - y),
        Symmetry::ROT90 => {
            ||| (i == x && j == y)
            ||| (i == w - x && j == h - y)
            ||| (i == s - y && j == x && 0 <= s - y <= w && x <= h)
            ||| (i == y && j == s - x && y <= w && 0 <= s - x <= h)
        },
        Symmetry::DONUT => {
            let r = ring_of(width, x, y);
            on_ring(width, r, r, i, j)
        },
    }
}

/// Grids built with a fill value drawn from `T::default`.
pub trait MatrixDefault<T: Copy + Default>: Matrix<T> {
    fn new_default(width: usize, height: usize) -> (r: Self)
        requires
            Self::dims_ok(width as nat, height as nat),
        ensures
            r.wf(),
            r.spec_width() == width,
            r.spec_height() == height,
            exists|d: T|
                call_ensures(T::default, (), d) && forall|i: int, j: int|
                    0 <= i < width && 0 <= j < height ==> #[trigger] r.cell(i, j) == d,
    ;
}

/// Grids filled with pseudo-random cells. The draws come from `quad_rand`'s
/// process-wide generator, which `quad_rand::srand` seeds for reproducible grids.
/// Ranges are inclusive on every backend: `new_random` can yield every value of `T`,
/// and `new_random_range(.., lo..=hi)` every value from `lo` to `hi`.
pub trait MatrixRandom<T: Copy>: Matrix<T> {
    /// Every cell drawn from all values of `T`.
    fn new_random(width: usize, height: usize) -> (r: Self)
        requires
            Self::dims_ok(width as nat, height as nat),
        ensures
            r.wf(),
            r.spec_width() == width,
            r.spec_height() == height,
    ;

    /// Every cell drawn from the inclusive `range`.
    fn new_random_range(width: usize, height: usize, range: RangeInclusive<T>) -> (r: Self)
        requires
            Self::dims_ok(width as nat, height as nat),
            Self::drawable(range@.start, range@.end),
        ensures
            r.wf(),
            r.spec_width() == width,
            r.spec_height() == height,
            forall|i: int, j: int|
                0 <= i < width && 0 <= j < height ==> Self::within(
                    range@.start,
                    range@.end,
                    #[trigger] r.cell(i, j),
                ),
    ;

    /// Whether a draw from the inclusive range `lo..=hi` is possible.
    spec fn drawable(lo: T, hi: T) -> bool;

    /// Whether `v` lies in the inclusive range `lo..=hi`.
    spec fn within(lo: T, hi: T, v: T) -> bool;
}

/// The zero and one of a cell type, as a convolution kernel uses them.
pub trait Weight: Copy {
    spec fn spec_zero() -> Self;

    spec fn spec_one() -> Self;

    fn zero() -> (r: Self)
        ensures
            r == Self::spec_zero(),
    ;

    fn one() -> (r: Self)
        ensures
            r == Self::spec_one(),
    ;
}

/// Grids built as a Moore-neighbourhood kernel: ones around a zero centre.
pub trait MatrixStdConv<T: Weight>: Matrix<T> {
    fn new_std_conv_matrix(width: usize, height: usize) -> (r: Self)
        requires
            Self::dims_ok(width as nat, height as nat),
        ensures
            r.wf(),
            r.spec_width() == width,
            r.spec_height() == height,
            forall|i: int, j: int|
                0 <= i < width && 0 <= j < height ==> #[trigger] r.cell(i, j) == if i == width
                    / 2 && j == height / 2 {
                    T::spec_zero()
                } else {
                    T::spec_one()
                },
    ;
}

/// A grid type with every optional way of construction.
pub trait MatrixNew<T, M> where
    T: Copy + Default + Weight,
    M: MatrixDefault<T> + MatrixRandom<T> + MatrixStdConv<T>,
 {

}

impl<T, M> MatrixNew<T, M> for M where
    T: Copy + Default + Weight,
    M: MatrixDefault<T> + MatrixRandom<T> + MatrixStdConv<T>,
 {

}

/// A two-dimensional grid of `T` cells, addressed by `(x, y)` with `x < width`, `y < height`.
pub trait Matrix<T: Copy>: Sized {
    /// The number of columns.
    spec fn spec_width(&self) -> nat;

    /// The number of rows.
    spec fn spec_height(&self) -> nat;

    /// The value of cell (x, y).
    spec fn cell(&self, x: int, y: int) -> T;

    /// The storage agrees with the dimensions.
    spec fn wf(&self) -> bool;

    /// The dimensions a grid of this type can be built with.
    spec fn dims_ok(width: nat, height: nat) -> bool;

    proof fn lemma_wf(&self)
        requires
            self.wf(),
        ensures
            self.spec_width() > 0,
            self.spec_height() > 0,
            self.spec_width() * self.spec_height() <= usize::MAX,
    ;

    fn new(width: usize, height: usize, value: T) -> (r: Self)
        requires
            Self::dims_ok(width as nat, height as nat),
        ensures
            r.wf(),
            r.spec_width() == width,
            r.spec_height() == height,
            forall|i: int, j: int|
                0 <= i < width && 0 <= j < height ==> #[trigger] r.cell(i, j) == value,
    ;

    fn new_with<F: Fn((usize, usize)) -> T>(width: usize, height: usize, f: F) -> (r: Self)
        requires
            Self::dims_ok(width as nat, height as nat),
            forall|x: usize, y: usize| x < width && y < height ==> f.requires(((x, y),)),
        ensures
            r.wf(),
            r.spec_width() == width,
            r.spec_height() == height,
            forall|x: usize, y: usize|
                x < width && y < height ==> f.ensures(
                    ((x, y),),
                    #[trigger] r.cell(x as int, y as int),
                ),
    ;

    fn index(&self, ix: (usize, usize)) -> (r: T)
        requires
            self.wf(),
            ix.0 < self.spec_width(),
            ix.1 < self.spec_height(),
        ensures
            r == self.cell(ix.0 as int, ix.1 as int),
    ;

    fn set_at_index(&mut self, ix: (usize, usize), value: T)
        requires
            old(self).wf(),
            ix.0 < old(self).spec_width(),
            ix.1 < old(self).spec_height(),
        ensures
            final(self).wf(),
            final(self).spec_width() == old(self).spec_width(),
            final(self).spec_height() == old(self).spec_height(),
            forall|i: int, j: int|
                0 <= i < final(self).spec_width() && 0 <= j < final(self).spec_height()
                    ==> #[trigger] final(self).cell(i, j) == if i == ix.0 && j == ix.1 {
                    value
                } else {
                    old(self).cell(i, j)
                },
    ;

    fn width(&self) -> (r: usize)
        ensures
            r == self.spec_width(),
    ;

    fn height(&self) -> (r: usize)
        ensures
            r == self.spec_height(),
    ;

    /// Cell `ix`, or `IndexOutOfRange` when `ix` lies outside the grid.
    fn checked_index(&self, ix: (usize, usize)) -> (r: Result<T, GridError>)
        requires
            self.wf(),
        ensures
            ix.0 < self.spec_width() && ix.1 < self.spec_height() ==> r == Ok::<T, GridError>(
                self.cell(ix.0 as int, ix.1 as int),
            ),
            !(ix.0 < self.spec_width() && ix.1 < self.spec_height()) ==> r == Err::<T, GridError>(
                GridError::IndexOutOfRange,
            ),
    {
        if ix.0 < self.width() && ix.1 < self.height() {
            Ok(self.index(ix))
        } else {
            Err(GridError::IndexOutOfRange)
        }
    }

    /// Writes `value` to cell `ix`, or leaves the grid as it is and returns
    /// `IndexOutOfRange` when `ix` lies outside it.
    fn checked_set_at_index(&mut self, ix: (usize, usize), value: T) -> (r: Result<(), GridError>)
        requires
            old(self).wf(),
        ensures
            final(self).wf(),
            final(self).spec_width() == old(self).spec_width(),
            final(self).spec_height() == old(self).spec_height(),
            ix.0 < old(self).spec_width() && ix.1 < old(self).spec_height() ==> r is Ok && forall|
                i: int,
                j: int,
            |
                0 <= i < final(self).spec_width() && 0 <= j < final(self).spec_height()
                    ==> #[trigger] final(self).cell(i, j) == if i == ix.0 && j == ix.1 {
                    value
                } else {
                    old(self).cell(i, j)
                },
            !(ix.0 < old(self).spec_width() && ix.1 < old(self).spec_height()) ==> r == Err::<
                (),
                GridError,
            >(GridError::IndexOutOfRange) && *final(self) == *old(self),
    {
        if ix.0 < self.width() && ix.1 < self.height() {
            self.set_at_index(ix, value);
            Ok(())
        } else {
            Err(GridError::IndexOutOfRange)
        }
    }

    /// Writes `val` to every cell.
    fn clear(&mut self, val: T)
        requires
            old(self).wf(),
        ensures
            final(self).wf(),
            final(self).spec_width() == old(self).spec_width(),
            final(self).spec_height() == old(self).spec_height(),
            forall|i: int, j: int|
                0 <= i < final(self).spec_width() && 0 <= j < final(self).spec_height()
                    ==> #[trigger] final(self).cell(i, j) == val,
    {
        let ghost orig = *self;
        proof {
            self.lemma_wf();
        }
        let w = self.width();
        let h = self.height();
        let mut y: usize = 0;
        while y < h
            invariant
                y <= h,
                self.wf(),
                self.spec_width() == orig.spec_width(),
                self.spec_height() == orig.spec_height(),
                forall|i: int, j: int|
                    0 <= i < self.spec_width() && 0 <= j < self.spec_height()
                        ==> #[trigger] self.cell(i, j) == if j < y {
                        val
                    } else {
                        orig.cell(i, j)
                    },
                w == self.spec_width(),
                h == self.spec_height(),
            decreases h - y,
        {
            let mut x: usize = 0;
            while x < w
                invariant
                    x <= w,
                    y < h,
                    self.wf(),
                    self.spec_width() == orig.spec_width(),
                    self.spec_height() == orig.spec_height(),
                    forall|i: int, j: int|
                        0 <= i < self.spec_width() && 0 <= j < self.spec_height()
                            ==> #[trigger] self.cell(i, j) == if j < y || (j == y && i < x) {
                            val
                        } else {
                            orig.cell(i, j)
                        },
                    w == self.spec_width(),
                    h == self.spec_height(),
                decreases w - x,
            {
                self.set_at_index((x, y), val);
                x += 1;
            }
            y += 1;
        }
    }

    /// Writes `val` to the square rings `range` around the centre, ring 0 being the
    /// border. A coordinate past the middle is mirrored back (`min(c, width - 1 - c)`),
    /// and a cell is written when one folded coordinate lies in `range` and neither lies
    /// before its start. The rings are laid out on the top `width` x `width` square.
    fn donut(&mut self, range: RangeInclusive<usize>, val: T)
        requires
            old(self).wf(),
        ensures
            final(self).wf(),
            final(self).spec_width() == old(self).spec_width(),
            final(self).spec_height() == old(self).spec_height(),
            forall|i: int, j: int|
                0 <= i < final(self).spec_width() && 0 <= j < final(self).spec_height()
                    ==> #[trigger] final(self).cell(i, j) == if on_ring(
                    old(self).spec_width() as int,
                    range@.start as int,
                    range@.end as int,
                    i,
                    j,
                ) {
                    val
                } else {
                    old(self).cell(i, j)
                },
    {
        let ghost orig = *self;
        proof {
            self.lemma_wf();
        }
        let lo = *range.start();
        let hi = *range.end();
        let w = self.width();
        let h = self.height();
        let rows = if h < w {
            h
        } else {
            w
        };
        let mut y: usize = 0;
        while y < rows
            invariant
                y <= rows <= h,
                rows <= w,
                rows == h || rows == w,
                self.wf(),
                self.spec_width() == orig.spec_width(),
                self.spec_height() == orig.spec_height(),
                forall|i: int, j: int|
                    0 <= i < self.spec_width() && 0 <= j < self.spec_height()
                        ==> #[trigger] self.cell(i, j) == if j < y && on_ring(
                        w as int,
                        lo as int,
                        hi as int,
                        i,
                        j,
                    ) {
                        val
                    } else {
                        orig.cell(i, j)
                    },
                w == self.spec_width(),
                h == self.spec_height(),
            decreases rows - y,
        {
            let fy = if y <= w - 1 - y {
                y
            } else {
                w - 1 - y
            };
            let mut x: usize = 0;
            while x < w
                invariant
                    x <= w,
                    y < rows,
                    rows <= h,
                    rows <= w,
                    fy == fold(y as int, w as int),
                    self.wf(),
                    self.spec_width() == orig.spec_width(),
                    self.spec_height() == orig.spec_height(),
                    forall|i: int, j: int|
                        0 <= i < self.spec_width() && 0 <= j < self.spec_height()
                            ==> #[trigger] self.cell(i, j) == if (j < y || (j == y && i < x))
                            && on_ring(w as int, lo as int, hi as int, i, j) {
                            val
                        } else {
                            orig.cell(i, j)
                        },
                    w == self.spec_width(),
                    h == self.spec_height(),
                decreases w - x,
            {
                let fx = if x <= w - 1 - x {
                    x
                } else {
                    w - 1 - x
                };
                assert(fx == fold(x as int, w as int));
                let on = ((lo <= fx && fx <= hi) || (lo <= fy && fy <= hi)) && fx >= lo && fy >= lo;
                assert(on == on_ring(w as int, lo as int, hi as int, x as int, y as int));
                if on {
                    self.set_at_index((x, y), val);
                }
                x += 1;
            }
            y += 1;
        }
    }

    /// Writes `val` to `ix` and to its counterparts under `sym`; see [`sym_target`].
    fn set_at_index_sym(&mut self, sym: Symmetry, ix: (usize, usize), val: T)
        requires
            old(self).wf(),
            ix.0 < old(self).spec_width(),
            ix.1 < old(self).spec_height(),
            sym == Symmetry::DONUT ==> ix.1 < old(self).spec_width(),
        ensures
            final(self).wf(),
            final(self).spec_width() == old(self).spec_width(),
            final(self).spec_height() == old(self).spec_height(),
            forall|i: int, j: int|
                0 <= i < final(self).spec_width() && 0 <= j < final(self).spec_height()
                    ==> #[trigger] final(self).cell(i, j) == if sym_target(
                        sym,
                        old(self).spec_width() as int,
                        old(self).spec_height() as int,
                        ix.0 as int,
                        ix.1 as int,
                        i,
                        j,
                    ) {
                        val
                    } else {
                        old(self).cell(i, j)
                    },
    {
        let ghost orig = *self;
        proof {
            self.lemma_wf();
        }
        let (x, y) = ix;
        let w = self.width() - 1;
        let h = self.height() - 1;
        let s = w / 2 + h / 2;
        match sym {
            Symmetry::X => {
                self.set_at_index((x, y), val);
                self.set_at_index((w - x, y), val);
            },
            Symmetry::Y => {
                self.set_at_index((x, y), val);
                self.set_at_index((x, h - y), val);
            },
            Symmetry::XY => {
                self.set_at_index((x, y), val);
                self.set_at_index((w - x, y), val);
                self.set_at_index((x, h - y), val);
                self.set_at_index((w - x, h - y), val);
            },
            Symmetry::ROT90 => {
                self.set_at_index((x, y), val);
                self.set_at_index((w - x, h - y), val);
                if s >= y && s - y <= w && x <= h {
                    self.set_at_index((s - y, x), val);
                }
                if y <= w && s >= x && s - x <= h {
                    self.set_at_index((y, s - x), val);
                }
            },
            Symmetry::ROT180 => {
                self.set_at_index((x, y), val);
                self.set_at_index((w - x, h - y), val);
            },
            Symmetry::DONUT => {
                let near = if x <= y {
                    x
                } else {
                    y
                };
                let far = w - (if x >= y {
                    x
                } else {
                    y
                });
                let r = if near <= far {
                    near
                } else {
                    far
                };
                self.donut(r..=r, val);
            },
        }
    }
}

} // verus!
