use crate::random::draw_byte;
use crate::traits::{Matrix, MatrixDefault, MatrixRandom, MatrixStdConv, Weight};
use std::ops::RangeInclusive;
use vstd::prelude::*;

verus! {

/// A grid stored row-major in one heap buffer: cell (x, y) at `x + y * width`.
#[derive(Debug, Clone)]
pub struct VecMatrix<T: Copy> {
    data: Vec<T>,
    width: usize,
    height: usize,
}

/// The position of cell (x, y) in the row-major buffer of a grid `width` cells wide.
pub open spec fn flat(width: int, x: int, y: int) -> int {
    x + y * width
}

/// Row-major addressing is in bounds and one to one.
pub proof fn lemma_row_major(width: int, height: int, x: int, y: int, i: int, j: int)
    requires
        0 <= x < width,
        0 <= y < height,
        0 <= i < width,
        0 <= j < height,
    ensures
        0 <= x + y * width < width * height,
        (x + y * width == i + j * width) <==> (x == i && y == j),
{
    assert(0 <= x + y * width < width * height) by (nonlinear_arith)
        requires
            0 <= x < width,
            0 <= y < height,
    ;
    if x + y * width == i + j * width {
        assert(x == i && y == j) by (nonlinear_arith)
            requires
                0 <= x < width,
                0 <= i < width,
                0 <= y,
                0 <= j,
                x + y * width == i + j * width,
        {
            if y < j {
                assert(y * width + width <= j * width);
            } else if j < y {
                assert(j * width + width <= y * width);
            }
        }
    }
}

impl<T: Copy> VecMatrix<T> {
    /// The cells in row-major order.
    pub closed spec fn spec_data(&self) -> Seq<T> {
        self.data@
    }

    /// The cells in row-major order.
    pub fn data(&self) -> (r: &Vec<T>)
        ensures
            r@ == self.spec_data(),
    {
        &self.data
    }

    /// A grid of `width` x `height` cells, filled with `value`.
    fn filled_with(width: usize, height: usize, value: T) -> (r: Self)
        requires
            width > 0,
            height > 0,
            width * height <= usize::MAX,
        ensures
            r.wf(),
            r.spec_width() == width,
            r.spec_height() == height,
            forall|i: int, j: int|
                0 <= i < width && 0 <= j < height ==> #[trigger] r.cell(i, j) == value,
    {
        let n = width * height;
        let mut data: Vec<T> = Vec::with_capacity(n);
        let mut k: usize = 0;
        while k < n
            invariant
                k <= n,
                data.len() == k,
                forall|i: int| 0 <= i < k ==> data@[i] == value,
            decreases n - k,
        {
            data.push(value);
            k += 1;
        }
        let r = VecMatrix { data, width, height };
        assert forall|i: int, j: int| 0 <= i < width && 0 <= j < height implies #[trigger] r.cell(
            i,
            j,
        ) == value by {
            lemma_row_major(width as int, height as int, i, j, i, j);
        }
        r
    }
}

impl<T: Copy> Matrix<T> for VecMatrix<T> {
    closed spec fn spec_width(&self) -> nat {
        self.width as nat
    }

    closed spec fn spec_height(&self) -> nat {
        self.height as nat
    }

    closed spec fn cell(&self, x: int, y: int) -> T {
        self.data@[flat(self.width as int, x, y)]
    }

    closed spec fn wf(&self) -> bool {
        &&& self.width > 0
        &&& self.height > 0
        &&& self.width * self.height <= usize::MAX
        &&& self.data@.len() == self.width * self.height
    }

    open spec fn dims_ok(width: nat, height: nat) -> bool {
        width > 0 && height > 0 && width * height <= usize::MAX
    }

    proof fn lemma_wf(&self) {
    }

    fn new(width: usize, height: usize, value: T) -> (r: Self) {
        Self::filled_with(width, height, value)
    }

    fn new_with<F: Fn((usize, usize)) -> T>(width: usize, height: usize, f: F) -> (r: Self) {
        let mut data: Vec<T> = Vec::with_capacity(width * height);
        let mut y: usize = 0;
        while y < height
            invariant
                y <= height,
                width * height <= usize::MAX,
                forall|x: usize, y: usize| x < width && y < height ==> f.requires(((x, y),)),
                data.len() == y * width,
                forall|i: int, j: int|
                    0 <= i < width && 0 <= j < y ==> #[trigger] flat(width as int, i, j) < data.len(),
                forall|i: int, j: int|
                    0 <= i < width && 0 <= j < y ==> f.ensures(
                        ((i as usize, j as usize),),
                        #[trigger] data@[flat(width as int, i, j)],
                    ),
            decreases height - y,
        {
            let mut x: usize = 0;
            assert(y * width + width <= width * height) by (nonlinear_arith)
                requires
                    y < height,
            ;
            while x < width
                invariant
                    x <= width,
                    y < height,
                    y * width + width <= width * height,
                    width * height <= usize::MAX,
                    forall|x: usize, y: usize| x < width && y < height ==> f.requires(((x, y),)),
                    data.len() == y * width + x,
                    forall|i: int, j: int|
                        0 <= i && 0 <= j && ((i < width && j < y) || (i < x && j == y))
                            ==> #[trigger] flat(width as int, i, j) < data.len(),
                    forall|i: int, j: int|
                        0 <= i && 0 <= j && ((i < width && j < y) || (i < x && j == y)) ==> f.ensures(
                            ((i as usize, j as usize),),
                            #[trigger] data@[flat(width as int, i, j)],
                        ),
                decreases width - x,
            {
                let v = f((x, y));
                data.push(v);
                x += 1;
            }
            assert(y * width + width == (y + 1) * width) by (nonlinear_arith);
            y += 1;
        }
        let r = VecMatrix { data, width, height };
        assert forall|x: usize, y: usize| x < width && y < height implies f.ensures(
            ((x, y),),
            #[trigger] r.cell(x as int, y as int),
        ) by {
            assert(r.cell(x as int, y as int) == r.data@[flat(width as int, x as int, y as int)]);
        }
        assert(r.data.len() == width * height) by (nonlinear_arith)
            requires
                r.data.len() == y * width,
                y == height,
        ;
        r
    }

    fn index(&self, ix: (usize, usize)) -> (r: T) {
        proof {
            lemma_row_major(self.width as int, self.height as int, ix.0 as int, ix.1 as int, 0, 0);
        }
        self.data[ix.0 + ix.1 * self.width]
    }

    fn set_at_index(&mut self, ix: (usize, usize), value: T) {
        let ghost before = *self;
        proof {
            lemma_row_major(self.width as int, self.height as int, ix.0 as int, ix.1 as int, 0, 0);
        }
        let k = ix.0 + ix.1 * self.width;
        self.data.set(k, value);
        proof {
            assert forall|i: int, j: int|
                0 <= i < self.width && 0 <= j < self.height implies #[trigger] self.cell(i, j) == if i
                == ix.0 && j == ix.1 {
                value
            } else {
                before.cell(i, j)
            } by {
                lemma_row_major(
                    self.width as int,
                    self.height as int,
                    ix.0 as int,
                    ix.1 as int,
                    i,
                    j,
                );
                lemma_row_major(self.width as int, self.height as int, i, j, i, j);
            }
        }
    }

    fn width(&self) -> (r: usize) {
        self.width
    }

    fn height(&self) -> (r: usize) {
        self.height
    }
}

impl<T: Copy + Default> MatrixDefault<T> for VecMatrix<T> {
    fn new_default(width: usize, height: usize) -> (r: VecMatrix<T>) {
        let d = T::default();
        Self::filled_with(width, height, d)
    }
}

impl<T: Weight> MatrixStdConv<T> for VecMatrix<T> {
    fn new_std_conv_matrix(width: usize, height: usize) -> (r: Self) {
        let mut r = Self::filled_with(width, height, T::one());
        r.set_at_index((width / 2, height / 2), T::zero());
        r
    }
}

impl VecMatrix<u8> {
    /// A grid whose cells are drawn one by one from `lo..=hi`, row by row.
    fn random_cells(width: usize, height: usize, lo: u8, hi: u8) -> (r: Self)
        requires
            width > 0,
            height > 0,
            width * height <= usize::MAX,
            lo <= hi,
        ensures
            r.wf(),
            r.spec_width() == width,
            r.spec_height() == height,
            forall|i: int, j: int|
                0 <= i < width && 0 <= j < height ==> lo <= #[trigger] r.cell(i, j) <= hi,
    {
        let draw = |ix: (usize, usize)| -> (v: u8)
            requires
                lo <= hi,
            ensures
                lo <= v <= hi,
            { draw_byte(lo, hi) };
        Self::new_with(width, height, draw)
    }
}

impl MatrixRandom<u8> for VecMatrix<u8> {
    open spec fn drawable(lo: u8, hi: u8) -> bool {
        lo <= hi
    }

    open spec fn within(lo: u8, hi: u8, v: u8) -> bool {
        lo <= v <= hi
    }

    fn new_random(width: usize, height: usize) -> (r: Self) {
        Self::random_cells(width, height, 0, 255)
    }

    fn new_random_range(width: usize, height: usize, range: RangeInclusive<u8>) -> (r: Self) {
        Self::random_cells(width, height, *range.start(), *range.end())
    }
}

} // verus!
