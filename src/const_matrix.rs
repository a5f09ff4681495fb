use crate::random::draw_byte;
use crate::traits::{Matrix, MatrixDefault, MatrixRandom, MatrixStdConv, Weight};
use std::ops::RangeInclusive;
use vstd::prelude::*;

verus! {

/// A grid with its size in its type, stored inline as `M` rows of `N` cells:
/// `N` is the width and `M` the height, and cell (x, y) is `data[y][x]`.
#[derive(Debug, Clone, Copy)]
pub struct ConstMatrix<T: Copy, const M: usize, const N: usize> {
    pub data: [[T; N]; M],
}

impl<T: Copy, const M: usize, const N: usize> Matrix<T> for ConstMatrix<T, M, N> {
    open spec fn spec_width(&self) -> nat {
        N as nat
    }

    open spec fn spec_height(&self) -> nat {
        M as nat
    }

    open spec fn cell(&self, x: int, y: int) -> T {
        self.data[y][x]
    }

    open spec fn wf(&self) -> bool {
        N > 0 && M > 0 && N * M <= usize::MAX
    }

    open spec fn dims_ok(width: nat, height: nat) -> bool {
        width == N && height == M && N > 0 && M > 0 && N * M <= usize::MAX
    }

    proof fn lemma_wf(&self) {
    }

    fn new(width: usize, height: usize, value: T) -> (r: Self) {
        ConstMatrix { data: [[value; N]; M] }
    }

    fn new_with<F: Fn((usize, usize)) -> T>(width: usize, height: usize, f: F) -> (r: Self) {
        // Cell (0, 0) is drawn first and seeds the storage, so that `f` runs once per cell.
        let first = f((0, 0));
        let mut r = ConstMatrix { data: [[first; N]; M] };
        let mut y: usize = 0;
        while y < M
            invariant
                y <= M,
                r.wf(),
                N > 0 && M > 0,
                forall|x: usize, y: usize| x < N && y < M ==> f.requires(((x, y),)),
                f.ensures(((0usize, 0usize),), r.data[0][0]),
                forall|i: usize, j: usize|
                    i < N && j < y ==> f.ensures(((i, j),), #[trigger] r.data[j as int][i as int]),
            decreases M - y,
        {
            let mut x: usize = if y == 0 {
                1
            } else {
                0
            };
            while x < N
                invariant
                    x <= N,
                    y < M,
                    r.wf(),
                    N > 0 && M > 0,
                    y == 0 ==> x >= 1,
                    forall|x: usize, y: usize| x < N && y < M ==> f.requires(((x, y),)),
                    f.ensures(((0usize, 0usize),), r.data[0][0]),
                    forall|i: usize, j: usize|
                        (i < N && j < y) || (i < x && j == y) ==> f.ensures(
                            ((i, j),),
                            #[trigger] r.data[j as int][i as int],
                        ),
                decreases N - x,
            {
                let v = f((x, y));
                r.data[y][x] = v;
                x += 1;
            }
            y += 1;
        }
        r
    }

    fn index(&self, ix: (usize, usize)) -> (r: T) {
        self.data[ix.1][ix.0]
    }

    fn set_at_index(&mut self, ix: (usize, usize), value: T) {
        self.data[ix.1][ix.0] = value;
    }

    fn width(&self) -> (r: usize) {
        N
    }

    fn height(&self) -> (r: usize) {
        M
    }
}

impl<T: Copy + Default, const M: usize, const N: usize> MatrixDefault<T> for ConstMatrix<T, M, N> {
    fn new_default(width: usize, height: usize) -> (r: ConstMatrix<T, M, N>) {
        let d = T::default();
        Self::new(width, height, d)
    }
}

impl<T: Weight, const M: usize, const N: usize> MatrixStdConv<T> for ConstMatrix<T, M, N> {
    fn new_std_conv_matrix(width: usize, height: usize) -> (r: ConstMatrix<T, M, N>) {
        let mut r = Self::new(width, height, T::one());
        r.set_at_index((N / 2, M / 2), T::zero());
        r
    }
}

impl<const M: usize, const N: usize> ConstMatrix<u8, M, N> {
    /// A grid whose cells are drawn one by one from `lo..=hi`, row by row.
    fn random_cells(width: usize, height: usize, lo: u8, hi: u8) -> (r: Self)
        requires
            Self::dims_ok(width as nat, height as nat),
            lo <= hi,
        ensures
            forall|i: int, j: int| 0 <= i < N && 0 <= j < M ==> lo <= #[trigger] r.cell(i, j) <= hi,
    {
        let draw = |ix: (usize, usize)| -> (v: u8)
            requires
                lo <= hi,
            ensures
                lo <= v <= hi,
            { draw_byte(lo, hi) };
        Self::new_with(width, height, draw)
    }
}

impl<const M: usize, const N: usize> MatrixRandom<u8> for ConstMatrix<u8, M, N> {
    open spec fn drawable(lo: u8, hi: u8) -> bool {
        lo <= hi
    }

    open spec fn within(lo: u8, hi: u8, v: u8) -> bool {
        lo <= v <= hi
    }

    fn new_random(width: usize, height: usize) -> (r: ConstMatrix<u8, M, N>) {
        Self::random_cells(width, height, 0, 255)
    }

    fn new_random_range(width: usize, height: usize, range: RangeInclusive<u8>) -> (r: ConstMatrix<
        u8,
        M,
        N,
    >) {
        Self::random_cells(width, height, *range.start(), *range.end())
    }
}

} // verus!
