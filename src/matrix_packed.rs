use crate::random::draw_byte;
use crate::traits::{GridError, Matrix, MatrixRandom, MatrixStdConv};
use crate::vec_matrix::lemma_row_major;
use std::ops::RangeInclusive;
use vstd::prelude::*;

verus! {

/// Byte lane `k` of word `w`, lane 0 being the least significant byte.
pub open spec fn lane(w: u64, k: int) -> u8 {
    ((w >> (8 * k) as u64) & 0xFF) as u8
}

/// The number of tiles needed to cover `n` cells along one axis.
pub open spec fn tiles_along(n: int) -> int {
    (n - 1) / 8 + 1
}

/// Word `w` with lane `k` replaced by byte `v`.
pub open spec fn put_lane(w: u64, k: int, v: u8) -> u64 {
    (w & !(0xFFu64 << (8 * k) as u64)) | ((v as u64) << (8 * k) as u64)
}

/// Word `acc` moved up one lane, with byte `b` shifted in at lane 0.
pub open spec fn shift_in(acc: u64, b: u8) -> u64 {
    ((acc << 8u64) + (b as u64)) as u64
}

/// A lane taken out of a word is a byte.
proof fn lemma_lane_byte(w: u64, k: int)
    requires
        0 <= k < 8,
    ensures
        (w >> (8 * k) as u64) & 0xFF < 256,
{
    let s = (8 * k) as u64;
    assert((w >> s) & 0xFF < 256) by (bit_vector);
}

/// Writing a byte into one lane puts it there and leaves the other lanes alone.
proof fn lemma_put_lane(w: u64, k: int, v: u8, k2: int)
    requires
        0 <= k < 8,
        0 <= k2 < 8,
    ensures
        lane(put_lane(w, k, v), k) == v,
        k2 != k ==> lane(put_lane(w, k, v), k2) == lane(w, k2),
{
    let s = (8 * k) as u64;
    let s2 = (8 * k2) as u64;
    let b = v as u64;
    assert((((w & !(0xFFu64 << s)) | (b << s)) >> s) & 0xFF == b) by (bit_vector)
        requires
            s <= 56,
            b < 256,
    ;
    if k2 != k {
        assert((((w & !(0xFFu64 << s)) | (b << s)) >> s2) & 0xFF == (w >> s2) & 0xFF)
            by (bit_vector)
            requires
                s <= 56,
                s2 <= 56,
                s % 8 == 0,
                s2 % 8 == 0,
                s != s2,
                b < 256,
        ;
    }
    lemma_lane_byte(w, k2);
}

/// Eight copies of byte `v` fill every lane of `v * 0x0101010101010101`.
proof fn lemma_splat(v: u8, k: int)
    requires
        0 <= k < 8,
    ensures
        lane(((v as u64) * 0x0101010101010101u64) as u64, k) == v,
{
    let s = (8 * k) as u64;
    let b = v as u64;
    assert(((((b * 0x0101010101010101u64) as u64) >> s) & 0xFF) == b) by (bit_vector)
        requires
            b < 256,
            s < 64,
            s % 8 == 0,
    ;
}

/// Shifting byte `b` into a word with fewer than eight lanes in use (`acc` below
/// lane `m`) puts `b` in lane 0, moves every lane up by one, and leaves the word
/// below lane `m + 1`.
proof fn lemma_shift_in(acc: u64, b: u8, m: int, k: int)
    requires
        0 <= m < 8,
        acc >> (8 * m) as u64 == 0,
        0 <= k < 7,
    ensures
        acc < 0x100000000000000,
        (acc << 8u64) + (b as u64) <= u64::MAX,
        lane(shift_in(acc, b), 0) == b,
        lane(shift_in(acc, b), k + 1) == lane(acc, k),
        m < 7 ==> shift_in(acc, b) >> (8 * (m + 1)) as u64 == 0,
{
    let s = (8 * m) as u64;
    let t = (8 * k) as u64;
    let c = b as u64;
    assert(acc < 0x100000000000000) by (bit_vector)
        requires
            s < 64,
            s % 8 == 0,
            acc >> s == 0,
    ;
    assert((acc << 8) + c <= u64::MAX) by (bit_vector)
        requires
            acc < 0x100000000000000,
            c < 256,
    ;
    assert(((((acc << 8) + c) as u64) >> 0) & 0xFF == c) by (bit_vector)
        requires
            acc < 0x100000000000000,
            c < 256,
    ;
    assert(((((acc << 8) + c) as u64) >> (t + 8)) & 0xFF == (acc >> t) & 0xFF) by (bit_vector)
        requires
            acc < 0x100000000000000,
            c < 256,
            t < 56,
    ;
    assert(s < 56 ==> (((acc << 8) + c) as u64) >> (s + 8) == 0) by (bit_vector)
        requires
            acc >> s == 0,
            c < 256,
    ;
    lemma_lane_byte(acc, k);
}

/// Packs eight bytes into a word by shifting each in at the bottom: the first byte
/// ends in lane 7, the last in lane 0.
pub fn pack_lanes(bytes: [u8; 8]) -> (r: u64)
    ensures
        forall|k: int| 0 <= k < 8 ==> #[trigger] lane(r, k) == bytes[7 - k],
{
    let mut acc: u64 = 0;
    let mut m: usize = 0;
    assert(acc >> 0u64 == 0) by (bit_vector)
        requires
            acc == 0,
    ;
    while m < 8
        invariant
            m <= 8,
            m < 8 ==> acc >> (8 * m) as u64 == 0,
            forall|k: int| 0 <= k < m ==> #[trigger] lane(acc, k) == bytes[m - 1 - k],
        decreases 8 - m,
    {
        let b = bytes[m];
        proof {
            lemma_shift_in(acc, b, m as int, 0);
            assert forall|k: int| 0 <= k < m + 1 implies #[trigger] lane(shift_in(acc, b), k)
                == bytes[m - k] by {
                if k > 0 {
                    lemma_shift_in(acc, b, m as int, k - 1);
                }
            }
        }
        acc = (acc << 8) + b as u64;
        m += 1;
    }
    acc
}

/// A byte grid packed into 8 x 8 tiles of eight 64-bit words. Word `y % 8` of a tile
/// holds one tile row, with column `x % 8` in byte lane `x % 8` (little-endian). The
/// tile of cell (x, y) is `(x / 8) * tiles_y + y / 8`, where `tiles_y` is the number
/// of tile rows: tiles are stored column by column, so the stride comes from the height.
#[derive(Clone, Debug)]
pub struct MatrixPacked {
    tiles: Vec<[u64; 8]>,
    width: usize,
    height: usize,
}

impl MatrixPacked {
    /// The position in `tiles` of the tile that holds cell (x, y).
    pub closed spec fn tile_of(&self, x: int, y: int) -> int {
        (x / 8) * tiles_along(self.height as int) + y / 8
    }

    /// A grid of `width` x `height` cells filled with `value`, or `InvalidDimensions`
    /// when a dimension is zero or the cell count does not fit in `usize`; the
    /// dimensions are checked before any tile count is computed.
    pub fn try_new(width: usize, height: usize, value: u8) -> (r: Result<Self, GridError>)
        ensures
            Self::dims_ok(width as nat, height as nat) ==> r is Ok && r->Ok_0.wf()
                && r->Ok_0.spec_width() == width && r->Ok_0.spec_height() == height && forall|
                i: int,
                j: int,
            | 0 <= i < width && 0 <= j < height ==> #[trigger] r->Ok_0.cell(i, j) == value,
            !Self::dims_ok(width as nat, height as nat) ==> r == Err::<Self, GridError>(
                GridError::InvalidDimensions,
            ),
    {
        if width == 0 || height == 0 {
            return Err(GridError::InvalidDimensions);
        }
        match width.checked_mul(height) {
            Some(_) => Ok(Self::new(width, height, value)),
            None => Err(GridError::InvalidDimensions),
        }
    }

    /// The number of tiles stored.
    pub fn tile_count(&self) -> (r: usize)
        requires
            self.wf(),
        ensures
            r == tiles_along(self.spec_width() as int) * tiles_along(self.spec_height() as int),
    {
        self.tiles.len()
    }

    /// The tile of an in-range cell exists, and distinct tile positions are distinct tiles.
    proof fn lemma_tile_of(&self, x: int, y: int, i: int, j: int)
        requires
            self.wf(),
            0 <= x < self.width,
            0 <= y < self.height,
            0 <= i < self.width,
            0 <= j < self.height,
        ensures
            0 <= self.tile_of(x, y) < self.tiles@.len(),
            self.tiles@.len() <= usize::MAX,
            self.tile_of(x, y) == self.tile_of(i, j) ==> x / 8 == i / 8 && y / 8 == j / 8,
    {
        let ny = tiles_along(self.height as int);
        let nx = tiles_along(self.width as int);
        assert(nx * ny <= self.width * self.height) by (nonlinear_arith)
            requires
                0 <= nx <= self.width,
                0 <= ny <= self.height,
        ;
        assert(x / 8 < nx && i / 8 < nx);
        assert(y / 8 < ny && j / 8 < ny);
        lemma_row_major(ny, nx, y / 8, x / 8, j / 8, i / 8);
        assert(self.tile_of(x, y) == y / 8 + (x / 8) * ny);
        assert(self.tile_of(i, j) == j / 8 + (i / 8) * ny);
    }

    /// A grid of `width` x `height` cells whose every word is `word`.
    fn splat(width: usize, height: usize, word: u64) -> (r: Self)
        requires
            width > 0,
            height > 0,
            width * height <= usize::MAX,
        ensures
            r.wf(),
            r.width == width,
            r.height == height,
            forall|t: int, k: int|
                0 <= t < r.tiles@.len() && 0 <= k < 8 ==> #[trigger] r.tiles@[t][k] == word,
    {
        let tiles_x = 1 + (width - 1) / 8;
        let tiles_y = 1 + (height - 1) / 8;
        assert(tiles_x * tiles_y <= width * height) by (nonlinear_arith)
            requires
                tiles_x <= width,
                tiles_y <= height,
        ;
        let n = tiles_x * tiles_y;
        let mut tiles: Vec<[u64; 8]> = Vec::with_capacity(n);
        let mut m: usize = 0;
        while m < n
            invariant
                m <= n,
                tiles.len() == m,
                forall|t: int, k: int| 0 <= t < m && 0 <= k < 8 ==> #[trigger] tiles@[t][k] == word,
            decreases n - m,
        {
            tiles.push([word; 8]);
            m += 1;
        }
        MatrixPacked { tiles, width, height }
    }
}

impl Matrix<u8> for MatrixPacked {
    closed spec fn spec_width(&self) -> nat {
        self.width as nat
    }

    closed spec fn spec_height(&self) -> nat {
        self.height as nat
    }

    closed spec fn cell(&self, x: int, y: int) -> u8 {
        lane(self.tiles@[self.tile_of(x, y)][y % 8], x % 8)
    }

    closed spec fn wf(&self) -> bool {
        &&& self.width > 0
        &&& self.height > 0
        &&& self.width * self.height <= usize::MAX
        &&& self.tiles@.len() == tiles_along(self.width as int) * tiles_along(self.height as int)
    }

    open spec fn dims_ok(width: nat, height: nat) -> bool {
        width > 0 && height > 0 && width * height <= usize::MAX
    }

    proof fn lemma_wf(&self) {
    }

    fn new(width: usize, height: usize, value: u8) -> (r: Self) {
        let v = value as u64;
        let r = Self::splat(width, height, v * 0x0101010101010101u64);
        assert forall|i: int, j: int| 0 <= i < width && 0 <= j < height implies #[trigger] r.cell(
            i,
            j,
        ) == value by {
            r.lemma_tile_of(i, j, i, j);
            lemma_splat(value, i % 8);
        }
        r
    }

    fn new_with<F: Fn((usize, usize)) -> u8>(width: usize, height: usize, f: F) -> (r: Self) {
        let mut r = Self::new(width, height, 0);
        let mut y: usize = 0;
        while y < height
            invariant
                y <= height,
                r.wf(),
                r.width == width,
                r.height == height,
                forall|x: usize, y: usize| x < width && y < height ==> f.requires(((x, y),)),
                forall|i: usize, j: usize|
                    i < width && j < y ==> f.ensures(
                        ((i, j),),
                        #[trigger] r.cell(i as int, j as int),
                    ),
            decreases height - y,
        {
            let mut x: usize = 0;
            while x < width
                invariant
                    x <= width,
                    y < height,
                    r.wf(),
                    r.width == width,
                    r.height == height,
                    forall|x: usize, y: usize| x < width && y < height ==> f.requires(((x, y),)),
                    forall|i: usize, j: usize|
                        (i < width && j < y) || (i < x && j == y) ==> f.ensures(
                            ((i, j),),
                            #[trigger] r.cell(i as int, j as int),
                        ),
                decreases width - x,
            {
                let v = f((x, y));
                r.set_at_index((x, y), v);
                x += 1;
            }
            y += 1;
        }
        r
    }

    fn index(&self, ix: (usize, usize)) -> (r: u8) {
        let (x, y) = ix;
        let tiles_y = 1 + (self.height - 1) / 8;
        proof {
            self.lemma_tile_of(x as int, y as int, x as int, y as int);
        }
        assert(self.tile_of(x as int, y as int) == (x / 8) * tiles_y + y / 8);
        let t = (x / 8) * tiles_y + y / 8;
        let k = (x % 8) as u64;
        let word = self.tiles[t][y % 8];
        proof {
            lemma_lane_byte(word, k as int);
        }
        ((word >> (8 * k)) & 0xFF) as u8
    }

    fn set_at_index(&mut self, ix: (usize, usize), value: u8) {
        let ghost before = *self;
        let (x, y) = ix;
        let tiles_y = 1 + (self.height - 1) / 8;
        proof {
            self.lemma_tile_of(x as int, y as int, x as int, y as int);
        }
        assert(self.tile_of(x as int, y as int) == (x / 8) * tiles_y + y / 8);
        let t = (x / 8) * tiles_y + y / 8;
        let k = (x % 8) as u64;
        let mut tile = self.tiles[t];
        let word = tile[y % 8];
        let mask: u64 = 0xFFu64 << (8 * k);
        let put = (value as u64) << (8 * k);
        tile[y % 8] = (word & !mask) | put;
        assert(tile[(y % 8) as int] == put_lane(word, k as int, value));
        self.tiles.set(t, tile);
        proof {
            assert forall|i: int, j: int|
                0 <= i < self.width && 0 <= j < self.height implies #[trigger] self.cell(i, j) == if i
                == x && j == y {
                value
            } else {
                before.cell(i, j)
            } by {
                before.lemma_tile_of(x as int, y as int, i, j);
                before.lemma_tile_of(i, j, i, j);
                lemma_put_lane(word, k as int, value, i % 8);
                if i == x && j == y {
                } else if before.tile_of(i, j) == t && j % 8 == y % 8 {
                    assert(i % 8 != x % 8);
                }
            }
        }
    }

    fn width(&self) -> (r: usize) {
        self.width
    }

    fn height(&self) -> (r: usize) {
        self.height
    }
}

/// A word whose eight lanes are drawn one by one from `lo..=hi` and shifted in.
fn random_word(lo: u8, hi: u8) -> (r: u64)
    requires
        lo <= hi,
    ensures
        forall|k: int| 0 <= k < 8 ==> lo <= #[trigger] lane(r, k) <= hi,
{
    let mut bytes = [0u8; 8];
    let mut m: usize = 0;
    while m < 8
        invariant
            m <= 8,
            lo <= hi,
            forall|k: int| 0 <= k < m ==> lo <= #[trigger] bytes[k] <= hi,
        decreases 8 - m,
    {
        bytes[m] = draw_byte(lo, hi);
        m += 1;
    }
    pack_lanes(bytes)
}

impl MatrixPacked {
    /// A grid whose tiles are filled word by word, lane by lane, from `lo..=hi`.
    fn random_tiles(width: usize, height: usize, lo: u8, hi: u8) -> (r: Self)
        requires
            width > 0,
            height > 0,
            width * height <= usize::MAX,
            lo <= hi,
        ensures
            r.wf(),
            r.width == width,
            r.height == height,
            forall|i: int, j: int|
                0 <= i < width && 0 <= j < height ==> lo <= #[trigger] r.cell(i, j) <= hi,
    {
        let tiles_x = 1 + (width - 1) / 8;
        let tiles_y = 1 + (height - 1) / 8;
        assert(tiles_x * tiles_y <= width * height) by (nonlinear_arith)
            requires
                tiles_x <= width,
                tiles_y <= height,
        ;
        let n = tiles_x * tiles_y;
        let mut tiles: Vec<[u64; 8]> = Vec::with_capacity(n);
        let mut m: usize = 0;
        while m < n
            invariant
                m <= n,
                lo <= hi,
                tiles.len() == m,
                forall|t: int, w: int, k: int|
                    0 <= t < m && 0 <= w < 8 && 0 <= k < 8 ==> lo <= #[trigger] lane(tiles@[t][w], k)
                        <= hi,
            decreases n - m,
        {
            let mut tile = [0u64; 8];
            let mut w: usize = 0;
            while w < 8
                invariant
                    w <= 8,
                    lo <= hi,
                    forall|v: int, k: int|
                        0 <= v < w && 0 <= k < 8 ==> lo <= #[trigger] lane(tile[v], k) <= hi,
                decreases 8 - w,
            {
                tile[w] = random_word(lo, hi);
                w += 1;
            }
            tiles.push(tile);
            m += 1;
        }
        let r = MatrixPacked { tiles, width, height };
        assert forall|i: int, j: int| 0 <= i < width && 0 <= j < height implies lo <= #[trigger] r.cell(
            i,
            j,
        ) <= hi by {
            r.lemma_tile_of(i, j, i, j);
        }
        r
    }
}

impl MatrixRandom<u8> for MatrixPacked {
    open spec fn drawable(lo: u8, hi: u8) -> bool {
        lo <= hi
    }

    open spec fn within(lo: u8, hi: u8, v: u8) -> bool {
        lo <= v <= hi
    }

    fn new_random(width: usize, height: usize) -> (r: MatrixPacked) {
        Self::random_tiles(width, height, 0, 255)
    }

    fn new_random_range(width: usize, height: usize, range: RangeInclusive<u8>) -> (r: Self) {
        Self::random_tiles(width, height, *range.start(), *range.end())
    }
}

impl MatrixStdConv<u8> for MatrixPacked {
    fn new_std_conv_matrix(width: usize, height: usize) -> (r: MatrixPacked) {
        let mut r = Self::new(width, height, 1);
        r.set_at_index((width / 2, height / 2), 0);
        r
    }
}

} // verus!
