use crate::traits::Matrix;
use vstd::prelude::*;

verus! {

/// The cells of `g` as rows: `rows(g)[y][x]` is cell (x, y).
pub open spec fn rows<T: Copy, G: Matrix<T>>(g: G) -> Seq<Seq<T>> {
    Seq::new(g.spec_height(), |y: int| Seq::new(g.spec_width(), |x: int| g.cell(x, y)))
}

/// `after` is what `set_at_index((x, y), v)` leaves of `before`.
pub open spec fn set_result<T: Copy, G: Matrix<T>>(
    before: G,
    after: G,
    x: int,
    y: int,
    v: T,
) -> bool {
    &&& after.wf()
    &&& after.spec_width() == before.spec_width()
    &&& after.spec_height() == before.spec_height()
    &&& forall|i: int, j: int|
        0 <= i < after.spec_width() && 0 <= j < after.spec_height() ==> #[trigger] after.cell(i, j)
            == if i == x && j == y {
            v
        } else {
            before.cell(i, j)
        }
}

/// Setting a cell and reading it back gives the value written, and every other cell
/// keeps its value: the rows after the write are the rows before with one cell updated.
pub proof fn law_set_then_index<T: Copy, G: Matrix<T>>(before: G, after: G, x: int, y: int, v: T)
    requires
        before.wf(),
        0 <= x < before.spec_width(),
        0 <= y < before.spec_height(),
        set_result(before, after, x, y, v),
    ensures
        after.cell(x, y) == v,
        rows(after) == rows(before).update(y, rows(before)[y].update(x, v)),
{
    let ra = rows(after);
    let rb = rows(before).update(y, rows(before)[y].update(x, v));
    assert(ra.len() == rb.len());
    assert forall|j: int| 0 <= j < ra.len() implies ra[j] =~= rb[j] by {
        assert forall|i: int| 0 <= i < ra[j].len() implies ra[j][i] == rb[j][i] by {
            assert(after.cell(i, j) == if i == x && j == y {
                v
            } else {
                before.cell(i, j)
            });
        }
    }
    assert(ra =~= rb);
}

/// Two grids, of any backends, built by `new_with` from one deterministic generator
/// with the same dimensions hold the same cells.
pub proof fn law_new_with_agrees<T: Copy, A: Matrix<T>, B: Matrix<T>, F: Fn((usize, usize)) -> T>(
    a: A,
    b: B,
    f: F,
)
    requires
        a.wf(),
        b.wf(),
        forall|ix: ((usize, usize),), r1: T, r2: T|
            f.ensures(ix, r1) && f.ensures(ix, r2) ==> r1 == r2,
        a.spec_width() == b.spec_width(),
        a.spec_height() == b.spec_height(),
        forall|x: usize, y: usize|
            x < a.spec_width() && y < a.spec_height() ==> f.ensures(
                ((x, y),),
                #[trigger] a.cell(x as int, y as int),
            ),
        forall|x: usize, y: usize|
            x < b.spec_width() && y < b.spec_height() ==> f.ensures(
                ((x, y),),
                #[trigger] b.cell(x as int, y as int),
            ),
    ensures
        rows(a) == rows(b),
{
    let ra = rows(a);
    let rb = rows(b);
    a.lemma_wf();
    let w = a.spec_width();
    let h = a.spec_height();
    assert(w <= usize::MAX && h <= usize::MAX) by (nonlinear_arith)
        requires
            w > 0,
            h > 0,
            w * h <= usize::MAX,
    ;
    assert forall|j: int| 0 <= j < ra.len() implies ra[j] =~= rb[j] by {
        assert forall|i: int| 0 <= i < ra[j].len() implies ra[j][i] == rb[j][i] by {
            let x = i as usize;
            let y = j as usize;
            assert(f.ensures(((x, y),), a.cell(x as int, y as int)));
            assert(f.ensures(((x, y),), b.cell(x as int, y as int)));
        }
    }
    assert(ra =~= rb);
}

} // verus!
