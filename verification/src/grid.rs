//! The order in which nested drawing loops visit a grid of cells.
use vstd::prelude::*;

verus! {

/// What the cells `(r, 0), ..., (r, cols - 1)` of row `r` contribute, in that order.
pub open spec fn row_cells<T>(r: int, cols: nat, cell: spec_fn(int, int) -> Seq<T>) -> Seq<T>
    decreases cols,
{
    if cols == 0 {
        Seq::empty()
    } else {
        row_cells(r, (cols - 1) as nat, cell) + cell(r, cols - 1)
    }
}

/// What rows `0, ..., rows - 1` contribute, each row visited cell by cell: the order of a
/// loop over rows with a loop over columns inside it.
pub open spec fn grid_cells<T>(rows: nat, cols: nat, cell: spec_fn(int, int) -> Seq<T>) -> Seq<T>
    decreases rows,
{
    if rows == 0 {
        Seq::empty()
    } else {
        grid_cells((rows - 1) as nat, cols, cell) + row_cells(rows - 1, cols, cell)
    }
}

/// Visiting one more cell of a row appends that cell's contribution.
pub proof fn lemma_row_step<T>(
    done: Seq<T>,
    r: int,
    c: nat,
    cell: spec_fn(int, int) -> Seq<T>,
)
    ensures
        done + row_cells(r, c + 1, cell) == (done + row_cells(r, c, cell)) + cell(r, c as int),
{
    assert(row_cells(r, c + 1, cell) == row_cells(r, c, cell) + cell(r, c as int));
    assert(done + row_cells(r, c + 1, cell) =~= (done + row_cells(r, c, cell)) + cell(r, c as int));
}

/// Finishing a row completes one more row of the grid.
pub proof fn lemma_grid_step<T>(rows: nat, cols: nat, cell: spec_fn(int, int) -> Seq<T>)
    ensures
        grid_cells(rows + 1, cols, cell) == grid_cells(rows, cols, cell) + row_cells(
            rows as int,
            cols,
            cell,
        ),
{
}

/// When every cell of a row contributes one item, the row lists those items in column order.
pub proof fn lemma_row_unit<T>(r: int, cols: nat, cell: spec_fn(int, int) -> Seq<T>)
    requires
        forall|c: int| 0 <= c < cols ==> #[trigger] cell(r, c).len() == 1,
    ensures
        row_cells(r, cols, cell).len() == cols,
        forall|c: int| 0 <= c < cols ==> #[trigger] row_cells(r, cols, cell)[c] == cell(r, c)[0],
    decreases cols,
{
    if cols > 0 {
        lemma_row_unit(r, (cols - 1) as nat, cell);
        assert(cell(r, cols - 1).len() == 1);
    }
}

/// When every cell contributes one item, the grid holds `rows * cols` items, the one of cell
/// `(r, c)` at position `r * cols + c`.
pub proof fn lemma_grid_unit<T>(rows: nat, cols: nat, cell: spec_fn(int, int) -> Seq<T>)
    requires
        forall|r: int, c: int| 0 <= r < rows && 0 <= c < cols ==> #[trigger] cell(r, c).len() == 1,
    ensures
        grid_cells(rows, cols, cell).len() == rows * cols,
        forall|r: int, c: int|
            0 <= r < rows && 0 <= c < cols ==> #[trigger] grid_cells(rows, cols, cell)[r * cols + c]
                == cell(r, c)[0],
    decreases rows,
{
    if rows > 0 {
        let prev = (rows - 1) as nat;
        lemma_grid_unit(prev, cols, cell);
        assert forall|c: int| 0 <= c < cols implies #[trigger] cell(prev as int, c).len() == 1 by {
            assert(cell(prev as int, c).len() == 1);
        }
        lemma_row_unit(prev as int, cols, cell);
        assert(rows * cols == prev * cols + cols) by (nonlinear_arith)
            requires
                prev == rows - 1,
        ;
        assert forall|r: int, c: int| 0 <= r < rows && 0 <= c < cols implies #[trigger] grid_cells(
            rows,
            cols,
            cell,
        )[r * cols + c] == cell(r, c)[0] by {
            if r < prev {
                assert(r * cols + c < prev * cols) by (nonlinear_arith)
                    requires
                        0 <= r < prev,
                        0 <= c < cols,
                ;
                assert(0 <= r * cols) by (nonlinear_arith)
                    requires
                        0 <= r,
                        0 <= cols,
                ;
            } else {
                assert(r * cols + c - prev * cols == c) by (nonlinear_arith)
                    requires
                        r == prev,
                ;
                assert(0 <= prev * cols) by (nonlinear_arith)
                    requires
                        0 <= prev,
                        0 <= cols,
                ;
            }
        }
    }
}

/// The cell `(r, c)` itself when `keep` holds of it, nothing otherwise.
pub open spec fn keep_cell(keep: spec_fn(int, int) -> bool) -> spec_fn(int, int) -> Seq<(int, int)> {
    |r: int, c: int| if keep(r, c) { seq![(r, c)] } else { Seq::empty() }
}

/// The cells of a `rows` x `cols` grid that `keep` holds of, row by row.
pub open spec fn positions(rows: nat, cols: nat, keep: spec_fn(int, int) -> bool) -> Seq<(int, int)> {
    grid_cells(rows, cols, keep_cell(keep))
}

/// Whether cell `a` comes before cell `b` row by row.
pub open spec fn before(a: (int, int), b: (int, int)) -> bool {
    a.0 < b.0 || (a.0 == b.0 && a.1 < b.1)
}

/// Mapping `f` over a concatenation maps each part.
pub proof fn lemma_map_concat<T, U>(a: Seq<T>, b: Seq<T>, f: spec_fn(T) -> U)
    ensures
        (a + b).map_values(f) == a.map_values(f) + b.map_values(f),
{
    assert((a + b).map_values(f) =~= a.map_values(f) + b.map_values(f));
}

/// When every cell of `cell` is what `keep_cell(keep)` gives it mapped by `f`, the grid of
/// `cell` is the kept positions mapped by `f`.
pub proof fn lemma_grid_as_positions<T>(
    rows: nat,
    cols: nat,
    keep: spec_fn(int, int) -> bool,
    cell: spec_fn(int, int) -> Seq<T>,
    f: spec_fn((int, int)) -> T,
)
    requires
        forall|r: int, c: int| #[trigger] cell(r, c) == keep_cell(keep)(r, c).map_values(f),
    ensures
        grid_cells(rows, cols, cell) == positions(rows, cols, keep).map_values(f),
    decreases rows,
{
    if rows > 0 {
        lemma_grid_as_positions((rows - 1) as nat, cols, keep, cell, f);
        lemma_row_as_positions(rows - 1, cols, keep, cell, f);
        lemma_map_concat(
            grid_cells((rows - 1) as nat, cols, keep_cell(keep)),
            row_cells(rows - 1, cols, keep_cell(keep)),
            f,
        );
    } else {
        assert(positions(rows, cols, keep).map_values(f) =~= Seq::<T>::empty());
    }
}

/// The row form of `lemma_grid_as_positions`.
pub proof fn lemma_row_as_positions<T>(
    r: int,
    cols: nat,
    keep: spec_fn(int, int) -> bool,
    cell: spec_fn(int, int) -> Seq<T>,
    f: spec_fn((int, int)) -> T,
)
    requires
        forall|r: int, c: int| #[trigger] cell(r, c) == keep_cell(keep)(r, c).map_values(f),
    ensures
        row_cells(r, cols, cell) == row_cells(r, cols, keep_cell(keep)).map_values(f),
    decreases cols,
{
    if cols > 0 {
        lemma_row_as_positions(r, (cols - 1) as nat, keep, cell, f);
        lemma_map_concat(
            row_cells(r, (cols - 1) as nat, keep_cell(keep)),
            keep_cell(keep)(r, cols - 1),
            f,
        );
        assert(cell(r, cols - 1) == keep_cell(keep)(r, cols - 1).map_values(f));
    } else {
        assert(row_cells(r, cols, keep_cell(keep)).map_values(f) =~= Seq::<T>::empty());
    }
}

/// The kept cells of row `r`: all in that row, in range, kept, in increasing column order.
pub proof fn lemma_row_positions(r: int, cols: nat, keep: spec_fn(int, int) -> bool)
    ensures
        forall|i: int|
            0 <= i < row_cells(r, cols, keep_cell(keep)).len() ==> {
                let p = #[trigger] row_cells(r, cols, keep_cell(keep))[i];
                &&& p.0 == r
                &&& 0 <= p.1 < cols
                &&& keep(p.0, p.1)
            },
        forall|i: int, j: int|
            0 <= i < j < row_cells(r, cols, keep_cell(keep)).len() ==> #[trigger] row_cells(
                r,
                cols,
                keep_cell(keep),
            )[i].1 < #[trigger] row_cells(r, cols, keep_cell(keep))[j].1,
    decreases cols,
{
    if cols > 0 {
        lemma_row_positions(r, (cols - 1) as nat, keep);
        let prev = row_cells(r, (cols - 1) as nat, keep_cell(keep));
        let last = keep_cell(keep)(r, cols - 1);
        let all = row_cells(r, cols, keep_cell(keep));
        assert(all == prev + last);
        assert forall|i: int| 0 <= i < all.len() implies ({
            let p = #[trigger] all[i];
            &&& p.0 == r
            &&& 0 <= p.1 < cols
            &&& keep(p.0, p.1)
        }) by {
            if i >= prev.len() {
                assert(all[i] == last[i - prev.len()]);
            } else {
                assert(all[i] == prev[i]);
            }
        }
        assert forall|i: int, j: int| 0 <= i < j < all.len() implies #[trigger] all[i].1 < #[trigger] all[j].1 by {
            if j >= prev.len() {
                assert(all[j] == last[j - prev.len()]);
                assert(all[i] == prev[i]);
            } else {
                assert(all[i] == prev[i]);
                assert(all[j] == prev[j]);
            }
        }
    }
}

/// The kept cells of a grid: in range, kept, and in strictly increasing row-major order, so
/// no cell comes twice.
pub proof fn lemma_positions_ordered(rows: nat, cols: nat, keep: spec_fn(int, int) -> bool)
    ensures
        forall|i: int|
            0 <= i < positions(rows, cols, keep).len() ==> {
                let p = #[trigger] positions(rows, cols, keep)[i];
                &&& 0 <= p.0 < rows
                &&& 0 <= p.1 < cols
                &&& keep(p.0, p.1)
            },
        forall|i: int, j: int|
            0 <= i < j < positions(rows, cols, keep).len() ==> before(
                #[trigger] positions(rows, cols, keep)[i],
                #[trigger] positions(rows, cols, keep)[j],
            ),
    decreases rows,
{
    if rows > 0 {
        lemma_positions_ordered((rows - 1) as nat, cols, keep);
        lemma_row_positions(rows - 1, cols, keep);
        let prev = positions((rows - 1) as nat, cols, keep);
        let row = row_cells(rows - 1, cols, keep_cell(keep));
        let all = positions(rows, cols, keep);
        assert(all == prev + row);
        assert forall|i: int| 0 <= i < all.len() implies ({
            let p = #[trigger] all[i];
            &&& 0 <= p.0 < rows
            &&& 0 <= p.1 < cols
            &&& keep(p.0, p.1)
        }) by {
            if i >= prev.len() {
                assert(all[i] == row[i - prev.len()]);
            } else {
                assert(all[i] == prev[i]);
            }
        }
        assert forall|i: int, j: int| 0 <= i < j < all.len() implies before(#[trigger] all[i], #[trigger] all[j]) by {
            if i >= prev.len() {
                assert(all[i] == row[i - prev.len()]);
                assert(all[j] == row[j - prev.len()]);
            } else if j >= prev.len() {
                assert(all[i] == prev[i]);
                assert(all[j] == row[j - prev.len()]);
            } else {
                assert(all[i] == prev[i]);
                assert(all[j] == prev[j]);
            }
        }
    }
}

/// The cells of a rectangle that drawing it draws: the first row, the first column, and all
/// the others when it is filled.
pub open spec fn rect_keep(fill: bool) -> spec_fn(int, int) -> bool {
    |r: int, c: int| r == 0 || c == 0 || fill
}

/// The number of cells of row `r` a rectangle draws.
proof fn lemma_rect_row_count(r: int, cols: nat, fill: bool)
    requires
        r >= 0,
    ensures
        row_cells(r, cols, keep_cell(rect_keep(fill))).len() == (if cols == 0 {
            0
        } else if r == 0 || fill {
            cols as int
        } else {
            1
        }),
    decreases cols,
{
    if cols > 0 {
        lemma_rect_row_count(r, (cols - 1) as nat, fill);
    }
}

/// A rectangle of `rows` x `cols` cells draws none when it has no row or no column,
/// `rows * cols` when filled, and its first row and first column, `rows + cols - 1`, otherwise.
pub proof fn lemma_rect_count(rows: nat, cols: nat, fill: bool)
    ensures
        positions(rows, cols, rect_keep(fill)).len() == (if rows == 0 || cols == 0 {
            0
        } else if fill {
            (rows * cols) as int
        } else {
            rows + cols - 1
        }),
    decreases rows,
{
    if rows > 0 {
        lemma_rect_count((rows - 1) as nat, cols, fill);
        lemma_rect_row_count(rows - 1, cols, fill);
        if fill {
            assert(rows * cols == (rows - 1) * cols + cols) by (nonlinear_arith);
        }
    }
}

} // verus!
