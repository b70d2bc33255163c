//! Sums over the cells of a table, used to count pieces and filled cells.

use vstd::prelude::*;

verus! {

/// The sum of a row of integers.
pub open spec fn row_total(row: Seq<int>) -> int
    decreases row.len(),
{
    if row.len() == 0 {
        0
    } else {
        row_total(row.drop_last()) + row.last()
    }
}

/// The sum of all cells of a table of integers.
pub open spec fn table_total(rows: Seq<Seq<int>>) -> int
    decreases rows.len(),
{
    if rows.len() == 0 {
        0
    } else {
        table_total(rows.drop_last()) + row_total(rows.last())
    }
}

/// The table of the weights of the cells of `rows`.
pub open spec fn weighted<T>(rows: Seq<Seq<T>>, weight: spec_fn(T) -> int) -> Seq<Seq<int>> {
    Seq::new(rows.len(), |r: int| Seq::new(rows[r].len(), |c: int| weight(rows[r][c])))
}

/// The sum of the weights of all cells of `rows`.
pub open spec fn weighted_total<T>(rows: Seq<Seq<T>>, weight: spec_fn(T) -> int) -> int {
    table_total(weighted(rows, weight))
}

/// Replacing one entry of a row changes its sum by the difference of the two
/// entries.
pub proof fn lemma_row_total_update(row: Seq<int>, i: int, v: int)
    requires
        0 <= i < row.len(),
    ensures
        row_total(row.update(i, v)) == row_total(row) - row[i] + v,
    decreases row.len(),
{
    let changed = row.update(i, v);
    if i == row.len() - 1 {
        assert(changed.drop_last() =~= row.drop_last());
    } else {
        lemma_row_total_update(row.drop_last(), i, v);
        assert(changed.drop_last() =~= row.drop_last().update(i, v));
    }
}

/// Replacing one row of a table changes its sum by the difference of the two
/// rows' sums.
pub proof fn lemma_table_total_update(rows: Seq<Seq<int>>, r: int, row: Seq<int>)
    requires
        0 <= r < rows.len(),
    ensures
        table_total(rows.update(r, row)) == table_total(rows) - row_total(rows[r]) + row_total(
            row,
        ),
    decreases rows.len(),
{
    let changed = rows.update(r, row);
    if r == rows.len() - 1 {
        assert(changed.drop_last() =~= rows.drop_last());
    } else {
        lemma_table_total_update(rows.drop_last(), r, row);
        assert(changed.drop_last() =~= rows.drop_last().update(r, row));
    }
}

/// Replacing one cell of a table changes the sum of the weights by the
/// difference of the two cells' weights.
pub proof fn lemma_weighted_total_put<T>(
    rows: Seq<Seq<T>>,
    weight: spec_fn(T) -> int,
    r: int,
    c: int,
    v: T,
)
    requires
        0 <= r < rows.len(),
        0 <= c < rows[r].len(),
    ensures
        weighted_total(rows.update(r, rows[r].update(c, v)), weight) == weighted_total(
            rows,
            weight,
        ) - weight(rows[r][c]) + weight(v),
{
    let before = weighted(rows, weight);
    let after = weighted(rows.update(r, rows[r].update(c, v)), weight);
    assert(after =~= before.update(r, before[r].update(c, weight(v)))) by {
        assert forall|k: int| 0 <= k < after.len() implies after[k] =~= before.update(
            r,
            before[r].update(c, weight(v)),
        )[k] by {
        }
    }
    lemma_row_total_update(before[r], c, weight(v));
    lemma_table_total_update(before, r, before[r].update(c, weight(v)));
}

/// A row whose entries lie between 0 and `cap` sums to between 0 and `cap`
/// times its length.
pub proof fn lemma_row_total_bounds(row: Seq<int>, cap: int)
    requires
        forall|i: int| 0 <= i < row.len() ==> 0 <= #[trigger] row[i] <= cap,
    ensures
        0 <= row_total(row) <= cap * row.len(),
    decreases row.len(),
{
    if row.len() > 0 {
        lemma_row_total_bounds(row.drop_last(), cap);
        assert(cap * row.len() == cap * (row.len() - 1) + cap) by (nonlinear_arith);
    }
}

/// A table of `height` rows of `width` entries between 0 and `cap` sums to
/// between 0 and `cap * width * height`.
pub proof fn lemma_table_total_bounds(rows: Seq<Seq<int>>, width: int, cap: int)
    requires
        forall|r: int| 0 <= r < rows.len() ==> (#[trigger] rows[r]).len() == width,
        forall|r: int, c: int|
            0 <= r < rows.len() && 0 <= c < width ==> 0 <= #[trigger] rows[r][c] <= cap,
    ensures
        0 <= table_total(rows) <= cap * width * rows.len(),
    decreases rows.len(),
{
    if rows.len() > 0 {
        lemma_table_total_bounds(rows.drop_last(), width, cap);
        lemma_row_total_bounds(rows.last(), cap);
        assert(cap * width * rows.len() == cap * width * (rows.len() - 1) + cap * width)
            by (nonlinear_arith);
    }
}

/// The sum of the first `n + 1` entries of a row is the sum of the first `n`
/// and entry `n`.
pub proof fn lemma_row_total_take(row: Seq<int>, n: int)
    requires
        0 <= n < row.len(),
    ensures
        row_total(row.take(n + 1)) == row_total(row.take(n)) + row[n],
{
    assert(row.take(n + 1).drop_last() =~= row.take(n));
}

/// The sum of the first `n + 1` rows of a table is the sum of the first `n`
/// and the sum of row `n`.
pub proof fn lemma_table_total_take(rows: Seq<Seq<int>>, n: int)
    requires
        0 <= n < rows.len(),
    ensures
        table_total(rows.take(n + 1)) == table_total(rows.take(n)) + row_total(rows[n]),
{
    assert(rows.take(n + 1).drop_last() =~= rows.take(n));
}

} // verus!
