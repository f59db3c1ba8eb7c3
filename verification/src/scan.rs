//! Walking a grid column by column.
//!
//! Every sweep over a region of the canvas goes x-major: the columns from
//! left to right, each column from top to bottom. A sweep keeps what a cell
//! function gives for a cell and passes over the cells for which it gives
//! nothing.

use vstd::prelude::*;

verus! {

/// What `cell` gives for the cells `(x, 0)` to `(x, rows - 1)`, top to bottom.
pub open spec fn scan_column<T>(cell: spec_fn(int, int) -> Option<T>, x: int, rows: nat) -> Seq<T>
    decreases rows,
{
    if rows == 0 {
        Seq::empty()
    } else {
        let above = scan_column(cell, x, (rows - 1) as nat);
        match cell(x, rows - 1) {
            Some(value) => above.push(value),
            None => above,
        }
    }
}

/// What `cell` gives for the first `columns` columns of `rows` cells each,
/// the columns from left to right.
pub open spec fn scan_grid<T>(cell: spec_fn(int, int) -> Option<T>, columns: nat, rows: nat) -> Seq<
    T,
>
    decreases columns,
{
    if columns == 0 {
        Seq::empty()
    } else {
        scan_grid(cell, (columns - 1) as nat, rows) + scan_column(
            cell,
            columns - 1,
            rows,
        )
    }
}

/// A column holds exactly what `cell` gives for one of its cells.
pub proof fn lemma_scan_column_contains<T>(
    cell: spec_fn(int, int) -> Option<T>,
    x: int,
    rows: nat,
    value: T,
)
    ensures
        scan_column(cell, x, rows).contains(value) <==> exists|y: int|
            0 <= y < rows && #[trigger] cell(x, y) == Some(value),
    decreases rows,
{
    if rows == 0 {
        assert(!scan_column(cell, x, rows).contains(value));
    } else {
        let above = scan_column(cell, x, (rows - 1) as nat);
        lemma_scan_column_contains(cell, x, (rows - 1) as nat, value);
        let column = scan_column(cell, x, rows);
        if column.contains(value) {
            let i = choose|i: int| 0 <= i < column.len() && column[i] == value;
            if i < above.len() {
                assert(above[i] == value);
                assert(above.contains(value));
                let y = choose|y: int| 0 <= y < rows - 1 && #[trigger] cell(x, y) == Some(value);
                assert(0 <= y < rows && cell(x, y) == Some(value));
            } else {
                assert(cell(x, rows - 1) == Some(value));
            }
        }
        if exists|y: int| 0 <= y < rows && #[trigger] cell(x, y) == Some(value) {
            let y = choose|y: int| 0 <= y < rows && #[trigger] cell(x, y) == Some(value);
            if y < rows - 1 {
                assert(above.contains(value));
                let i = choose|i: int| 0 <= i < above.len() && above[i] == value;
                assert(column[i] == value);
            } else {
                assert(column.last() == value);
            }
        }
    }
}

/// A sweep holds exactly what `cell` gives for one of its cells.
pub proof fn lemma_scan_grid_contains<T>(
    cell: spec_fn(int, int) -> Option<T>,
    columns: nat,
    rows: nat,
    value: T,
)
    ensures
        scan_grid(cell, columns, rows).contains(value) <==> exists|x: int, y: int|
            0 <= x < columns && 0 <= y < rows && #[trigger] cell(x, y) == Some(value),
    decreases columns,
{
    if columns == 0 {
        assert(!scan_grid(cell, columns, rows).contains(value));
    } else {
        let left = scan_grid(cell, (columns - 1) as nat, rows);
        let column = scan_column(cell, columns - 1, rows);
        let all = scan_grid(cell, columns, rows);
        lemma_scan_grid_contains(cell, (columns - 1) as nat, rows, value);
        lemma_scan_column_contains(cell, columns - 1, rows, value);
        if all.contains(value) {
            let i = choose|i: int| 0 <= i < all.len() && all[i] == value;
            if i < left.len() {
                assert(left[i] == value);
                assert(left.contains(value));
                let (x, y) = choose|x: int, y: int|
                    0 <= x < columns - 1 && 0 <= y < rows && #[trigger] cell(x, y) == Some(value);
                assert(0 <= x < columns && 0 <= y < rows && cell(x, y) == Some(value));
            } else {
                assert(column[i - left.len()] == value);
                assert(column.contains(value));
                let y = choose|y: int|
                    0 <= y < rows && #[trigger] cell(columns - 1, y) == Some(value);
                assert(0 <= columns - 1 < columns && 0 <= y < rows && cell(columns - 1, y) == Some(
                    value,
                ));
            }
        }
        if exists|x: int, y: int|
            0 <= x < columns && 0 <= y < rows && #[trigger] cell(x, y) == Some(value) {
            let (x, y) = choose|x: int, y: int|
                0 <= x < columns && 0 <= y < rows && #[trigger] cell(x, y) == Some(value);
            if x < columns - 1 {
                assert(left.contains(value));
                let i = choose|i: int| 0 <= i < left.len() && left[i] == value;
                assert(all[i] == value);
            } else {
                assert(column.contains(value));
                let i = choose|i: int| 0 <= i < column.len() && column[i] == value;
                assert(all[left.len() + i] == value);
            }
        }
    }
}

/// What `pick` gives for the elements of `items`, in their order, passing
/// over those for which it gives nothing.
pub open spec fn scan_seq<T, U>(items: Seq<T>, pick: spec_fn(T) -> Option<U>) -> Seq<U>
    decreases items.len(),
{
    if items.len() == 0 {
        Seq::empty()
    } else {
        let before = scan_seq(items.drop_last(), pick);
        match pick(items.last()) {
            Some(value) => before.push(value),
            None => before,
        }
    }
}

/// Whether `cell` gives no value for two cells.
pub open spec fn gives_each_once<T>(cell: spec_fn(int, int) -> Option<T>) -> bool {
    forall|x: int, y: int, a: int, b: int|
        (#[trigger] cell(x, y)) is Some && cell(x, y) == #[trigger] cell(a, b) ==> x == a && y == b
}

/// A column of a cell function that gives no value twice holds no value
/// twice.
pub proof fn lemma_scan_column_no_duplicates<T>(
    cell: spec_fn(int, int) -> Option<T>,
    x: int,
    rows: nat,
)
    requires
        gives_each_once(cell),
    ensures
        scan_column(cell, x, rows).no_duplicates(),
    decreases rows,
{
    if rows > 0 {
        let above = scan_column(cell, x, (rows - 1) as nat);
        lemma_scan_column_no_duplicates(cell, x, (rows - 1) as nat);
        match cell(x, rows - 1) {
            Some(value) => {
                lemma_scan_column_contains(cell, x, (rows - 1) as nat, value);
                if above.contains(value) {
                    let y = choose|y: int| 0 <= y < rows - 1 && #[trigger] cell(x, y) == Some(value);
                    assert(cell(x, y) == cell(x, rows - 1));
                    assert(false);
                }
                assert forall|i: int| 0 <= i < above.len() implies above[i] != value by {
                    if above[i] == value {
                        assert(above.contains(value));
                    }
                }
            },
            None => {},
        }
    }
}

/// A sweep with a cell function that gives no value twice holds no value
/// twice.
pub proof fn lemma_scan_grid_no_duplicates<T>(
    cell: spec_fn(int, int) -> Option<T>,
    columns: nat,
    rows: nat,
)
    requires
        gives_each_once(cell),
    ensures
        scan_grid(cell, columns, rows).no_duplicates(),
    decreases columns,
{
    if columns > 0 {
        let left = scan_grid(cell, (columns - 1) as nat, rows);
        let column = scan_column(cell, columns - 1, rows);
        lemma_scan_grid_no_duplicates(cell, (columns - 1) as nat, rows);
        lemma_scan_column_no_duplicates(cell, columns - 1, rows);
        assert forall|i: int, j: int| 0 <= i < left.len() && 0 <= j < column.len() implies left[i]
            != column[j] by {
            let value = left[i];
            if value == column[j] {
                assert(left.contains(value));
                assert(column.contains(value));
                lemma_scan_grid_contains(cell, (columns - 1) as nat, rows, value);
                lemma_scan_column_contains(cell, columns - 1, rows, value);
                let (x, y) = choose|x: int, y: int|
                    0 <= x < columns - 1 && 0 <= y < rows && #[trigger] cell(x, y) == Some(value);
                let b = choose|b: int|
                    0 <= b < rows && #[trigger] cell(columns - 1, b) == Some(value);
                assert(cell(x, y) == cell(columns - 1, b));
                assert(false);
            }
        }
        vstd::seq_lib::lemma_no_dup_in_concat(left, column);
    }
}

/// A pick holds exactly what `pick` gives for one of the items.
pub proof fn lemma_scan_seq_contains<T, U>(items: Seq<T>, pick: spec_fn(T) -> Option<U>, value: U)
    ensures
        scan_seq(items, pick).contains(value) <==> exists|k: int|
            0 <= k < items.len() && pick(#[trigger] items[k]) == Some(value),
    decreases items.len(),
{
    let picked = scan_seq(items, pick);
    if items.len() == 0 {
        assert(!picked.contains(value));
    } else {
        let before = scan_seq(items.drop_last(), pick);
        lemma_scan_seq_contains(items.drop_last(), pick, value);
        if picked.contains(value) {
            let i = choose|i: int| 0 <= i < picked.len() && picked[i] == value;
            if i < before.len() {
                assert(before[i] == value);
                assert(before.contains(value));
                let k = choose|k: int|
                    0 <= k < items.drop_last().len() && pick(#[trigger] items.drop_last()[k])
                        == Some(value);
                assert(items[k] == items.drop_last()[k]);
            } else {
                assert(pick(items[items.len() - 1]) == Some(value));
            }
        }
        if exists|k: int| 0 <= k < items.len() && pick(#[trigger] items[k]) == Some(value) {
            let k = choose|k: int| 0 <= k < items.len() && pick(#[trigger] items[k]) == Some(value);
            if k < items.len() - 1 {
                assert(items.drop_last()[k] == items[k]);
                assert(before.contains(value));
                let i = choose|i: int| 0 <= i < before.len() && before[i] == value;
                assert(picked[i] == value);
            } else {
                assert(picked.last() == value);
            }
        }
    }
}

/// A pick from items that are all different, with a function that gives no
/// value for two items, holds no value twice.
pub proof fn lemma_scan_seq_no_duplicates<T, U>(items: Seq<T>, pick: spec_fn(T) -> Option<U>)
    requires
        items.no_duplicates(),
        forall|a: T, b: T| (#[trigger] pick(a)) is Some && pick(a) == #[trigger] pick(b) ==> a == b,
    ensures
        scan_seq(items, pick).no_duplicates(),
    decreases items.len(),
{
    if items.len() > 0 {
        let shorter = items.drop_last();
        let before = scan_seq(shorter, pick);
        assert(shorter.no_duplicates()) by {
            assert forall|i: int, j: int|
                0 <= i < shorter.len() && 0 <= j < shorter.len() && i != j implies shorter[i]
                != shorter[j] by {
                assert(shorter[i] == items[i] && shorter[j] == items[j]);
            }
        }
        lemma_scan_seq_no_duplicates(shorter, pick);
        match pick(items.last()) {
            Some(value) => {
                lemma_scan_seq_contains(shorter, pick, value);
                if before.contains(value) {
                    let k = choose|k: int|
                        0 <= k < shorter.len() && pick(#[trigger] shorter[k]) == Some(value);
                    assert(pick(shorter[k]) == pick(items.last()));
                    assert(shorter[k] == items[k]);
                    assert(items[k] == items[items.len() - 1]);
                    assert(false);
                }
                assert forall|i: int| 0 <= i < before.len() implies before[i] != value by {
                    if before[i] == value {
                        assert(before.contains(value));
                    }
                }
            },
            None => {},
        }
    }
}

/// Whether `cell` gives a value for every cell of the first `columns`
/// columns of `rows` cells each.
pub open spec fn gives_all<T>(cell: spec_fn(int, int) -> Option<T>, columns: nat, rows: nat) -> bool {
    forall|x: int, y: int| 0 <= x < columns && 0 <= y < rows ==> (#[trigger] cell(x, y)) is Some
}

/// A column in which every cell has a value holds them all, one after the
/// other.
pub proof fn lemma_scan_column_full<T>(cell: spec_fn(int, int) -> Option<T>, x: int, rows: nat)
    requires
        forall|y: int| 0 <= y < rows ==> (#[trigger] cell(x, y)) is Some,
    ensures
        scan_column(cell, x, rows).len() == rows,
        forall|y: int| 0 <= y < rows ==> scan_column(cell, x, rows)[y] == (#[trigger] cell(x, y))->0,
    decreases rows,
{
    if rows > 0 {
        lemma_scan_column_full(cell, x, (rows - 1) as nat);
        assert(cell(x, rows - 1) is Some);
    }
}

/// A sweep in which every cell has a value holds them all: the value of
/// cell `(x, y)` stands at index `x * rows + y`.
pub proof fn lemma_scan_grid_full<T>(cell: spec_fn(int, int) -> Option<T>, columns: nat, rows: nat)
    requires
        gives_all(cell, columns, rows),
    ensures
        scan_grid(cell, columns, rows).len() == columns * rows,
        forall|x: int, y: int|
            0 <= x < columns && 0 <= y < rows ==> 0 <= x * rows + y < columns * rows && scan_grid(
                cell,
                columns,
                rows,
            )[x * rows + y] == (#[trigger] cell(x, y))->0,
    decreases columns,
{
    if columns == 0 {
        assert(columns * rows == 0) by (nonlinear_arith)
            requires
                columns == 0,
        ;
    } else {
        let left = scan_grid(cell, (columns - 1) as nat, rows);
        let column = scan_column(cell, columns - 1, rows);
        assert(gives_all(cell, (columns - 1) as nat, rows));
        lemma_scan_grid_full(cell, (columns - 1) as nat, rows);
        assert forall|y: int| 0 <= y < rows implies (#[trigger] cell(columns - 1, y)) is Some by {}
        lemma_scan_column_full(cell, columns - 1, rows);
        assert(columns * rows == (columns - 1) * rows + rows) by (nonlinear_arith);
        assert forall|x: int, y: int| 0 <= x < columns && 0 <= y < rows implies 0 <= x * rows + y
            < columns * rows && scan_grid(cell, columns, rows)[x * rows + y] == (#[trigger] cell(
            x,
            y,
        ))->0 by {
            if x < columns - 1 {
                assert(0 <= x * rows + y < (columns - 1) * rows) by (nonlinear_arith)
                    requires
                        0 <= x < columns - 1,
                        0 <= y < rows,
                ;
                assert(left[x * rows + y] == cell(x, y)->0);
            } else {
                assert(x * rows == (columns - 1) * rows);
                assert(column[y] == cell(x, y)->0);
            }
        }
    }
}

} // verus!
