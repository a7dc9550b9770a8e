use vstd::arithmetic::div_mod::*;
use vstd::arithmetic::mul::lemma_mul_is_commutative;
use vstd::prelude::*;

verus! {

/// Number of grid rows needed to hold `len` values in `cols` columns; an
/// empty list still takes one row, where the "no records" line goes.
pub open spec fn rows_spec(len: nat, cols: nat) -> nat {
    if len == 0 {
        1
    } else if len % cols == 0 {
        len / cols
    } else {
        len / cols + 1
    }
}

/// Linear index of the cell `(col, row)` in a grid of `cols` columns.
pub open spec fn pos_spec(col: nat, row: nat, cols: nat) -> nat {
    row * cols + col
}

/// A cursor that names an existing value.
pub open spec fn valid_cursor(cols: nat, len: nat, col: nat, row: nat) -> bool {
    col < cols && pos_spec(col, row, cols) < len
}

pub open spec fn next_spec(cols: nat, len: nat, col: nat, row: nat) -> (nat, nat) {
    let (c, r) = if col + 1 >= cols { (0nat, row + 1) } else { (col + 1, row) };
    let (c, r) = if r >= rows_spec(len, cols) { (0nat, 0nat) } else { (c, r) };
    if pos_spec(c, r, cols) >= len { (0nat, 0nat) } else { (c, r) }
}

pub open spec fn previous_spec(cols: nat, len: nat, col: nat, row: nat) -> (nat, nat) {
    let rows = rows_spec(len, cols);
    let (c, r) = if col > 0 {
        ((col - 1) as nat, row)
    } else if row > 0 {
        ((cols - 1) as nat, (row - 1) as nat)
    } else {
        ((cols - 1) as nat, (rows - 1) as nat)
    };
    if pos_spec(c, r, cols) >= len {
        (if len % cols >= 1 { (len % cols - 1) as nat } else { 0nat }, (rows - 1) as nat)
    } else {
        (c, r)
    }
}

pub open spec fn up_spec(cols: nat, len: nat, col: nat, row: nat) -> nat {
    if row > 0 {
        (row - 1) as nat
    } else {
        let last = (rows_spec(len, cols) - 1) as nat;
        if pos_spec(col, last, cols) >= len {
            if last >= 1 { (last - 1) as nat } else { 0 }
        } else {
            last
        }
    }
}

pub open spec fn down_spec(cols: nat, len: nat, col: nat, row: nat) -> nat {
    if row + 1 >= rows_spec(len, cols) {
        0
    } else if pos_spec(col, row + 1, cols) >= len {
        0
    } else {
        row + 1
    }
}

pub open spec fn left_spec(cols: nat, len: nat, col: nat, row: nat) -> nat {
    if col > 0 {
        (col - 1) as nat
    } else if pos_spec(col, row, cols) + 1 == len {
        0
    } else {
        (cols - 1) as nat
    }
}

pub open spec fn right_spec(cols: nat, len: nat, col: nat, row: nat) -> nat {
    if col + 1 >= cols || pos_spec(col, row, cols) + 2 > len {
        0
    } else {
        col + 1
    }
}

/// The cell reached from `(col, row)` by `n` steps of "next element".
pub open spec fn next_n(cols: nat, len: nat, col: nat, row: nat, n: nat) -> (nat, nat)
    decreases n,
{
    if n == 0 {
        (col, row)
    } else {
        let (c, r) = next_n(cols, len, col, row, (n - 1) as nat);
        next_spec(cols, len, c, r)
    }
}

/// Every value fits in the grid, and the last row is not empty.
pub proof fn lemma_rows_cover(len: nat, cols: nat)
    requires
        cols >= 1,
    ensures
        rows_spec(len, cols) * cols >= len,
        len > 0 ==> (rows_spec(len, cols) - 1) * cols < len,
        rows_spec(len, cols) >= 1,
{
    lemma_fundamental_div_mod(len as int, cols as int);
    lemma_mod_bound(len as int, cols as int);
    let q = len / cols;
    let m = len % cols;
    lemma_mul_is_commutative(cols as int, q as int);
    assert(q * cols + m == len);
    if len == 0 {
    } else if m == 0 {
        assert(q * cols == len);
        assert(q >= 1) by (nonlinear_arith)
            requires
                q * cols == len,
                len >= 1,
        ;
        assert((q - 1) * cols < len) by (nonlinear_arith)
            requires
                q * cols == len,
                cols >= 1,
        ;
    } else {
        assert((q + 1) * cols >= len) by (nonlinear_arith)
            requires
                q * cols + m == len,
                m < cols,
        ;
    }
}

/// The row count is `ceil(len / cols)` for a non-empty list and 1 for an empty one.
pub proof fn lemma_rows_is_ceiling(len: nat, cols: nat)
    requires
        cols >= 1,
    ensures
        len == 0 ==> rows_spec(len, cols) == 1,
        len > 0 ==> rows_spec(len, cols) == (len + cols - 1) as int / cols as int,
{
    if len > 0 {
        lemma_rows_cover(len, cols);
        let r = rows_spec(len, cols);
        assert(r * cols >= len);
        assert((r - 1) * cols < len);
        assert((r - 1) * cols + (len - 1 - (r - 1) * cols) == len + cols - 1 - cols);
        let x = (len + cols - 1) as int;
        assert(r * cols <= x) by (nonlinear_arith)
            requires
                (r - 1) * cols < len,
                x == len + cols - 1,
        ;
        assert(x < (r + 1) * cols) by (nonlinear_arith)
            requires
                r * cols >= len,
                x == len + cols - 1,
        ;
        lemma_fundamental_div_mod_converse(x, cols as int, r as int, x - r * cols);
    }
}

/// Two cells with the same index in the same grid are the same cell.
proof fn lemma_cell_unique(cols: nat, c1: nat, r1: nat, c2: nat, r2: nat)
    requires
        cols >= 1,
        c1 < cols,
        c2 < cols,
        pos_spec(c1, r1, cols) == pos_spec(c2, r2, cols),
    ensures
        c1 == c2,
        r1 == r2,
{
    let x = pos_spec(c1, r1, cols) as int;
    lemma_fundamental_div_mod_converse(x, cols as int, r1 as int, c1 as int);
    lemma_fundamental_div_mod_converse(x, cols as int, r2 as int, c2 as int);
}

/// "Next element" moves a valid cursor to the following value, and from the
/// last value back to the first.
pub proof fn lemma_next_moves_forward(cols: nat, len: nat, col: nat, row: nat)
    requires
        cols >= 1,
        valid_cursor(cols, len, col, row),
    ensures
        ({
            let (c, r) = next_spec(cols, len, col, row);
            let i = pos_spec(col, row, cols);
            valid_cursor(cols, len, c, r) && pos_spec(c, r, cols) == if i + 1 < len {
                i + 1
            } else {
                0
            }
        }),
{
    lemma_rows_cover(len, cols);
    let rows = rows_spec(len, cols);
    let i = pos_spec(col, row, cols);
    assert(row < rows) by (nonlinear_arith)
        requires
            row * cols + col < len,
            rows * cols >= len,
            cols >= 1,
    ;
    assert((row + 1) * cols == row * cols + cols) by (nonlinear_arith);
    assert(0 * cols == 0) by (nonlinear_arith);
    if col + 1 >= cols {
        if row + 1 >= rows {
            assert((row + 1) * cols >= rows * cols) by (nonlinear_arith)
                requires
                    row + 1 >= rows,
                    cols >= 1,
            ;
        }
    }
}

/// "Previous element" moves a valid cursor to the preceding value, and from
/// the first value to the last.
pub proof fn lemma_previous_moves_back(cols: nat, len: nat, col: nat, row: nat)
    requires
        cols >= 1,
        valid_cursor(cols, len, col, row),
    ensures
        ({
            let (c, r) = previous_spec(cols, len, col, row);
            let i = pos_spec(col, row, cols);
            valid_cursor(cols, len, c, r) && pos_spec(c, r, cols) == if i > 0 {
                (i - 1) as nat
            } else {
                (len - 1) as nat
            }
        }),
{
    lemma_rows_cover(len, cols);
    let rows = rows_spec(len, cols);
    assert(0 * cols == 0) by (nonlinear_arith);
    if col == 0 && row > 0 {
        assert(((row - 1) as nat) * cols + cols == row * cols) by (nonlinear_arith)
            requires
                row >= 1,
        ;
    } else if col == 0 && row == 0 {
        let last = (rows - 1) as nat;
        assert(last * cols + cols == rows * cols) by (nonlinear_arith)
            requires
                rows >= 1,
                last == rows - 1,
        ;
        if pos_spec((cols - 1) as nat, last, cols) >= len {
            lemma_fundamental_div_mod(len as int, cols as int);
            lemma_mod_bound(len as int, cols as int);
            if len % cols == 0 {
                assert(rows == len / cols);
            } else {
                assert(last == len / cols);
            }
        }
    }
}

/// "Previous element" undoes "next element" on every valid cursor.
pub proof fn lemma_previous_undoes_next(cols: nat, len: nat, col: nat, row: nat)
    requires
        cols >= 1,
        valid_cursor(cols, len, col, row),
    ensures
        ({
            let (c, r) = next_spec(cols, len, col, row);
            previous_spec(cols, len, c, r) == (col, row)
        }),
{
    lemma_next_moves_forward(cols, len, col, row);
    let (c, r) = next_spec(cols, len, col, row);
    lemma_previous_moves_back(cols, len, c, r);
    let (c2, r2) = previous_spec(cols, len, c, r);
    lemma_cell_unique(cols, c2, r2, col, row);
}

/// "Next element" undoes "previous element" on every valid cursor.
pub proof fn lemma_next_undoes_previous(cols: nat, len: nat, col: nat, row: nat)
    requires
        cols >= 1,
        valid_cursor(cols, len, col, row),
    ensures
        ({
            let (c, r) = previous_spec(cols, len, col, row);
            next_spec(cols, len, c, r) == (col, row)
        }),
{
    lemma_previous_moves_back(cols, len, col, row);
    let (c, r) = previous_spec(cols, len, col, row);
    lemma_next_moves_forward(cols, len, c, r);
    let (c2, r2) = next_spec(cols, len, c, r);
    lemma_cell_unique(cols, c2, r2, col, row);
}

/// After `n` steps of "next element" a valid cursor stands on the value `n`
/// places further on, counted around the list; it stays valid throughout.
pub proof fn lemma_next_n_index(cols: nat, len: nat, col: nat, row: nat, n: nat)
    requires
        cols >= 1,
        valid_cursor(cols, len, col, row),
    ensures
        ({
            let (c, r) = next_n(cols, len, col, row, n);
            valid_cursor(cols, len, c, r) && pos_spec(c, r, cols) == (pos_spec(col, row, cols) + n)
                % len
        }),
    decreases n,
{
    let i = pos_spec(col, row, cols);
    if n == 0 {
        lemma_small_mod(i, len);
    } else {
        lemma_next_n_index(cols, len, col, row, (n - 1) as nat);
        let (c, r) = next_n(cols, len, col, row, (n - 1) as nat);
        lemma_next_moves_forward(cols, len, c, r);
        let j = pos_spec(c, r, cols);
        lemma_add_mod_noop(i + n - 1, 1, len as int);
        if len > 1 {
            lemma_small_mod(1, len);
        } else {
            lemma_mod_self_0(1);
            lemma_small_mod(j, len);
        }
        if j + 1 < len {
            lemma_small_mod(j + 1, len);
        } else {
            lemma_mod_self_0(len as int);
        }
    }
}

/// Pressing "next element" once for every value brings the cursor back to
/// where it started.
pub proof fn lemma_next_cycles(cols: nat, len: nat, col: nat, row: nat)
    requires
        cols >= 1,
        valid_cursor(cols, len, col, row),
    ensures
        next_n(cols, len, col, row, len) == (col, row),
{
    lemma_next_n_index(cols, len, col, row, len);
    let i = pos_spec(col, row, cols);
    lemma_add_mod_noop(i as int, len as int, len as int);
    lemma_mod_self_0(len as int);
    lemma_small_mod(i, len);
    let (c, r) = next_n(cols, len, col, row, len);
    lemma_cell_unique(cols, c, r, col, row);
}

/// Linear index of a cell, computed without overflow.
pub fn cell_index(col: usize, row: usize, cols: usize) -> (r: u128)
    ensures
        r == pos_spec(col as nat, row as nat, cols as nat),
        r <= (usize::MAX as int) * (usize::MAX as int) + usize::MAX,
{
    proof {
        assert((row as int) * (cols as int) <= (usize::MAX as int) * (usize::MAX as int))
            by (nonlinear_arith)
            requires
                0 <= row <= usize::MAX,
                0 <= cols <= usize::MAX,
        ;
    }
    let p = (row as u128) * (cols as u128);
    p + col as u128
}

/// Rows needed for `len` values in `cols` columns.
pub fn grid_rows(len: usize, cols: usize) -> (r: usize)
    requires
        cols >= 1,
    ensures
        r == rows_spec(len as nat, cols as nat),
        r >= 1,
{
    if len == 0 {
        return 1;
    }
    let rows = len / cols;
    proof {
        lemma_fundamental_div_mod(len as int, cols as int);
        lemma_mod_bound(len as int, cols as int);
        lemma_mul_is_commutative(cols as int, rows as int);
        if len % cols != 0 {
            assert(rows < len) by (nonlinear_arith)
                requires
                    rows * cols + len % cols == len,
                    len % cols >= 1,
                    cols >= 1,
                    rows >= 0,
            ;
        } else {
            assert(rows >= 1) by (nonlinear_arith)
                requires
                    rows * cols == len,
                    len >= 1,
                    rows >= 0,
            ;
        }
    }
    if len % cols != 0 {
        rows + 1
    } else {
        rows
    }
}

pub fn next_cell(cols: usize, len: usize, col: usize, row: usize) -> (r: (usize, usize))
    requires
        cols >= 1,
    ensures
        (r.0 as nat, r.1 as nat) == next_spec(cols as nat, len as nat, col as nat, row as nat),
{
    let rows = grid_rows(len, cols);
    let (c, r): (usize, usize) = if col >= cols - 1 {
        if row >= rows - 1 {
            return (0, 0);
        }
        (0, row + 1)
    } else {
        if row >= rows {
            return (0, 0);
        }
        (col + 1, row)
    };
    if cell_index(c, r, cols) >= len as u128 {
        (0, 0)
    } else {
        (c, r)
    }
}

pub fn previous_cell(cols: usize, len: usize, col: usize, row: usize) -> (r: (usize, usize))
    requires
        cols >= 1,
    ensures
        (r.0 as nat, r.1 as nat) == previous_spec(cols as nat, len as nat, col as nat, row as nat),
{
    let rows = grid_rows(len, cols);
    let (c, r): (usize, usize) = if col > 0 {
        (col - 1, row)
    } else if row > 0 {
        (cols - 1, row - 1)
    } else {
        (cols - 1, rows - 1)
    };
    if cell_index(c, r, cols) >= len as u128 {
        ((len % cols).saturating_sub(1), rows - 1)
    } else {
        (c, r)
    }
}

pub fn up_row(cols: usize, len: usize, col: usize, row: usize) -> (r: usize)
    requires
        cols >= 1,
    ensures
        r == up_spec(cols as nat, len as nat, col as nat, row as nat),
{
    if row > 0 {
        row - 1
    } else {
        let last = grid_rows(len, cols) - 1;
        if cell_index(col, last, cols) >= len as u128 {
            last.saturating_sub(1)
        } else {
            last
        }
    }
}

pub fn down_row(cols: usize, len: usize, col: usize, row: usize) -> (r: usize)
    requires
        cols >= 1,
    ensures
        r == down_spec(cols as nat, len as nat, col as nat, row as nat),
{
    let rows = grid_rows(len, cols);
    if row >= rows - 1 {
        0
    } else if cell_index(col, row + 1, cols) >= len as u128 {
        0
    } else {
        row + 1
    }
}

pub fn left_col(cols: usize, len: usize, col: usize, row: usize) -> (r: usize)
    requires
        cols >= 1,
    ensures
        r == left_spec(cols as nat, len as nat, col as nat, row as nat),
{
    if col > 0 {
        col - 1
    } else if cell_index(col, row, cols) + 1 == len as u128 {
        0
    } else {
        cols - 1
    }
}

pub fn right_col(cols: usize, len: usize, col: usize, row: usize) -> (r: usize)
    requires
        cols >= 1,
    ensures
        r == right_spec(cols as nat, len as nat, col as nat, row as nat),
{
    if col >= cols - 1 || cell_index(col, row, cols) + 2 > len as u128 {
        0
    } else {
        col + 1
    }
}

} // verus!
