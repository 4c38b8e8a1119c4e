//! The Sudoku rules as mathematical predicates over plain 9x9 grids,
//! together with the laws that tie rule violations to unsatisfiability.

use vstd::prelude::*;

verus! {

/// A grid is 9 rows of 9 cells each.
pub open spec fn grid_wf(g: Seq<Seq<u8>>) -> bool {
    g.len() == 9 && forall|i: int| 0 <= i < 9 ==> (#[trigger] g[i]).len() == 9
}

/// A solved cell must hold one of the nine digits; 0 is reserved for blanks
/// in the puzzle grid.
pub open spec fn cell_in_range(v: u8) -> bool {
    1 <= v && v <= 9
}

/// No two cells of the same row are equal.
pub open spec fn rows_ok(g: Seq<Seq<u8>>) -> bool {
    forall|i: int, j: int, k: int|
        0 <= i < 9 && 0 <= k < j < 9 ==> #[trigger] g[i][j] != #[trigger] g[i][k]
}

/// No two cells of the same column are equal.
pub open spec fn cols_ok(g: Seq<Seq<u8>>) -> bool {
    forall|i: int, j: int, k: int|
        0 <= i < 9 && 0 <= k < j < 9 ==> #[trigger] g[j][i] != #[trigger] g[k][i]
}

/// Cell number `t` (0..9, row-major) of box number `b` (0..9, row-major).
pub open spec fn box_cell(g: Seq<Seq<u8>>, b: int, t: int) -> u8 {
    g[3 * (b / 3) + t / 3][3 * (b % 3) + t % 3]
}

/// No two cells of the same 3x3 box are equal.
pub open spec fn boxes_ok(g: Seq<Seq<u8>>) -> bool {
    forall|b: int, t: int, u: int|
        0 <= b < 9 && 0 <= u < t < 9 ==> box_cell(g, b, t) != box_cell(g, b, u)
}

/// Every cell of the solution holds a digit from 1 to 9.
pub open spec fn range_ok(g: Seq<Seq<u8>>) -> bool {
    forall|i: int, j: int| 0 <= i < 9 && 0 <= j < 9 ==> cell_in_range(#[trigger] g[i][j])
}

/// Every puzzle cell is either blank (0) or equal to the solution cell at
/// the same position.
pub open spec fn consistent(p: Seq<Seq<u8>>, s: Seq<Seq<u8>>) -> bool {
    forall|i: int, j: int|
        0 <= i < 9 && 0 <= j < 9 ==> (#[trigger] p[i][j] == 0 || p[i][j] == #[trigger] s[i][j])
}

/// The full Sudoku statement: the solution obeys all uniqueness and range
/// rules and agrees with the puzzle on every non-blank puzzle cell.
pub open spec fn valid_pair(p: Seq<Seq<u8>>, s: Seq<Seq<u8>>) -> bool {
    rows_ok(s) && cols_ok(s) && boxes_ok(s) && range_ok(s) && consistent(p, s)
}

/// A duplicate value inside one row breaks the Sudoku statement, so the
/// constraint system built from such a pair is unsatisfiable.
pub proof fn lemma_row_duplicate_invalid(p: Seq<Seq<u8>>, s: Seq<Seq<u8>>, i: int, j: int, k: int)
    requires
        0 <= i < 9,
        0 <= k < j < 9,
        s[i][j] == s[i][k],
    ensures
        !valid_pair(p, s),
{
    assert(!rows_ok(s)) by {
        if rows_ok(s) {
            assert(s[i][j] != s[i][k]);
        }
    }
}

/// A duplicate value inside one column breaks the Sudoku statement.
pub proof fn lemma_col_duplicate_invalid(p: Seq<Seq<u8>>, s: Seq<Seq<u8>>, i: int, j: int, k: int)
    requires
        0 <= i < 9,
        0 <= k < j < 9,
        s[j][i] == s[k][i],
    ensures
        !valid_pair(p, s),
{
    assert(!cols_ok(s)) by {
        if cols_ok(s) {
            assert(s[j][i] != s[k][i]);
        }
    }
}

/// A duplicate value inside one 3x3 box breaks the Sudoku statement.
pub proof fn lemma_box_duplicate_invalid(p: Seq<Seq<u8>>, s: Seq<Seq<u8>>, b: int, t: int, u: int)
    requires
        0 <= b < 9,
        0 <= u < t < 9,
        box_cell(s, b, t) == box_cell(s, b, u),
    ensures
        !valid_pair(p, s),
{
    assert(!boxes_ok(s)) by {
        if boxes_ok(s) {
            assert(box_cell(s, b, t) != box_cell(s, b, u));
        }
    }
}

/// A solution cell outside 1..=9 breaks the Sudoku statement; in particular
/// a solution whose every cell lies outside that range is rejected.
pub proof fn lemma_range_violation_invalid(p: Seq<Seq<u8>>, s: Seq<Seq<u8>>, i: int, j: int)
    requires
        0 <= i < 9,
        0 <= j < 9,
        !cell_in_range(s[i][j]),
    ensures
        !valid_pair(p, s),
{
    assert(!range_ok(s)) by {
        if range_ok(s) {
            assert(cell_in_range(s[i][j]));
        }
    }
}

/// A solution whose every cell lies outside [1,9] breaks the Sudoku
/// statement: already the first cell does.
pub proof fn lemma_all_out_of_range_invalid(p: Seq<Seq<u8>>, s: Seq<Seq<u8>>)
    requires
        forall|i: int, j: int| 0 <= i < 9 && 0 <= j < 9 ==> !cell_in_range(#[trigger] s[i][j]),
    ensures
        !valid_pair(p, s),
{
    assert(!cell_in_range(s[0][0]));
    lemma_range_violation_invalid(p, s, 0, 0);
}

/// A non-blank puzzle cell that differs from the solution cell at the same
/// position breaks the Sudoku statement.
pub proof fn lemma_inconsistent_invalid(p: Seq<Seq<u8>>, s: Seq<Seq<u8>>, i: int, j: int)
    requires
        0 <= i < 9,
        0 <= j < 9,
        p[i][j] != 0,
        p[i][j] != s[i][j],
    ensures
        !valid_pair(p, s),
{
    assert(!consistent(p, s)) by {
        if consistent(p, s) {
            assert(p[i][j] == 0 || p[i][j] == s[i][j]);
        }
    }
}

/// Circuit construction is deterministic: any two runs over the same
/// concrete pair decide satisfiability identically, because each run's
/// outcome equals the one mathematical statement `valid_pair`.
pub proof fn lemma_satisfiability_deterministic(
    p: Seq<Seq<u8>>,
    s: Seq<Seq<u8>>,
    r1: bool,
    r2: bool,
)
    requires
        r1 == valid_pair(p, s),
        r2 == valid_pair(p, s),
    ensures
        r1 == r2,
{
}

} // verus!
