//! The Sudoku constraint builder: encodes concrete grids into circuit
//! signals and composes comparator gadgets across rows, columns, boxes and
//! the puzzle/solution correspondence into one constraint system.

use vstd::prelude::*;

use crate::comparator::{greater_or_equal, less_or_equal, not_equal};
use crate::gadgets::{
    alloc_input_u8, alloc_witness_u8, bool_and, bool_or, cell_is_eq, check_satisfied, constant_u8,
    cs_in_setup, cs_live, cs_records, cs_satisfied, enforce_true, new_prover, CellVar,
    CircuitBuilder, CircuitError,
};
use crate::rules::{
    box_cell,
    boxes_ok, cols_ok, consistent, grid_wf, range_ok, rows_ok, valid_pair,
};

verus! {

/// A concrete 9x9 grid of small integers. In a puzzle grid 0 marks a blank;
/// a solution grid is fully populated with digits 1 to 9.
pub struct Grid {
    pub cells: Vec<Vec<u8>>,
}

impl View for Grid {
    type V = Seq<Seq<u8>>;

    open spec fn view(&self) -> Seq<Seq<u8>> {
        Seq::new(self.cells@.len() as nat, |i: int| self.cells@[i]@)
    }
}

impl Grid {
    pub open spec fn wf(&self) -> bool {
        grid_wf(self@)
    }
}

/// The puzzle grid as circuit signals (public input role).
pub struct Sudoku {
    pub cells: Vec<Vec<CellVar>>,
}

/// The solution grid as circuit signals (private witness role).
pub struct Solution {
    pub cells: Vec<Vec<CellVar>>,
}

/// Nine rows of nine signals, every one of them allocated on the builder's
/// live system.
pub open spec fn cells_wf(cells: Seq<Vec<CellVar>>) -> bool {
    cells.len() == 9 && (forall|i: int| 0 <= i < 9 ==> (#[trigger] cells[i])@.len() == 9) && (
    forall|i: int, j: int| 0 <= i < 9 && 0 <= j < 9 ==> (#[trigger] cells[i]@[j]).allocated)
}

/// The mirrored value of the signal at position (i, j).
pub open spec fn cell_val(cells: Seq<Vec<CellVar>>, i: int, j: int) -> Option<u8> {
    cells[i]@[j].value
}

/// Every signal carries a concrete value.
pub open spec fn all_assigned(cells: Seq<Vec<CellVar>>) -> bool {
    forall|i: int, j: int| 0 <= i < 9 && 0 <= j < 9 ==> (#[trigger] cell_val(cells, i, j)) is Some
}

impl Sudoku {
    pub open spec fn wf(&self) -> bool {
        cells_wf(self.cells@)
    }

    pub open spec fn val(&self, i: int, j: int) -> Option<u8> {
        cell_val(self.cells@, i, j)
    }

    pub open spec fn assigned(&self) -> bool {
        all_assigned(self.cells@)
    }
}

impl Solution {
    pub open spec fn wf(&self) -> bool {
        cells_wf(self.cells@)
    }

    pub open spec fn val(&self, i: int, j: int) -> Option<u8> {
        cell_val(self.cells@, i, j)
    }

    pub open spec fn assigned(&self) -> bool {
        all_assigned(self.cells@)
    }
}

/// Two mirrored values that are both present and differ.
pub open spec fn opt_neq(a: Option<u8>, b: Option<u8>) -> bool {
    a is Some && b is Some && a != b
}

/// The enforced row constraints all hold of the mirrored values: every pair
/// of cells in a row is present and distinct.
pub open spec fn rows_constrained(s: &Solution) -> bool {
    forall|i: int, j: int, k: int|
        0 <= i < 9 && 0 <= k < j < 9 ==> opt_neq(#[trigger] s.val(i, j), #[trigger] s.val(i, k))
}

/// As for rows, along columns.
pub open spec fn cols_constrained(s: &Solution) -> bool {
    forall|i: int, j: int, k: int|
        0 <= i < 9 && 0 <= k < j < 9 ==> opt_neq(#[trigger] s.val(j, i), #[trigger] s.val(k, i))
}

/// The mirrored value of cell number `t` (row-major) of box number `b`.
pub open spec fn box_val(s: &Solution, b: int, t: int) -> Option<u8> {
    s.val(3 * (b / 3) + t / 3, 3 * (b % 3) + t % 3)
}

/// As for rows, within each 3x3 box.
pub open spec fn boxes_constrained(s: &Solution) -> bool {
    forall|b: int, t: int, u: int|
        0 <= b < 9 && 0 <= u < t < 9 ==> opt_neq(#[trigger] box_val(s, b, t), #[trigger] box_val(
            s,
            b,
            u,
        ))
}

/// The enforced consistency constraint for one position: both values
/// present, and the puzzle cell blank or equal to the solution cell.
pub open spec fn cell_consistent(p: Option<u8>, s: Option<u8>) -> bool {
    p is Some && s is Some && (p == s || p == Some(0u8))
}

/// The enforced range constraint for one position: the solution value is
/// present and holds a digit from 1 to 9.
pub open spec fn cell_ranged(s: Option<u8>) -> bool {
    match s {
        Some(v) => 1 <= v && v <= 9,
        None => false,
    }
}

/// The enforced consistency and range constraints all hold of the mirrored
/// values.
pub open spec fn consistency_range_constrained(p: &Sudoku, s: &Solution) -> bool {
    forall|i: int, j: int|
        0 <= i < 9 && 0 <= j < 9 ==> cell_consistent(#[trigger] p.val(i, j), #[trigger] s.val(i, j))
            && cell_ranged(s.val(i, j))
}

/// The role a grid's signals play in the constraint system.
pub enum Role {
    PublicInput,
    PrivateWitness,
}

/// The grid encoder: turns an optional concrete grid into 81 signals of the
/// given role. Absent grid and setup mode both yield unassigned signals fit
/// for structural construction; an absent grid in assignment mode is the
/// missing-assignment failure, which propagates.
#[verifier::loop_isolation(false)]
pub fn encode_grid(cs: &mut CircuitBuilder, g: &Option<Grid>, role: Role) -> (r: Result<
    Vec<Vec<CellVar>>,
    CircuitError,
>)
    requires
        cs_live(*old(cs)),
        (match g {
            Some(gr) => gr.wf(),
            None => true,
        }),
    ensures
        cs_live(*final(cs)),
        cs_in_setup(*final(cs)) == cs_in_setup(*old(cs)),
        cs_records(*final(cs)) == cs_records(*old(cs)),
        cs_satisfied(*final(cs)) == cs_satisfied(*old(cs)),
        match r {
            Ok(cells) => cells_wf(cells@) && (if cs_in_setup(*old(cs)) {
                forall|i: int, j: int|
                    0 <= i < 9 && 0 <= j < 9 ==> (#[trigger] cell_val(cells@, i, j)) is None
            } else {
                g matches Some(gr) && forall|i: int, j: int|
                    0 <= i < 9 && 0 <= j < 9 ==> (#[trigger] cell_val(cells@, i, j)) == Some(
                        gr@[i][j],
                    )
            }),
            Err(e) => e == CircuitError::MissingAssignment && !cs_in_setup(*old(cs))
                && g is None,
        },
{
    let ghost setup0: bool = cs_in_setup(*cs);
    let ghost records0: bool = cs_records(*cs);
    let ghost sat0: bool = cs_satisfied(*cs);
    let mut rows: Vec<Vec<CellVar>> = Vec::new();
    let mut i: usize = 0;
    while i < 9
        invariant
            cs_live(*cs),
            cs_in_setup(*cs) == setup0,
            cs_records(*cs) == records0,
            cs_satisfied(*cs) == sat0,
            (match g {
                Some(gr) => gr.wf(),
                None => true,
            }),
            i <= 9,
            rows@.len() == i,
            forall|i2: int| 0 <= i2 < i ==> (#[trigger] rows@[i2])@.len() == 9,
            forall|i2: int, j2: int|
                0 <= i2 < i && 0 <= j2 < 9 ==> (#[trigger] rows@[i2]@[j2]).allocated,
            forall|i2: int, j2: int|
                0 <= i2 < i && 0 <= j2 < 9 ==> (#[trigger] rows@[i2]@[j2]).value == (if setup0 {
                    Option::<u8>::None
                } else {
                    Some(g->Some_0@[i2][j2])
                }),
            !setup0 && i > 0 ==> g is Some,
        decreases 9 - i,
    {
        let mut row: Vec<CellVar> = Vec::new();
        let mut j: usize = 0;
        while j < 9
            invariant
                cs_live(*cs),
                cs_in_setup(*cs) == setup0,
                cs_records(*cs) == records0,
                cs_satisfied(*cs) == sat0,
                (match g {
                    Some(gr) => gr.wf(),
                    None => true,
                }),
                i < 9,
                j <= 9,
                row@.len() == j,
                forall|j2: int| 0 <= j2 < j ==> (#[trigger] row@[j2]).allocated,
                forall|j2: int|
                    0 <= j2 < j ==> (#[trigger] row@[j2]).value == (if setup0 {
                        Option::<u8>::None
                    } else {
                        Some(g->Some_0@[i as int][j2])
                    }),
                !setup0 && j > 0 ==> g is Some,
            decreases 9 - j,
        {
            let v: Option<u8> = match g {
                Some(gr) => {
                    proof {
                        assert(*g == Some(*gr));
                        assert(gr@.len() == 9);
                        assert(gr@[i as int].len() == 9);
                        assert(gr@[i as int] == gr.cells@[i as int]@);
                    }
                    Some(gr.cells[i][j])
                },
                None => None,
            };
            proof {
                assert(v == (match *g {
                    Some(gr2) => Some(gr2@[i as int][j as int]),
                    None => Option::<u8>::None,
                }));
            }
            let c = match role {
                Role::PublicInput => alloc_input_u8(cs, v)?,
                Role::PrivateWitness => alloc_witness_u8(cs, v)?,
            };
            row.push(c);
            j = j + 1;
        }
        rows.push(row);
        i = i + 1;
    }
    Ok(rows)
}


/// Row uniqueness: for every row, every pair of distinct cells is enforced
/// not equal, all 36 pairs per row, not only adjacent ones.
#[verifier::loop_isolation(false)]
pub fn check_rows(cs: &mut CircuitBuilder, solution: &Solution) -> (r: Result<(), CircuitError>)
    requires
        cs_live(*old(cs)),
        solution.wf(),
        cs_in_setup(*old(cs)) || solution.assigned(),
    ensures
        cs_live(*final(cs)),
        cs_in_setup(*final(cs)) == cs_in_setup(*old(cs)),
        cs_records(*final(cs)) == cs_records(*old(cs)),
        (r is Ok),
        cs_satisfied(*final(cs)) == (cs_satisfied(*old(cs)) && (cs_in_setup(*old(cs))
            || rows_constrained(solution))),
{
    let ghost setup0: bool = cs_in_setup(*cs);
    let ghost records0: bool = cs_records(*cs);
    let ghost sat0: bool = cs_satisfied(*cs);
    let mut i: usize = 0;
    while i < 9
        invariant
            cs_live(*cs),
            cs_in_setup(*cs) == setup0,
            cs_records(*cs) == records0,
            i <= 9,
            cs_satisfied(*cs) == (sat0 && (setup0 || forall|i2: int, j2: int, k2: int|
                0 <= i2 < i && 0 <= k2 < j2 < 9 ==> opt_neq(
                    #[trigger] solution.val(i2, j2),
                    #[trigger] solution.val(i2, k2),
                ))),
        decreases 9 - i,
    {
        let mut j: usize = 1;
        while j < 9
            invariant
                cs_live(*cs),
                cs_in_setup(*cs) == setup0,
                cs_records(*cs) == records0,
                i < 9,
                1 <= j <= 9,
                cs_satisfied(*cs) == (sat0 && (setup0 || ((forall|i2: int, j2: int, k2: int|
                    0 <= i2 < i && 0 <= k2 < j2 < 9 ==> opt_neq(
                        #[trigger] solution.val(i2, j2),
                        #[trigger] solution.val(i2, k2),
                    )) && (forall|j2: int, k2: int|
                    0 <= k2 < j2 < j ==> opt_neq(
                        #[trigger] solution.val(i as int, j2),
                        #[trigger] solution.val(i as int, k2),
                    ))))),
            decreases 9 - j,
        {
            let mut k: usize = 0;
            while k < j
                invariant
                    cs_live(*cs),
                    cs_in_setup(*cs) == setup0,
                    cs_records(*cs) == records0,
                    i < 9,
                    1 <= j < 9,
                    k <= j,
                    cs_satisfied(*cs) == (sat0 && (setup0 || ((forall|i2: int, j2: int, k2: int|
                        0 <= i2 < i && 0 <= k2 < j2 < 9 ==> opt_neq(
                            #[trigger] solution.val(i2, j2),
                            #[trigger] solution.val(i2, k2),
                        )) && (forall|j2: int, k2: int|
                        0 <= k2 < j2 < j ==> opt_neq(
                            #[trigger] solution.val(i as int, j2),
                            #[trigger] solution.val(i as int, k2),
                        )) && (forall|k2: int|
                        0 <= k2 < k ==> opt_neq(
                            solution.val(i as int, j as int),
                            #[trigger] solution.val(i as int, k2),
                        ))))),
                decreases j - k,
            {
                proof {
                    if !setup0 {
                        assert(solution.val(i as int, j as int) is Some);
                        assert(solution.val(i as int, k as int) is Some);
                    }
                }
                let nq = not_equal(cs, &solution.cells[i][j], &solution.cells[i][k])?;
                enforce_true(cs, &nq);
                k = k + 1;
            }
            j = j + 1;
        }
        i = i + 1;
    }
    Ok(())
}

/// Column uniqueness: the same pairwise rule along every column, reached by
/// transposed indexing without rearranging the grid.
#[verifier::loop_isolation(false)]
pub fn check_cols(cs: &mut CircuitBuilder, solution: &Solution) -> (r: Result<(), CircuitError>)
    requires
        cs_live(*old(cs)),
        solution.wf(),
        cs_in_setup(*old(cs)) || solution.assigned(),
    ensures
        cs_live(*final(cs)),
        cs_in_setup(*final(cs)) == cs_in_setup(*old(cs)),
        cs_records(*final(cs)) == cs_records(*old(cs)),
        (r is Ok),
        cs_satisfied(*final(cs)) == (cs_satisfied(*old(cs)) && (cs_in_setup(*old(cs))
            || cols_constrained(solution))),
{
    let ghost setup0: bool = cs_in_setup(*cs);
    let ghost records0: bool = cs_records(*cs);
    let ghost sat0: bool = cs_satisfied(*cs);
    let mut i: usize = 0;
    while i < 9
        invariant
            cs_live(*cs),
            cs_in_setup(*cs) == setup0,
            cs_records(*cs) == records0,
            i <= 9,
            cs_satisfied(*cs) == (sat0 && (setup0 || forall|i2: int, j2: int, k2: int|
                0 <= i2 < i && 0 <= k2 < j2 < 9 ==> opt_neq(
                    #[trigger] solution.val(j2, i2),
                    #[trigger] solution.val(k2, i2),
                ))),
        decreases 9 - i,
    {
        let mut j: usize = 1;
        while j < 9
            invariant
                cs_live(*cs),
                cs_in_setup(*cs) == setup0,
                cs_records(*cs) == records0,
                i < 9,
                1 <= j <= 9,
                cs_satisfied(*cs) == (sat0 && (setup0 || ((forall|i2: int, j2: int, k2: int|
                    0 <= i2 < i && 0 <= k2 < j2 < 9 ==> opt_neq(
                        #[trigger] solution.val(j2, i2),
                        #[trigger] solution.val(k2, i2),
                    )) && (forall|j2: int, k2: int|
                    0 <= k2 < j2 < j ==> opt_neq(
                        #[trigger] solution.val(j2, i as int),
                        #[trigger] solution.val(k2, i as int),
                    ))))),
            decreases 9 - j,
        {
            let mut k: usize = 0;
            while k < j
                invariant
                    cs_live(*cs),
                    cs_in_setup(*cs) == setup0,
                    cs_records(*cs) == records0,
                    i < 9,
                    1 <= j < 9,
                    k <= j,
                    cs_satisfied(*cs) == (sat0 && (setup0 || ((forall|i2: int, j2: int, k2: int|
                        0 <= i2 < i && 0 <= k2 < j2 < 9 ==> opt_neq(
                            #[trigger] solution.val(j2, i2),
                            #[trigger] solution.val(k2, i2),
                        )) && (forall|j2: int, k2: int|
                        0 <= k2 < j2 < j ==> opt_neq(
                            #[trigger] solution.val(j2, i as int),
                            #[trigger] solution.val(k2, i as int),
                        )) && (forall|k2: int|
                        0 <= k2 < k ==> opt_neq(
                            solution.val(j as int, i as int),
                            #[trigger] solution.val(k2, i as int),
                        ))))),
                decreases j - k,
            {
                proof {
                    if !setup0 {
                        assert(solution.val(j as int, i as int) is Some);
                        assert(solution.val(k as int, i as int) is Some);
                    }
                }
                let nq = not_equal(cs, &solution.cells[j][i], &solution.cells[k][i])?;
                enforce_true(cs, &nq);
                k = k + 1;
            }
            j = j + 1;
        }
        i = i + 1;
    }
    Ok(())
}

/// Box uniqueness: the same pairwise rule within each of the nine 3x3
/// boxes of the grid.
#[verifier::loop_isolation(false)]
#[allow(non_snake_case)]
pub fn check_3By3(cs: &mut CircuitBuilder, solution: &Solution) -> (r: Result<(), CircuitError>)
    requires
        cs_live(*old(cs)),
        solution.wf(),
        cs_in_setup(*old(cs)) || solution.assigned(),
    ensures
        cs_live(*final(cs)),
        cs_in_setup(*final(cs)) == cs_in_setup(*old(cs)),
        cs_records(*final(cs)) == cs_records(*old(cs)),
        (r is Ok),
        cs_satisfied(*final(cs)) == (cs_satisfied(*old(cs)) && (cs_in_setup(*old(cs))
            || boxes_constrained(solution))),
{
    let ghost setup0: bool = cs_in_setup(*cs);
    let ghost records0: bool = cs_records(*cs);
    let ghost sat0: bool = cs_satisfied(*cs);
    let mut b: usize = 0;
    while b < 9
        invariant
            cs_live(*cs),
            cs_in_setup(*cs) == setup0,
            cs_records(*cs) == records0,
            b <= 9,
            cs_satisfied(*cs) == (sat0 && (setup0 || forall|b2: int, t2: int, u2: int|
                0 <= b2 < b && 0 <= u2 < t2 < 9 ==> opt_neq(
                    #[trigger] box_val(solution, b2, t2),
                    #[trigger] box_val(solution, b2, u2),
                ))),
        decreases 9 - b,
    {
        let mut t: usize = 1;
        while t < 9
            invariant
                cs_live(*cs),
                cs_in_setup(*cs) == setup0,
                cs_records(*cs) == records0,
                b < 9,
                1 <= t <= 9,
                cs_satisfied(*cs) == (sat0 && (setup0 || ((forall|b2: int, t2: int, u2: int|
                    0 <= b2 < b && 0 <= u2 < t2 < 9 ==> opt_neq(
                        #[trigger] box_val(solution, b2, t2),
                        #[trigger] box_val(solution, b2, u2),
                    )) && (forall|t2: int, u2: int|
                    0 <= u2 < t2 < t ==> opt_neq(
                        #[trigger] box_val(solution, b as int, t2),
                        #[trigger] box_val(solution, b as int, u2),
                    ))))),
            decreases 9 - t,
        {
            let mut u: usize = 0;
            while u < t
                invariant
                    cs_live(*cs),
                    cs_in_setup(*cs) == setup0,
                    cs_records(*cs) == records0,
                    b < 9,
                    1 <= t < 9,
                    u <= t,
                    cs_satisfied(*cs) == (sat0 && (setup0 || ((forall|b2: int, t2: int, u2: int|
                        0 <= b2 < b && 0 <= u2 < t2 < 9 ==> opt_neq(
                            #[trigger] box_val(solution, b2, t2),
                            #[trigger] box_val(solution, b2, u2),
                        )) && (forall|t2: int, u2: int|
                        0 <= u2 < t2 < t ==> opt_neq(
                            #[trigger] box_val(solution, b as int, t2),
                            #[trigger] box_val(solution, b as int, u2),
                        )) && (forall|u2: int|
                        0 <= u2 < u ==> opt_neq(
                            box_val(solution, b as int, t as int),
                            #[trigger] box_val(solution, b as int, u2),
                        ))))),
                decreases t - u,
            {
                let row_t: usize = 3 * (b / 3) + t / 3;
                let col_t: usize = 3 * (b % 3) + t % 3;
                let row_u: usize = 3 * (b / 3) + u / 3;
                let col_u: usize = 3 * (b % 3) + u % 3;
                proof {
                    assert(row_t < 9 && col_t < 9 && row_u < 9 && col_u < 9);
                    assert(box_val(solution, b as int, t as int) == solution.val(
                        row_t as int,
                        col_t as int,
                    ));
                    assert(box_val(solution, b as int, u as int) == solution.val(
                        row_u as int,
                        col_u as int,
                    ));
                    if !setup0 {
                        assert(solution.val(row_t as int, col_t as int) is Some);
                        assert(solution.val(row_u as int, col_u as int) is Some);
                    }
                }
                let ct = &solution.cells[row_t][col_t];
                let cu = &solution.cells[row_u][col_u];
                let nq = not_equal(cs, ct, cu)?;
                enforce_true(cs, &nq);
                u = u + 1;
            }
            t = t + 1;
        }
        b = b + 1;
    }
    Ok(())
}

/// Puzzle-solution consistency and range: for every position, the puzzle
/// cell equals the solution cell or is blank, and the solution cell lies
/// between 1 and 9.
#[verifier::loop_isolation(false)]
pub fn check_sudoku_solution(cs: &mut CircuitBuilder, p: &Sudoku, s: &Solution) -> (r: Result<
    (),
    CircuitError,
>)
    requires
        cs_live(*old(cs)),
        p.wf(),
        s.wf(),
        cs_in_setup(*old(cs)) || (p.assigned() && s.assigned()),
    ensures
        cs_live(*final(cs)),
        cs_in_setup(*final(cs)) == cs_in_setup(*old(cs)),
        cs_records(*final(cs)) == cs_records(*old(cs)),
        (r is Ok),
        cs_satisfied(*final(cs)) == (cs_satisfied(*old(cs)) && (cs_in_setup(*old(cs))
            || consistency_range_constrained(p, s))),
{
    let ghost setup0: bool = cs_in_setup(*cs);
    let ghost records0: bool = cs_records(*cs);
    let ghost sat0: bool = cs_satisfied(*cs);
    let mut i: usize = 0;
    while i < 9
        invariant
            cs_live(*cs),
            cs_in_setup(*cs) == setup0,
            cs_records(*cs) == records0,
            i <= 9,
            cs_satisfied(*cs) == (sat0 && (setup0 || forall|i2: int, j2: int|
                0 <= i2 < i && 0 <= j2 < 9 ==> cell_consistent(
                    #[trigger] p.val(i2, j2),
                    #[trigger] s.val(i2, j2),
                ) && cell_ranged(s.val(i2, j2)))),
        decreases 9 - i,
    {
        let mut j: usize = 0;
        while j < 9
            invariant
                cs_live(*cs),
                cs_in_setup(*cs) == setup0,
                cs_records(*cs) == records0,
                i < 9,
                j <= 9,
                cs_satisfied(*cs) == (sat0 && (setup0 || ((forall|i2: int, j2: int|
                    0 <= i2 < i && 0 <= j2 < 9 ==> cell_consistent(
                        #[trigger] p.val(i2, j2),
                        #[trigger] s.val(i2, j2),
                    ) && cell_ranged(s.val(i2, j2))) && (forall|j2: int|
                    0 <= j2 < j ==> cell_consistent(
                        #[trigger] p.val(i as int, j2),
                        #[trigger] s.val(i as int, j2),
                    ) && cell_ranged(s.val(i as int, j2)))))),
            decreases 9 - j,
        {
            let pc = &p.cells[i][j];
            let sc = &s.cells[i][j];
            proof {
                if !setup0 {
                    assert(p.val(i as int, j as int) is Some);
                    assert(s.val(i as int, j as int) is Some);
                }
            }
            let eq_ps = cell_is_eq(cs, pc, sc)?;
            let zero = constant_u8(0);
            let eq_p0 = cell_is_eq(cs, pc, &zero)?;
            let ok_cell = bool_or(cs, &eq_ps, &eq_p0)?;
            enforce_true(cs, &ok_cell);
            let le = less_or_equal(cs, sc, 9)?;
            let ge = greater_or_equal(cs, sc, 1)?;
            let in_range = bool_and(cs, &le, &ge)?;
            enforce_true(cs, &in_range);
            j = j + 1;
        }
        i = i + 1;
    }
    Ok(())
}

/// With every solution signal mirroring a concrete grid, the enforced row
/// constraints hold exactly when the grid obeys row uniqueness.
proof fn lemma_rows_bridge(s: &Solution, sg: Seq<Seq<u8>>)
    requires
        forall|i: int, j: int|
            0 <= i < 9 && 0 <= j < 9 ==> #[trigger] s.val(i, j) == Some(sg[i][j]),
    ensures
        rows_constrained(s) == rows_ok(sg),
{
    assert(rows_constrained(s) ==> rows_ok(sg)) by {
        if rows_constrained(s) {
            assert forall|i: int, j: int, k: int|
                0 <= i < 9 && 0 <= k < j < 9 implies #[trigger] sg[i][j] != #[trigger] sg[i][k] by {
                assert(opt_neq(s.val(i, j), s.val(i, k)));
                assert(s.val(i, j) == Some(sg[i][j]));
                assert(s.val(i, k) == Some(sg[i][k]));
            }
        }
    }
    assert(rows_ok(sg) ==> rows_constrained(s)) by {
        if rows_ok(sg) {
            assert forall|i: int, j: int, k: int|
                0 <= i < 9 && 0 <= k < j < 9 implies opt_neq(
                    #[trigger] s.val(i, j),
                    #[trigger] s.val(i, k),
                ) by {
                assert(sg[i][j] != sg[i][k]);
                assert(s.val(i, j) == Some(sg[i][j]));
                assert(s.val(i, k) == Some(sg[i][k]));
            }
        }
    }
}

/// As the row bridge, for columns.
proof fn lemma_cols_bridge(s: &Solution, sg: Seq<Seq<u8>>)
    requires
        forall|i: int, j: int|
            0 <= i < 9 && 0 <= j < 9 ==> #[trigger] s.val(i, j) == Some(sg[i][j]),
    ensures
        cols_constrained(s) == cols_ok(sg),
{
    assert(cols_constrained(s) ==> cols_ok(sg)) by {
        if cols_constrained(s) {
            assert forall|i: int, j: int, k: int|
                0 <= i < 9 && 0 <= k < j < 9 implies #[trigger] sg[j][i] != #[trigger] sg[k][i] by {
                assert(opt_neq(s.val(j, i), s.val(k, i)));
                assert(s.val(j, i) == Some(sg[j][i]));
                assert(s.val(k, i) == Some(sg[k][i]));
            }
        }
    }
    assert(cols_ok(sg) ==> cols_constrained(s)) by {
        if cols_ok(sg) {
            assert forall|i: int, j: int, k: int|
                0 <= i < 9 && 0 <= k < j < 9 implies opt_neq(
                    #[trigger] s.val(j, i),
                    #[trigger] s.val(k, i),
                ) by {
                assert(sg[j][i] != sg[k][i]);
                assert(s.val(j, i) == Some(sg[j][i]));
                assert(s.val(k, i) == Some(sg[k][i]));
            }
        }
    }
}

/// As the row bridge, for the nine 3x3 boxes.
proof fn lemma_boxes_bridge(s: &Solution, sg: Seq<Seq<u8>>)
    requires
        forall|i: int, j: int|
            0 <= i < 9 && 0 <= j < 9 ==> #[trigger] s.val(i, j) == Some(sg[i][j]),
    ensures
        boxes_constrained(s) == boxes_ok(sg),
{
    assert forall|b: int, t: int|
        0 <= b < 9 && 0 <= t < 9 implies #[trigger] box_val(s, b, t) == Some(box_cell(sg, b, t)) by {
        assert(0 <= 3 * (b / 3) + t / 3 < 9);
        assert(0 <= 3 * (b % 3) + t % 3 < 9);
        assert(s.val(3 * (b / 3) + t / 3, 3 * (b % 3) + t % 3) == Some(
            sg[3 * (b / 3) + t / 3][3 * (b % 3) + t % 3],
        ));
    }
    assert(boxes_constrained(s) ==> boxes_ok(sg)) by {
        if boxes_constrained(s) {
            assert forall|b: int, t: int, u: int|
                0 <= b < 9 && 0 <= u < t < 9 implies box_cell(sg, b, t) != box_cell(sg, b, u) by {
                assert(opt_neq(box_val(s, b, t), box_val(s, b, u)));
            }
        }
    }
    assert(boxes_ok(sg) ==> boxes_constrained(s)) by {
        if boxes_ok(sg) {
            assert forall|b: int, t: int, u: int|
                0 <= b < 9 && 0 <= u < t < 9 implies opt_neq(
                    #[trigger] box_val(s, b, t),
                    #[trigger] box_val(s, b, u),
                ) by {
                assert(box_cell(sg, b, t) != box_cell(sg, b, u));
            }
        }
    }
}

/// With every signal mirroring the concrete grids, the enforced consistency
/// and range constraints hold exactly when the grids are consistent and the
/// solution is in range.
proof fn lemma_consistency_range_bridge(p: &Sudoku, s: &Solution, pg: Seq<Seq<u8>>, sg: Seq<Seq<u8>>)
    requires
        forall|i: int, j: int|
            0 <= i < 9 && 0 <= j < 9 ==> #[trigger] p.val(i, j) == Some(pg[i][j]),
        forall|i: int, j: int|
            0 <= i < 9 && 0 <= j < 9 ==> #[trigger] s.val(i, j) == Some(sg[i][j]),
    ensures
        consistency_range_constrained(p, s) == (consistent(pg, sg) && range_ok(sg)),
{
    assert(consistency_range_constrained(p, s) ==> consistent(pg, sg) && range_ok(sg)) by {
        if consistency_range_constrained(p, s) {
            assert forall|i: int, j: int|
                0 <= i < 9 && 0 <= j < 9 implies (#[trigger] pg[i][j] == 0 || pg[i][j]
                    == #[trigger] sg[i][j]) by {
                assert(cell_consistent(p.val(i, j), s.val(i, j)));
                assert(p.val(i, j) == Some(pg[i][j]));
                assert(s.val(i, j) == Some(sg[i][j]));
            }
            assert forall|i: int, j: int|
                0 <= i < 9 && 0 <= j < 9 implies crate::rules::cell_in_range(
                    #[trigger] sg[i][j],
                ) by {
                assert(cell_consistent(p.val(i, j), s.val(i, j)) && cell_ranged(s.val(i, j)));
                assert(s.val(i, j) == Some(sg[i][j]));
            }
            assert(consistent(pg, sg));
            assert(range_ok(sg));
        }
    }
    assert(consistent(pg, sg) && range_ok(sg) ==> consistency_range_constrained(p, s)) by {
        if consistent(pg, sg) && range_ok(sg) {
            assert forall|i: int, j: int|
                0 <= i < 9 && 0 <= j < 9 implies cell_consistent(
                    #[trigger] p.val(i, j),
                    #[trigger] s.val(i, j),
                ) && cell_ranged(s.val(i, j)) by {
                assert(pg[i][j] == 0 || pg[i][j] == sg[i][j]);
                assert(crate::rules::cell_in_range(sg[i][j]));
                assert(p.val(i, j) == Some(pg[i][j]));
                assert(s.val(i, j) == Some(sg[i][j]));
            }
        }
    }
}

/// The circuit assembly shell's input: an optional puzzle and an optional
/// solution, both present for proving and both absent for one-time setup.
pub struct Puzzle {
    pub sudoku: Option<Grid>,
    pub solution: Option<Grid>,
}

impl Puzzle {
    /// The circuit assembly shell: encodes both grids and applies the four
    /// constraint groups to one shared constraint system. In assignment
    /// mode the system ends up satisfied exactly when it was satisfied
    /// before and the supplied pair obeys every Sudoku rule; a missing grid
    /// in assignment mode propagates as the missing-assignment failure.
    pub fn generate_constraints(self, cs: &mut CircuitBuilder) -> (r: Result<(), CircuitError>)
        requires
            cs_live(*old(cs)),
            (match self.sudoku {
                Some(g) => g.wf(),
                None => true,
            }),
            (match self.solution {
                Some(g) => g.wf(),
                None => true,
            }),
        ensures
            cs_live(*final(cs)),
            cs_in_setup(*final(cs)) == cs_in_setup(*old(cs)),
            cs_records(*final(cs)) == cs_records(*old(cs)),
            match r {
                Ok(_) => (cs_in_setup(*old(cs)) ==> cs_satisfied(*final(cs)) == cs_satisfied(
                    *old(cs),
                )) && (!cs_in_setup(*old(cs)) ==> (self.sudoku matches Some(pg)
                    && self.solution matches Some(sg) && cs_satisfied(*final(cs)) == (
                cs_satisfied(*old(cs)) && valid_pair(pg@, sg@)))),
                Err(e) => e == CircuitError::MissingAssignment && !cs_in_setup(*old(cs)) && (
                self.sudoku is None || self.solution is None),
            },
    {
        let ghost setup0: bool = cs_in_setup(*cs);
        let pz_cells = encode_grid(cs, &self.sudoku, Role::PublicInput)?;
        let sol_cells = encode_grid(cs, &self.solution, Role::PrivateWitness)?;
        let sudoku_vars = Sudoku { cells: pz_cells };
        let solution_vars = Solution { cells: sol_cells };
        proof {
            if !setup0 {
                assert forall|i: int, j: int|
                    0 <= i < 9 && 0 <= j < 9 implies (#[trigger] sudoku_vars.val(i, j)) == Some(
                        self.sudoku->Some_0@[i][j],
                    ) by {
                    assert(cell_val(sudoku_vars.cells@, i, j) == Some(self.sudoku->Some_0@[i][j]));
                }
                assert forall|i: int, j: int|
                    0 <= i < 9 && 0 <= j < 9 implies (#[trigger] solution_vars.val(i, j)) == Some(
                        self.solution->Some_0@[i][j],
                    ) by {
                    assert(cell_val(solution_vars.cells@, i, j) == Some(
                        self.solution->Some_0@[i][j],
                    ));
                }
                assert(sudoku_vars.assigned());
                assert(solution_vars.assigned());
            }
        }
        check_sudoku_solution(cs, &sudoku_vars, &solution_vars)?;
        check_rows(cs, &solution_vars)?;
        check_cols(cs, &solution_vars)?;
        check_3By3(cs, &solution_vars)?;
        proof {
            if !setup0 {
                lemma_rows_bridge(&solution_vars, self.solution->Some_0@);
                lemma_cols_bridge(&solution_vars, self.solution->Some_0@);
                lemma_boxes_bridge(&solution_vars, self.solution->Some_0@);
                lemma_consistency_range_bridge(
                    &sudoku_vars,
                    &solution_vars,
                    self.sudoku->Some_0@,
                    self.solution->Some_0@,
                );
            }
        }
        Ok(())
    }
}

/// Builds the full circuit for one concrete pair on a fresh system and
/// reports whether every constraint is satisfied, which holds exactly when
/// the pair obeys every Sudoku rule.
pub fn check_helper(sudoku: Grid, solution: Grid) -> (r: bool)
    requires
        sudoku.wf(),
        solution.wf(),
    ensures
        r == valid_pair(sudoku@, solution@),
{
    let mut cs = new_prover();
    let puzzle = Puzzle { sudoku: Some(sudoku), solution: Some(solution) };
    let res = puzzle.generate_constraints(&mut cs);
    match res {
        Ok(_) => check_satisfied(&cs),
        Err(_) => {
            proof {
                assert(false);
            }
            false
        },
    }
}

/// Decides whether a grid value is well formed: nine rows of nine cells.
#[verifier::loop_isolation(false)]
pub fn grid_well_formed(g: &Grid) -> (r: bool)
    ensures
        r == g.wf(),
{
    if g.cells.len() != 9 {
        return false;
    }
    let mut i: usize = 0;
    while i < 9
        invariant
            i <= 9,
            g.cells@.len() == 9,
            forall|i2: int| 0 <= i2 < i ==> (#[trigger] g@[i2]).len() == 9,
        decreases 9 - i,
    {
        if g.cells[i].len() != 9 {
            proof {
                assert(g@[i as int].len() != 9);
            }
            return false;
        }
        proof {
            assert(g@[i as int].len() == 9);
        }
        i = i + 1;
    }
    true
}
} // verus!
