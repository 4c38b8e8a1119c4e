use ark_bls12_381::Fr;
use ark_relations::r1cs::{ConstraintSystem, SynthesisMode};
use zudoku::{check_helper, grid_well_formed, CircuitBuilder, CircuitError, Grid, Puzzle};

fn grid(rows: [[u8; 9]; 9]) -> Grid {
    let mut cells: Vec<Vec<u8>> = Vec::new();
    for r in rows.iter() {
        cells.push(r.to_vec());
    }
    Grid { cells }
}

fn canonical_sudoku() -> Grid {
    grid([
        [0, 0, 0, 2, 6, 0, 7, 0, 1],
        [6, 8, 0, 0, 7, 0, 0, 9, 0],
        [1, 9, 0, 0, 0, 4, 5, 0, 0],
        [8, 2, 0, 1, 0, 0, 0, 4, 0],
        [0, 0, 4, 6, 0, 2, 9, 0, 0],
        [0, 5, 0, 0, 0, 3, 0, 2, 8],
        [0, 0, 9, 3, 0, 0, 0, 7, 4],
        [0, 4, 0, 0, 5, 0, 0, 3, 6],
        [7, 0, 3, 0, 1, 8, 0, 0, 0],
    ])
}

fn canonical_solution() -> Grid {
    grid([
        [4, 3, 5, 2, 6, 9, 7, 8, 1],
        [6, 8, 2, 5, 7, 1, 4, 9, 3],
        [1, 9, 7, 8, 3, 4, 5, 6, 2],
        [8, 2, 6, 1, 9, 5, 3, 4, 7],
        [3, 7, 4, 6, 8, 2, 9, 1, 5],
        [9, 5, 1, 7, 4, 3, 6, 2, 8],
        [5, 1, 9, 3, 2, 6, 8, 7, 4],
        [2, 4, 8, 9, 5, 7, 1, 3, 6],
        [7, 6, 3, 4, 1, 8, 2, 5, 9],
    ])
}

#[test]
fn canonical_pair_is_satisfiable() {
    assert!(check_helper(canonical_sudoku(), canonical_solution()));
}

#[test]
fn first_row_example_is_accepted() {
    // Puzzle row 1 = [0,0,0,2,6,0,7,0,1] against solution row 1 =
    // [4,3,5,2,6,9,7,8,1]: all nine values distinct, and the non-blank
    // puzzle cells (positions 3, 4, 6, 8) match the solution exactly.
    let mut sudoku_rows = [[0u8; 9]; 9];
    sudoku_rows[0] = [0, 0, 0, 2, 6, 0, 7, 0, 1];
    let sudoku = grid(sudoku_rows);
    assert!(check_helper(sudoku, canonical_solution()));
}

#[test]
fn duplicate_in_row_is_unsatisfiable() {
    // Mutate solution row 1 to [4,3,5,2,6,9,7,8,4]: the value 4 repeats.
    let mut solution = canonical_solution();
    solution.cells[0][8] = 4;
    assert!(!check_helper(canonical_sudoku(), solution));
}

#[test]
fn duplicate_in_column_is_unsatisfiable() {
    // Column 1 gets the value 4 twice.
    let mut solution = canonical_solution();
    solution.cells[1][0] = 4;
    let mut sudoku = canonical_sudoku();
    sudoku.cells[1][0] = 0;
    assert!(!check_helper(sudoku, solution));
}

#[test]
fn duplicate_in_box_is_unsatisfiable() {
    // The top-left 3x3 box gets the value 4 twice.
    let mut solution = canonical_solution();
    solution.cells[1][1] = 4;
    let mut sudoku = canonical_sudoku();
    sudoku.cells[1][1] = 0;
    assert!(!check_helper(sudoku, solution));
}

#[test]
fn out_of_range_solution_is_unsatisfiable() {
    // Every solution cell outside [1,9].
    let solution = grid([[0u8; 9]; 9]);
    assert!(!check_helper(canonical_sudoku(), solution));
}

#[test]
fn single_out_of_range_cell_is_unsatisfiable() {
    let mut solution = canonical_solution();
    let mut sudoku = canonical_sudoku();
    sudoku.cells[0][8] = 0;
    solution.cells[0][8] = 10;
    assert!(!check_helper(sudoku, solution));
}

#[test]
fn inconsistent_puzzle_cell_is_unsatisfiable() {
    // Puzzle position (0, 3) says 9 while the solution holds 2.
    let mut sudoku = canonical_sudoku();
    sudoku.cells[0][3] = 9;
    assert!(!check_helper(sudoku, canonical_solution()));
}

#[test]
fn construction_is_deterministic() {
    let first = check_helper(canonical_sudoku(), canonical_solution());
    let second = check_helper(canonical_sudoku(), canonical_solution());
    assert_eq!(first, second);
    let mut bad_one = canonical_solution();
    bad_one.cells[0][8] = 4;
    let mut bad_two = canonical_solution();
    bad_two.cells[0][8] = 4;
    let third = check_helper(canonical_sudoku(), bad_one);
    let fourth = check_helper(canonical_sudoku(), bad_two);
    assert_eq!(third, fourth);
}

#[test]
fn missing_solution_reports_missing_assignment() {
    let mut builder = CircuitBuilder { sys: ConstraintSystem::<Fr>::new_ref() };
    let puzzle = Puzzle { sudoku: Some(canonical_sudoku()), solution: None };
    let res = puzzle.generate_constraints(&mut builder);
    assert!(matches!(res, Err(CircuitError::MissingAssignment)));
}

#[test]
fn setup_mode_builds_structure_without_values() {
    let sys = ConstraintSystem::<Fr>::new_ref();
    sys.set_mode(SynthesisMode::Setup);
    let mut builder = CircuitBuilder { sys: sys.clone() };
    let puzzle = Puzzle { sudoku: None, solution: None };
    let res = puzzle.generate_constraints(&mut builder);
    assert!(res.is_ok());
    assert!(sys.num_constraints() > 0);
}

#[test]
fn grid_well_formed_checks_dimensions() {
    assert!(grid_well_formed(&canonical_sudoku()));
    let mut bad = canonical_sudoku();
    bad.cells.pop();
    assert!(!grid_well_formed(&bad));
    let mut ragged = canonical_sudoku();
    ragged.cells[3].pop();
    assert!(!grid_well_formed(&ragged));
}
