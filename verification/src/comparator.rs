//! The cell comparator: boolean signals for equality, inequality and range
//! comparisons of byte-valued cell signals, built from the trusted gadget
//! layer and verified against the cells' mirrored values.

use vstd::prelude::*;

use crate::gadgets::{
    bool_not, bool_or, cell_is_eq, constant_u8, cs_in_setup, cs_live, cs_records, cs_satisfied,
    BoolVar, CellVar, CircuitBuilder, CircuitError,
};

verus! {

/// A boolean signal that holds exactly when the two cells differ.
pub fn not_equal(cs: &mut CircuitBuilder, x: &CellVar, y: &CellVar) -> (r: Result<
    BoolVar,
    CircuitError,
>)
    requires
        cs_live(*old(cs)),
        x.allocated || y.allocated,
    ensures
        cs_live(*final(cs)),
        cs_in_setup(*final(cs)) == cs_in_setup(*old(cs)),
        cs_records(*final(cs)) == cs_records(*old(cs)),
        cs_satisfied(*final(cs)) == cs_satisfied(*old(cs)),
        match r {
            Ok(b) => b.allocated && b.value == (match (x.value, y.value) {
                (Some(a), Some(c)) => Some(a != c),
                _ => Option::<bool>::None,
            }),
            Err(e) => e == CircuitError::MissingAssignment && !cs_in_setup(*old(cs)) && (
            x.value.is_none() || y.value.is_none()),
        },
{
    let eq = cell_is_eq(cs, x, y)?;
    Ok(bool_not(&eq))
}

/// A boolean signal that holds exactly when the cell's value is at most
/// `bound`, built as the disjunction of equality tests against each
/// constant from 0 to `bound`; sound for every byte value, so a cell far
/// outside the Sudoku range still fails the test.
pub fn less_or_equal(cs: &mut CircuitBuilder, x: &CellVar, bound: u8) -> (r: Result<
    BoolVar,
    CircuitError,
>)
    requires
        cs_live(*old(cs)),
        x.allocated,
        bound <= 9,
    ensures
        cs_live(*final(cs)),
        cs_in_setup(*final(cs)) == cs_in_setup(*old(cs)),
        cs_records(*final(cs)) == cs_records(*old(cs)),
        cs_satisfied(*final(cs)) == cs_satisfied(*old(cs)),
        match r {
            Ok(b) => b.allocated && b.value == (match x.value {
                Some(a) => Some(a <= bound),
                None => Option::<bool>::None,
            }),
            Err(e) => e == CircuitError::MissingAssignment && !cs_in_setup(*old(cs))
                && x.value.is_none(),
        },
{
    let zero = constant_u8(0);
    let mut acc = cell_is_eq(cs, x, &zero)?;
    let mut k: u8 = 1;
    while k <= bound
        invariant
            cs_live(*cs),
            cs_in_setup(*cs) == cs_in_setup(*old(cs)),
            cs_records(*cs) == cs_records(*old(cs)),
            cs_satisfied(*cs) == cs_satisfied(*old(cs)),
            x.allocated,
            bound <= 9,
            1 <= k && k <= bound + 1,
            acc.allocated,
            acc.value == (match x.value {
                Some(a) => Some(a < k),
                None => Option::<bool>::None,
            }),
        decreases bound + 1 - k,
    {
        let c = constant_u8(k);
        let e = cell_is_eq(cs, x, &c)?;
        acc = bool_or(cs, &acc, &e)?;
        k = k + 1;
    }
    Ok(acc)
}

/// A boolean signal that holds exactly when the cell's value is at least
/// `bound`, as the negation of a less-or-equal test against `bound - 1`.
pub fn greater_or_equal(cs: &mut CircuitBuilder, x: &CellVar, bound: u8) -> (r: Result<
    BoolVar,
    CircuitError,
>)
    requires
        cs_live(*old(cs)),
        x.allocated,
        1 <= bound && bound <= 9,
    ensures
        cs_live(*final(cs)),
        cs_in_setup(*final(cs)) == cs_in_setup(*old(cs)),
        cs_records(*final(cs)) == cs_records(*old(cs)),
        cs_satisfied(*final(cs)) == cs_satisfied(*old(cs)),
        match r {
            Ok(b) => b.allocated && b.value == (match x.value {
                Some(a) => Some(a >= bound),
                None => Option::<bool>::None,
            }),
            Err(e) => e == CircuitError::MissingAssignment && !cs_in_setup(*old(cs))
                && x.value.is_none(),
        },
{
    let le = less_or_equal(cs, x, bound - 1)?;
    Ok(bool_not(&le))
}

} // verus!
