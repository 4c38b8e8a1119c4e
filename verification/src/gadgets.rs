//! The trusted boundary around the proving backend's gadget library.
//!
//! Everything the circuit logic needs from the backend — allocating byte
//! signals, comparing them, combining boolean signals, enforcing a boolean,
//! and evaluating satisfiability — is wrapped here, with contracts stating
//! what each backend call does to the shared constraint system.
//!
//! Conventions the contracts rely on, established by the constructors in
//! this module and preserved by every wrapper:
//! - a `CellVar`'s or `BoolVar`'s `value` field mirrors the gadget's own
//!   assigned value (`None` while the system is built for structure only);
//! - its `allocated` field is true exactly when the gadget is not a
//!   compile-time constant and is attached to the live constraint system of
//!   the one builder it is used with.

use vstd::prelude::*;

use ark_bls12_381::Fr;
use ark_r1cs_std::prelude::{AllocVar, Boolean, EqGadget, R1CSVar};
use ark_r1cs_std::uint8::UInt8;
use ark_relations::r1cs::{ConstraintSystem, ConstraintSystemRef, SynthesisError};

verus! {

/// Exclusive owner of one backend constraint system for the duration of one
/// circuit synthesis. The held reference must be an actual system, not the
/// backend's empty reference; unverified driver code that builds this
/// around a backend-provided reference must check that first.
#[verifier::external_body]
pub struct CircuitBuilder {
    pub sys: ConstraintSystemRef<Fr>,
}

/// An opaque byte gadget of the backend.
#[verifier::external_body]
pub struct CellGadget(UInt8<Fr>);

/// An opaque boolean gadget of the backend.
#[verifier::external_body]
pub struct BoolGadget(Boolean<Fr>);

/// The reference holds an actual constraint system (it is not the backend's
/// empty reference).
pub uninterp spec fn cs_live(cs: CircuitBuilder) -> bool;

/// The system runs in setup mode: it records the circuit's structure only
/// and assigns no concrete values to its signals.
pub uninterp spec fn cs_in_setup(cs: CircuitBuilder) -> bool;

/// The system stores its constraint matrices, so satisfiability can be
/// evaluated on it.
pub uninterp spec fn cs_records(cs: CircuitBuilder) -> bool;

/// In assignment mode: every constraint enforced so far holds under the
/// system's assignment, where a constraint over an unassigned signal counts
/// as failing. In setup mode the predicate is vacuously true, so that
/// adding structure-only constraints preserves it.
pub uninterp spec fn cs_satisfied(cs: CircuitBuilder) -> bool;

/// A byte-valued circuit signal standing for one Sudoku cell.
pub struct CellVar {
    pub gadget: CellGadget,
    pub value: Option<u8>,
    pub allocated: bool,
}

/// A boolean circuit signal, constrained to 0 or 1.
pub struct BoolVar {
    pub gadget: BoolGadget,
    pub value: Option<bool>,
    pub allocated: bool,
}

/// The only failure this construction reports itself: a concrete value was
/// required while the system carries assignments, but none was supplied.
#[derive(Clone, Copy, Debug, PartialEq, Eq, Structural)]
pub enum CircuitError {
    MissingAssignment,
}

/// Relies on ark_relations' `ConstraintSystem::new_ref`: a fresh system in
/// proving mode with constraint matrices recorded and no constraints yet.
#[verifier::external_body]
pub(crate) fn new_prover() -> (r: CircuitBuilder)
    ensures
        cs_live(r),
        !cs_in_setup(r),
        cs_records(r),
        cs_satisfied(r),
{
    CircuitBuilder { sys: ConstraintSystem::<Fr>::new_ref() }
}

/// Relies on ark_r1cs_std's `AllocVar` impl for `UInt8` (`new_witness`): in
/// setup mode the value closures are skipped and the bits stay unassigned;
/// in assignment mode the byte's eight bits are allocated with a booleanity
/// constraint each, which the actual bit values satisfy, and a missing byte
/// surfaces as `AssignmentMissing` before any constraint is added.
#[verifier::external_body]
pub(crate) fn alloc_witness_u8(cs: &mut CircuitBuilder, v: Option<u8>) -> (r: Result<
    CellVar,
    CircuitError,
>)
    requires
        cs_live(*old(cs)),
    ensures
        cs_live(*final(cs)),
        cs_in_setup(*final(cs)) == cs_in_setup(*old(cs)),
        cs_records(*final(cs)) == cs_records(*old(cs)),
        cs_satisfied(*final(cs)) == cs_satisfied(*old(cs)),
        match r {
            Ok(c) => c.allocated && (cs_in_setup(*old(cs)) || v.is_some()) && c.value == (
            if cs_in_setup(*old(cs)) {
                Option::<u8>::None
            } else {
                v
            }),
            Err(e) => e == CircuitError::MissingAssignment && !cs_in_setup(*old(cs))
                && v.is_none(),
        },
{
    let g = match UInt8::new_witness(cs.sys.clone(), || {
        v.ok_or(SynthesisError::AssignmentMissing)
    }) {
        Ok(g) => g,
        Err(_) => return Err(CircuitError::MissingAssignment),
    };
    let value = g.value().ok();
    Ok(CellVar { gadget: CellGadget(g), value, allocated: true })
}

/// Relies on ark_r1cs_std's `AllocVar` impl for `UInt8` (`new_input`): as
/// for the witness allocation, except that the eight bits become public
/// input signals of the system.
#[verifier::external_body]
pub(crate) fn alloc_input_u8(cs: &mut CircuitBuilder, v: Option<u8>) -> (r: Result<
    CellVar,
    CircuitError,
>)
    requires
        cs_live(*old(cs)),
    ensures
        cs_live(*final(cs)),
        cs_in_setup(*final(cs)) == cs_in_setup(*old(cs)),
        cs_records(*final(cs)) == cs_records(*old(cs)),
        cs_satisfied(*final(cs)) == cs_satisfied(*old(cs)),
        match r {
            Ok(c) => c.allocated && (cs_in_setup(*old(cs)) || v.is_some()) && c.value == (
            if cs_in_setup(*old(cs)) {
                Option::<u8>::None
            } else {
                v
            }),
            Err(e) => e == CircuitError::MissingAssignment && !cs_in_setup(*old(cs))
                && v.is_none(),
        },
{
    let g = match UInt8::new_input(cs.sys.clone(), || {
        v.ok_or(SynthesisError::AssignmentMissing)
    }) {
        Ok(g) => g,
        Err(_) => return Err(CircuitError::MissingAssignment),
    };
    let value = g.value().ok();
    Ok(CellVar { gadget: CellGadget(g), value, allocated: true })
}

/// Relies on `UInt8::constant`: a constant byte gadget, creating no
/// variables and no constraints, whose value is known in every mode.
#[verifier::external_body]
pub(crate) fn constant_u8(v: u8) -> (r: CellVar)
    ensures
        !r.allocated,
        r.value == Some(v),
{
    CellVar { gadget: CellGadget(UInt8::constant(v)), value: Some(v), allocated: false }
}

/// Relies on ark_r1cs_std's `EqGadget::is_eq` for `UInt8`: the returned
/// boolean gadget is constrained to hold exactly whether the two bytes are
/// equal; its auxiliary witnesses are computed from the operands' values,
/// so the new constraints are satisfied and overall satisfiability is
/// unchanged. With at least one non-constant operand the result is
/// non-constant; a missing operand value in assignment mode surfaces as
/// `AssignmentMissing` before any constraint is added.
#[verifier::external_body]
pub(crate) fn cell_is_eq(cs: &mut CircuitBuilder, x: &CellVar, y: &CellVar) -> (r: Result<
    BoolVar,
    CircuitError,
>)
    requires
        cs_live(*old(cs)),
    ensures
        cs_live(*final(cs)),
        cs_in_setup(*final(cs)) == cs_in_setup(*old(cs)),
        cs_records(*final(cs)) == cs_records(*old(cs)),
        cs_satisfied(*final(cs)) == cs_satisfied(*old(cs)),
        match r {
            Ok(b) => b.allocated == (x.allocated || y.allocated) && b.value == (match (
                x.value,
                y.value,
            ) {
                (Some(a), Some(c)) => Some(a == c),
                _ => Option::<bool>::None,
            }),
            Err(e) => e == CircuitError::MissingAssignment && !cs_in_setup(*old(cs)) && (
            x.value.is_none() || y.value.is_none()),
        },
{
    let g = match x.gadget.0.is_eq(&y.gadget.0) {
        Ok(g) => g,
        Err(_) => return Err(CircuitError::MissingAssignment),
    };
    let value = g.value().ok();
    let allocated = !matches!(g, Boolean::Constant(_));
    Ok(BoolVar { gadget: BoolGadget(g), value, allocated })
}

/// Relies on `Boolean::not`: a free negation (no variables, no constraints)
/// that flips the gadget's value and keeps it non-constant exactly when the
/// operand was.
#[verifier::external_body]
pub(crate) fn bool_not(x: &BoolVar) -> (r: BoolVar)
    ensures
        r.allocated == x.allocated,
        r.value == (match x.value {
            Some(b) => Some(!b),
            None => Option::<bool>::None,
        }),
{
    let g = x.gadget.0.not();
    let value = g.value().ok();
    let allocated = !matches!(g, Boolean::Constant(_));
    BoolVar { gadget: BoolGadget(g), value, allocated }
}

/// Relies on `Boolean::and` for two non-constant operands: it allocates one
/// auxiliary witness constrained to the conjunction, computed from the
/// operands' values, so satisfiability is unchanged; a missing operand
/// value in assignment mode surfaces as `AssignmentMissing` before any
/// constraint is added.
#[verifier::external_body]
pub(crate) fn bool_and(cs: &mut CircuitBuilder, x: &BoolVar, y: &BoolVar) -> (r: Result<
    BoolVar,
    CircuitError,
>)
    requires
        cs_live(*old(cs)),
        x.allocated,
        y.allocated,
    ensures
        cs_live(*final(cs)),
        cs_in_setup(*final(cs)) == cs_in_setup(*old(cs)),
        cs_records(*final(cs)) == cs_records(*old(cs)),
        cs_satisfied(*final(cs)) == cs_satisfied(*old(cs)),
        match r {
            Ok(b) => b.allocated && b.value == (match (x.value, y.value) {
                (Some(a), Some(c)) => Some(a && c),
                _ => Option::<bool>::None,
            }),
            Err(e) => e == CircuitError::MissingAssignment && !cs_in_setup(*old(cs)) && (
            x.value.is_none() || y.value.is_none()),
        },
{
    let g = match x.gadget.0.and(&y.gadget.0) {
        Ok(g) => g,
        Err(_) => return Err(CircuitError::MissingAssignment),
    };
    let value = g.value().ok();
    let allocated = !matches!(g, Boolean::Constant(_));
    Ok(BoolVar { gadget: BoolGadget(g), value, allocated })
}

/// Relies on `Boolean::or` for two non-constant operands; as for the
/// conjunction wrapper.
#[verifier::external_body]
pub(crate) fn bool_or(cs: &mut CircuitBuilder, x: &BoolVar, y: &BoolVar) -> (r: Result<
    BoolVar,
    CircuitError,
>)
    requires
        cs_live(*old(cs)),
        x.allocated,
        y.allocated,
    ensures
        cs_live(*final(cs)),
        cs_in_setup(*final(cs)) == cs_in_setup(*old(cs)),
        cs_records(*final(cs)) == cs_records(*old(cs)),
        cs_satisfied(*final(cs)) == cs_satisfied(*old(cs)),
        match r {
            Ok(b) => b.allocated && b.value == (match (x.value, y.value) {
                (Some(a), Some(c)) => Some(a || c),
                _ => Option::<bool>::None,
            }),
            Err(e) => e == CircuitError::MissingAssignment && !cs_in_setup(*old(cs)) && (
            x.value.is_none() || y.value.is_none()),
        },
{
    let g = match x.gadget.0.or(&y.gadget.0) {
        Ok(g) => g,
        Err(_) => return Err(CircuitError::MissingAssignment),
    };
    let value = g.value().ok();
    let allocated = !matches!(g, Boolean::Constant(_));
    Ok(BoolVar { gadget: BoolGadget(g), value, allocated })
}

/// Relies on `Boolean::enforce_equal` against the constant true: for a
/// non-constant boolean on a live system it adds the single constraint that
/// the boolean's linear combination equals one and cannot fail, so the
/// system stays satisfied exactly when it was and the boolean holds.
#[verifier::external_body]
pub(crate) fn enforce_true(cs: &mut CircuitBuilder, b: &BoolVar)
    requires
        cs_live(*old(cs)),
        b.allocated,
    ensures
        cs_live(*final(cs)),
        cs_in_setup(*final(cs)) == cs_in_setup(*old(cs)),
        cs_records(*final(cs)) == cs_records(*old(cs)),
        cs_satisfied(*final(cs)) == (cs_satisfied(*old(cs)) && (cs_in_setup(*old(cs)) || b.value
            == Some(true))),
{
    b.gadget.0.enforce_equal(&Boolean::TRUE).unwrap();
}

/// Relies on `ConstraintSystemRef::is_satisfied`: on a live system that
/// records its matrices and carries assignments it evaluates every
/// constraint; a missing assignment surfaces as an error, reported here as
/// not satisfied.
#[verifier::external_body]
pub(crate) fn check_satisfied(cs: &CircuitBuilder) -> (r: bool)
    requires
        cs_live(*cs),
        cs_records(*cs),
    ensures
        !cs_in_setup(*cs) ==> r == cs_satisfied(*cs),
{
    cs.sys.is_satisfied().unwrap_or(false)
}

} // verus!
