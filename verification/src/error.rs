//! Errors and constraint violations.
//!
//! Shape and witness errors are fatal: they abort a run at once, since no
//! verdict is meaningful for a malformed circuit.  Constraint violations are
//! data: verification completes and reports every broken constraint.

use vstd::prelude::*;
use crate::shape::{CellId, Column};

verus! {

/// One broken constraint, with enough location metadata to pinpoint it.
/// The cell values behind a violation can be recovered with the lookup
/// functions of the verifier module.
#[derive(Clone, Copy, Debug, PartialEq, Eq, Structural)]
pub enum Violation {
    /// A gate's polynomial did not vanish at a row where its selector is
    /// active.  `gate` is its registration index; `region` is the
    /// index of the region the row falls in, if any.
    ConstraintNotSatisfied { gate: usize, row: usize, region: Option<usize> },
    /// The two cells of a copy constraint resolved to different values.
    /// `index` is the constraint's creation index.
    EqualityConstraintNotSatisfied { index: usize, left: CellId, right: CellId },
}

/// A fatal error of a synthesis or verification run.
#[derive(Clone, Debug, PartialEq)]
pub enum Error {
    /// A column handle of the wrong kind, or one that was never declared.
    InvalidColumn { column: Column },
    /// A cell was assigned twice within one run.
    OverlappingAssignment { column: Column, row: usize },
    /// A copy constraint was requested on a column whose equality flag is
    /// not set.
    EqualityNotEnabled { column: Column },
    /// A public input was referenced past the end of the supplied values.
    InstanceOutOfRange { column: Column, row: usize },
    /// A region-relative row does not fit in the grid.
    NotEnoughRows { offset: usize },
    /// A gate query reached outside the grid.
    RotationOutOfRange { column: Column, row: usize, rotation: i64 },
    /// A cell was read during verification but never assigned a concrete
    /// value.
    CellNotAssigned { column: Column, row: usize },
    /// The verdict of `assert_satisfied` on a grid with at least one broken
    /// constraint: the full ordered violation list.
    Unsatisfied { violations: Vec<Violation> },
}

} // verus!
