//! A minimal arithmetic-circuit construction and verification layer.
//!
//! A computation is expressed as a set of low-degree polynomial constraints
//! over a grid of field-element cells.  A `ConstraintSystem` fixes the static
//! shape of a circuit: its columns and its gates.  A `Layouter` populates a
//! witness grid for one concrete input, region by region, recording copy
//! constraints along the way.  The verifier walks the finished grid and
//! reports every violated constraint with its location.

pub mod field;
pub mod shape;
pub mod error;
pub mod witness;
pub mod verify;
pub mod fib;
pub mod laws;
