//! A chip for a three-column additive recurrence.
//!
//! Each row constrains `a + b - c == 0` under one selector.  The first
//! region binds `a` and `b` to the first two public inputs and computes
//! `c = a + b`; every further region copies the previous row's `(b, c)`
//! into its own `(a, b)` and computes a new `c`, chaining the recurrence
//! through copy constraints.

use vstd::prelude::*;
use vstd::string::StringExecFns;
use crate::field::{Fp, spec_add, spec_sub};
use crate::shape::{CellId, Column, ColumnKind, ConstraintSystem, Expr, expr_wf};
use crate::witness::{AssignedCell, Assignment, Layouter, Value, spec_value_add};
use crate::verify::{
    assert_satisfied, copy_fatal, copy_violated, eval_spec, fatal_exists, gate_fatal_at,
    gate_violation_at, resolve_spec,
};
use crate::laws::lemma_no_violations;
use crate::error::Error;

verus! {

/// The `k`-th term of the additive recurrence seeded with `i0, i1`:
/// each term is the field sum of the two before it.
pub open spec fn fib_val(i0: Fp, i1: Fp, k: nat) -> Fp
    decreases k,
{
    if k == 0 {
        i0
    } else if k == 1 {
        i1
    } else {
        spec_add(fib_val(i0, i1, (k - 2) as nat), fib_val(i0, i1, (k - 1) as nat))
    }
}

/// An element minus itself is zero.
pub proof fn lemma_sub_self_zero(w: Fp)
    ensures
        spec_sub(w, w).v == 0,
{
    assert((crate::field::MODULUS as int) % (crate::field::MODULUS as int) == 0);
}

/// The columns of the recurrence chip: three advice columns `(a, b, c)`,
/// one selector, one instance column for the public inputs.
#[derive(Debug, PartialEq)]
pub struct FibConfig {
    pub advice: [Column; 3],
    pub selector: Column,
    pub instance: Column,
}

/// The recurrence chip: a thin wrapper around its configuration.
#[derive(Debug, PartialEq)]
pub struct FibChip {
    pub config: FibConfig,
}

/// A recurrence gate's expression is the polynomial
/// `advice[0] + advice[1] - advice[2]`, each column queried at the current
/// row.
pub open spec fn is_fib_expr(e: Expr, a: Column, b: Column, c: Column) -> bool {
    &&& e matches Expr::Diff(sum, qc)
    &&& *sum matches Expr::Sum(qa, qb)
    &&& *qa == (Expr::Query { column: a, rotation: 0i64 })
    &&& *qb == (Expr::Query { column: b, rotation: 0i64 })
    &&& *qc == (Expr::Query { column: c, rotation: 0i64 })
}

/// The configuration speaks of columns the shape has declared: three
/// distinct equality-enabled advice columns, an equality-enabled instance
/// column, and a selector.
pub open spec fn config_wf(config: FibConfig, cs: ConstraintSystem) -> bool {
    &&& cs.is_advice(config.advice[0])
    &&& cs.is_advice(config.advice[1])
    &&& cs.is_advice(config.advice[2])
    &&& config.advice[0].index != config.advice[1].index
    &&& config.advice[0].index != config.advice[2].index
    &&& config.advice[1].index != config.advice[2].index
    &&& cs.equality_enabled(config.advice[0])
    &&& cs.equality_enabled(config.advice[1])
    &&& cs.equality_enabled(config.advice[2])
    &&& cs.is_instance(config.instance)
    &&& cs.equality_enabled(config.instance)
    &&& config.selector.kind == ColumnKind::Selector
    &&& config.selector.index < cs.n_selector
}

/// The configuration fits the layouter's grid: the chip's columns exist
/// there, are pairwise distinct, and carry the equality flags the chip's
/// copy constraints need.
pub open spec fn chip_layout_ok(config: FibConfig, ly: Layouter) -> bool {
    &&& ly.advice_eq_enabled(config.advice[0])
    &&& ly.advice_eq_enabled(config.advice[1])
    &&& ly.advice_eq_enabled(config.advice[2])
    &&& config.advice[0].index != config.advice[1].index
    &&& config.advice[0].index != config.advice[2].index
    &&& config.advice[1].index != config.advice[2].index
    &&& ly.instance_eq_enabled(config.instance)
    &&& config.selector.kind == ColumnKind::Selector
    &&& config.selector.index < ly.asg.n_selector
}

/// `post` is `pre` with one recurrence row written at absolute row `row`:
/// the three advice cells of the chip hold `va`, `vb`, `vc`, the chip's
/// selector is active there, and every other cell is unchanged.
pub open spec fn row_assigned(
    pre: Assignment,
    post: Assignment,
    config: FibConfig,
    row: int,
    va: Value,
    vb: Value,
    vc: Value,
) -> bool {
    &&& post.n_advice == pre.n_advice
    &&& post.n_selector == pre.n_selector
    &&& post.n_rows == pre.n_rows
    &&& post.advice@.len() == pre.advice@.len()
    &&& post.selectors@.len() == pre.selectors@.len()
    &&& forall|i: int, j: int|
        0 <= i < pre.n_advice && 0 <= j < pre.n_rows ==> #[trigger] post.adv(i, j) == (if i
            == config.advice[0].index && j == row {
            Some(va)
        } else if i == config.advice[1].index && j == row {
            Some(vb)
        } else if i == config.advice[2].index && j == row {
            Some(vc)
        } else {
            pre.adv(i, j)
        })
    &&& forall|s: int, j: int|
        0 <= s < pre.n_selector && 0 <= j < pre.n_rows ==> #[trigger] post.sel(s, j) == (if s
            == config.selector.index && j == row {
            true
        } else {
            pre.sel(s, j)
        })
}

/// Evaluating the recurrence polynomial at a row whose three cells hold
/// `va`, `vb`, `vc` gives `(va + vb) - vc`.
pub proof fn lemma_fib_expr_eval(
    e: Expr,
    asg: Assignment,
    inst: Vec<Vec<Fp>>,
    row: int,
    ca: Column,
    cb: Column,
    cc: Column,
    va: Fp,
    vb: Fp,
    vc: Fp,
)
    requires
        is_fib_expr(e, ca, cb, cc),
        0 <= row < asg.n_rows,
        ca.kind == ColumnKind::Advice,
        ca.index < asg.n_advice,
        cb.kind == ColumnKind::Advice,
        cb.index < asg.n_advice,
        cc.kind == ColumnKind::Advice,
        cc.index < asg.n_advice,
        asg.adv(ca.index as int, row) == Some(Value::Known(va)),
        asg.adv(cb.index as int, row) == Some(Value::Known(vb)),
        asg.adv(cc.index as int, row) == Some(Value::Known(vc)),
    ensures
        eval_spec(e, asg, inst, row) == Some(spec_sub(spec_add(va, vb), vc)),
{
    assert(eval_spec(Expr::Query { column: ca, rotation: 0i64 }, asg, inst, row) == Some(va));
    assert(eval_spec(Expr::Query { column: cb, rotation: 0i64 }, asg, inst, row) == Some(vb));
    assert(eval_spec(Expr::Query { column: cc, rotation: 0i64 }, asg, inst, row) == Some(vc));
    match e {
        Expr::Diff(sum, qc) => {
            match *sum {
                Expr::Sum(qa, qb) => {
                    assert(eval_spec(*qa, asg, inst, row) == Some(va));
                    assert(eval_spec(*qb, asg, inst, row) == Some(vb));
                    assert(eval_spec(*qc, asg, inst, row) == Some(vc));
                    assert(eval_spec(*sum, asg, inst, row) == Some(spec_add(va, vb)));
                },
                _ => {
                    assert(false);
                },
            }
        },
        _ => {
            assert(false);
        },
    }
}

/// A cell that resolved during verification keeps its value when a fresh
/// recurrence row — three previously empty cells — is written elsewhere.
proof fn lemma_resolve_stable(
    pre: Assignment,
    post: Assignment,
    config: FibConfig,
    row: int,
    va: Value,
    vb: Value,
    vc: Value,
    inst: Vec<Vec<Fp>>,
    cell: CellId,
)
    requires
        row_assigned(pre, post, config, row, va, vb, vc),
        0 <= row < pre.n_rows,
        pre.adv(config.advice[0].index as int, row) is None,
        pre.adv(config.advice[1].index as int, row) is None,
        pre.adv(config.advice[2].index as int, row) is None,
        resolve_spec(pre, inst, cell) is Some,
    ensures
        resolve_spec(post, inst, cell) == resolve_spec(pre, inst, cell),
{
    match cell.column.kind {
        ColumnKind::Advice => {
            let i = cell.column.index as int;
            let j = cell.row as int;
            assert(i < pre.n_advice && j < pre.n_rows);
            assert(post.adv(i, j) == pre.adv(i, j));
        },
        ColumnKind::Instance => {},
        ColumnKind::Selector => {},
    }
}

impl FibChip {
    /// Wraps a configuration produced by `configure`.
    pub fn construct(config: FibConfig) -> (chip: FibChip)
        ensures
            chip.config == config,
    {
        FibChip { config }
    }

    /// Defines the chip's gate on a shape under construction: enables
    /// equality on the three advice columns and the instance column,
    /// allocates a fresh selector, and registers a gate asserting
    /// `advice[0] + advice[1] - advice[2] == 0` under the name `"add"`.
    pub fn configure(advice: [Column; 3], instance: Column, cs: &mut ConstraintSystem) -> (config:
        FibConfig)
        requires
            old(cs).wf(),
            old(cs).is_advice(advice[0]),
            old(cs).is_advice(advice[1]),
            old(cs).is_advice(advice[2]),
            advice[0].index != advice[1].index,
            advice[0].index != advice[2].index,
            advice[1].index != advice[2].index,
            old(cs).is_instance(instance),
            old(cs).n_selector < usize::MAX,
        ensures
            final(cs).wf(),
            config.advice == advice,
            config.instance == instance,
            config_wf(config, *final(cs)),
            final(cs).n_advice == old(cs).n_advice,
            final(cs).n_instance == old(cs).n_instance,
            final(cs).n_selector == old(cs).n_selector + 1,
            config.selector == (Column {
                kind: ColumnKind::Selector,
                index: old(cs).n_selector,
            }),
            final(cs).gates@.len() == old(cs).gates@.len() + 1,
            final(cs).gates@.subrange(0, old(cs).gates@.len() as int) == old(cs).gates@,
            final(cs).gates@.last().name@ == "add"@,
            final(cs).gates@.last().selector == config.selector,
            is_fib_expr(final(cs).gates@.last().expr, advice[0], advice[1], advice[2]),
            forall|d: Column|
                !(d == advice[0] || d == advice[1] || d == advice[2] || d == instance)
                    ==> final(cs).equality_enabled(d) == old(cs).equality_enabled(d),
    {
        let col_a = advice[0];
        let col_b = advice[1];
        let col_c = advice[2];
        let selector = cs.selector();
        let ghost cs0 = *cs;

        cs.enable_equality(col_a).unwrap();
        let ghost cs1 = *cs;
        cs.enable_equality(col_b).unwrap();
        let ghost cs2 = *cs;
        cs.enable_equality(col_c).unwrap();
        let ghost cs3 = *cs;
        cs.enable_equality(instance).unwrap();
        let ghost cs4 = *cs;

        let qa = Expr::query(col_a, 0);
        let qb = Expr::query(col_b, 0);
        let qc = Expr::query(col_c, 0);
        let sum = qa.add(qb);
        let expr = sum.sub(qc);
        proof {
            assert(expr_wf(qa, cs.n_advice as nat, cs.n_instance as nat));
            assert(expr_wf(qb, cs.n_advice as nat, cs.n_instance as nat));
            assert(expr_wf(qc, cs.n_advice as nat, cs.n_instance as nat));
            assert(expr_wf(sum, cs.n_advice as nat, cs.n_instance as nat));
            assert(expr_wf(expr, cs.n_advice as nat, cs.n_instance as nat));
        }
        cs.create_gate(String::from_str("add"), selector, expr).unwrap();

        proof {
            assert(cs.gates@.subrange(0, old(cs).gates@.len() as int) =~= old(cs).gates@);
            assert forall|d: Column|
                !(d == advice[0] || d == advice[1] || d == advice[2] || d == instance)
                implies cs.equality_enabled(d) == old(cs).equality_enabled(d) by {
                assert(cs0.equality_enabled(d) == old(cs).equality_enabled(d));
                assert(cs1.equality_enabled(d) == cs0.equality_enabled(d));
                assert(cs2.equality_enabled(d) == cs1.equality_enabled(d));
                assert(cs3.equality_enabled(d) == cs2.equality_enabled(d));
                assert(cs4.equality_enabled(d) == cs3.equality_enabled(d));
                assert(cs.equality_enabled(d) == cs4.equality_enabled(d));
            }
        }
        FibConfig { advice: [col_a, col_b, col_c], selector, instance }
    }

    /// Opens the first region of the run: binds the chip's `a` and `b`
    /// cells to the first two public inputs — recording the two implicit
    /// copy constraints — computes `c = a + b`, and enables the selector,
    /// all at one fresh row.
    pub fn assign_first_row(&self, ly: &mut Layouter) -> (r: Result<
        (AssignedCell, AssignedCell, AssignedCell),
        Error,
    >)
        requires
            old(ly).wf(),
            !old(ly).in_region,
            chip_layout_ok(self.config, *old(ly)),
        ensures
            final(ly).wf(),
            !final(ly).in_region,
            Layouter::env_unchanged(*old(ly), *final(ly)),
            r is Ok <==> {
                &&& old(ly).next_row < old(ly).asg.n_rows
                &&& old(ly).instance@[self.config.instance.index as int]@.len() >= 2
                &&& old(ly).asg.adv(self.config.advice[0].index as int, old(ly).next_row as int)
                    is None
                &&& old(ly).asg.adv(self.config.advice[1].index as int, old(ly).next_row as int)
                    is None
                &&& old(ly).asg.adv(self.config.advice[2].index as int, old(ly).next_row as int)
                    is None
            },
            match r {
                Ok(cells) => {
                    let row = old(ly).next_row;
                    let i0 = old(ly).instance@[self.config.instance.index as int]@[0];
                    let i1 = old(ly).instance@[self.config.instance.index as int]@[1];
                    &&& cells.0 == (AssignedCell {
                        column: self.config.advice[0],
                        row,
                        value: Value::Known(i0),
                    })
                    &&& cells.1 == (AssignedCell {
                        column: self.config.advice[1],
                        row,
                        value: Value::Known(i1),
                    })
                    &&& cells.2 == (AssignedCell {
                        column: self.config.advice[2],
                        row,
                        value: Value::Known(crate::field::spec_add(i0, i1)),
                    })
                    &&& row_assigned(
                        old(ly).asg,
                        final(ly).asg,
                        self.config,
                        row as int,
                        Value::Known(i0),
                        Value::Known(i1),
                        Value::Known(crate::field::spec_add(i0, i1)),
                    )
                    &&& final(ly).asg.copies@ == old(ly).asg.copies@.push(
                        crate::witness::CopyConstraint {
                            left: crate::shape::CellId { column: self.config.instance, row: 0 },
                            right: crate::shape::CellId { column: self.config.advice[0], row },
                        },
                    ).push(
                        crate::witness::CopyConstraint {
                            left: crate::shape::CellId { column: self.config.instance, row: 1 },
                            right: crate::shape::CellId { column: self.config.advice[1], row },
                        },
                    )
                    &&& final(ly).asg.regions@.len() == old(ly).asg.regions@.len() + 1
                    &&& final(ly).asg.regions@.subrange(0, old(ly).asg.regions@.len() as int)
                        == old(ly).asg.regions@
                    &&& final(ly).asg.regions@.last().name@ == "first row"@
                    &&& final(ly).asg.regions@.last().start == row
                    &&& final(ly).asg.regions@.last().rows == 1
                    &&& final(ly).next_row == old(ly).next_row + 1
                },
                Err(_) => *final(ly) == *old(ly),
            },
    {
        let col_a = self.config.advice[0];
        let col_b = self.config.advice[1];
        let col_c = self.config.advice[2];
        if ly.next_row >= ly.asg.n_rows {
            return Err(Error::NotEnoughRows { offset: 0 });
        }
        let row = ly.next_row;
        if ly.instance[self.config.instance.index].len() < 2 {
            return Err(
                Error::InstanceOutOfRange {
                    column: self.config.instance,
                    row: ly.instance[self.config.instance.index].len(),
                },
            );
        }
        if ly.advice_assigned(col_a, row) {
            return Err(Error::OverlappingAssignment { column: col_a, row });
        }
        if ly.advice_assigned(col_b, row) {
            return Err(Error::OverlappingAssignment { column: col_b, row });
        }
        if ly.advice_assigned(col_c, row) {
            return Err(Error::OverlappingAssignment { column: col_c, row });
        }

        ly.begin_region(String::from_str("first row"));
        let ghost s0 = *ly;
        ly.enable_selector(self.config.selector, 0).unwrap();
        let ghost s1 = *ly;
        let a_cell = ly.assign_advice_from_instance(self.config.instance, 0, col_a, 0).unwrap();
        let ghost s2 = *ly;
        let b_cell = ly.assign_advice_from_instance(self.config.instance, 1, col_b, 0).unwrap();
        let ghost s3 = *ly;
        let c_value = a_cell.value().add(b_cell.value());
        let c_cell = ly.assign_advice(col_c, 0, c_value).unwrap();
        let ghost s4 = *ly;
        ly.end_region();

        proof {
            assert forall|i: int, j: int|
                0 <= i < old(ly).asg.n_advice && 0 <= j < old(ly).asg.n_rows
                implies #[trigger] ly.asg.adv(i, j) == (if i == col_a.index && j == row {
                Some(a_cell.value)
            } else if i == col_b.index && j == row {
                Some(b_cell.value)
            } else if i == col_c.index && j == row {
                Some(c_cell.value)
            } else {
                old(ly).asg.adv(i, j)
            }) by {
                assert(s2.asg.adv(i, j) == (if i == col_a.index && j == row {
                    Some(a_cell.value)
                } else {
                    s1.asg.adv(i, j)
                }));
                assert(s3.asg.adv(i, j) == (if i == col_b.index && j == row {
                    Some(b_cell.value)
                } else {
                    s2.asg.adv(i, j)
                }));
                assert(s4.asg.adv(i, j) == (if i == col_c.index && j == row {
                    Some(c_cell.value)
                } else {
                    s3.asg.adv(i, j)
                }));
                assert(ly.asg.adv(i, j) == s4.asg.adv(i, j));
                assert(s1.asg.adv(i, j) == old(ly).asg.adv(i, j));
            }
            assert forall|s: int, j: int|
                0 <= s < old(ly).asg.n_selector && 0 <= j < old(ly).asg.n_rows
                implies #[trigger] ly.asg.sel(s, j) == (if s == self.config.selector.index && j
                == row {
                true
            } else {
                old(ly).asg.sel(s, j)
            }) by {
                assert(s1.asg.sel(s, j) == (if s == self.config.selector.index && j == row {
                    true
                } else {
                    s0.asg.sel(s, j)
                }));
                assert(s2.asg.sel(s, j) == s1.asg.sel(s, j));
                assert(s3.asg.sel(s, j) == s2.asg.sel(s, j));
                assert(s4.asg.sel(s, j) == s3.asg.sel(s, j));
                assert(ly.asg.sel(s, j) == s4.asg.sel(s, j));
            }
            assert(ly.asg.regions@.subrange(0, old(ly).asg.regions@.len() as int) =~= old(
                ly,
            ).asg.regions@);
        }
        Ok((a_cell, b_cell, c_cell))
    }

    /// Opens one recurrence region: copies the previous row's `b` and `c`
    /// cells into this row's `a` and `b` — recording the two explicit copy
    /// constraints — computes the new `c = a + b`, and enables the
    /// selector.
    pub fn assign_row(&self, ly: &mut Layouter, a: &AssignedCell, b: &AssignedCell) -> (r: Result<
        AssignedCell,
        Error,
    >)
        requires
            old(ly).wf(),
            !old(ly).in_region,
            chip_layout_ok(self.config, *old(ly)),
            old(ly).advice_eq_enabled(a.column),
            old(ly).advice_eq_enabled(b.column),
        ensures
            final(ly).wf(),
            !final(ly).in_region,
            Layouter::env_unchanged(*old(ly), *final(ly)),
            r is Ok <==> {
                &&& old(ly).next_row < old(ly).asg.n_rows
                &&& old(ly).asg.adv(self.config.advice[0].index as int, old(ly).next_row as int)
                    is None
                &&& old(ly).asg.adv(self.config.advice[1].index as int, old(ly).next_row as int)
                    is None
                &&& old(ly).asg.adv(self.config.advice[2].index as int, old(ly).next_row as int)
                    is None
            },
            match r {
                Ok(c_cell) => {
                    let row = old(ly).next_row;
                    &&& c_cell == (AssignedCell {
                        column: self.config.advice[2],
                        row,
                        value: spec_value_add(a.value, b.value),
                    })
                    &&& row_assigned(
                        old(ly).asg,
                        final(ly).asg,
                        self.config,
                        row as int,
                        a.value,
                        b.value,
                        spec_value_add(a.value, b.value),
                    )
                    &&& final(ly).asg.copies@ == old(ly).asg.copies@.push(
                        crate::witness::CopyConstraint {
                            left: crate::shape::CellId { column: a.column, row: a.row },
                            right: crate::shape::CellId { column: self.config.advice[0], row },
                        },
                    ).push(
                        crate::witness::CopyConstraint {
                            left: crate::shape::CellId { column: b.column, row: b.row },
                            right: crate::shape::CellId { column: self.config.advice[1], row },
                        },
                    )
                    &&& final(ly).asg.regions@.len() == old(ly).asg.regions@.len() + 1
                    &&& final(ly).asg.regions@.subrange(0, old(ly).asg.regions@.len() as int)
                        == old(ly).asg.regions@
                    &&& final(ly).asg.regions@.last().name@ == "next_row"@
                    &&& final(ly).asg.regions@.last().start == row
                    &&& final(ly).asg.regions@.last().rows == 1
                    &&& final(ly).next_row == old(ly).next_row + 1
                },
                Err(_) => *final(ly) == *old(ly),
            },
    {
        let col_a = self.config.advice[0];
        let col_b = self.config.advice[1];
        let col_c = self.config.advice[2];
        if ly.next_row >= ly.asg.n_rows {
            return Err(Error::NotEnoughRows { offset: 0 });
        }
        let row = ly.next_row;
        if ly.advice_assigned(col_a, row) {
            return Err(Error::OverlappingAssignment { column: col_a, row });
        }
        if ly.advice_assigned(col_b, row) {
            return Err(Error::OverlappingAssignment { column: col_b, row });
        }
        if ly.advice_assigned(col_c, row) {
            return Err(Error::OverlappingAssignment { column: col_c, row });
        }

        ly.begin_region(String::from_str("next_row"));
        let ghost s0 = *ly;
        ly.enable_selector(self.config.selector, 0).unwrap();
        let ghost s1 = *ly;
        let a_cell = ly.copy_advice(a, col_a, 0).unwrap();
        let ghost s2 = *ly;
        let b_cell = ly.copy_advice(b, col_b, 0).unwrap();
        let ghost s3 = *ly;
        let c_value = a.value().add(b.value());
        let c_cell = ly.assign_advice(col_c, 0, c_value).unwrap();
        let ghost s4 = *ly;
        ly.end_region();

        proof {
            assert forall|i: int, j: int|
                0 <= i < old(ly).asg.n_advice && 0 <= j < old(ly).asg.n_rows
                implies #[trigger] ly.asg.adv(i, j) == (if i == col_a.index && j == row {
                Some(a.value)
            } else if i == col_b.index && j == row {
                Some(b.value)
            } else if i == col_c.index && j == row {
                Some(c_cell.value)
            } else {
                old(ly).asg.adv(i, j)
            }) by {
                assert(s2.asg.adv(i, j) == (if i == col_a.index && j == row {
                    Some(a.value)
                } else {
                    s1.asg.adv(i, j)
                }));
                assert(s3.asg.adv(i, j) == (if i == col_b.index && j == row {
                    Some(b.value)
                } else {
                    s2.asg.adv(i, j)
                }));
                assert(s4.asg.adv(i, j) == (if i == col_c.index && j == row {
                    Some(c_cell.value)
                } else {
                    s3.asg.adv(i, j)
                }));
                assert(ly.asg.adv(i, j) == s4.asg.adv(i, j));
                assert(s1.asg.adv(i, j) == old(ly).asg.adv(i, j));
            }
            assert forall|s: int, j: int|
                0 <= s < old(ly).asg.n_selector && 0 <= j < old(ly).asg.n_rows
                implies #[trigger] ly.asg.sel(s, j) == (if s == self.config.selector.index && j
                == row {
                true
            } else {
                old(ly).asg.sel(s, j)
            }) by {
                assert(s1.asg.sel(s, j) == (if s == self.config.selector.index && j == row {
                    true
                } else {
                    s0.asg.sel(s, j)
                }));
                assert(s2.asg.sel(s, j) == s1.asg.sel(s, j));
                assert(s3.asg.sel(s, j) == s2.asg.sel(s, j));
                assert(s4.asg.sel(s, j) == s3.asg.sel(s, j));
                assert(ly.asg.sel(s, j) == s4.asg.sel(s, j));
            }
            assert(ly.asg.regions@.subrange(0, old(ly).asg.regions@.len() as int) =~= old(
                ly,
            ).asg.regions@);
        }
        Ok(c_cell)
    }

    /// Binds an assigned cell to a public input: records the copy
    /// constraint between the cell and the instance cell at `row`.
    pub fn expose_public(&self, ly: &mut Layouter, cell: &AssignedCell, row: usize) -> (r: Result<
        (),
        Error,
    >)
        requires
            old(ly).wf(),
            chip_layout_ok(self.config, *old(ly)),
            old(ly).advice_eq_enabled(cell.column),
        ensures
            final(ly).wf(),
            Layouter::env_unchanged(*old(ly), *final(ly)),
            r is Ok <==> row < old(ly).instance@[self.config.instance.index as int]@.len(),
            r is Ok ==> {
                &&& final(ly).asg.copies@ == old(ly).asg.copies@.push(
                    crate::witness::CopyConstraint {
                        left: crate::shape::CellId { column: cell.column, row: cell.row },
                        right: crate::shape::CellId { column: self.config.instance, row },
                    },
                )
                &&& final(ly).asg.advice == old(ly).asg.advice
                &&& final(ly).asg.selectors == old(ly).asg.selectors
                &&& final(ly).asg.regions == old(ly).asg.regions
                &&& final(ly).asg.n_advice == old(ly).asg.n_advice
                &&& final(ly).asg.n_selector == old(ly).asg.n_selector
                &&& final(ly).asg.n_rows == old(ly).asg.n_rows
                &&& final(ly).next_row == old(ly).next_row
                &&& final(ly).in_region == old(ly).in_region
            },
            r is Err ==> *final(ly) == *old(ly),
    {
        ly.constrain_instance(cell, self.config.instance, row)
    }
}

/// Builds the recurrence circuit over a grid of `n_rows` rows, synthesizes
/// the chain seeded with the public inputs `(i0, i1)`, verifies the
/// finished grid, and returns the final `c` cell's value.
///
/// The contract carries the end-to-end law of the recurrence: for every
/// grid size — that is, for every chain of two or more terms — the run
/// always succeeds, meaning the verifier finds no violation at all, and
/// the value handed back is exactly the last term of the recurrence.
#[verifier::loop_isolation(false)]
pub fn run_recurrence(n_rows: usize, i0: Fp, i1: Fp) -> (r: Result<Fp, Error>)
    requires
        1 <= n_rows,
        3 * n_rows <= usize::MAX,
    ensures
        r is Ok,
        r matches Ok(v) ==> v == fib_val(i0, i1, (n_rows + 1) as nat),
{
    let mut cs = ConstraintSystem::new();
    let col_a = cs.advice_column();
    let col_b = cs.advice_column();
    let col_c = cs.advice_column();
    let instance = cs.instance_column();
    let config = FibChip::configure([col_a, col_b, col_c], instance, &mut cs);
    let chip = FibChip::construct(config);
    let ghost a0 = chip.config.advice[0].index as int;
    let ghost a1 = chip.config.advice[1].index as int;
    let ghost a2 = chip.config.advice[2].index as int;
    let ghost si = chip.config.selector.index as int;

    let mut pub_col: Vec<Fp> = Vec::new();
    pub_col.push(i0);
    pub_col.push(i1);
    let mut inst0: Vec<Vec<Fp>> = Vec::new();
    inst0.push(pub_col);
    let mut ly = Layouter::new(&cs, n_rows, inst0);

    let cells = chip.assign_first_row(&mut ly).unwrap();
    let mut b = cells.1;
    let mut c = cells.2;
    let mut k: usize = 1;
    proof {
        assert(fib_val(i0, i1, 0) == i0);
        assert(fib_val(i0, i1, 1) == i1);
        assert(fib_val(i0, i1, 2) == spec_add(i0, i1));
    }
    while k < n_rows
        invariant
            ly.wf(),
            !ly.in_region,
            chip_layout_ok(chip.config, ly),
            ly.asg.n_advice == 3,
            ly.asg.n_selector == 1,
            ly.asg.n_rows == n_rows,
            ly.instance@.len() == 1,
            ly.instance@[0]@.len() == 2,
            ly.instance@[0]@[0] == i0,
            ly.instance@[0]@[1] == i1,
            1 <= k <= n_rows,
            ly.next_row == k,
            b.value == Value::Known(fib_val(i0, i1, k as nat)),
            c.value == Value::Known(fib_val(i0, i1, (k + 1) as nat)),
            b.column.kind == ColumnKind::Advice,
            b.column.index < 3,
            b.row < k,
            c.column.kind == ColumnKind::Advice,
            c.column.index < 3,
            c.row < k,
            ly.advice_eq_enabled(b.column),
            ly.advice_eq_enabled(c.column),
            ly.asg.adv(b.column.index as int, b.row as int) == Some(b.value),
            ly.asg.adv(c.column.index as int, c.row as int) == Some(c.value),
            forall|j: int|
                0 <= j < k ==> {
                    &&& #[trigger] ly.asg.adv(a0, j) == Some(
                        Value::Known(fib_val(i0, i1, j as nat)),
                    )
                    &&& ly.asg.adv(a1, j) == Some(Value::Known(fib_val(i0, i1, (j + 1) as nat)))
                    &&& ly.asg.adv(a2, j) == Some(Value::Known(fib_val(i0, i1, (j + 2) as nat)))
                },
            forall|i: int, j: int|
                0 <= i < 3 && k <= j < n_rows ==> #[trigger] ly.asg.adv(i, j) is None,
            forall|j: int| 0 <= j < n_rows ==> #[trigger] ly.asg.sel(si, j) == (j < k),
            forall|idx: int|
                0 <= idx < ly.asg.copies@.len() ==> {
                    &&& resolve_spec(ly.asg, ly.instance, (#[trigger] ly.asg.copies@[idx]).left)
                        is Some
                    &&& resolve_spec(ly.asg, ly.instance, ly.asg.copies@[idx].left)
                        == resolve_spec(ly.asg, ly.instance, ly.asg.copies@[idx].right)
                },
        decreases n_rows - k,
    {
        let ghost pre = ly;
        let new_c = chip.assign_row(&mut ly, &b, &c).unwrap();
        proof {
            assert(fib_val(i0, i1, (k + 2) as nat) == spec_add(
                fib_val(i0, i1, k as nat),
                fib_val(i0, i1, (k + 1) as nat),
            ));
            assert(spec_value_add(b.value, c.value) == Value::Known(
                fib_val(i0, i1, (k + 2) as nat),
            ));
            // the three cells of row k were empty before this region
            assert(pre.asg.adv(a0, k as int) is None);
            assert(pre.asg.adv(a1, k as int) is None);
            assert(pre.asg.adv(a2, k as int) is None);
            // every already-recorded copy constraint still resolves as before
            assert forall|idx: int|
                0 <= idx < ly.asg.copies@.len() implies {
                &&& resolve_spec(ly.asg, ly.instance, (#[trigger] ly.asg.copies@[idx]).left)
                    is Some
                &&& resolve_spec(ly.asg, ly.instance, ly.asg.copies@[idx].left) == resolve_spec(
                    ly.asg,
                    ly.instance,
                    ly.asg.copies@[idx].right,
                )
            } by {
                if idx < pre.asg.copies@.len() {
                    let cc = pre.asg.copies@[idx];
                    assert(ly.asg.copies@[idx] == cc);
                    lemma_resolve_stable(
                        pre.asg,
                        ly.asg,
                        chip.config,
                        k as int,
                        b.value,
                        c.value,
                        spec_value_add(b.value, c.value),
                        ly.instance,
                        cc.left,
                    );
                    lemma_resolve_stable(
                        pre.asg,
                        ly.asg,
                        chip.config,
                        k as int,
                        b.value,
                        c.value,
                        spec_value_add(b.value, c.value),
                        ly.instance,
                        cc.right,
                    );
                } else if idx == pre.asg.copies@.len() {
                    // the copy of the old b cell into this row's a cell
                    let cc = ly.asg.copies@[idx];
                    assert(cc.left == (CellId { column: b.column, row: b.row }));
                    assert(cc.right == (CellId { column: chip.config.advice[0], row: k }));
                    assert(ly.asg.adv(b.column.index as int, b.row as int) == Some(b.value));
                    assert(ly.asg.adv(a0, k as int) == Some(b.value));
                } else {
                    // the copy of the old c cell into this row's b cell
                    let cc = ly.asg.copies@[idx];
                    assert(cc.left == (CellId { column: c.column, row: c.row }));
                    assert(cc.right == (CellId { column: chip.config.advice[1], row: k }));
                    assert(ly.asg.adv(c.column.index as int, c.row as int) == Some(c.value));
                    assert(ly.asg.adv(a1, k as int) == Some(c.value));
                }
            }
        }
        b = c;
        c = new_c;
        k = k + 1;
    }
    let (asg, instv) = ly.finish_with_instance();
    proof {
        // every row satisfies its gate, and nothing is fatal
        assert forall|g: int, r: int|
            0 <= g < cs.gates@.len() && 0 <= r < asg.n_rows implies !gate_violation_at(
            cs,
            asg,
            instv,
            g,
            r,
        ) && !gate_fatal_at(cs, asg, instv, g, r) by {
            assert(g == 0);
            let ta = fib_val(i0, i1, r as nat);
            let tb = fib_val(i0, i1, (r + 1) as nat);
            let tc = fib_val(i0, i1, (r + 2) as nat);
            lemma_fib_expr_eval(
                cs.gates@[0].expr,
                asg,
                instv,
                r,
                chip.config.advice[0],
                chip.config.advice[1],
                chip.config.advice[2],
                ta,
                tb,
                tc,
            );
            assert(tc == spec_add(ta, tb));
            lemma_sub_self_zero(spec_add(ta, tb));
            assert(eval_spec(cs.gates@[0].expr, asg, instv, r) == Some(spec_sub(spec_add(ta, tb), tc)));
        }
        assert forall|idx: int|
            0 <= idx < asg.copies@.len() implies !copy_violated(asg, instv, asg.copies@[idx])
            && !copy_fatal(asg, instv, #[trigger] asg.copies@[idx]) by {
        }
        lemma_no_violations(cs, asg, instv);
        assert(!fatal_exists(cs, asg, instv));
    }
    match assert_satisfied(&cs, &asg, &instv) {
        Ok(()) => {
            match c.value() {
                Value::Known(v) => Ok(v),
                Value::Unknown => {
                    proof {
                        assert(false);
                    }
                    Err(Error::NotEnoughRows { offset: 0 })
                },
            }
        },
        Err(e) => {
            proof {
                assert(false);
            }
            Err(e)
        },
    }
}

} // verus!
