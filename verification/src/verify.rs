//! The constraint checker.
//!
//! Given a shape, a finished witness grid and the public inputs, the
//! verifier evaluates every gate at every row where its selector is active
//! and compares the two cells of every copy constraint, reporting the full
//! ordered violation list: gate violations in row-major, then
//! gate-registration order, followed by copy violations in creation order.
//!
//! Shape and witness errors — a query reaching outside the grid, a cell
//! read that was never assigned, a missing public input — are fatal: they
//! abort the run at once with an `Error` instead of a verdict.

use vstd::prelude::*;
use crate::field::Fp;
use crate::shape::{CellId, Column, ColumnKind, ConstraintSystem, Expr};
use crate::witness::{Assignment, RegionInfo, Value, lemma_grid_index};
use crate::error::{Error, Violation};

verus! {

/// The value a gate expression takes at `row`, resolving each query at its
/// rotation; `None` when any query reaches outside the grid, reads an
/// unassigned or unknown advice cell, reads past the supplied public
/// inputs, or names a selector column.
pub open spec fn eval_spec(e: Expr, asg: Assignment, inst: Vec<Vec<Fp>>, row: int) -> Option<Fp>
    decreases e,
{
    match e {
        Expr::Constant(v) => Some(v),
        Expr::Query { column, rotation } => {
            let r = row + rotation;
            if r < 0 || r >= asg.n_rows {
                None
            } else {
                match column.kind {
                    ColumnKind::Advice => if column.index < asg.n_advice {
                        match asg.adv(column.index as int, r) {
                            Some(Value::Known(v)) => Some(v),
                            _ => None,
                        }
                    } else {
                        None
                    },
                    ColumnKind::Instance => if column.index < inst@.len() && r < inst@[column.index as int]@.len() {
                        Some(inst@[column.index as int]@[r])
                    } else {
                        None
                    },
                    ColumnKind::Selector => None,
                }
            }
        },
        Expr::Sum(a, b) => match (eval_spec(*a, asg, inst, row), eval_spec(*b, asg, inst, row)) {
            (Some(x), Some(y)) => Some(crate::field::spec_add(x, y)),
            _ => None,
        },
        Expr::Diff(a, b) => match (eval_spec(*a, asg, inst, row), eval_spec(*b, asg, inst, row)) {
            (Some(x), Some(y)) => Some(crate::field::spec_sub(x, y)),
            _ => None,
        },
        Expr::Prod(a, b) => match (eval_spec(*a, asg, inst, row), eval_spec(*b, asg, inst, row)) {
            (Some(x), Some(y)) => Some(crate::field::spec_mul(x, y)),
            _ => None,
        },
    }
}

/// The value a cell of a copy constraint resolves to; `None` when the cell
/// does not exist, was never assigned a concrete value, or names a
/// selector column.
pub open spec fn resolve_spec(asg: Assignment, inst: Vec<Vec<Fp>>, cell: CellId) -> Option<Fp> {
    match cell.column.kind {
        ColumnKind::Advice => if cell.column.index < asg.n_advice && cell.row < asg.n_rows {
            match asg.adv(cell.column.index as int, cell.row as int) {
                Some(Value::Known(v)) => Some(v),
                _ => None,
            }
        } else {
            None
        },
        ColumnKind::Instance => if cell.column.index < inst@.len() && cell.row < inst@[cell.column.index as int]@.len() {
            Some(inst@[cell.column.index as int]@[cell.row as int])
        } else {
            None
        },
        ColumnKind::Selector => None,
    }
}

/// Gate `g`'s selector is active at row `r`.
pub open spec fn sel_active(cs: ConstraintSystem, asg: Assignment, g: int, r: int) -> bool {
    let s = cs.gates@[g].selector.index as int;
    &&& s < asg.n_selector
    &&& asg.sel(s, r)
}

/// Gate `g` is violated at row `r`: its selector is active and its
/// expression evaluates to a nonzero value.
pub open spec fn gate_violation_at(
    cs: ConstraintSystem,
    asg: Assignment,
    inst: Vec<Vec<Fp>>,
    g: int,
    r: int,
) -> bool {
    &&& sel_active(cs, asg, g, r)
    &&& match eval_spec(cs.gates@[g].expr, asg, inst, r) {
        Some(v) => v.v != 0,
        None => false,
    }
}

/// Gate `g` cannot be evaluated at row `r` although its selector is
/// active: a fatal configuration error.
pub open spec fn gate_fatal_at(
    cs: ConstraintSystem,
    asg: Assignment,
    inst: Vec<Vec<Fp>>,
    g: int,
    r: int,
) -> bool {
    &&& sel_active(cs, asg, g, r)
    &&& eval_spec(cs.gates@[g].expr, asg, inst, r) is None
}

/// The copy constraint holds cells with different resolved values.
pub open spec fn copy_violated(asg: Assignment, inst: Vec<Vec<Fp>>, c: crate::witness::CopyConstraint) -> bool {
    match (resolve_spec(asg, inst, c.left), resolve_spec(asg, inst, c.right)) {
        (Some(a), Some(b)) => a != b,
        _ => false,
    }
}

/// A cell of the copy constraint cannot be resolved: a fatal error.
pub open spec fn copy_fatal(asg: Assignment, inst: Vec<Vec<Fp>>, c: crate::witness::CopyConstraint) -> bool {
    ||| resolve_spec(asg, inst, c.left) is None
    ||| resolve_spec(asg, inst, c.right) is None
}

/// The index of the first region whose rows contain `row`, starting the
/// search at region `i`.
pub open spec fn region_of_from(regions: Seq<RegionInfo>, row: int, i: int) -> Option<usize>
    decreases regions.len() - i,
{
    if i < 0 || i >= regions.len() {
        None
    } else if regions[i].start <= row < regions[i].start + regions[i].rows {
        Some(i as usize)
    } else {
        region_of_from(regions, row, i + 1)
    }
}

/// The index of the first region whose rows contain `row`, if any.
pub open spec fn region_of(regions: Seq<RegionInfo>, row: int) -> Option<usize> {
    region_of_from(regions, row, 0)
}

/// Gate violations of row `r` among the first `g_upto` gates, in
/// gate-registration order.
pub open spec fn gate_row_viols(
    cs: ConstraintSystem,
    asg: Assignment,
    inst: Vec<Vec<Fp>>,
    r: int,
    g_upto: int,
) -> Seq<Violation>
    decreases g_upto,
{
    if g_upto <= 0 {
        Seq::empty()
    } else {
        gate_row_viols(cs, asg, inst, r, g_upto - 1) + (if gate_violation_at(
            cs,
            asg,
            inst,
            g_upto - 1,
            r,
        ) {
            seq![
                (Violation::ConstraintNotSatisfied {
                    gate: (g_upto - 1) as usize,
                    row: r as usize,
                    region: region_of(asg.regions@, r),
                }),
            ]
        } else {
            Seq::empty()
        })
    }
}

/// Gate violations of the first `r_upto` rows, row-major.
pub open spec fn gate_viols_upto(
    cs: ConstraintSystem,
    asg: Assignment,
    inst: Vec<Vec<Fp>>,
    r_upto: int,
) -> Seq<Violation>
    decreases r_upto,
{
    if r_upto <= 0 {
        Seq::empty()
    } else {
        gate_viols_upto(cs, asg, inst, r_upto - 1) + gate_row_viols(
            cs,
            asg,
            inst,
            r_upto - 1,
            cs.gates@.len() as int,
        )
    }
}

/// The copy violations among the first `c_upto` copy constraints, in
/// creation order.
pub open spec fn copy_viols_upto(
    asg: Assignment,
    inst: Vec<Vec<Fp>>,
    c_upto: int,
) -> Seq<Violation>
    decreases c_upto,
{
    if c_upto <= 0 {
        Seq::empty()
    } else {
        copy_viols_upto(asg, inst, c_upto - 1) + (if copy_violated(
            asg,
            inst,
            asg.copies@[c_upto - 1],
        ) {
            seq![
                (Violation::EqualityConstraintNotSatisfied {
                    index: (c_upto - 1) as usize,
                    left: asg.copies@[c_upto - 1].left,
                    right: asg.copies@[c_upto - 1].right,
                }),
            ]
        } else {
            Seq::empty()
        })
    }
}

/// The full ordered violation list of the run: gate violations first, then
/// copy violations.
pub open spec fn violations_spec(cs: ConstraintSystem, asg: Assignment, inst: Vec<Vec<Fp>>) -> Seq<
    Violation,
> {
    gate_viols_upto(cs, asg, inst, asg.n_rows as int) + copy_viols_upto(
        asg,
        inst,
        asg.copies@.len() as int,
    )
}

/// Some active gate cannot be evaluated somewhere in the grid.
pub open spec fn gate_fatal_exists(cs: ConstraintSystem, asg: Assignment, inst: Vec<Vec<Fp>>) -> bool {
    exists|g: int, r: int|
        0 <= g < cs.gates@.len() && 0 <= r < asg.n_rows && gate_fatal_at(cs, asg, inst, g, r)
}

/// Some copy constraint has an unresolvable cell.
pub open spec fn copy_fatal_exists(asg: Assignment, inst: Vec<Vec<Fp>>) -> bool {
    exists|c: int| 0 <= c < asg.copies@.len() && copy_fatal(asg, inst, asg.copies@[c])
}

/// The run cannot reach a verdict, because some constraint cannot even
/// be checked.
pub open spec fn fatal_exists(cs: ConstraintSystem, asg: Assignment, inst: Vec<Vec<Fp>>) -> bool {
    gate_fatal_exists(cs, asg, inst) || copy_fatal_exists(asg, inst)
}

/// Evaluates a gate expression at `row`.
pub fn eval(e: &Expr, asg: &Assignment, inst: &Vec<Vec<Fp>>, row: usize) -> (r: Result<Fp, Error>)
    requires
        asg.wf(),
        row < asg.n_rows,
    ensures
        r matches Ok(v) ==> eval_spec(*e, *asg, *inst, row as int) == Some(v),
        r is Err ==> eval_spec(*e, *asg, *inst, row as int) is None,
        r matches Err(e) ==> !(e matches Error::Unsatisfied { .. }),
    decreases *e,
{
    match e {
        Expr::Constant(v) => Ok(*v),
        Expr::Query { column, rotation } => {
            let abs: i128 = row as i128 + *rotation as i128;
            if abs < 0 || abs >= asg.n_rows as i128 {
                return Err(
                    Error::RotationOutOfRange { column: *column, row, rotation: *rotation },
                );
            }
            let r_abs: usize = abs as usize;
            match column.kind {
                ColumnKind::Advice => {
                    if !(column.index < asg.n_advice) {
                        return Err(Error::InvalidColumn { column: *column });
                    }
                    let glen = asg.advice.len();
                    proof {
                        lemma_grid_index(
                            column.index as int,
                            r_abs as int,
                            asg.n_advice as int,
                            asg.n_rows as int,
                        );
                    }
                    let idx = column.index * asg.n_rows + r_abs;
                    match asg.advice[idx] {
                        Some(Value::Known(v)) => Ok(v),
                        _ => Err(Error::CellNotAssigned { column: *column, row: r_abs }),
                    }
                },
                ColumnKind::Instance => {
                    if column.index < inst.len() {
                        if r_abs < inst[column.index].len() {
                            Ok(inst[column.index][r_abs])
                        } else {
                            Err(Error::InstanceOutOfRange { column: *column, row: r_abs })
                        }
                    } else {
                        Err(Error::InstanceOutOfRange { column: *column, row: r_abs })
                    }
                },
                ColumnKind::Selector => Err(Error::InvalidColumn { column: *column }),
            }
        },
        Expr::Sum(a, b) => {
            let x = eval(a, asg, inst, row)?;
            let y = eval(b, asg, inst, row)?;
            Ok(x.add(y))
        },
        Expr::Diff(a, b) => {
            let x = eval(a, asg, inst, row)?;
            let y = eval(b, asg, inst, row)?;
            Ok(x.sub(y))
        },
        Expr::Prod(a, b) => {
            let x = eval(a, asg, inst, row)?;
            let y = eval(b, asg, inst, row)?;
            Ok(x.mul(y))
        },
    }
}

/// Resolves one cell of a copy constraint to its concrete value.
pub fn resolve_cell(asg: &Assignment, inst: &Vec<Vec<Fp>>, cell: CellId) -> (r: Result<Fp, Error>)
    requires
        asg.wf(),
    ensures
        r matches Ok(v) ==> resolve_spec(*asg, *inst, cell) == Some(v),
        r is Err ==> resolve_spec(*asg, *inst, cell) is None,
        r matches Err(e) ==> !(e matches Error::Unsatisfied { .. }),
{
    match cell.column.kind {
        ColumnKind::Advice => {
            if cell.column.index < asg.n_advice && cell.row < asg.n_rows {
                let glen = asg.advice.len();
                proof {
                    lemma_grid_index(
                        cell.column.index as int,
                        cell.row as int,
                        asg.n_advice as int,
                        asg.n_rows as int,
                    );
                }
                let idx = cell.column.index * asg.n_rows + cell.row;
                match asg.advice[idx] {
                    Some(Value::Known(v)) => Ok(v),
                    _ => Err(Error::CellNotAssigned { column: cell.column, row: cell.row }),
                }
            } else {
                Err(Error::InvalidColumn { column: cell.column })
            }
        },
        ColumnKind::Instance => {
            if cell.column.index < inst.len() {
                if cell.row < inst[cell.column.index].len() {
                    Ok(inst[cell.column.index][cell.row])
                } else {
                    Err(Error::InstanceOutOfRange { column: cell.column, row: cell.row })
                }
            } else {
                Err(Error::InstanceOutOfRange { column: cell.column, row: cell.row })
            }
        },
        ColumnKind::Selector => Err(Error::InvalidColumn { column: cell.column }),
    }
}

/// The index of the first region containing `row`, if any.
pub fn region_of_row(regions: &Vec<RegionInfo>, row: usize) -> (r: Option<usize>)
    ensures
        r == region_of(regions@, row as int),
{
    let mut i: usize = 0;
    while i < regions.len()
        invariant
            i <= regions@.len(),
            region_of(regions@, row as int) == region_of_from(regions@, row as int, i as int),
        decreases regions@.len() - i,
    {
        let start = regions[i].start;
        let rows = regions[i].rows;
        if start <= row && row - start < rows {
            return Some(i);
        }
        i = i + 1;
    }
    None
}

/// Walks the witness grid and returns the full ordered violation list:
/// every gate evaluated at every row where its selector is active, in
/// row-major then gate-registration order, then every copy constraint in
/// creation order.  An empty list means the witness satisfies the circuit.
/// A fatal shape or witness error aborts the walk instead.
pub fn verify(cs: &ConstraintSystem, asg: &Assignment, inst: &Vec<Vec<Fp>>) -> (r: Result<
    Vec<Violation>,
    Error,
>)
    requires
        cs.wf(),
        asg.wf(),
    ensures
        match r {
            Ok(vs) => !fatal_exists(*cs, *asg, *inst) && vs@ == violations_spec(*cs, *asg, *inst),
            Err(e) => fatal_exists(*cs, *asg, *inst) && !(e matches Error::Unsatisfied { .. }),
        },
{
    let mut viols: Vec<Violation> = Vec::new();
    let n_rows = asg.n_rows;
    let n_gates = cs.gates.len();
    let mut r: usize = 0;
    while r < n_rows
        invariant
            cs.wf(),
            asg.wf(),
            n_rows == asg.n_rows,
            n_gates == cs.gates@.len(),
            r <= n_rows,
            viols@ == gate_viols_upto(*cs, *asg, *inst, r as int),
            forall|g2: int, r2: int|
                0 <= g2 < n_gates && 0 <= r2 < r ==> !gate_fatal_at(*cs, *asg, *inst, g2, r2),
        decreases n_rows - r,
    {
        let mut g: usize = 0;
        while g < n_gates
            invariant
                cs.wf(),
                asg.wf(),
                n_rows == asg.n_rows,
                n_gates == cs.gates@.len(),
                r < n_rows,
                g <= n_gates,
                viols@ == gate_viols_upto(*cs, *asg, *inst, r as int) + gate_row_viols(
                    *cs,
                    *asg,
                    *inst,
                    r as int,
                    g as int,
                ),
                forall|g2: int, r2: int|
                    0 <= g2 < n_gates && 0 <= r2 < r ==> !gate_fatal_at(*cs, *asg, *inst, g2, r2),
                forall|g2: int|
                    0 <= g2 < g ==> !gate_fatal_at(*cs, *asg, *inst, g2, r as int),
            decreases n_gates - g,
        {
            let s = cs.gates[g].selector.index;
            let mut active = false;
            if s < asg.n_selector {
                let slen = asg.selectors.len();
                proof {
                    lemma_grid_index(s as int, r as int, asg.n_selector as int, asg.n_rows as int);
                }
                active = asg.selectors[s * asg.n_rows + r];
            }
            proof {
                assert(active == sel_active(*cs, *asg, g as int, r as int));
            }
            if active {
                match eval(&cs.gates[g].expr, asg, inst, r) {
                    Ok(v) => {
                        if v.as_u64() != 0 {
                            let reg = region_of_row(&asg.regions, r);
                            viols.push(
                                Violation::ConstraintNotSatisfied { gate: g, row: r, region: reg },
                            );
                        }
                    },
                    Err(e) => {
                        proof {
                            assert(gate_fatal_at(*cs, *asg, *inst, g as int, r as int));
                        }
                        return Err(e);
                    },
                }
            }
            proof {
                assert(viols@ =~= gate_viols_upto(*cs, *asg, *inst, r as int) + gate_row_viols(
                    *cs,
                    *asg,
                    *inst,
                    r as int,
                    g + 1,
                ));
            }
            g = g + 1;
        }
        proof {
            assert(gate_viols_upto(*cs, *asg, *inst, r + 1) == gate_viols_upto(
                *cs,
                *asg,
                *inst,
                r as int,
            ) + gate_row_viols(*cs, *asg, *inst, r as int, cs.gates@.len() as int));
        }
        r = r + 1;
    }
    let ghost gate_part = viols@;
    let n_copies = asg.copies.len();
    let mut c: usize = 0;
    while c < n_copies
        invariant
            cs.wf(),
            asg.wf(),
            n_copies == asg.copies@.len(),
            c <= n_copies,
            gate_part == gate_viols_upto(*cs, *asg, *inst, asg.n_rows as int),
            viols@ == gate_part + copy_viols_upto(*asg, *inst, c as int),
            forall|g2: int, r2: int|
                0 <= g2 < cs.gates@.len() && 0 <= r2 < asg.n_rows ==> !gate_fatal_at(
                    *cs,
                    *asg,
                    *inst,
                    g2,
                    r2,
                ),
            forall|c2: int| 0 <= c2 < c ==> !copy_fatal(*asg, *inst, asg.copies@[c2]),
        decreases n_copies - c,
    {
        let cc = asg.copies[c];
        let lv = match resolve_cell(asg, inst, cc.left) {
            Ok(v) => v,
            Err(e) => {
                proof {
                    assert(copy_fatal(*asg, *inst, asg.copies@[c as int]));
                }
                return Err(e);
            },
        };
        let rv = match resolve_cell(asg, inst, cc.right) {
            Ok(v) => v,
            Err(e) => {
                proof {
                    assert(copy_fatal(*asg, *inst, asg.copies@[c as int]));
                }
                return Err(e);
            },
        };
        if lv.as_u64() != rv.as_u64() {
            viols.push(
                Violation::EqualityConstraintNotSatisfied {
                    index: c,
                    left: cc.left,
                    right: cc.right,
                },
            );
        }
        proof {
            assert(viols@ =~= gate_part + copy_viols_upto(*asg, *inst, c + 1));
        }
        c = c + 1;
    }
    proof {
        assert(viols@ =~= violations_spec(*cs, *asg, *inst));
    }
    Ok(viols)
}

/// Succeeds exactly when the witness satisfies every constraint of the
/// circuit; otherwise surfaces the full ordered violation list, or the
/// fatal error that kept a verdict from being reached.
pub fn assert_satisfied(cs: &ConstraintSystem, asg: &Assignment, inst: &Vec<Vec<Fp>>) -> (r: Result<
    (),
    Error,
>)
    requires
        cs.wf(),
        asg.wf(),
    ensures
        r is Ok <==> !fatal_exists(*cs, *asg, *inst) && violations_spec(*cs, *asg, *inst).len()
            == 0,
        r matches Err(e) ==> (match e {
            Error::Unsatisfied { violations } => !fatal_exists(*cs, *asg, *inst) && violations@
                == violations_spec(*cs, *asg, *inst) && violations@.len() > 0,
            _ => fatal_exists(*cs, *asg, *inst),
        }),
{
    match verify(cs, asg, inst) {
        Ok(vs) => {
            if vs.len() == 0 {
                Ok(())
            } else {
                Err(Error::Unsatisfied { violations: vs })
            }
        },
        Err(e) => Err(e),
    }
}

/// The queries of a gate expression, left to right.
pub open spec fn queries_of(e: Expr) -> Seq<(Column, i64)>
    decreases e,
{
    match e {
        Expr::Constant(_) => Seq::empty(),
        Expr::Query { column, rotation } => seq![(column, rotation)],
        Expr::Sum(a, b) => queries_of(*a) + queries_of(*b),
        Expr::Diff(a, b) => queries_of(*a) + queries_of(*b),
        Expr::Prod(a, b) => queries_of(*a) + queries_of(*b),
    }
}

/// The value one query resolves to at `row`, if it can be resolved.
pub open spec fn query_value_spec(
    asg: Assignment,
    inst: Vec<Vec<Fp>>,
    q: (Column, i64),
    row: int,
) -> Option<Fp> {
    eval_spec(Expr::Query { column: q.0, rotation: q.1 }, asg, inst, row)
}

/// Appends the queries of `e`, left to right, to `out`.
fn collect_queries(e: &Expr, out: &mut Vec<(Column, i64)>)
    ensures
        final(out)@ == old(out)@ + queries_of(*e),
    decreases *e,
{
    match e {
        Expr::Constant(_) => {
            proof {
                assert(out@ =~= out@ + queries_of(*e));
            }
        },
        Expr::Query { column, rotation } => {
            out.push((*column, *rotation));
            proof {
                assert(out@ =~= old(out)@ + queries_of(*e));
            }
        },
        Expr::Sum(a, b) => {
            collect_queries(a, out);
            collect_queries(b, out);
            proof {
                assert(out@ =~= old(out)@ + queries_of(*e));
            }
        },
        Expr::Diff(a, b) => {
            collect_queries(a, out);
            collect_queries(b, out);
            proof {
                assert(out@ =~= old(out)@ + queries_of(*e));
            }
        },
        Expr::Prod(a, b) => {
            collect_queries(a, out);
            collect_queries(b, out);
            proof {
                assert(out@ =~= old(out)@ + queries_of(*e));
            }
        },
    }
}

/// The diagnostic detail behind a gate violation: every cell gate `g`
/// queries at `row`, in query order, with the value it resolves to —
/// `None` for a cell that cannot be resolved.
pub fn gate_queried_cells(cs: &ConstraintSystem, asg: &Assignment, inst: &Vec<Vec<Fp>>, g: usize, row: usize) -> (r: Vec<(Column, i64, Option<Fp>)>)
    requires
        cs.wf(),
        asg.wf(),
        g < cs.gates@.len(),
        row < asg.n_rows,
    ensures
        r@ == queries_of(cs.gates@[g as int].expr).map_values(
            |q: (Column, i64)| (q.0, q.1, query_value_spec(*asg, *inst, q, row as int)),
        ),
{
    let ghost f = |q: (Column, i64)| (q.0, q.1, query_value_spec(*asg, *inst, q, row as int));
    let mut qs: Vec<(Column, i64)> = Vec::new();
    collect_queries(&cs.gates[g].expr, &mut qs);
    let mut out: Vec<(Column, i64, Option<Fp>)> = Vec::new();
    let mut i: usize = 0;
    while i < qs.len()
        invariant
            asg.wf(),
            row < asg.n_rows,
            i <= qs@.len(),
            qs@ == queries_of(cs.gates@[g as int].expr),
            out@ == qs@.take(i as int).map_values(f),
            f == (|q: (Column, i64)| (q.0, q.1, query_value_spec(*asg, *inst, q, row as int))),
        decreases qs@.len() - i,
    {
        let q = qs[i];
        let e = Expr::Query { column: q.0, rotation: q.1 };
        let v = match eval(&e, asg, inst, row) {
            Ok(v) => Some(v),
            Err(_) => None,
        };
        out.push((q.0, q.1, v));
        proof {
            assert(qs@.take(i + 1).map_values(f) =~= qs@.take(i as int).map_values(f).push(
                f(qs@[i as int]),
            ));
            assert(out@ == qs@.take(i + 1).map_values(f));
        }
        i = i + 1;
    }
    proof {
        assert(qs@.take(qs@.len() as int) =~= qs@);
    }
    out
}

} // verus!
