//! Proved properties of the verifier's violation list.
//!
//! Each public proof function here states a law of the verification
//! procedure over the same spec functions that `verify`'s own contract
//! uses, so the laws carry over to every run of the verifier.

use vstd::prelude::*;
use crate::field::Fp;
use crate::shape::{CellId, ConstraintSystem};
use crate::witness::{Assignment, CopyConstraint};
use crate::error::Violation;
use crate::verify::{
    copy_violated, copy_viols_upto, gate_row_viols, gate_violation_at, gate_viols_upto,
    region_of, resolve_spec, sel_active, violations_spec,
};

verus! {

/// `v` reports gate `g` violated at row `r`.
pub open spec fn is_gate_viol_at(v: Violation, g: int, r: int) -> bool {
    &&& v matches Violation::ConstraintNotSatisfied { gate, row, .. }
    &&& gate == g
    &&& row == r
}

/// `v` is an equality violation referencing the unordered pair `{a, b}`.
pub open spec fn mentions_pair(v: Violation, a: CellId, b: CellId) -> bool {
    &&& v matches Violation::EqualityConstraintNotSatisfied { left, right, .. }
    &&& ((left == a && right == b) || (left == b && right == a))
}

/// `c` asserts equality of the unordered pair `{a, b}`.
pub open spec fn is_pair(c: CopyConstraint, a: CellId, b: CellId) -> bool {
    ||| (c.left == a && c.right == b)
    ||| (c.left == b && c.right == a)
}

/// How many violations of the list reference the pair `{a, b}`.
pub open spec fn count_pair_viols(vs: Seq<Violation>, a: CellId, b: CellId) -> nat
    decreases vs.len(),
{
    if vs.len() == 0 {
        0
    } else {
        count_pair_viols(vs.drop_last(), a, b) + (if mentions_pair(vs.last(), a, b) {
            1nat
        } else {
            0nat
        })
    }
}

/// How many copy constraints of the list assert the pair `{a, b}`.
pub open spec fn count_pair_copies(cs: Seq<CopyConstraint>, a: CellId, b: CellId) -> nat
    decreases cs.len(),
{
    if cs.len() == 0 {
        0
    } else {
        count_pair_copies(cs.drop_last(), a, b) + (if is_pair(cs.last(), a, b) {
            1nat
        } else {
            0nat
        })
    }
}

/// What holds of every element of one row's gate-violation list.
pub open spec fn gate_viol_shape_row(
    cs: ConstraintSystem,
    asg: Assignment,
    inst: Vec<Vec<Fp>>,
    v: Violation,
    r: int,
    gu: int,
) -> bool {
    &&& v matches Violation::ConstraintNotSatisfied { gate, row, .. }
    &&& row == r
    &&& gate < gu
    &&& gate_violation_at(cs, asg, inst, gate as int, r)
}

/// What holds of every element of the full gate-violation list.
pub open spec fn gate_viol_shape(
    cs: ConstraintSystem,
    asg: Assignment,
    inst: Vec<Vec<Fp>>,
    v: Violation,
    ru: int,
) -> bool {
    &&& v matches Violation::ConstraintNotSatisfied { gate, row, .. }
    &&& row < ru
    &&& gate < cs.gates@.len()
    &&& gate_violation_at(cs, asg, inst, gate as int, row as int)
}

/// What holds of every element of the copy-violation list.
pub open spec fn copy_viol_shape(
    asg: Assignment,
    inst: Vec<Vec<Fp>>,
    v: Violation,
    cu: int,
) -> bool {
    &&& v matches Violation::EqualityConstraintNotSatisfied { index, left, right }
    &&& index < cu
    &&& asg.copies@[index as int].left == left
    &&& asg.copies@[index as int].right == right
    &&& copy_violated(asg, inst, asg.copies@[index as int])
}

proof fn lemma_gate_row_viols_elems(
    cs: ConstraintSystem,
    asg: Assignment,
    inst: Vec<Vec<Fp>>,
    r: int,
    gu: int,
)
    requires
        0 <= r <= usize::MAX,
        gu <= usize::MAX,
    ensures
        forall|k: int|
            0 <= k < gate_row_viols(cs, asg, inst, r, gu).len() ==> gate_viol_shape_row(
                cs,
                asg,
                inst,
                #[trigger] gate_row_viols(cs, asg, inst, r, gu)[k],
                r,
                gu,
            ),
    decreases gu,
{
    if gu > 0 {
        lemma_gate_row_viols_elems(cs, asg, inst, r, gu - 1);
        let prev = gate_row_viols(cs, asg, inst, r, gu - 1);
        let cur = gate_row_viols(cs, asg, inst, r, gu);
        assert forall|k: int| 0 <= k < cur.len() implies gate_viol_shape_row(
            cs,
            asg,
            inst,
            cur[k],
            r,
            gu,
        ) by {
            if k < prev.len() {
                assert(cur[k] == prev[k]);
                assert(gate_viol_shape_row(cs, asg, inst, prev[k], r, gu - 1));
            } else {
                assert(gate_violation_at(cs, asg, inst, gu - 1, r));
                let viol = (Violation::ConstraintNotSatisfied {
                    gate: (gu - 1) as usize,
                    row: r as usize,
                    region: region_of(asg.regions@, r),
                });
                assert(cur == prev + seq![viol]);
                assert(k == prev.len());
                assert(cur[k] == seq![viol][0]);
                assert(cur[k] == viol);
            }
        }
    }
}

proof fn lemma_gate_viols_elems(
    cs: ConstraintSystem,
    asg: Assignment,
    inst: Vec<Vec<Fp>>,
    ru: int,
)
    requires
        ru <= usize::MAX,
    ensures
        forall|k: int|
            0 <= k < gate_viols_upto(cs, asg, inst, ru).len() ==> gate_viol_shape(
                cs,
                asg,
                inst,
                #[trigger] gate_viols_upto(cs, asg, inst, ru)[k],
                ru,
            ),
    decreases ru,
{
    if ru > 0 {
        assert(cs.gates.len() == cs.gates@.len());
        lemma_gate_viols_elems(cs, asg, inst, ru - 1);
        lemma_gate_row_viols_elems(cs, asg, inst, ru - 1, cs.gates@.len() as int);
        let prev = gate_viols_upto(cs, asg, inst, ru - 1);
        let row = gate_row_viols(cs, asg, inst, ru - 1, cs.gates@.len() as int);
        let cur = gate_viols_upto(cs, asg, inst, ru);
        assert forall|k: int| 0 <= k < cur.len() implies gate_viol_shape(
            cs,
            asg,
            inst,
            cur[k],
            ru,
        ) by {
            if k < prev.len() {
                assert(cur[k] == prev[k]);
                assert(gate_viol_shape(cs, asg, inst, prev[k], ru - 1));
            } else {
                assert(cur[k] == row[k - prev.len()]);
                assert(gate_viol_shape_row(
                    cs,
                    asg,
                    inst,
                    row[k - prev.len()],
                    ru - 1,
                    cs.gates@.len() as int,
                ));
            }
        }
    }
}

proof fn lemma_copy_viols_elems(asg: Assignment, inst: Vec<Vec<Fp>>, cu: int)
    requires
        cu <= usize::MAX,
    ensures
        forall|k: int|
            0 <= k < copy_viols_upto(asg, inst, cu).len() ==> copy_viol_shape(
                asg,
                inst,
                #[trigger] copy_viols_upto(asg, inst, cu)[k],
                cu,
            ),
    decreases cu,
{
    if cu > 0 {
        lemma_copy_viols_elems(asg, inst, cu - 1);
        let prev = copy_viols_upto(asg, inst, cu - 1);
        let cur = copy_viols_upto(asg, inst, cu);
        assert forall|k: int| 0 <= k < cur.len() implies copy_viol_shape(
            asg,
            inst,
            cur[k],
            cu,
        ) by {
            if k < prev.len() {
                assert(cur[k] == prev[k]);
                assert(copy_viol_shape(asg, inst, prev[k], cu - 1));
            } else {
                assert(copy_violated(asg, inst, asg.copies@[cu - 1]));
                let viol = (Violation::EqualityConstraintNotSatisfied {
                    index: (cu - 1) as usize,
                    left: asg.copies@[cu - 1].left,
                    right: asg.copies@[cu - 1].right,
                });
                assert(cur == prev + seq![viol]);
                assert(k == prev.len());
                assert(cur[k] == seq![viol][0]);
                assert(cur[k] == viol);
            }
        }
    }
}

proof fn lemma_no_gate_row_viols(
    cs: ConstraintSystem,
    asg: Assignment,
    inst: Vec<Vec<Fp>>,
    r: int,
    gu: int,
)
    requires
        forall|g: int| 0 <= g < gu ==> !gate_violation_at(cs, asg, inst, g, r),
    ensures
        gate_row_viols(cs, asg, inst, r, gu).len() == 0,
    decreases gu,
{
    if gu > 0 {
        lemma_no_gate_row_viols(cs, asg, inst, r, gu - 1);
    }
}

proof fn lemma_no_gate_viols(cs: ConstraintSystem, asg: Assignment, inst: Vec<Vec<Fp>>, ru: int)
    requires
        forall|g: int, r: int|
            0 <= g < cs.gates@.len() && 0 <= r < ru ==> !gate_violation_at(cs, asg, inst, g, r),
    ensures
        gate_viols_upto(cs, asg, inst, ru).len() == 0,
    decreases ru,
{
    if ru > 0 {
        lemma_no_gate_viols(cs, asg, inst, ru - 1);
        lemma_no_gate_row_viols(cs, asg, inst, ru - 1, cs.gates@.len() as int);
    }
}

proof fn lemma_no_copy_viols(asg: Assignment, inst: Vec<Vec<Fp>>, cu: int)
    requires
        forall|c: int| 0 <= c < cu ==> !copy_violated(asg, inst, asg.copies@[c]),
    ensures
        copy_viols_upto(asg, inst, cu).len() == 0,
    decreases cu,
{
    if cu > 0 {
        lemma_no_copy_viols(asg, inst, cu - 1);
    }
}

/// A grid where no gate is violated at any row and no copy constraint
/// compares unequal has the empty violation list.
pub proof fn lemma_no_violations(cs: ConstraintSystem, asg: Assignment, inst: Vec<Vec<Fp>>)
    requires
        forall|g: int, r: int|
            0 <= g < cs.gates@.len() && 0 <= r < asg.n_rows ==> !gate_violation_at(
                cs,
                asg,
                inst,
                g,
                r,
            ),
        forall|c: int|
            0 <= c < asg.copies@.len() ==> !copy_violated(asg, inst, asg.copies@[c]),
    ensures
        violations_spec(cs, asg, inst).len() == 0,
{
    lemma_no_gate_viols(cs, asg, inst, asg.n_rows as int);
    lemma_no_copy_viols(asg, inst, asg.copies@.len() as int);
}

/// Gate locality: where a gate's selector is inactive at a row, the
/// violation list reports nothing for that gate at that row, whatever the
/// cells of that row hold.
pub proof fn lemma_gate_locality(
    cs: ConstraintSystem,
    asg: Assignment,
    inst: Vec<Vec<Fp>>,
    g: int,
    r: int,
)
    requires
        !sel_active(cs, asg, g, r),
    ensures
        forall|k: int|
            0 <= k < violations_spec(cs, asg, inst).len() ==> !is_gate_viol_at(
                #[trigger] violations_spec(cs, asg, inst)[k],
                g,
                r,
            ),
{
    let gates = gate_viols_upto(cs, asg, inst, asg.n_rows as int);
    let copies = copy_viols_upto(asg, inst, asg.copies@.len() as int);
    assert(asg.copies.len() == asg.copies@.len());
    lemma_gate_viols_elems(cs, asg, inst, asg.n_rows as int);
    lemma_copy_viols_elems(asg, inst, asg.copies@.len() as int);
    assert forall|k: int|
        0 <= k < violations_spec(cs, asg, inst).len() implies !is_gate_viol_at(
        #[trigger] violations_spec(cs, asg, inst)[k],
        g,
        r,
    ) by {
        let v = violations_spec(cs, asg, inst)[k];
        if k < gates.len() {
            assert(v == gates[k]);
            assert(gate_viol_shape(cs, asg, inst, v, asg.n_rows as int));
            if is_gate_viol_at(v, g, r) {
                assert(gate_violation_at(cs, asg, inst, g, r));
                assert(false);
            }
        } else {
            assert(v == copies[k - gates.len()]);
            assert(copy_viol_shape(asg, inst, v, asg.copies@.len() as int));
        }
    }
}

/// One half of copy-constraint symmetry: when two cells resolve to the
/// same value, no equality violation referencing the pair `{a, b}` can
/// appear in the violation list.
pub proof fn lemma_copy_satisfied_not_reported(
    cs: ConstraintSystem,
    asg: Assignment,
    inst: Vec<Vec<Fp>>,
    a: CellId,
    b: CellId,
)
    requires
        resolve_spec(asg, inst, a) is Some,
        resolve_spec(asg, inst, a) == resolve_spec(asg, inst, b),
    ensures
        forall|k: int|
            0 <= k < violations_spec(cs, asg, inst).len() ==> !mentions_pair(
                #[trigger] violations_spec(cs, asg, inst)[k],
                a,
                b,
            ),
{
    let gates = gate_viols_upto(cs, asg, inst, asg.n_rows as int);
    let copies = copy_viols_upto(asg, inst, asg.copies@.len() as int);
    assert(asg.copies.len() == asg.copies@.len());
    lemma_gate_viols_elems(cs, asg, inst, asg.n_rows as int);
    lemma_copy_viols_elems(asg, inst, asg.copies@.len() as int);
    assert forall|k: int|
        0 <= k < violations_spec(cs, asg, inst).len() implies !mentions_pair(
        #[trigger] violations_spec(cs, asg, inst)[k],
        a,
        b,
    ) by {
        let v = violations_spec(cs, asg, inst)[k];
        if k < gates.len() {
            assert(v == gates[k]);
            assert(gate_viol_shape(cs, asg, inst, v, asg.n_rows as int));
        } else {
            assert(v == copies[k - gates.len()]);
            assert(copy_viol_shape(asg, inst, v, asg.copies@.len() as int));
            if mentions_pair(v, a, b) {
                assert(false);
            }
        }
    }
}

proof fn lemma_count_pair_viols_concat(s1: Seq<Violation>, s2: Seq<Violation>, a: CellId, b: CellId)
    ensures
        count_pair_viols(s1 + s2, a, b) == count_pair_viols(s1, a, b) + count_pair_viols(
            s2,
            a,
            b,
        ),
    decreases s2.len(),
{
    if s2.len() == 0 {
        assert(s1 + s2 =~= s1);
    } else {
        assert((s1 + s2).drop_last() =~= s1 + s2.drop_last());
        assert((s1 + s2).last() == s2.last());
        lemma_count_pair_viols_concat(s1, s2.drop_last(), a, b);
    }
}

proof fn lemma_count_zero_if_none_mention(s: Seq<Violation>, a: CellId, b: CellId)
    requires
        forall|k: int| 0 <= k < s.len() ==> !mentions_pair(#[trigger] s[k], a, b),
    ensures
        count_pair_viols(s, a, b) == 0,
    decreases s.len(),
{
    if s.len() > 0 {
        assert(forall|k: int|
            0 <= k < s.drop_last().len() ==> !mentions_pair(#[trigger] s.drop_last()[k], a, b));
        lemma_count_zero_if_none_mention(s.drop_last(), a, b);
        assert(!mentions_pair(s[s.len() - 1], a, b));
    }
}

proof fn lemma_copy_part_count(
    asg: Assignment,
    inst: Vec<Vec<Fp>>,
    cu: int,
    a: CellId,
    b: CellId,
    va: Fp,
    vb: Fp,
)
    requires
        0 <= cu <= asg.copies@.len(),
        resolve_spec(asg, inst, a) == Some(va),
        resolve_spec(asg, inst, b) == Some(vb),
        va != vb,
    ensures
        count_pair_viols(copy_viols_upto(asg, inst, cu), a, b) == count_pair_copies(
            asg.copies@.take(cu),
            a,
            b,
        ),
    decreases cu,
{
    if cu <= 0 {
        assert(asg.copies@.take(0) =~= Seq::<CopyConstraint>::empty());
    } else {
        lemma_copy_part_count(asg, inst, cu - 1, a, b, va, vb);
        let prev = copy_viols_upto(asg, inst, cu - 1);
        let cc = asg.copies@[cu - 1];
        let add = if copy_violated(asg, inst, cc) {
            seq![
                (Violation::EqualityConstraintNotSatisfied {
                    index: (cu - 1) as usize,
                    left: cc.left,
                    right: cc.right,
                }),
            ]
        } else {
            Seq::<Violation>::empty()
        };
        assert(copy_viols_upto(asg, inst, cu) == prev + add);
        lemma_count_pair_viols_concat(prev, add, a, b);
        assert(asg.copies@.take(cu).drop_last() =~= asg.copies@.take(cu - 1));
        assert(asg.copies@.take(cu).last() == cc);
        assert(count_pair_viols(Seq::<Violation>::empty(), a, b) == 0);
        if is_pair(cc, a, b) {
            assert(copy_violated(asg, inst, cc));
            assert(count_pair_viols(add, a, b) == 1) by {
                assert(count_pair_viols(Seq::<Violation>::empty(), a, b) == 0);
                assert(add.drop_last() =~= Seq::<Violation>::empty());
                assert(mentions_pair(add.last(), a, b));
            }
        } else {
            if copy_violated(asg, inst, cc) {
                assert(count_pair_viols(add, a, b) == 0) by {
                    assert(count_pair_viols(Seq::<Violation>::empty(), a, b) == 0);
                    assert(add.drop_last() =~= Seq::<Violation>::empty());
                    assert(!mentions_pair(add.last(), a, b));
                }
            }
        }
    }
}

/// The other half of copy-constraint symmetry: when the grid holds exactly
/// one copy constraint on the pair `{a, b}` and the two cells resolve to
/// different values — as after mutating one of the two cells of a
/// satisfied pair while leaving the other fixed — the violation list
/// reports exactly one equality violation referencing `{a, b}`.
pub proof fn lemma_copy_mutation_reported(
    cs: ConstraintSystem,
    asg: Assignment,
    inst: Vec<Vec<Fp>>,
    a: CellId,
    b: CellId,
    va: Fp,
    vb: Fp,
)
    requires
        resolve_spec(asg, inst, a) == Some(va),
        resolve_spec(asg, inst, b) == Some(vb),
        va != vb,
        count_pair_copies(asg.copies@, a, b) == 1,
    ensures
        count_pair_viols(violations_spec(cs, asg, inst), a, b) == 1,
{
    let gates = gate_viols_upto(cs, asg, inst, asg.n_rows as int);
    let copies = copy_viols_upto(asg, inst, asg.copies@.len() as int);
    assert(asg.copies.len() == asg.copies@.len());
    lemma_count_pair_viols_concat(gates, copies, a, b);
    lemma_gate_viols_elems(cs, asg, inst, asg.n_rows as int);
    assert forall|k: int| 0 <= k < gates.len() implies !mentions_pair(
        #[trigger] gates[k],
        a,
        b,
    ) by {
        assert(gate_viol_shape(cs, asg, inst, gates[k], asg.n_rows as int));
    }
    lemma_count_zero_if_none_mention(gates, a, b);
    lemma_copy_part_count(asg, inst, asg.copies@.len() as int, a, b, va, vb);
    assert(asg.copies@.take(asg.copies@.len() as int) =~= asg.copies@);
}

/// Determinism: the violation list is a function of the shape, the witness
/// grid and the public inputs alone — two runs of the verifier over the
/// same inputs report the same list, as `verify`'s contract equates every
/// run's output with `violations_spec`.
pub proof fn lemma_verification_deterministic(
    cs: ConstraintSystem,
    asg: Assignment,
    inst: Vec<Vec<Fp>>,
    vs1: Seq<Violation>,
    vs2: Seq<Violation>,
)
    requires
        vs1 == violations_spec(cs, asg, inst),
        vs2 == violations_spec(cs, asg, inst),
    ensures
        vs1 == vs2,
{
}

} // verus!
