use gatecheck::error::Error;
use gatecheck::field::{Fp, MODULUS};
use gatecheck::shape::{Column, ColumnKind, ConstraintSystem, Expr};
use gatecheck::witness::{Layouter, Value};

fn one_advice_shape() -> (ConstraintSystem, Column, Column) {
    let mut cs = ConstraintSystem::new();
    let a = cs.advice_column();
    let sel = cs.selector();
    cs.enable_equality(a).unwrap();
    (cs, a, sel)
}

#[test]
fn field_from_u64_reduces() {
    assert_eq!(Fp::from_u64(0).as_u64(), 0);
    assert_eq!(Fp::from_u64(MODULUS).as_u64(), 0);
    assert_eq!(Fp::from_u64(MODULUS - 1).as_u64(), MODULUS - 1);
    assert!(Fp::from_u64(7).as_u64() == 7);
}

#[test]
fn field_arithmetic_exact() {
    let a = Fp::from_u64(3);
    let b = Fp::from_u64(5);
    assert_eq!(a.add(b).as_u64(), 8);
    assert_eq!(b.sub(a).as_u64(), 2);
    assert_eq!(a.mul(b).as_u64(), 15);
    // subtraction wraps around the modulus
    assert_eq!(a.sub(b).as_u64(), MODULUS - 2);
    // addition wraps around the modulus
    assert_eq!(Fp::from_u64(MODULUS - 1).add(Fp::from_u64(1)).as_u64(), 0);
    assert_eq!(Fp::zero().as_u64(), 0);
    assert_eq!(Fp::one().as_u64(), 1);
    assert!(Fp::zero().is_zero());
    assert!(!Fp::one().is_zero());
}

#[test]
fn column_allocation_indices() {
    let mut cs = ConstraintSystem::new();
    let a0 = cs.advice_column();
    let a1 = cs.advice_column();
    let i0 = cs.instance_column();
    let s0 = cs.selector();
    assert_eq!(a0, Column { kind: ColumnKind::Advice, index: 0 });
    assert_eq!(a1, Column { kind: ColumnKind::Advice, index: 1 });
    assert_eq!(i0, Column { kind: ColumnKind::Instance, index: 0 });
    assert_eq!(s0, Column { kind: ColumnKind::Selector, index: 0 });
}

#[test]
fn enable_equality_rejects_selector() {
    let mut cs = ConstraintSystem::new();
    let s = cs.selector();
    assert_eq!(cs.enable_equality(s), Err(Error::InvalidColumn { column: s }));
    let ghostly = Column { kind: ColumnKind::Advice, index: 3 };
    assert_eq!(cs.enable_equality(ghostly), Err(Error::InvalidColumn { column: ghostly }));
}

#[test]
fn create_gate_rejects_bad_columns() {
    let mut cs = ConstraintSystem::new();
    let a = cs.advice_column();
    let s = cs.selector();
    // the selector slot must hold a selector column
    assert!(cs.create_gate(String::from("g"), a, Expr::query(a, 0)).is_err());
    // the expression may not query a selector column
    assert!(cs.create_gate(String::from("g"), s, Expr::query(s, 0)).is_err());
    // a well-formed gate is accepted
    assert!(cs.create_gate(String::from("g"), s, Expr::query(a, 0)).is_ok());
}

#[test]
fn overlapping_assignment_rejected() {
    let (cs, a, _sel) = one_advice_shape();
    let mut ly = Layouter::new(&cs, 4, vec![]);
    ly.begin_region(String::from("r"));
    ly.assign_advice(a, 0, Value::Known(Fp::from_u64(9))).unwrap();
    // the same cell again, with the same value: still an overlap, and it
    // fails during synthesis, before any verification
    let again = ly.assign_advice(a, 0, Value::Known(Fp::from_u64(9)));
    assert_eq!(again, Err(Error::OverlappingAssignment { column: a, row: 0 }));
    // a different offset is fine
    assert!(ly.assign_advice(a, 1, Value::Known(Fp::from_u64(9))).is_ok());
}

#[test]
fn overlap_across_regions_rejected() {
    let (cs, a, _sel) = one_advice_shape();
    let mut ly = Layouter::new(&cs, 4, vec![]);
    ly.begin_region(String::from("r0"));
    ly.assign_advice(a, 1, Value::Known(Fp::from_u64(1))).unwrap();
    ly.end_region();
    // the next region starts past every row the first one used
    ly.begin_region(String::from("r1"));
    let cell = ly.assign_advice(a, 0, Value::Known(Fp::from_u64(2))).unwrap();
    assert_eq!(cell.row, 2);
    ly.end_region();
}

#[test]
fn not_enough_rows_rejected() {
    let (cs, a, _sel) = one_advice_shape();
    let mut ly = Layouter::new(&cs, 1, vec![]);
    ly.begin_region(String::from("r"));
    assert_eq!(
        ly.assign_advice(a, 1, Value::Unknown),
        Err(Error::NotEnoughRows { offset: 1 })
    );
}

#[test]
fn copy_advice_needs_equality() {
    let mut cs = ConstraintSystem::new();
    let a = cs.advice_column();
    let b = cs.advice_column();
    cs.enable_equality(a).unwrap();
    // b is not equality-enabled
    let mut ly = Layouter::new(&cs, 4, vec![]);
    ly.begin_region(String::from("r"));
    let src = ly.assign_advice(a, 0, Value::Known(Fp::from_u64(4))).unwrap();
    assert_eq!(ly.copy_advice(&src, b, 1), Err(Error::EqualityNotEnabled { column: b }));
}

#[test]
fn instance_out_of_range_rejected() {
    let mut cs = ConstraintSystem::new();
    let a = cs.advice_column();
    let i = cs.instance_column();
    cs.enable_equality(a).unwrap();
    cs.enable_equality(i).unwrap();
    let mut ly = Layouter::new(&cs, 4, vec![vec![Fp::from_u64(1)]]);
    ly.begin_region(String::from("r"));
    assert_eq!(
        ly.assign_advice_from_instance(i, 5, a, 0),
        Err(Error::InstanceOutOfRange { column: i, row: 5 })
    );
    // index 0 is supplied, so it lands
    let cell = ly.assign_advice_from_instance(i, 0, a, 0).unwrap();
    assert_eq!(cell.value, Value::Known(Fp::from_u64(1)));
}

#[test]
fn product_gate_evaluates() {
    // gate: advice * advice - 49 == 0
    let mut cs = ConstraintSystem::new();
    let a = cs.advice_column();
    let sel = cs.selector();
    let expr = Expr::query(a, 0).mul(Expr::query(a, 0)).sub(Expr::constant(Fp::from_u64(49)));
    cs.create_gate(String::from("square"), sel, expr).unwrap();

    let run = |v: u64| {
        let mut ly = Layouter::new(&cs, 2, vec![]);
        ly.begin_region(String::from("r"));
        ly.enable_selector(sel, 0).unwrap();
        ly.assign_advice(a, 0, Value::Known(Fp::from_u64(v))).unwrap();
        ly.end_region();
        let asg = ly.finish();
        gatecheck::verify::verify(&cs, &asg, &vec![]).unwrap()
    };
    assert_eq!(run(7), vec![]);
    let vs = run(6);
    assert_eq!(vs.len(), 1);
    assert!(matches!(
        vs[0],
        gatecheck::error::Violation::ConstraintNotSatisfied { gate: 0, row: 0, .. }
    ));
}

#[test]
fn value_arithmetic_propagates_unknown() {
    let k = Value::Known(Fp::from_u64(2));
    assert_eq!(k.add(k), Value::Known(Fp::from_u64(4)));
    assert_eq!(k.sub(k), Value::Known(Fp::from_u64(0)));
    assert_eq!(k.mul(k), Value::Known(Fp::from_u64(4)));
    assert_eq!(k.add(Value::Unknown), Value::Unknown);
    assert_eq!(Value::Unknown.mul(k), Value::Unknown);
}
