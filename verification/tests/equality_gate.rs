use gatecheck::error::{Error, Violation};
use gatecheck::field::Fp;
use gatecheck::shape::{CellId, ConstraintSystem, Expr};
use gatecheck::verify::{assert_satisfied, gate_queried_cells, verify};
use gatecheck::witness::{Assignment, Layouter, Value};

/// Shape: one advice column, one instance column, and a gate asserting
/// `advice - 10 == 0` under one selector.
fn equality_shape() -> (ConstraintSystem, gatecheck::shape::Column, gatecheck::shape::Column, gatecheck::shape::Column) {
    let mut cs = ConstraintSystem::new();
    let advice = cs.advice_column();
    let instance = cs.instance_column();
    let sel = cs.selector();
    cs.enable_equality(advice).unwrap();
    cs.enable_equality(instance).unwrap();
    let expr = Expr::query(advice, 0).sub(Expr::constant(Fp::from_u64(10)));
    cs.create_gate(String::from("check ten"), sel, expr).unwrap();
    (cs, advice, instance, sel)
}

fn synthesize(cs: &ConstraintSystem, advice: gatecheck::shape::Column, instance: gatecheck::shape::Column, sel: gatecheck::shape::Column, public: Vec<Fp>) -> Assignment {
    let mut ly = Layouter::new(cs, 4, vec![public]);
    ly.begin_region(String::from("the row"));
    ly.enable_selector(sel, 0).unwrap();
    ly.assign_advice_from_instance(instance, 0, advice, 0).unwrap();
    ly.end_region();
    ly.finish()
}

#[test]
fn public_ten_satisfies() {
    let (cs, advice, instance, sel) = equality_shape();
    let public = vec![Fp::from_u64(10)];
    let asg = synthesize(&cs, advice, instance, sel, public.clone());
    let inst = vec![public];
    assert_eq!(verify(&cs, &asg, &inst), Ok(vec![]));
    assert_eq!(assert_satisfied(&cs, &asg, &inst), Ok(()));
}

#[test]
fn public_seven_breaks_the_gate() {
    let (cs, advice, instance, sel) = equality_shape();
    let public = vec![Fp::from_u64(7)];
    let asg = synthesize(&cs, advice, instance, sel, public.clone());
    let inst = vec![public];
    // exactly one violation, at row 0, for the one registered gate; the
    // copy constraint instance[0] == advice[0] still holds (7 == 7)
    let vs = verify(&cs, &asg, &inst).unwrap();
    assert_eq!(vs, vec![Violation::ConstraintNotSatisfied { gate: 0, row: 0, region: Some(0) }]);
    // the violated gate is the one named "check ten"
    assert_eq!(cs.gates[0].name, "check ten");
    // the region carries the name it was opened under
    assert_eq!(asg.regions[0].name, "the row");
    // the diagnostic detail shows the actual cell value 7
    let cells = gate_queried_cells(&cs, &asg, &inst, 0, 0);
    assert_eq!(cells.len(), 1);
    assert_eq!(cells[0], (advice, 0, Some(Fp::from_u64(7))));
    // assert_satisfied surfaces the same list
    match assert_satisfied(&cs, &asg, &inst) {
        Err(Error::Unsatisfied { violations }) => assert_eq!(violations, vs),
        other => panic!("expected the unsatisfied verdict, got {:?}", other),
    }
}

#[test]
fn selector_off_reports_nothing() {
    // gate locality: with the selector left off, the cell may hold
    // anything at all and no gate violation is reported
    let (cs, advice, instance, _sel) = equality_shape();
    let mut ly = Layouter::new(&cs, 4, vec![vec![]]);
    ly.begin_region(String::from("silent"));
    ly.assign_advice(advice, 0, Value::Known(Fp::from_u64(999))).unwrap();
    ly.end_region();
    let asg = ly.finish();
    let _ = instance;
    let inst = vec![vec![]];
    assert_eq!(verify(&cs, &asg, &inst), Ok(vec![]));
}

#[test]
fn copy_constraint_symmetry() {
    // a satisfied pair is never reported; mutating one side while the
    // other stays fixed yields exactly one equality violation for the pair
    let mut cs = ConstraintSystem::new();
    let advice = cs.advice_column();
    let instance = cs.instance_column();
    cs.enable_equality(advice).unwrap();
    cs.enable_equality(instance).unwrap();

    let run = |public: Vec<Fp>| -> (Assignment, Vec<Vec<Fp>>) {
        let mut ly = Layouter::new(&cs, 2, vec![public.clone()]);
        ly.begin_region(String::from("r"));
        let cell = ly.assign_advice(advice, 0, Value::Known(Fp::from_u64(7))).unwrap();
        ly.end_region();
        ly.constrain_instance(&cell, instance, 0).unwrap();
        (ly.finish(), vec![public])
    };

    let (asg, inst) = run(vec![Fp::from_u64(7)]);
    assert_eq!(verify(&cs, &asg, &inst), Ok(vec![]));

    let (asg2, inst2) = run(vec![Fp::from_u64(8)]);
    let vs = verify(&cs, &asg2, &inst2).unwrap();
    assert_eq!(
        vs,
        vec![Violation::EqualityConstraintNotSatisfied {
            index: 0,
            left: CellId { column: advice, row: 0 },
            right: CellId { column: instance, row: 0 },
        }]
    );
}

#[test]
fn unassigned_cell_under_active_selector_is_fatal() {
    let (cs, _advice, _instance, sel) = equality_shape();
    let mut ly = Layouter::new(&cs, 4, vec![vec![]]);
    ly.begin_region(String::from("empty"));
    ly.enable_selector(sel, 0).unwrap();
    ly.end_region();
    let asg = ly.finish();
    let inst = vec![vec![]];
    match verify(&cs, &asg, &inst) {
        Err(Error::CellNotAssigned { row: 0, .. }) => {},
        other => panic!("expected a fatal unassigned-cell error, got {:?}", other),
    }
}

#[test]
fn out_of_range_rotation_is_fatal() {
    // a gate that looks one row above the current one falls off the grid
    // at row 0
    let mut cs = ConstraintSystem::new();
    let advice = cs.advice_column();
    let sel = cs.selector();
    let expr = Expr::query(advice, -1);
    cs.create_gate(String::from("look up"), sel, expr).unwrap();
    let mut ly = Layouter::new(&cs, 4, vec![]);
    ly.begin_region(String::from("r"));
    ly.enable_selector(sel, 0).unwrap();
    ly.assign_advice(advice, 0, Value::Known(Fp::from_u64(1))).unwrap();
    ly.end_region();
    let asg = ly.finish();
    let inst: Vec<Vec<Fp>> = vec![];
    match verify(&cs, &asg, &inst) {
        Err(Error::RotationOutOfRange { rotation: -1, .. }) => {},
        other => panic!("expected a fatal rotation error, got {:?}", other),
    }
}

#[test]
fn unknown_value_is_fatal_under_active_selector() {
    // shape-only synthesis leaves cells unknown; verifying such a grid is
    // a witness-evaluation error, not a violation
    let (cs, advice, instance, sel) = equality_shape();
    let _ = instance;
    let mut ly = Layouter::new(&cs, 4, vec![vec![]]);
    ly.begin_region(String::from("shapeonly"));
    ly.enable_selector(sel, 0).unwrap();
    ly.assign_advice(advice, 0, Value::Unknown).unwrap();
    ly.end_region();
    let asg = ly.finish();
    let inst = vec![vec![]];
    assert!(verify(&cs, &asg, &inst).is_err());
}
