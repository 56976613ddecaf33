use gatecheck::error::Error;
use gatecheck::field::Fp;
use gatecheck::fib::{FibChip, FibConfig};
use gatecheck::shape::ConstraintSystem;
use gatecheck::verify::{assert_satisfied, verify};
use gatecheck::witness::{Assignment, Layouter};

fn configure_chip() -> (ConstraintSystem, FibChip) {
    let mut cs = ConstraintSystem::new();
    let col_a = cs.advice_column();
    let col_b = cs.advice_column();
    let col_c = cs.advice_column();
    let instance = cs.instance_column();
    let config = FibChip::configure([col_a, col_b, col_c], instance, &mut cs);
    (cs, FibChip::construct(config))
}

/// Drives the chip exactly as the recurrence circuit's synthesis does:
/// one first row bound to the public inputs, then `n_rows - 1` recurrence
/// rows, each chaining the previous row's `(b, c)` into its own `(a, b)`.
/// Returns the finished grid and the final `c` value.
fn synthesize_fib(
    cs: &ConstraintSystem,
    chip: &FibChip,
    n_rows: usize,
    public: Vec<Fp>,
) -> (Assignment, u64) {
    let mut ly = Layouter::new(cs, n_rows, vec![public]);
    let (_, mut b, mut c) = chip.assign_first_row(&mut ly).unwrap();
    for _ in 1..n_rows {
        let new_c = chip.assign_row(&mut ly, &b, &c).unwrap();
        b = c;
        c = new_c;
    }
    let out = match c.value() {
        gatecheck::witness::Value::Known(v) => v.as_u64(),
        gatecheck::witness::Value::Unknown => panic!("the chain is fully concrete"),
    };
    (ly.finish(), out)
}

fn fib_instance() -> Vec<Fp> {
    vec![Fp::from_u64(1), Fp::from_u64(1)]
}

#[test]
fn two_terms_satisfy() {
    let (cs, chip) = configure_chip();
    let (asg, out) = synthesize_fib(&cs, &chip, 1, fib_instance());
    assert_eq!(out, 2);
    let inst = vec![fib_instance()];
    assert_eq!(verify(&cs, &asg, &inst), Ok(vec![]));
    assert_eq!(assert_satisfied(&cs, &asg, &inst), Ok(()));
}

#[test]
fn chain_of_rows_satisfies() {
    let (cs, chip) = configure_chip();
    // rows hold c = 2, 3, 5, 8, 13, 21, 34
    let (asg, out) = synthesize_fib(&cs, &chip, 7, fib_instance());
    assert_eq!(out, 34);
    let inst = vec![fib_instance()];
    assert_eq!(verify(&cs, &asg, &inst), Ok(vec![]));
    // the copy constraints of the chain are all present: two per row
    assert_eq!(asg.copies.len(), 14);
    assert_eq!(asg.regions.len(), 7);
    assert_eq!(asg.regions[0].name, "first row");
    assert_eq!(asg.regions[1].name, "next_row");
}

#[test]
fn tampered_chain_is_caught() {
    // breaking the chain between two rows: fresh cells instead of copies
    let (cs, chip) = configure_chip();
    let mut ly = Layouter::new(&cs, 2, vec![fib_instance()]);
    let (_a, b, c) = chip.assign_first_row(&mut ly).unwrap();
    // a forged source cell claims value 9 for the cell b sits in; the
    // recorded copy constraint then disagrees with the grid
    let forged = gatecheck::witness::AssignedCell {
        column: b.column,
        row: b.row,
        value: gatecheck::witness::Value::Known(Fp::from_u64(9)),
    };
    chip.assign_row(&mut ly, &forged, &c).unwrap();
    let asg = ly.finish();
    let inst = vec![fib_instance()];
    let vs = verify(&cs, &asg, &inst).unwrap();
    // row 1 satisfies its gate (9 + 2 - 11 == 0), but the copy constraint
    // of the forged cell disagrees with the true value 1 in the grid
    assert_eq!(vs.len(), 1);
    assert!(matches!(
        vs[0],
        gatecheck::error::Violation::EqualityConstraintNotSatisfied { index: 2, .. }
    ));
}

#[test]
fn verification_is_deterministic() {
    let (cs, chip) = configure_chip();
    let (asg, _) = synthesize_fib(&cs, &chip, 5, fib_instance());
    let inst = vec![fib_instance()];
    let first = verify(&cs, &asg, &inst);
    let second = verify(&cs, &asg, &inst);
    assert_eq!(first, second);
    // and synthesis itself reproduces the identical grid
    let (asg2, _) = synthesize_fib(&cs, &chip, 5, fib_instance());
    assert_eq!(asg, asg2);
}

#[test]
fn shape_reuse_leaves_shape_unchanged() {
    let (cs, chip) = configure_chip();
    let (cs_again, _) = configure_chip();
    assert_eq!(cs, cs_again);
    // two runs against different witnesses
    let (asg1, _) = synthesize_fib(&cs, &chip, 3, fib_instance());
    let other = vec![Fp::from_u64(2), Fp::from_u64(5)];
    let (asg2, _) = synthesize_fib(&cs, &chip, 3, other.clone());
    assert_eq!(verify(&cs, &asg1, &vec![fib_instance()]), Ok(vec![]));
    assert_eq!(verify(&cs, &asg2, &vec![other]), Ok(vec![]));
    // the shape is byte-identical to a freshly configured one
    assert_eq!(cs, cs_again);
}

#[test]
fn exposed_public_output_checked() {
    let (cs, chip) = configure_chip();
    let mut public = fib_instance();
    public.push(Fp::from_u64(5));
    let mut ly = Layouter::new(&cs, 3, vec![public.clone()]);
    let (_a, mut b, mut c) = chip.assign_first_row(&mut ly).unwrap();
    for _ in 1..3 {
        let new_c = chip.assign_row(&mut ly, &b, &c).unwrap();
        b = c;
        c = new_c;
    }
    chip.expose_public(&mut ly, &c, 2).unwrap();
    let asg = ly.finish();
    let inst = vec![public];
    // final c is 5, and instance[2] says 5: satisfied
    assert_eq!(verify(&cs, &asg, &inst), Ok(vec![]));

    // the same circuit against a wrong public output: exactly one
    // equality violation
    let mut wrong = fib_instance();
    wrong.push(Fp::from_u64(6));
    let mut ly2 = Layouter::new(&cs, 3, vec![wrong.clone()]);
    let (_a, mut b, mut c) = chip.assign_first_row(&mut ly2).unwrap();
    for _ in 1..3 {
        let new_c = chip.assign_row(&mut ly2, &b, &c).unwrap();
        b = c;
        c = new_c;
    }
    chip.expose_public(&mut ly2, &c, 2).unwrap();
    let asg2 = ly2.finish();
    let inst2 = vec![wrong];
    let vs = verify(&cs, &asg2, &inst2).unwrap();
    assert_eq!(vs.len(), 1);
    assert!(matches!(
        vs[0],
        gatecheck::error::Violation::EqualityConstraintNotSatisfied { .. }
    ));
}

#[test]
fn missing_public_input_fails_synthesis() {
    let (cs, chip) = configure_chip();
    // only one public value where the first row needs two
    let mut ly = Layouter::new(&cs, 2, vec![vec![Fp::from_u64(1)]]);
    match chip.assign_first_row(&mut ly) {
        Err(Error::InstanceOutOfRange { .. }) => {},
        other => panic!("expected a missing public input error, got {:?}", other),
    }
}

#[test]
fn run_recurrence_end_to_end() {
    // the verified driver: configure, synthesize, verify, return the last
    // term — proved to succeed for every grid size
    let one = Fp::from_u64(1);
    assert_eq!(gatecheck::fib::run_recurrence(1, one, one), Ok(Fp::from_u64(2)));
    assert_eq!(gatecheck::fib::run_recurrence(6, one, one), Ok(Fp::from_u64(21)));
    let seeded = gatecheck::fib::run_recurrence(3, Fp::from_u64(2), Fp::from_u64(5));
    // 2, 5, 7, 12, 19
    assert_eq!(seeded, Ok(Fp::from_u64(19)));
}

#[test]
fn configure_lays_out_expected_columns() {
    let (cs, chip) = configure_chip();
    let FibConfig { advice, selector, instance } = chip.config;
    assert_eq!(advice[0].index, 0);
    assert_eq!(advice[1].index, 1);
    assert_eq!(advice[2].index, 2);
    assert_eq!(selector.index, 0);
    assert_eq!(instance.index, 0);
    assert_eq!(cs.gates.len(), 1);
    assert_eq!(cs.gates[0].name, "add");
}
