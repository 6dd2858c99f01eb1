use array_sum::field::Fe;
use array_sum::plonk::check;
use array_sum::plonk::eval_expr;
use array_sum::plonk::Assignment;
use array_sum::plonk::Cell;
use array_sum::plonk::CheckError;
use array_sum::plonk::ColumnKind;
use array_sum::plonk::ConstraintSystem;
use array_sum::plonk::Error;
use array_sum::plonk::Expr;
use array_sum::plonk::Value;
use array_sum::plonk::Violation;

fn fe(v: u64) -> Fe {
    Fe::from_u64(v)
}

fn known(v: u64) -> Value {
    Value::known(fe(v))
}

#[test]
fn equality_on_undeclared_column_is_a_configuration_error() {
    let mut cs = ConstraintSystem::new();
    let a = cs.advice_column();
    let missing = array_sum::plonk::Column { kind: ColumnKind::Advice, index: 5 };
    assert_eq!(cs.enable_equality(missing), Err(Error::Configuration));
    assert_eq!(cs.enable_constant(a), Err(Error::Configuration));
    assert_eq!(cs.enable_equality(a), Ok(()));
    let s = cs.selector();
    let bad = array_sum::plonk::Selector { index: s.index + 1 };
    assert_eq!(cs.create_gate("g".to_string(), bad, Expr::advice(a, 0)), Err(Error::Configuration));
    assert_eq!(cs.create_gate("g".to_string(), s, Expr::advice(a, 0)), Ok(0));
}

#[test]
fn copy_needs_equality_enabled_columns() {
    let mut cs = ConstraintSystem::new();
    let a = cs.advice_column();
    let b = cs.advice_column();
    cs.enable_equality(a).unwrap();
    let mut asg = Assignment::new(&cs, 4);
    let ca = Cell { column: a, row: 0 };
    let cb = Cell { column: b, row: 1 };
    assert_eq!(asg.constrain_equal(&cs, ca, cb), Err(Error::Configuration));
    cs.enable_equality(b).unwrap();
    assert_eq!(asg.constrain_equal(&cs, ca, Cell { column: b, row: 4 }), Err(Error::Configuration));
    assert_eq!(asg.constrain_equal(&cs, ca, cb), Ok(()));
    assert_eq!(asg.constrain_instance(&cs, ca, b, 0), Err(Error::Configuration));
}

#[test]
fn writes_outside_a_region_are_synthesis_errors() {
    let mut cs = ConstraintSystem::new();
    let a = cs.advice_column();
    let f = cs.fixed_column();
    let s = cs.selector();
    let mut asg = Assignment::new(&cs, 4);
    let region = asg.assign_region("r".to_string(), 2).unwrap();
    assert_eq!(region.start, 0);
    assert_eq!(asg.assign_advice(&region, a, 2, known(1)), Err(Error::Synthesis));
    assert_eq!(asg.assign_advice(&region, f, 0, known(1)), Err(Error::Configuration));
    assert_eq!(asg.enable_selector(&region, s, 2), Err(Error::Synthesis));
    assert_eq!(asg.assign_fixed(&region, f, 1, fe(3)), Ok(Cell { column: f, row: 1 }));
    let next = asg.assign_region("s".to_string(), 2).unwrap();
    assert_eq!(next.start, 2);
    assert_eq!(asg.assign_advice(&next, a, 1, known(1)), Ok(Cell { column: a, row: 3 }));
    assert!(asg.assign_region("t".to_string(), 1).is_err());
}

#[test]
fn rotation_off_the_grid_reads_zero() {
    let mut cs = ConstraintSystem::new();
    let a = cs.advice_column();
    let mut asg = Assignment::new(&cs, 3);
    let region = asg.assign_region("r".to_string(), 3).unwrap();
    for row in 0..3 {
        asg.assign_advice(&region, a, row, known(10 + row as u64)).unwrap();
    }
    let next = Expr::advice(a, 1);
    assert!(eval_expr(&next, &asg, 1).unwrap().equals(&fe(12)));
    assert!(eval_expr(&next, &asg, 2).unwrap().is_zero());
    let prev = Expr::advice(a, -1);
    assert!(eval_expr(&prev, &asg, 0).unwrap().is_zero());
    let unknown_fixed = Expr::fixed(array_sum::plonk::Column { kind: ColumnKind::Fixed, index: 0 }, 0);
    assert!(eval_expr(&unknown_fixed, &asg, 0).is_none());
}

#[test]
fn product_gate_reports_each_failing_row() {
    let mut cs = ConstraintSystem::new();
    let a = cs.advice_column();
    let b = cs.advice_column();
    let c = cs.advice_column();
    let s = cs.selector();
    let poly = Expr::advice(a, 0).times(Expr::advice(b, 0)).minus(Expr::advice(c, 0));
    cs.create_gate("mul".to_string(), s, poly).unwrap();
    let mut asg = Assignment::new(&cs, 4);
    let region = asg.assign_region("r".to_string(), 3).unwrap();
    let rows = [(2, 3, 6), (4, 5, 21), (7, 7, 49)];
    for (i, (x, y, z)) in rows.iter().enumerate() {
        asg.enable_selector(&region, s, i).unwrap();
        asg.assign_advice(&region, a, i, known(*x)).unwrap();
        asg.assign_advice(&region, b, i, known(*y)).unwrap();
        asg.assign_advice(&region, c, i, known(*z)).unwrap();
    }
    match check(&cs, &asg, &Vec::new()) {
        Err(CheckError::Unsatisfied(vs)) => assert_eq!(vs, vec![Violation::Gate { gate: 0, row: 1 }]),
        other => panic!("unexpected result {:?}", other),
    }
    asg.assign_advice(&region, c, 1, known(20)).unwrap();
    assert!(check(&cs, &asg, &Vec::new()).is_ok());
}

#[test]
fn negated_constant_gate() {
    let mut cs = ConstraintSystem::new();
    let a = cs.advice_column();
    let s = cs.selector();
    let poly = Expr::advice(a, 0).plus(Expr::constant(fe(3)).negate());
    cs.create_gate("is three".to_string(), s, poly).unwrap();
    let mut asg = Assignment::new(&cs, 2);
    let region = asg.assign_region("r".to_string(), 2).unwrap();
    asg.enable_selector(&region, s, 0).unwrap();
    asg.enable_selector(&region, s, 0).unwrap();
    asg.assign_advice(&region, a, 0, known(3)).unwrap();
    assert!(check(&cs, &asg, &Vec::new()).is_ok());
    asg.enable_selector(&region, s, 1).unwrap();
    match check(&cs, &asg, &Vec::new()) {
        Err(CheckError::Unsatisfied(vs)) => assert_eq!(vs, vec![Violation::Gate { gate: 0, row: 1 }]),
        other => panic!("unexpected result {:?}", other),
    }
}

#[test]
fn public_inputs_of_the_wrong_shape_are_refused() {
    let mut cs = ConstraintSystem::new();
    let a = cs.advice_column();
    let i = cs.instance_column();
    cs.enable_equality(a).unwrap();
    cs.enable_equality(i).unwrap();
    let mut asg = Assignment::new(&cs, 2);
    let region = asg.assign_region("r".to_string(), 1).unwrap();
    let cell = asg.assign_advice(&region, a, 0, known(8)).unwrap();
    asg.constrain_instance(&cs, cell, i, 1).unwrap();
    assert!(matches!(check(&cs, &asg, &vec![vec![fe(8)]]), Err(CheckError::Configuration)));
    assert!(matches!(check(&cs, &asg, &Vec::new()), Err(CheckError::Configuration)));
    assert!(check(&cs, &asg, &vec![vec![fe(0), fe(8)]]).is_ok());
    match check(&cs, &asg, &vec![vec![fe(8), fe(0)]]) {
        Err(CheckError::Unsatisfied(vs)) => assert_eq!(
            vs,
            vec![Violation::Equality { a: cell, b: Cell { column: i, row: 1 } }]
        ),
        other => panic!("unexpected result {:?}", other),
    }
}
