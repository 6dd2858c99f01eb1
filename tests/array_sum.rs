use array_sum::array_sum::make_circuit;
use array_sum::array_sum::mock_prove;
use array_sum::array_sum::ArraySumCircuit;
use array_sum::field::Fe;
use array_sum::plonk::check;
use array_sum::plonk::Assignment;
use array_sum::plonk::Cell;
use array_sum::plonk::CheckError;
use array_sum::plonk::Column;
use array_sum::plonk::ColumnKind;
use array_sum::plonk::Value;
use array_sum::plonk::Violation;

fn fe(v: u64) -> Fe {
    Fe::from_u64(v)
}

fn advice(index: usize) -> Column {
    Column { kind: ColumnKind::Advice, index }
}

fn instance(index: usize) -> Column {
    Column { kind: ColumnKind::Instance, index }
}

fn known(v: &Value) -> Fe {
    match v {
        Value::Known(f) => *f,
        Value::Unknown => panic!("cell not known"),
    }
}

#[test]
fn test_01() {
    let k = 4;

    let xs = vec![1, 2, 3, 10];
    let out = 16;

    let (circuit, public_input) = make_circuit(&xs, out);

    let result = mock_prove(k, &circuit, &public_input);
    assert!(result.is_ok());
    println!("success!")
}

#[test]
fn wrong_output_is_an_equality_violation_at_public_row_three() {
    let (circuit, public_input) = make_circuit(&vec![1, 2, 3, 10], 15);
    match mock_prove(4, &circuit, &public_input) {
        Err(CheckError::Unsatisfied(vs)) => {
            assert_eq!(
                vs,
                vec![Violation::Equality {
                    a: Cell { column: advice(2), row: 3 },
                    b: Cell { column: instance(0), row: 3 },
                }]
            );
        }
        other => panic!("unexpected result {:?}", other),
    }
}

#[test]
fn single_element_array_is_accepted() {
    let (circuit, public_input) = make_circuit(&vec![5], 5);
    assert!(mock_prove(4, &circuit, &public_input).is_ok());
    let (_, _, asg) = match circuit.synthesize_grid(16) {
        Ok(t) => t,
        Err(e) => panic!("{:?}", e),
    };
    assert!(known(&asg.advice[0][0]).is_zero());
    assert!(known(&asg.advice[1][0]).equals(&fe(5)));
    assert!(known(&asg.advice[2][0]).equals(&fe(5)));
}

#[test]
fn sums_of_several_arrays_are_accepted_and_off_by_one_refused() {
    let cases: Vec<(Vec<u64>, u64)> = vec![
        (vec![0], 0),
        (vec![7, 0, 0], 7),
        (vec![100, 200, 300, 400, 500, 600, 700, 800, 900, 1000], 5500),
    ];
    for (xs, sum) in cases {
        let (circuit, public_input) = make_circuit(&xs, sum);
        assert!(mock_prove(4, &circuit, &public_input).is_ok());
        let (circuit, public_input) = make_circuit(&xs, sum + 1);
        assert!(mock_prove(4, &circuit, &public_input).is_err());
    }
}

#[test]
fn sum_beyond_u64_is_a_field_sum() {
    let xs = vec![u64::MAX, 1];
    let (circuit, mut public_input) = make_circuit(&xs, 0);
    let total = fe(u64::MAX).add(&fe(1));
    assert!(!total.is_zero());
    public_input[0][1] = total;
    assert!(mock_prove(4, &circuit, &public_input).is_ok());
}

#[test]
fn public_rows_other_than_the_last_are_free() {
    let (circuit, mut public_input) = make_circuit(&vec![1, 2, 3, 10], 16);
    public_input[0][0] = fe(99);
    public_input[0][2] = fe(12345);
    assert!(mock_prove(4, &circuit, &public_input).is_ok());
}

#[test]
fn changing_one_middle_cell_breaks_only_its_row() {
    let (circuit, public_input) = make_circuit(&vec![1, 2, 3, 10], 16);
    for col in 0..3 {
        let (cs, _, mut asg) = match circuit.synthesize_grid(16) {
            Ok(t) => t,
            Err(e) => panic!("{:?}", e),
        };
        let mut public = public_input.clone();
        public[0].resize(16, fe(0));
        assert!(check(&cs, &asg, &public).is_ok());
        asg.advice[col][2] = Value::Known(fe(1000));
        match check(&cs, &asg, &public) {
            Err(CheckError::Unsatisfied(vs)) => {
                let gate_rows: Vec<Violation> =
                    vs.into_iter().filter(|v| matches!(v, Violation::Gate { .. })).collect();
                assert_eq!(gate_rows, vec![Violation::Gate { gate: 0, row: 2 }]);
            }
            other => panic!("unexpected result {:?}", other),
        }
    }
}

#[test]
fn unknown_witness_lays_out_but_does_not_satisfy() {
    let (circuit, public_input) = make_circuit(&vec![1, 2, 3, 10], 16);
    let shape = circuit.without_witnesses();
    assert_eq!(shape.xs.len(), 4);
    assert!(shape.synthesize_grid(16).is_ok());
    match mock_prove(4, &shape, &public_input) {
        Err(CheckError::Unsatisfied(vs)) => {
            assert!(vs.contains(&Violation::Gate { gate: 0, row: 0 }));
        }
        other => panic!("unexpected result {:?}", other),
    }
}

#[test]
fn empty_or_oversized_arrays_fail_to_lay_out() {
    let empty = ArraySumCircuit { xs: Vec::new() };
    assert!(matches!(mock_prove(4, &empty, &vec![vec![fe(0); 16]]), Err(CheckError::Synthesis)));
    let (circuit, public_input) = make_circuit(&vec![1; 17], 17);
    assert!(matches!(mock_prove(4, &circuit, &public_input), Err(CheckError::Synthesis)));
    let (circuit, public_input) = make_circuit(&vec![1; 16], 16);
    assert!(mock_prove(4, &circuit, &public_input).is_ok());
}

#[test]
fn grid_too_large_or_public_misshapen_is_a_configuration_error() {
    let (circuit, public_input) = make_circuit(&vec![1, 2], 3);
    assert!(matches!(mock_prove(200, &circuit, &public_input), Err(CheckError::Configuration)));
    let mut long = public_input.clone();
    long[0].resize(17, fe(0));
    assert!(matches!(mock_prove(4, &circuit, &long), Err(CheckError::Configuration)));
    let mut short = public_input.clone();
    short[0].truncate(1);
    assert!(matches!(mock_prove(4, &circuit, &short), Err(CheckError::Unsatisfied(_))));
    let mut two = public_input.clone();
    two.push(vec![fe(0); 2]);
    assert!(matches!(mock_prove(4, &circuit, &two), Err(CheckError::Configuration)));
}

#[test]
fn empty_grid_assignment_rows_are_unknown() {
    let (circuit, _) = make_circuit(&vec![4, 4], 8);
    let (cs, _, _) = match circuit.synthesize_grid(4) {
        Ok(t) => t,
        Err(e) => panic!("{:?}", e),
    };
    let asg = Assignment::new(&cs, 4);
    assert_eq!(asg.advice.len(), 3);
    assert!(matches!(asg.advice[2][3], Value::Unknown));
    assert!(!asg.selectors[0][0]);
}

#[test]
fn rows_are_chained_by_equality_constraints() {
    let (circuit, _) = make_circuit(&vec![1, 2], 3);
    let (cs, _, mut asg) = match circuit.synthesize_grid(16) {
        Ok(t) => t,
        Err(e) => panic!("{:?}", e),
    };
    assert_eq!(
        asg.copies,
        vec![
            (Cell { column: advice(2), row: 0 }, Cell { column: advice(0), row: 1 }),
            (Cell { column: advice(2), row: 1 }, Cell { column: instance(0), row: 1 }),
        ]
    );
    asg.advice[0][1] = Value::Known(fe(5));
    asg.advice[2][1] = Value::Known(fe(7));
    let mut public = vec![vec![fe(0); 16]];
    public[0][1] = fe(7);
    match check(&cs, &asg, &public) {
        Err(CheckError::Unsatisfied(vs)) => assert_eq!(
            vs,
            vec![Violation::Equality {
                a: Cell { column: advice(2), row: 0 },
                b: Cell { column: advice(0), row: 1 },
            }]
        ),
        other => panic!("unexpected result {:?}", other),
    }
}

#[test]
fn configuration_is_the_same_on_every_fresh_system() {
    let mut first = array_sum::plonk::ConstraintSystem::new();
    let mut second = array_sum::plonk::ConstraintSystem::new();
    let a = ArraySumCircuit::configure(&mut first).unwrap();
    let b = ArraySumCircuit::configure(&mut second).unwrap();
    assert_eq!(a.advice, b.advice);
    assert_eq!(a.instance, b.instance);
    assert_eq!(first.equality, second.equality);
    assert_eq!(first.constants, second.constants);
    assert_eq!(first.gates.len(), 1);
    assert_eq!(first.gates[0].name, "add");
    assert_eq!(
        first.equality,
        vec![
            instance(0),
            Column { kind: ColumnKind::Fixed, index: 0 },
            advice(0),
            advice(1),
            advice(2),
        ]
    );
}
