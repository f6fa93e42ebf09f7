use rand::rngs::StdRng;
use rand::SeedableRng;
use simgen::compound::{draw_labels, settle, CompoundPredicate, MAX_FAN_OUT};
use simgen::error::GenError;
use simgen::predicate::{Connective, Predicate};
use simgen::simple::{candidate, SimplePredicate};
use simgen::predicate::Comparison;
use simgen::table::{Column, Table};
use simgen::value::{ColumnType, Value};

fn numbers(rows: Vec<i64>) -> Table {
    Table {
        name: "t".to_string(),
        columns: vec![Column { name: "x".to_string(), column_type: ColumnType::Integer }],
        rows: rows.into_iter().map(|x| vec![Value::Integer(x)]).collect(),
    }
}

fn mixed() -> Table {
    Table {
        name: "mixed".to_string(),
        columns: vec![
            Column { name: "id".to_string(), column_type: ColumnType::Integer },
            Column { name: "label".to_string(), column_type: ColumnType::Text },
            Column { name: "data".to_string(), column_type: ColumnType::Blob },
        ],
        rows: vec![
            vec![Value::Integer(5), Value::Text("pear".to_string()), Value::Blob(vec![7])],
            vec![Value::Integer(-2), Value::Null, Value::Blob(vec![7, 7])],
            vec![Value::Null, Value::Text("fig".to_string()), Value::Blob(vec![3])],
        ],
    }
}

fn leaf_parts(p: &Predicate) -> (&'static str, &String, &Value) {
    match p {
        Predicate::Eq(name, value) => ("eq", name, value),
        Predicate::Neq(name, value) => ("neq", name, value),
        Predicate::Gt(name, value) => ("gt", name, value),
        Predicate::Lt(name, value) => ("lt", name, value),
        other => panic!("not a comparison: {:?}", other),
    }
}

#[test]
fn a_simple_predicate_is_reproduced_by_its_seed() {
    let table = numbers(vec![1, 2, 3]);
    for seed in 0..200 {
        let first = SimplePredicate::arbitrary_from(&mut StdRng::seed_from_u64(seed), &table, true);
        let second = SimplePredicate::arbitrary_from(&mut StdRng::seed_from_u64(seed), &table, true);
        assert!(first.is_ok());
        assert_eq!(first, second);
    }
}

#[test]
fn true_simple_predicates_show_all_three_operators() {
    let table = numbers(vec![1, 2, 3]);
    let mut eq = 0;
    let mut gt = 0;
    let mut lt = 0;
    for seed in 0..1_000 {
        let mut rng = StdRng::seed_from_u64(seed);
        let p = SimplePredicate::arbitrary_from(&mut rng, &table, true).unwrap().0;
        let (kind, name, value) = leaf_parts(&p);
        assert_eq!(name, "x");
        match kind {
            "eq" => {
                eq += 1;
                assert!(table.rows.iter().any(|row| &row[0] == value));
            }
            "gt" => {
                gt += 1;
                assert!(table.rows.iter().all(|row| row[0].less_than(value)));
            }
            "lt" => {
                lt += 1;
                assert!(table.rows.iter().all(|row| value.less_than(&row[0])));
            }
            other => panic!("unexpected operator {}", other),
        }
    }
    assert!(eq > 0);
    assert!(gt > 0);
    assert!(lt > 0);
}

#[test]
fn false_simple_predicates_show_all_three_operators() {
    let table = numbers(vec![1, 2, 3]);
    let mut neq = 0;
    let mut gt = 0;
    let mut lt = 0;
    for seed in 0..1_000 {
        let mut rng = StdRng::seed_from_u64(seed);
        let p = SimplePredicate::arbitrary_from(&mut rng, &table, false).unwrap().0;
        let (kind, name, value) = leaf_parts(&p);
        assert_eq!(name, "x");
        assert!(value.has_type(ColumnType::Integer));
        match kind {
            "neq" => neq += 1,
            "gt" => {
                gt += 1;
                assert!(table.rows.iter().all(|row| value.less_than(&row[0])));
            }
            "lt" => {
                lt += 1;
                assert!(table.rows.iter().all(|row| row[0].less_than(value)));
            }
            other => panic!("unexpected operator {}", other),
        }
    }
    assert!(neq > 0);
    assert!(gt > 0);
    assert!(lt > 0);
}

#[test]
fn simple_predicates_name_a_column_of_the_table() {
    let table = mixed();
    let mut seen = [false; 3];
    for seed in 0..600 {
        let mut rng = StdRng::seed_from_u64(seed);
        let outcome = seed % 2 == 0;
        let p = SimplePredicate::arbitrary_from(&mut rng, &table, outcome).unwrap().0;
        let (_, name, _) = leaf_parts(&p);
        let position = table.columns.iter().position(|c| &c.name == name);
        assert!(position.is_some(), "unknown column {}", name);
        seen[position.unwrap()] = true;
    }
    assert_eq!(seen, [true; 3]);
}

#[test]
fn simple_predicates_stay_within_the_type_of_a_full_column() {
    let table = numbers(vec![i64::MAX, 0]);
    for seed in 0..300 {
        let mut rng = StdRng::seed_from_u64(seed);
        let p = SimplePredicate::arbitrary_from(&mut rng, &table, true).unwrap().0;
        assert!(!matches!(p, Predicate::Gt(_, _)));
        let q = SimplePredicate::arbitrary_from(&mut rng, &table, false).unwrap().0;
        assert!(!matches!(q, Predicate::Lt(_, _)));
    }
    let both = numbers(vec![i64::MAX, i64::MIN]);
    for seed in 0..100 {
        let mut rng = StdRng::seed_from_u64(seed);
        let p = SimplePredicate::arbitrary_from(&mut rng, &both, true).unwrap().0;
        assert!(matches!(p, Predicate::Eq(_, _)));
        let q = SimplePredicate::arbitrary_from(&mut rng, &both, false).unwrap().0;
        assert!(matches!(q, Predicate::Neq(_, _)));
    }
}

#[test]
fn simple_predicates_on_a_table_without_rows_compare_with_null_or_a_typed_value() {
    let table = numbers(vec![]);
    for seed in 0..200 {
        let mut rng = StdRng::seed_from_u64(seed);
        let p = SimplePredicate::arbitrary_from(&mut rng, &table, true).unwrap().0;
        let (kind, name, value) = leaf_parts(&p);
        assert_eq!(name, "x");
        if kind == "eq" {
            assert_eq!(value, &Value::Null);
        } else {
            assert!(value.has_type(ColumnType::Integer));
        }
    }
}

#[test]
fn simple_predicates_reject_a_malformed_table() {
    let mut rng = StdRng::seed_from_u64(1);
    let bare = Table { name: "bare".to_string(), columns: vec![], rows: vec![] };
    assert_eq!(
        SimplePredicate::arbitrary_from(&mut rng, &bare, true),
        Err(GenError::MalformedInput)
    );
    let mut ragged = numbers(vec![1, 2]);
    ragged.rows.push(vec![]);
    assert_eq!(
        SimplePredicate::arbitrary_from(&mut rng, &ragged, false),
        Err(GenError::MalformedInput)
    );
}

#[test]
fn on_column_compares_the_column_asked_for() {
    let table = mixed();
    for seed in 0..100 {
        let mut rng = StdRng::seed_from_u64(seed);
        let p = SimplePredicate::on_column(&mut rng, &table, 1, true);
        let (_, name, _) = leaf_parts(&p);
        assert_eq!(name, "label");
    }
}

#[test]
fn candidate_names_the_operator_at_each_position() {
    assert_eq!(candidate(true, 0), Comparison::Eq);
    assert_eq!(candidate(false, 0), Comparison::Neq);
    assert_eq!(candidate(true, 1), Comparison::Gt);
    assert_eq!(candidate(false, 1), Comparison::Gt);
    assert_eq!(candidate(true, 2), Comparison::Lt);
    assert_eq!(candidate(false, 2), Comparison::Lt);
}

#[test]
fn predicates_about_a_value_show_all_three_operators() {
    let reference = Value::Integer(10);
    let mut eq = 0;
    let mut gt = 0;
    let mut lt = 0;
    for seed in 0..300 {
        let mut rng = StdRng::seed_from_u64(seed);
        let p = Predicate::arbitrary_from_value(&mut rng, "x", &reference);
        let (kind, name, value) = leaf_parts(&p);
        assert_eq!(name, "x");
        match kind {
            "eq" => {
                eq += 1;
                assert_eq!(value, &reference);
            }
            "gt" => {
                gt += 1;
                assert!(reference.less_than(value));
            }
            "lt" => {
                lt += 1;
                assert!(value.less_than(&reference));
            }
            other => panic!("unexpected operator {}", other),
        }
    }
    assert!(eq > 0 && gt > 0 && lt > 0);
    for seed in 0..100 {
        let mut rng = StdRng::seed_from_u64(seed);
        let p = Predicate::arbitrary_from_value(&mut rng, "x", &Value::Null);
        assert_eq!(p, Predicate::Eq("x".to_string(), Value::Null));
        let q = Predicate::arbitrary_from_value(&mut rng, "x", &Value::Integer(i64::MAX));
        assert!(!matches!(q, Predicate::Gt(_, _)));
    }
}

#[test]
fn settle_forces_the_wanted_outcome_only_where_it_is_missing() {
    let mut labels = vec![true, true];
    settle(&mut labels, false, 1);
    assert_eq!(labels, vec![true, false]);
    let mut labels = vec![true, false, true];
    settle(&mut labels, false, 0);
    assert_eq!(labels, vec![true, false, true]);
    let mut labels = vec![false, false, false];
    settle(&mut labels, true, 0);
    assert_eq!(labels, vec![true, false, false]);
    let mut labels = vec![false];
    settle(&mut labels, false, 0);
    assert_eq!(labels, vec![false]);
}

#[test]
fn drawn_labels_give_the_connective_its_outcome() {
    let mut lengths = [false; 4];
    for seed in 0..400 {
        let mut rng = StdRng::seed_from_u64(seed);
        let all_true = draw_labels(&mut rng, Connective::And, true);
        assert!(all_true.len() <= MAX_FAN_OUT);
        assert!(all_true.iter().all(|b| *b));
        lengths[all_true.len()] = true;
        let all_false = draw_labels(&mut rng, Connective::Or, false);
        assert!(all_false.len() <= MAX_FAN_OUT);
        assert!(all_false.iter().all(|b| !*b));
        let some_false = draw_labels(&mut rng, Connective::And, false);
        assert!(1 <= some_false.len() && some_false.len() <= MAX_FAN_OUT);
        assert!(some_false.iter().any(|b| !*b));
        let some_true = draw_labels(&mut rng, Connective::Or, true);
        assert!(1 <= some_true.len() && some_true.len() <= MAX_FAN_OUT);
        assert!(some_true.iter().any(|b| *b));
    }
    assert_eq!(lengths, [true; 4]);
}

fn children_of(p: &Predicate) -> (bool, &Vec<Predicate>) {
    match p {
        Predicate::And(children) => (true, children),
        Predicate::Or(children) => (false, children),
        other => panic!("not a compound predicate: {:?}", other),
    }
}

fn is_true_candidate(p: &Predicate, table: &Table) -> bool {
    let (kind, name, value) = leaf_parts(p);
    let index = table.columns.iter().position(|c| &c.name == name).unwrap();
    let column_type = table.columns[index].column_type;
    let typed: Vec<&Value> =
        table.rows.iter().map(|r| &r[index]).filter(|v| v.has_type(column_type)).collect();
    match kind {
        "eq" => table.rows.iter().any(|r| &r[index] == value),
        "gt" => value.has_type(column_type) && typed.iter().all(|v| v.less_than(value)),
        "lt" => value.has_type(column_type) && typed.iter().all(|v| value.less_than(v)),
        _ => false,
    }
}

fn is_false_candidate(p: &Predicate, table: &Table) -> bool {
    let (kind, name, value) = leaf_parts(p);
    let index = table.columns.iter().position(|c| &c.name == name).unwrap();
    let column_type = table.columns[index].column_type;
    let typed: Vec<&Value> =
        table.rows.iter().map(|r| &r[index]).filter(|v| v.has_type(column_type)).collect();
    match kind {
        "neq" => value.has_type(column_type),
        "gt" => value.has_type(column_type) && typed.iter().all(|v| value.less_than(v)),
        "lt" => value.has_type(column_type) && typed.iter().all(|v| v.less_than(value)),
        _ => false,
    }
}

#[test]
fn compound_predicates_give_their_children_fitting_outcomes() {
    let table = mixed();
    let mut conjunctions = 0;
    let mut disjunctions = 0;
    for seed in 0..600 {
        let mut rng = StdRng::seed_from_u64(seed);
        let outcome = seed % 2 == 0;
        let p = CompoundPredicate::arbitrary_from(&mut rng, &table, outcome).unwrap().0;
        let (conjunction, children) = children_of(&p);
        assert!(children.len() <= MAX_FAN_OUT);
        if conjunction {
            conjunctions += 1;
        } else {
            disjunctions += 1;
        }
        if conjunction == outcome {
            for child in children {
                if outcome {
                    assert!(is_true_candidate(child, &table), "{:?}", child);
                } else {
                    assert!(is_false_candidate(child, &table), "{:?}", child);
                }
            }
        } else {
            assert!(!children.is_empty());
            for child in children {
                assert!(is_true_candidate(child, &table) || is_false_candidate(child, &table));
            }
            if outcome {
                assert!(children.iter().any(|c| is_true_candidate(c, &table)));
            } else {
                assert!(children.iter().any(|c| is_false_candidate(c, &table)));
            }
        }
    }
    assert!(conjunctions > disjunctions);
    assert!(disjunctions > 100);
}

#[test]
fn compound_predicates_work_on_a_table_without_rows() {
    let table = numbers(vec![]);
    for seed in 0..300 {
        let mut rng = StdRng::seed_from_u64(seed);
        let p = CompoundPredicate::arbitrary_from(&mut rng, &table, true).unwrap().0;
        assert!(children_of(&p).1.len() <= MAX_FAN_OUT);
        let q = CompoundPredicate::arbitrary_from(&mut rng, &table, false).unwrap().0;
        assert!(children_of(&q).1.len() <= MAX_FAN_OUT);
    }
}

#[test]
fn compound_predicates_reject_a_table_without_columns() {
    let mut rng = StdRng::seed_from_u64(2);
    let bare = Table { name: "bare".to_string(), columns: vec![], rows: vec![] };
    assert_eq!(
        CompoundPredicate::arbitrary_from(&mut rng, &bare, true),
        Err(GenError::MalformedInput)
    );
    assert_eq!(
        CompoundPredicate::arbitrary_from(&mut rng, &bare, false),
        Err(GenError::MalformedInput)
    );
    assert_eq!(Predicate::arbitrary_from(&mut rng, &bare), Err(GenError::MalformedInput));
    let mut ragged = numbers(vec![1]);
    ragged.rows.push(vec![Value::Integer(1), Value::Integer(2)]);
    assert_eq!(
        CompoundPredicate::arbitrary_from(&mut rng, &ragged, true),
        Err(GenError::MalformedInput)
    );
}

#[test]
fn predicates_over_a_table_are_compound_and_reproducible() {
    let table = mixed();
    for seed in 0..200 {
        let p = Predicate::arbitrary_from(&mut StdRng::seed_from_u64(seed), &table).unwrap();
        let q = Predicate::arbitrary_from(&mut StdRng::seed_from_u64(seed), &table).unwrap();
        assert_eq!(p, q);
        let (_, children) = children_of(&p);
        for child in children {
            let (_, name, _) = leaf_parts(child);
            assert!(table.columns.iter().any(|c| &c.name == name));
        }
    }
}
