//! Predicates that compare one column with one value, characterised against
//! the values that the column holds.

use crate::bounded::{above_all, below_all, has_room_above, has_room_below, GTValue, LTValue};
use crate::choice::{frequency, lemma_weight_sum_positive};
use crate::entropy::draw_below;
use crate::error::GenError;
use crate::predicate::{comparison_of, has_column, Comparison, Formula, Predicate};
use crate::table::{Table, TableView};
use crate::value::{Datum, Value};
use rand::rngs::StdRng;
use vstd::pervasive::unreached;
use vstd::prelude::*;

verus! {

/// A predicate that is a single comparison.
#[derive(Debug, Clone, PartialEq, Eq)]
pub struct SimplePredicate(pub Predicate);

/// `datum` is one of `values`, or NULL where there is none.
pub open spec fn drawn_from(datum: Datum, values: Seq<Datum>) -> bool {
    if values.len() == 0 {
        datum == Datum::Null
    } else {
        values.contains(datum)
    }
}

/// `formula` is a simple predicate for `outcome` on column `index`.
///
/// For the outcome true it is one of: the column equals a value found in
/// it; the column is greater than a value of its type that lies above all
/// it holds; the column is less than a value of its type that lies below
/// all it holds. For the outcome false it is one of: the column differs
/// from a value of its type; the column is greater than a value below all
/// it holds; the column is less than a value above all it holds.
pub open spec fn simple_on_column(formula: Formula, table: TableView, index: int, outcome: bool) -> bool {
    let name = table.columns[index].name;
    let column_type = table.columns[index].column_type;
    let values = table.column_values(index);
    exists|kind: Comparison, value: Datum|
        {
            &&& #[trigger] comparison_of(kind, name, value) == formula
            &&& match kind {
                Comparison::Eq => outcome && drawn_from(value, values),
                Comparison::Neq => !outcome && value.has_type(column_type),
                Comparison::Gt => value.has_type(column_type) && if outcome {
                    above_all(value, values)
                } else {
                    below_all(value, values)
                },
                Comparison::Lt => value.has_type(column_type) && if outcome {
                    below_all(value, values)
                } else {
                    above_all(value, values)
                },
            }
        }
}

/// `formula` is a simple predicate for `outcome` on some column of the
/// table.
pub open spec fn simple_for(formula: Formula, table: TableView, outcome: bool) -> bool {
    exists|index: int|
        0 <= index < table.columns.len() && #[trigger] simple_on_column(formula, table, index, outcome)
}

/// A simple predicate names a column of the table, and no other.
pub proof fn lemma_simple_names_column(formula: Formula, table: TableView, outcome: bool)
    requires
        simple_for(formula, table, outcome),
    ensures
        formula.names_only(table.columns),
{
    let index = choose|index: int|
        0 <= index < table.columns.len() && #[trigger] simple_on_column(formula, table, index, outcome);
    assert(table.columns[index].name == table.columns[index].name);
    assert(has_column(table.columns, table.columns[index].name));
}

/// The operator of the candidate at a position. The first candidate is the
/// equality for the outcome true and the inequality for the outcome false;
/// the second is the greater-than and the third the less-than.
pub fn candidate(outcome: bool, choice: usize) -> (kind: Comparison)
    requires
        choice < 3,
    ensures
        kind == match choice {
            0 => if outcome { Comparison::Eq } else { Comparison::Neq },
            1 => Comparison::Gt,
            _ => Comparison::Lt,
        },
{
    if choice == 0 {
        if outcome {
            Comparison::Eq
        } else {
            Comparison::Neq
        }
    } else if choice == 1 {
        Comparison::Gt
    } else {
        Comparison::Lt
    }
}

impl SimplePredicate {
    /// Draws a simple predicate for `outcome` on a column drawn with equal
    /// probability.
    ///
    /// Fails exactly when the table has no column or a row of another
    /// length than the column count. Of the three candidates, one that
    /// needs a value beyond the greatest or least of its type is left out,
    /// and the others are equally likely.
    pub fn arbitrary_from(rng: &mut StdRng, table: &Table, outcome: bool) -> (drawn: Result<
        SimplePredicate,
        GenError,
    >)
        ensures
            drawn is Err <==> !table@.well_formed(),
            drawn matches Err(e) ==> e == GenError::MalformedInput,
            drawn matches Ok(simple) ==> simple_for(simple.0@, table@, outcome),
            drawn matches Ok(simple) ==> simple.0@.names_only(table@.columns),
    {
        if !table.is_well_formed() {
            return Err(GenError::MalformedInput);
        }
        let index = draw_below(rng, table.columns.len() as u128) as usize;
        let p = SimplePredicate::on_column(rng, table, index, outcome);
        proof {
            lemma_simple_names_column(p@, table@, outcome);
        }
        Ok(SimplePredicate(p))
    }

    /// Draws a simple predicate for `outcome` on the column at `index`.
    pub fn on_column(rng: &mut StdRng, table: &Table, index: usize, outcome: bool) -> (p: Predicate)
        requires
            table@.well_formed(),
            index < table.columns.len(),
        ensures
            simple_on_column(p@, table@, index as int, outcome),
    {
        let column = &table.columns[index];
        let values = table.column_values(index);
        let above = has_room_above(&values, column.column_type);
        let below = has_room_below(&values, column.column_type);
        let mut weights: Vec<u32> = Vec::new();
        weights.push(1);
        if outcome {
            weights.push(if above { 1 } else { 0 });
            weights.push(if below { 1 } else { 0 });
        } else {
            weights.push(if below { 1 } else { 0 });
            weights.push(if above { 1 } else { 0 });
        }
        proof {
            lemma_weight_sum_positive(weights@, 0);
        }
        let choice = match frequency(rng, &weights) {
            Ok(choice) => choice,
            Err(_) => unreached(),
        };
        let kind = candidate(outcome, choice);
        let beyond_above = (choice == 1) == outcome;
        let value = if choice == 0 {
            if outcome {
                let value = Value::arbitrary_among(rng, &values);
                proof {
                    if values.len() > 0 {
                        let i = choose|i: int| 0 <= i < values.len() && (*#[trigger] values[i])@ == value@;
                        assert(table@.column_values(index as int)[i] == value@);
                    }
                }
                value
            } else {
                Value::arbitrary_from(rng, column.column_type)
            }
        } else if beyond_above {
            match GTValue::arbitrary_above(rng, column.column_type, &values) {
                Ok(greater) => greater.0,
                Err(_) => unreached(),
            }
        } else {
            match LTValue::arbitrary_below(rng, column.column_type, &values) {
                Ok(less) => less.0,
                Err(_) => unreached(),
            }
        };
        let ghost datum = value@;
        let p = Predicate::comparison(kind, column.name.clone(), value);
        assert(comparison_of(kind, table@.columns[index as int].name, datum) == p@);
        p
    }
}

/// `formula` is about a value in a column: the column equals the value, or
/// is greater than a value above it, or is less than a value below it.
pub open spec fn about_value(formula: Formula, column: Seq<char>, value: Datum) -> bool {
    match formula {
        Formula::Eq(name, other) => name == column && other == value,
        Formula::Gt(name, other) => name == column && value.lt(other),
        Formula::Lt(name, other) => name == column && other.lt(value),
        _ => false,
    }
}

impl Predicate {
    /// Draws a predicate about a value in a column: that the column equals
    /// the value, is greater than a value above it, or is less than a value
    /// below it.
    ///
    /// Of the three candidates, one that needs a value beyond the greatest
    /// or least of its type is left out, and the others are equally likely.
    pub fn arbitrary_from_value(rng: &mut StdRng, column_name: &str, value: &Value) -> (p: Predicate)
        ensures
            about_value(p@, column_name@, value@),
    {
        let mut weights: Vec<u32> = Vec::new();
        weights.push(1);
        weights.push(if value.is_greatest() { 0 } else { 1 });
        weights.push(if value.is_least() { 0 } else { 1 });
        proof {
            lemma_weight_sum_positive(weights@, 0);
        }
        let choice = match frequency(rng, &weights) {
            Ok(choice) => choice,
            Err(_) => unreached(),
        };
        let column = column_name.to_owned();
        if choice == 0 {
            Predicate::Eq(column, value.clone())
        } else if choice == 1 {
            match GTValue::arbitrary_from(rng, value) {
                Ok(greater) => Predicate::Gt(column, greater.0),
                Err(_) => unreached(),
            }
        } else {
            match LTValue::arbitrary_from(rng, value) {
                Ok(less) => Predicate::Lt(column, less.0),
                Err(_) => unreached(),
            }
        }
    }
}

} // verus!
