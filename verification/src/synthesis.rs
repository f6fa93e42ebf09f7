//! Predicates of arbitrary shape with a known outcome on one given row.
//!
//! A handful of comparisons is drawn, some that hold on the row and some
//! that do not. One with the wanted outcome seeds an accumulator, and the
//! others are folded into it window by window, under rules that keep the
//! accumulator's outcome whatever the window holds.

use crate::bounded::{GTValue, LTValue};
use crate::choice::{frequency, lemma_weight_sum_positive};
use crate::entropy::{draw_below, shuffle};
use crate::error::GenError;
use crate::predicate::{
    compares, comparison_of, connected, formulas, has_column, lemma_and_holds, lemma_names_only,
    find_cell, lemma_comparison_holds, lemma_empty_connectives, lemma_or_holds, Comparison, Connective, Formula, Predicate,
};
use crate::table::{cell, lemma_cell_found, row_data, row_fits, ColumnView, Table};
use crate::value::{lemma_datum_trichotomy, ColumnType, Datum, Value};
use rand::rngs::StdRng;
use vstd::pervasive::unreached;
use vstd::prelude::*;

verus! {

/// The largest number of predicates that one window takes.
pub const MAX_WINDOW: usize = 3;

/// What the value of a comparison must be for the comparison to have the
/// wanted outcome on a row that holds `found` in a column of the given
/// type.
///
/// An equality that is to hold takes the row's value; one that is not to
/// hold takes another value of the column's type, and the reverse for an
/// inequality. A greater-than that is to hold takes a value below the
/// row's, one that is not to hold a value above it, and the reverse for a
/// less-than.
pub open spec fn value_suits(
    kind: Comparison,
    value: Datum,
    found: Datum,
    column_type: ColumnType,
    outcome: bool,
) -> bool {
    match kind {
        Comparison::Eq => if outcome {
            value == found
        } else {
            value != found && value.has_type(column_type)
        },
        Comparison::Neq => if outcome {
            value != found && value.has_type(column_type)
        } else {
            value == found
        },
        Comparison::Gt => if outcome {
            value.lt(found)
        } else {
            found.lt(value)
        },
        Comparison::Lt => if outcome {
            found.lt(value)
        } else {
            value.lt(found)
        },
    }
}

/// `formula` compares the column at `index` with a value that suits the
/// outcome on what the row holds under that column's name.
pub open spec fn leaf_at(
    formula: Formula,
    columns: Seq<ColumnView>,
    row: Seq<Datum>,
    index: int,
    outcome: bool,
) -> bool {
    exists|kind: Comparison, value: Datum|
        {
            &&& #[trigger] comparison_of(kind, columns[index].name, value) == formula
            &&& cell(columns, row, columns[index].name) matches Some(found)
            &&& value_suits(kind, value, found, columns[index].column_type, outcome)
        }
}

/// `formula` compares some column with a value that suits the outcome on
/// the row.
pub open spec fn leaf_for_row(
    formula: Formula,
    columns: Seq<ColumnView>,
    row: Seq<Datum>,
    outcome: bool,
) -> bool {
    exists|index: int| 0 <= index < columns.len() && #[trigger] leaf_at(formula, columns, row, index, outcome)
}

/// `formula` names only columns of the table and evaluates to `outcome` on
/// the row.
pub open spec fn characterised(
    formula: Formula,
    columns: Seq<ColumnView>,
    row: Seq<Datum>,
    outcome: bool,
) -> bool {
    &&& formula.names_only(columns)
    &&& formula.holds(columns, row) == outcome
}

/// A comparison whose value suits an outcome has that outcome.
pub proof fn lemma_suits_compares(
    kind: Comparison,
    value: Datum,
    found: Datum,
    column_type: ColumnType,
    outcome: bool,
)
    requires
        value_suits(kind, value, found, column_type, outcome),
    ensures
        compares(kind, found, value) == outcome,
{
    if value.lt(found) || found.lt(value) {
        lemma_datum_trichotomy(value, found);
    }
}

/// A comparison drawn for a row names a column of the table and has the
/// outcome it was drawn for.
pub proof fn lemma_leaf_characterised(
    formula: Formula,
    columns: Seq<ColumnView>,
    row: Seq<Datum>,
    outcome: bool,
)
    requires
        leaf_for_row(formula, columns, row, outcome),
    ensures
        characterised(formula, columns, row, outcome),
{
    let index = choose|index: int|
        0 <= index < columns.len() && #[trigger] leaf_at(formula, columns, row, index, outcome);
    let (kind, value) = choose|kind: Comparison, value: Datum|
        {
            &&& #[trigger] comparison_of(kind, columns[index].name, value) == formula
            &&& cell(columns, row, columns[index].name) matches Some(found)
            &&& value_suits(kind, value, found, columns[index].column_type, outcome)
        };
    assert(columns[index].name == columns[index].name);
    assert(has_column(columns, columns[index].name));
    let found = cell(columns, row, columns[index].name)->0;
    lemma_suits_compares(kind, value, found, columns[index].column_type, outcome);
    lemma_comparison_holds(kind, columns[index].name, value, columns, row);
}

/// Draws a comparison on a column drawn with equal probability, with the
/// wanted outcome on the row.
///
/// Of the four candidates, one that needs a value beyond the greatest or
/// least of its type is left out, and the others are equally likely.
fn produce_predicate(rng: &mut StdRng, table: &Table, row: &Vec<Value>, outcome: bool) -> (p: Predicate)
    requires
        row_fits(table@.columns, row_data(row@)),
    ensures
        leaf_for_row(p@, table@.columns, row_data(row@), outcome),
{
    let index = draw_below(rng, table.columns.len() as u128) as usize;
    let column = &table.columns[index];
    proof {
        lemma_cell_found(table@.columns, row_data(row@), index as int, 0);
    }
    let found = match find_cell(table, row, &column.name) {
        Some(found) => found,
        None => unreached(),
    };
    let room_below = !found.is_least();
    let room_above = !found.is_greatest();
    let mut weights: Vec<u32> = Vec::new();
    weights.push(1);
    weights.push(1);
    if outcome {
        weights.push(if room_below { 1 } else { 0 });
        weights.push(if room_above { 1 } else { 0 });
    } else {
        weights.push(if room_above { 1 } else { 0 });
        weights.push(if room_below { 1 } else { 0 });
    }
    proof {
        lemma_weight_sum_positive(weights@, 0);
    }
    let choice = match frequency(rng, &weights) {
        Ok(choice) => choice,
        Err(_) => unreached(),
    };
    let kind = if choice == 0 {
        if outcome {
            Comparison::Eq
        } else {
            Comparison::Neq
        }
    } else if choice == 1 {
        if outcome {
            Comparison::Neq
        } else {
            Comparison::Eq
        }
    } else if choice == 2 {
        Comparison::Gt
    } else {
        Comparison::Lt
    };
    let value = if choice == 0 {
        found.clone()
    } else if choice == 1 {
        Value::arbitrary_other(rng, column.column_type, found)
    } else if (choice == 2) == outcome {
        match LTValue::arbitrary_from(rng, found) {
            Ok(less) => less.0,
            Err(_) => unreached(),
        }
    } else {
        match GTValue::arbitrary_from(rng, found) {
            Ok(greater) => greater.0,
            Err(_) => unreached(),
        }
    };
    let ghost datum = value@;
    let p = Predicate::comparison(kind, column.name.clone(), value);
    proof {
        let columns = table@.columns;
        let data = row_data(row@);
        assert(comparison_of(kind, columns[index as int].name, datum) == p@);
        assert(cell(columns, data, columns[index as int].name) == Some(found@));
        assert(value_suits(kind, datum, found@, columns[index as int].column_type, outcome));
        assert(leaf_at(p@, columns, data, index as int, outcome));
    }
    p
}

/// Draws a comparison that holds on the row.
///
/// Fails exactly when the table has no column or the row holds another
/// number of values than the table has columns.
pub fn produce_true_predicate(rng: &mut StdRng, table: &Table, row: &Vec<Value>) -> (drawn: Result<
    Predicate,
    GenError,
>)
    ensures
        drawn is Err <==> !row_fits(table@.columns, row_data(row@)),
        drawn matches Err(e) ==> e == GenError::MalformedInput,
        drawn matches Ok(p) ==> leaf_for_row(p@, table@.columns, row_data(row@), true),
        drawn matches Ok(p) ==> characterised(p@, table@.columns, row_data(row@), true),
{
    if !table.fits(row) {
        return Err(GenError::MalformedInput);
    }
    let p = produce_predicate(rng, table, row, true);
    proof {
        lemma_leaf_characterised(p@, table@.columns, row_data(row@), true);
    }
    Ok(p)
}

/// Draws a comparison that does not hold on the row.
///
/// Fails exactly when the table has no column or the row holds another
/// number of values than the table has columns.
pub fn produce_false_predicate(rng: &mut StdRng, table: &Table, row: &Vec<Value>) -> (drawn: Result<
    Predicate,
    GenError,
>)
    ensures
        drawn is Err <==> !row_fits(table@.columns, row_data(row@)),
        drawn matches Err(e) ==> e == GenError::MalformedInput,
        drawn matches Ok(p) ==> leaf_for_row(p@, table@.columns, row_data(row@), false),
        drawn matches Ok(p) ==> characterised(p@, table@.columns, row_data(row@), false),
{
    if !table.fits(row) {
        return Err(GenError::MalformedInput);
    }
    let p = produce_predicate(rng, table, row, false);
    proof {
        lemma_leaf_characterised(p@, table@.columns, row_data(row@), false);
    }
    Ok(p)
}

/// The three rules by which a window is folded into the accumulator.
#[derive(Clone, Copy, Debug, PartialEq, Eq, Structural)]
pub enum Reduction {
    /// The accumulator, or else any of the window; for an accumulator that
    /// is to stay false: the accumulator, and also all of the window.
    Absorb,
    /// The accumulator, or else all of the window; for an accumulator that
    /// is to stay false: the accumulator, and also any of the window.
    AbsorbAll,
    /// The accumulator together with a combination of the window that has
    /// the accumulator's outcome.
    Restrict,
}

/// The connective under which one operand with the outcome decides: `Or`
/// for true, `And` for false.
pub open spec fn keeping(target: bool) -> Connective {
    if target {
        Connective::Or
    } else {
        Connective::And
    }
}

/// The connective under which every operand must have the outcome: `And`
/// for true, `Or` for false.
pub open spec fn demanding(target: bool) -> Connective {
    if target {
        Connective::And
    } else {
        Connective::Or
    }
}

/// The formula that is constantly `target`: the constant true, or the empty
/// disjunction.
pub open spec fn constant_of(target: bool) -> Formula {
    if target {
        Formula::True
    } else {
        Formula::Or(Seq::empty())
    }
}

/// The outcomes that a window of labelled predicates is labelled with.
pub open spec fn labels_of(window: Seq<(bool, Predicate)>) -> Seq<bool> {
    Seq::new(window.len(), |i: int| window[i].0)
}

/// The formulas that a window of labelled predicates stands for.
pub open spec fn formulas_of(window: Seq<(bool, Predicate)>) -> Seq<Formula> {
    Seq::new(window.len(), |i: int| window[i].1@)
}

/// Every label is the target.
pub open spec fn all_labelled(labels: Seq<bool>, target: bool) -> bool {
    forall|i: int| 0 <= i < labels.len() ==> labels[i] == target
}

/// The combination of the window that a rule puts beside the accumulator.
///
/// The first two rules combine the window under the keeping and under the
/// demanding connective. The third looks at the labels: a window that is
/// labelled with the target throughout goes under the demanding connective;
/// one that holds the target at least once goes under the keeping one; and
/// one that does not hold it at all goes under the keeping one together
/// with the constant of the target.
pub open spec fn inner_of(rule: Reduction, target: bool, labels: Seq<bool>, window: Seq<Formula>) -> Formula {
    match rule {
        Reduction::Absorb => connected(keeping(target), window),
        Reduction::AbsorbAll => connected(demanding(target), window),
        Reduction::Restrict => if all_labelled(labels, target) {
            connected(demanding(target), window)
        } else if labels.contains(target) {
            connected(keeping(target), window)
        } else {
            connected(keeping(target), window.push(constant_of(target)))
        },
    }
}

/// What folding a window into the accumulator gives: the accumulator and
/// the window's combination, under the keeping connective for the first two
/// rules and under the demanding one for the third.
pub open spec fn folded(
    accumulator: Formula,
    rule: Reduction,
    target: bool,
    labels: Seq<bool>,
    window: Seq<Formula>,
) -> Formula {
    let outer = match rule {
        Reduction::Restrict => demanding(target),
        _ => keeping(target),
    };
    connected(outer, seq![accumulator, inner_of(rule, target, labels, window)])
}

/// A combination under the keeping connective has the target as its outcome
/// as soon as one operand has; under the demanding connective, when all
/// operands have.
pub proof fn lemma_connected_outcome(
    connective: Connective,
    children: Seq<Formula>,
    columns: Seq<ColumnView>,
    row: Seq<Datum>,
    target: bool,
)
    ensures
        connective == keeping(target) && (exists|i: int|
            0 <= i < children.len() && (#[trigger] children[i]).holds(columns, row) == target)
            ==> connected(connective, children).holds(columns, row) == target,
        connective == demanding(target) && (forall|i: int|
            0 <= i < children.len() ==> (#[trigger] children[i]).holds(columns, row) == target)
            ==> connected(connective, children).holds(columns, row) == target,
        connective == keeping(target) && (forall|i: int|
            0 <= i < children.len() ==> (#[trigger] children[i]).holds(columns, row) != target)
            ==> connected(connective, children).holds(columns, row) != target,
{
    lemma_and_holds(children, columns, row);
    lemma_or_holds(children, columns, row);
}

/// The constant of an outcome has that outcome on every row.
pub proof fn lemma_constant_outcome(target: bool, columns: Seq<ColumnView>, row: Seq<Datum>)
    ensures
        constant_of(target).holds(columns, row) == target,
        constant_of(target).names_only(columns),
{
    lemma_empty_connectives(columns, row);
    lemma_names_only(Seq::empty(), columns);
}

/// Folding keeps the accumulator's outcome: where the accumulator has the
/// target as its outcome and each predicate of the window has the outcome
/// it is labelled with, the folded formula has the target as its outcome,
/// whatever the rule and whatever the window.
pub proof fn lemma_fold_keeps_outcome(
    accumulator: Formula,
    rule: Reduction,
    target: bool,
    labels: Seq<bool>,
    window: Seq<Formula>,
    columns: Seq<ColumnView>,
    row: Seq<Datum>,
)
    requires
        accumulator.holds(columns, row) == target,
        labels.len() == window.len(),
        forall|i: int| 0 <= i < window.len() ==> (#[trigger] window[i]).holds(columns, row) == labels[i],
    ensures
        folded(accumulator, rule, target, labels, window).holds(columns, row) == target,
{
    let inner = inner_of(rule, target, labels, window);
    let operands = seq![accumulator, inner];
    assert(operands[0] == accumulator);
    assert(operands[1] == inner);
    match rule {
        Reduction::Restrict => {
            if all_labelled(labels, target) {
                lemma_connected_outcome(demanding(target), window, columns, row, target);
            } else if labels.contains(target) {
                let k = choose|k: int| 0 <= k < labels.len() && labels[k] == target;
                assert(window[k].holds(columns, row) == target);
                lemma_connected_outcome(keeping(target), window, columns, row, target);
            } else {
                let extended = window.push(constant_of(target));
                lemma_constant_outcome(target, columns, row);
                assert(extended[window.len() as int].holds(columns, row) == target);
                lemma_connected_outcome(keeping(target), extended, columns, row, target);
            }
            assert(inner.holds(columns, row) == target);
            assert forall|i: int| 0 <= i < operands.len() implies (#[trigger] operands[i]).holds(
                columns,
                row,
            ) == target by {}
            lemma_connected_outcome(demanding(target), operands, columns, row, target);
        },
        _ => {
            lemma_connected_outcome(keeping(target), operands, columns, row, target);
        },
    }
}

/// Folding names no column that the accumulator and the window do not name.
pub proof fn lemma_fold_names_only(
    accumulator: Formula,
    rule: Reduction,
    target: bool,
    labels: Seq<bool>,
    window: Seq<Formula>,
    columns: Seq<ColumnView>,
)
    requires
        accumulator.names_only(columns),
        forall|i: int| 0 <= i < window.len() ==> (#[trigger] window[i]).names_only(columns),
    ensures
        folded(accumulator, rule, target, labels, window).names_only(columns),
{
    let inner = inner_of(rule, target, labels, window);
    let extended = window.push(constant_of(target));
    lemma_constant_outcome(target, columns, Seq::empty());
    assert forall|i: int| 0 <= i < extended.len() implies (#[trigger] extended[i]).names_only(columns) by {
        if i < window.len() {
            assert(extended[i] == window[i]);
        }
    }
    lemma_names_only(window, columns);
    lemma_names_only(extended, columns);
    assert(inner.names_only(columns));
    let operands = seq![accumulator, inner];
    assert forall|i: int| 0 <= i < operands.len() implies (#[trigger] operands[i]).names_only(columns) by {
        if i == 0 {
        } else {
            assert(operands[i] == inner);
        }
    }
    lemma_names_only(operands, columns);
}

impl Reduction {
    /// The rule at a position: the three rules in the order in which they
    /// are declared.
    pub fn from_index(index: usize) -> (rule: Reduction)
        requires
            index < 3,
        ensures
            rule == match index {
                0 => Reduction::Absorb,
                1 => Reduction::AbsorbAll,
                _ => Reduction::Restrict,
            },
    {
        if index == 0 {
            Reduction::Absorb
        } else if index == 1 {
            Reduction::AbsorbAll
        } else {
            Reduction::Restrict
        }
    }
}

/// Copies the predicates of a window, leaving the labels behind.
pub fn window_predicates(window: &Vec<(bool, Predicate)>) -> (predicates: Vec<Predicate>)
    ensures
        formulas(predicates@) == formulas_of(window@),
{
    let mut predicates: Vec<Predicate> = Vec::new();
    let mut i: usize = 0;
    while i < window.len()
        invariant
            i <= window.len(),
            predicates.len() == i,
            forall|k: int| 0 <= k < i ==> (#[trigger] predicates[k])@ == window[k].1@,
        decreases window.len() - i,
    {
        predicates.push(window[i].1.clone());
        i = i + 1;
    }
    assert(formulas(predicates@) =~= formulas_of(window@));
    predicates
}

/// Whether every predicate of the window is labelled with the target, and
/// whether at least one is.
pub fn window_labels(window: &Vec<(bool, Predicate)>, target: bool) -> (found: (bool, bool))
    ensures
        found.0 == all_labelled(labels_of(window@), target),
        found.1 == labels_of(window@).contains(target),
{
    let ghost labels = labels_of(window@);
    let mut all = true;
    let mut any = false;
    let mut i: usize = 0;
    while i < window.len()
        invariant
            i <= window.len(),
            labels == labels_of(window@),
            all == (forall|k: int| 0 <= k < i ==> labels[k] == target),
            any == (exists|k: int| 0 <= k < i && labels[k] == target),
        decreases window.len() - i,
    {
        if window[i].0 == target {
            assert(labels[i as int] == target);
            any = true;
        } else {
            assert(labels[i as int] != target);
            all = false;
        }
        i = i + 1;
    }
    (all, any)
}

/// Folds a window of labelled predicates into the accumulator under a rule.
pub fn fold_window(
    accumulator: Predicate,
    window: &Vec<(bool, Predicate)>,
    rule: Reduction,
    target: bool,
) -> (result: Predicate)
    ensures
        result@ == folded(accumulator@, rule, target, labels_of(window@), formulas_of(window@)),
{
    let keep = if target {
        Connective::Or
    } else {
        Connective::And
    };
    let demand = if target {
        Connective::And
    } else {
        Connective::Or
    };
    let mut predicates = window_predicates(window);
    let (inner_connective, outer) = match rule {
        Reduction::Absorb => (keep, keep),
        Reduction::AbsorbAll => (demand, keep),
        Reduction::Restrict => {
            let (all, any) = window_labels(window, target);
            if all {
                (demand, demand)
            } else if any {
                (keep, demand)
            } else {
                let constant = if target {
                    Predicate::true_()
                } else {
                    Predicate::false_()
                };
                let ghost before = formulas(predicates@);
                predicates.push(constant);
                assert(formulas(predicates@) =~= before.push(constant_of(target)));
                (keep, demand)
            }
        },
    };
    let inner = Predicate::connect(inner_connective, predicates);
    let ghost first = accumulator@;
    let ghost second = inner@;
    let mut operands: Vec<Predicate> = Vec::new();
    operands.push(accumulator);
    operands.push(inner);
    assert(formulas(operands@) =~= seq![first, second]);
    Predicate::connect(outer, operands)
}

/// The most foldings that one synthesis makes.
pub const MAX_FOLDS: usize = 13;

/// A window of at most three comparisons, each with the outcome on the row
/// that it is labelled with.
pub open spec fn window_fits(
    window: Seq<Formula>,
    labels: Seq<bool>,
    columns: Seq<ColumnView>,
    row: Seq<Datum>,
) -> bool {
    &&& window.len() == labels.len()
    &&& window.len() <= MAX_WINDOW
    &&& forall|i: int|
        0 <= i < window.len() ==> leaf_for_row(#[trigger] window[i], columns, row, labels[i])
}

/// `formula` is what `folds` foldings make of a comparison that has the
/// target as its outcome on the row: the comparison itself for no folding,
/// and otherwise the folding of a fitting window into what one folding less
/// makes.
pub open spec fn folds_to(
    formula: Formula,
    columns: Seq<ColumnView>,
    row: Seq<Datum>,
    target: bool,
    folds: nat,
) -> bool
    decreases folds,
{
    if folds == 0 {
        leaf_for_row(formula, columns, row, target)
    } else {
        exists|accumulator: Formula, rule: Reduction, labels: Seq<bool>, window: Seq<Formula>|
            #![trigger folded(accumulator, rule, target, labels, window)]
            {
                &&& folded(accumulator, rule, target, labels, window) == formula
                &&& window_fits(window, labels, columns, row)
                &&& folds_to(accumulator, columns, row, target, (folds - 1) as nat)
            }
    }
}

/// Whatever is made by folding names only columns of the table and
/// evaluates to the target on the row.
pub proof fn lemma_folds_to_characterised(
    formula: Formula,
    columns: Seq<ColumnView>,
    row: Seq<Datum>,
    target: bool,
    folds: nat,
)
    requires
        folds_to(formula, columns, row, target, folds),
    ensures
        characterised(formula, columns, row, target),
    decreases folds,
{
    if folds == 0 {
        lemma_leaf_characterised(formula, columns, row, target);
    } else {
        let (accumulator, rule, labels, window) = choose|
            accumulator: Formula,
            rule: Reduction,
            labels: Seq<bool>,
            window: Seq<Formula>,
        |
            #![trigger folded(accumulator, rule, target, labels, window)]
            {
                &&& folded(accumulator, rule, target, labels, window) == formula
                &&& window_fits(window, labels, columns, row)
                &&& folds_to(accumulator, columns, row, target, (folds - 1) as nat)
            };
        lemma_folds_to_characterised(accumulator, columns, row, target, (folds - 1) as nat);
        assert forall|i: int| 0 <= i < window.len() implies characterised(
            #[trigger] window[i],
            columns,
            row,
            labels[i],
        ) by {
            lemma_leaf_characterised(window[i], columns, row, labels[i]);
        }
        lemma_fold_names_only(accumulator, rule, target, labels, window, columns);
        lemma_fold_keeps_outcome(accumulator, rule, target, labels, window, columns, row);
    }
}

/// Each predicate of the list is a comparison with the outcome on the row
/// that it is labelled with.
pub open spec fn all_leaves(
    pending: Seq<(bool, Predicate)>,
    columns: Seq<ColumnView>,
    row: Seq<Datum>,
) -> bool {
    forall|i: int|
        0 <= i < pending.len() ==> leaf_for_row((#[trigger] pending[i]).1@, columns, row, pending[i].0)
}

/// Draws a predicate with the outcome `target` on the row.
///
/// Between one and four comparisons with the target as outcome are drawn
/// and up to three with the opposite outcome. One of the former seeds the
/// accumulator; the others are shuffled and folded into it in windows of at
/// most three, each under a rule drawn with equal probability. A window may
/// be empty, but not two in a row, so the folding ends.
fn synthesize(rng: &mut StdRng, table: &Table, row: &Vec<Value>, target: bool) -> (p: Predicate)
    requires
        row_fits(table@.columns, row_data(row@)),
    ensures
        exists|folds: nat|
            folds <= MAX_FOLDS && #[trigger] folds_to(
                p@,
                table@.columns,
                row_data(row@),
                target,
                folds,
            ),
{
    let ghost columns = table@.columns;
    let ghost data = row_data(row@);
    let with_target = draw_below(rng, 4) as usize + 1;
    let against_target = draw_below(rng, 4) as usize;
    let mut accumulator = produce_predicate(rng, table, row, target);
    let mut pending: Vec<(bool, Predicate)> = Vec::new();
    let mut i: usize = 1;
    while i < with_target
        invariant
            row_fits(table@.columns, row_data(row@)),
            columns == table@.columns,
            data == row_data(row@),
            1 <= i <= with_target <= 4,
            pending.len() == i - 1,
            all_leaves(pending@, columns, data),
        decreases with_target - i,
    {
        let p = produce_predicate(rng, table, row, target);
        pending.push((target, p));
        i = i + 1;
    }
    let mut j: usize = 0;
    while j < against_target
        invariant
            row_fits(table@.columns, row_data(row@)),
            columns == table@.columns,
            data == row_data(row@),
            j <= against_target <= 3,
            pending.len() == with_target - 1 + j,
            with_target <= 4,
            all_leaves(pending@, columns, data),
        decreases against_target - j,
    {
        let p = produce_predicate(rng, table, row, !target);
        pending.push((!target, p));
        j = j + 1;
    }
    let ghost unshuffled = pending@;
    shuffle(rng, &mut pending);
    proof {
        unshuffled.to_multiset_ensures();
        pending@.to_multiset_ensures();
        assert forall|k: int| 0 <= k < pending.len() implies leaf_for_row(
            (#[trigger] pending[k]).1@,
            columns,
            data,
            pending[k].0,
        ) by {
            assert(pending@.contains(pending[k]));
            assert(pending@.to_multiset().count(pending[k]) > 0);
            assert(unshuffled.to_multiset().count(pending[k]) > 0);
            assert(unshuffled.contains(pending[k]));
            let m = choose|m: int| 0 <= m < unshuffled.len() && unshuffled[m] == pending[k];
            assert(leaf_for_row(unshuffled[m].1@, columns, data, unshuffled[m].0));
        }
    }
    let mut may_be_empty = true;
    let ghost mut folds: nat = 0;
    while pending.len() > 0
        invariant
            folds_to(accumulator@, columns, data, target, folds),
            all_leaves(pending@, columns, data),
            folds + 2 * pending.len() + if may_be_empty { 1int } else { 0int } <= MAX_FOLDS,
        decreases 2 * pending.len() + if may_be_empty { 1int } else { 0int },
    {
        let most = if pending.len() < MAX_WINDOW {
            pending.len()
        } else {
            MAX_WINDOW
        };
        let size = if may_be_empty {
            draw_below(rng, most as u128 + 1) as usize
        } else {
            draw_below(rng, most as u128) as usize + 1
        };
        may_be_empty = size > 0;
        let ghost before = pending@;
        let rest = pending.split_off(size);
        let rule = Reduction::from_index(draw_below(rng, 3) as usize);
        let ghost prior = accumulator@;
        proof {
            let window = formulas_of(pending@);
            let labels = labels_of(pending@);
            assert forall|k: int| 0 <= k < window.len() implies leaf_for_row(
                #[trigger] window[k],
                columns,
                data,
                labels[k],
            ) by {
                assert(pending[k] == before[k]);
            }
            assert(window_fits(window, labels, columns, data));
            assert forall|k: int| 0 <= k < rest.len() implies leaf_for_row(
                (#[trigger] rest[k]).1@,
                columns,
                data,
                rest[k].0,
            ) by {
                assert(rest[k] == before[k + size]);
            }
        }
        accumulator = fold_window(accumulator, &pending, rule, target);
        proof {
            assert(folded(prior, rule, target, labels_of(pending@), formulas_of(pending@))
                == accumulator@);
            folds = folds + 1;
            assert(folds_to(accumulator@, columns, data, target, folds));
        }
        pending = rest;
    }
    accumulator
}

/// Draws a predicate of arbitrary shape that holds on the row.
///
/// Fails exactly when the table has no column or the row holds another
/// number of values than the table has columns. The predicate is made by
/// at most thirteen foldings of windows of comparisons into a comparison
/// that holds on the row; it names only columns of the table and evaluates
/// to true on the row.
pub fn synthesize_true(rng: &mut StdRng, table: &Table, row: &Vec<Value>) -> (drawn: Result<
    Predicate,
    GenError,
>)
    ensures
        drawn is Err <==> !row_fits(table@.columns, row_data(row@)),
        drawn matches Err(e) ==> e == GenError::MalformedInput,
        drawn matches Ok(p) ==> exists|folds: nat|
            folds <= MAX_FOLDS && #[trigger] folds_to(
                p@,
                table@.columns,
                row_data(row@),
                true,
                folds,
            ),
        drawn matches Ok(p) ==> p@.names_only(table@.columns),
        drawn matches Ok(p) ==> p@.holds(table@.columns, row_data(row@)),
{
    if !table.fits(row) {
        return Err(GenError::MalformedInput);
    }
    let p = synthesize(rng, table, row, true);
    proof {
        let folds = choose|folds: nat|
            folds <= MAX_FOLDS && #[trigger] folds_to(
                p@,
                table@.columns,
                row_data(row@),
                true,
                folds,
            );
        lemma_folds_to_characterised(p@, table@.columns, row_data(row@), true, folds);
    }
    Ok(p)
}

/// Draws a predicate of arbitrary shape that does not hold on the row.
///
/// Fails exactly when the table has no column or the row holds another
/// number of values than the table has columns. The predicate is made by
/// at most thirteen foldings of windows of comparisons into a comparison
/// that does not hold on the row; it names only columns of the table and
/// evaluates to false on the row.
pub fn synthesize_false(rng: &mut StdRng, table: &Table, row: &Vec<Value>) -> (drawn: Result<
    Predicate,
    GenError,
>)
    ensures
        drawn is Err <==> !row_fits(table@.columns, row_data(row@)),
        drawn matches Err(e) ==> e == GenError::MalformedInput,
        drawn matches Ok(p) ==> exists|folds: nat|
            folds <= MAX_FOLDS && #[trigger] folds_to(
                p@,
                table@.columns,
                row_data(row@),
                false,
                folds,
            ),
        drawn matches Ok(p) ==> p@.names_only(table@.columns),
        drawn matches Ok(p) ==> !p@.holds(table@.columns, row_data(row@)),
{
    if !table.fits(row) {
        return Err(GenError::MalformedInput);
    }
    let p = synthesize(rng, table, row, false);
    proof {
        let folds = choose|folds: nat|
            folds <= MAX_FOLDS && #[trigger] folds_to(
                p@,
                table@.columns,
                row_data(row@),
                false,
                folds,
            );
        lemma_folds_to_characterised(p@, table@.columns, row_data(row@), false, folds);
    }
    Ok(p)
}

} // verus!
