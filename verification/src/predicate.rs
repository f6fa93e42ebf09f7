//! Predicates over the values of a row, and what they evaluate to.

use crate::table::{cell, cell_from, row_data, ColumnView, Table};
use crate::value::{Datum, Value};
use vstd::prelude::*;

verus! {

/// A boolean expression over the values of a row: a comparison of one
/// column with a value, a conjunction, a disjunction, or the constant true.
#[derive(Debug, PartialEq, Eq)]
pub enum Predicate {
    True,
    Eq(String, Value),
    Neq(String, Value),
    Gt(String, Value),
    Lt(String, Value),
    And(Vec<Predicate>),
    Or(Vec<Predicate>),
}

/// What a [`Predicate`] stands for.
pub enum Formula {
    True,
    Eq(Seq<char>, Datum),
    Neq(Seq<char>, Datum),
    Gt(Seq<char>, Datum),
    Lt(Seq<char>, Datum),
    And(Seq<Formula>),
    Or(Seq<Formula>),
}

/// The four ways in which a predicate compares a column with a value.
#[derive(Clone, Copy, Debug, PartialEq, Eq, Structural)]
pub enum Comparison {
    Eq,
    Neq,
    Gt,
    Lt,
}

/// The comparison of a column with a value.
pub open spec fn comparison_of(kind: Comparison, column: Seq<char>, value: Datum) -> Formula {
    match kind {
        Comparison::Eq => Formula::Eq(column, value),
        Comparison::Neq => Formula::Neq(column, value),
        Comparison::Gt => Formula::Gt(column, value),
        Comparison::Lt => Formula::Lt(column, value),
    }
}

/// What a comparison evaluates to on a row that holds `found` in the
/// column.
pub open spec fn compares(kind: Comparison, found: Datum, value: Datum) -> bool {
    match kind {
        Comparison::Eq => found == value,
        Comparison::Neq => found != value,
        Comparison::Gt => value.lt(found),
        Comparison::Lt => found.lt(value),
    }
}

/// The two ways in which predicates are combined.
#[derive(Clone, Copy, Debug, PartialEq, Eq, Structural)]
pub enum Connective {
    And,
    Or,
}

/// The combination of formulas under a connective.
pub open spec fn connected(connective: Connective, children: Seq<Formula>) -> Formula {
    match connective {
        Connective::And => Formula::And(children),
        Connective::Or => Formula::Or(children),
    }
}

/// The formulas that a list of predicates stands for.
pub open spec fn formulas(predicates: Seq<Predicate>) -> Seq<Formula>
    decreases predicates,
{
    Seq::new(predicates.len(), |i: int| if 0 <= i < predicates.len() { predicates[i]@ } else { Formula::True })
}

impl View for Predicate {
    type V = Formula;

    open spec fn view(&self) -> Formula
        decreases self,
    {
        match self {
            Predicate::True => Formula::True,
            Predicate::Eq(column, value) => Formula::Eq(column@, value@),
            Predicate::Neq(column, value) => Formula::Neq(column@, value@),
            Predicate::Gt(column, value) => Formula::Gt(column@, value@),
            Predicate::Lt(column, value) => Formula::Lt(column@, value@),
            Predicate::And(children) => Formula::And(formulas(children@)),
            Predicate::Or(children) => Formula::Or(formulas(children@)),
        }
    }
}

impl Clone for Predicate {
    fn clone(&self) -> (copy: Predicate)
        ensures
            copy@ == self@,
        decreases self,
    {
        match self {
            Predicate::True => Predicate::True,
            Predicate::Eq(column, value) => Predicate::Eq(column.clone(), value.clone()),
            Predicate::Neq(column, value) => Predicate::Neq(column.clone(), value.clone()),
            Predicate::Gt(column, value) => Predicate::Gt(column.clone(), value.clone()),
            Predicate::Lt(column, value) => Predicate::Lt(column.clone(), value.clone()),
            Predicate::And(children) => Predicate::And(clone_all(children)),
            Predicate::Or(children) => Predicate::Or(clone_all(children)),
        }
    }
}

/// Copies a list of predicates.
pub fn clone_all(predicates: &Vec<Predicate>) -> (copies: Vec<Predicate>)
    ensures
        formulas(copies@) == formulas(predicates@),
    decreases predicates,
{
    let mut copies: Vec<Predicate> = Vec::new();
    let mut i: usize = 0;
    while i < predicates.len()
        invariant
            i <= predicates.len(),
            copies.len() == i,
            forall|k: int| 0 <= k < i ==> (#[trigger] copies[k])@ == predicates[k]@,
        decreases predicates.len() - i,
    {
        copies.push(predicates[i].clone());
        i = i + 1;
    }
    assert(formulas(copies@) =~= formulas(predicates@));
    copies
}

impl Formula {
    /// What the formula evaluates to on a row of a table with the given
    /// columns.
    ///
    /// A comparison looks up the row's value under the column name. Equality
    /// holds when that value is the given one, inequality when it is not or
    /// there is none; greater-than and less-than hold when the row's value
    /// is of the given value's type and strictly beyond it. A conjunction
    /// holds when every child does, so the empty one holds; a disjunction
    /// holds when some child does, so the empty one does not.
    pub open spec fn holds(self, columns: Seq<ColumnView>, row: Seq<Datum>) -> bool
        decreases self,
    {
        match self {
            Formula::True => true,
            Formula::Eq(column, value) => cell(columns, row, column) == Some(value),
            Formula::Neq(column, value) => cell(columns, row, column) != Some(value),
            Formula::Gt(column, value) => match cell(columns, row, column) {
                Some(found) => value.lt(found),
                None => false,
            },
            Formula::Lt(column, value) => match cell(columns, row, column) {
                Some(found) => found.lt(value),
                None => false,
            },
            Formula::And(children) => forall|i: int|
                0 <= i < children.len() ==> (#[trigger] children[i]).holds(columns, row),
            Formula::Or(children) => exists|i: int|
                0 <= i < children.len() && (#[trigger] children[i]).holds(columns, row),
        }
    }

    /// Every column that the formula names is a column of the table.
    pub open spec fn names_only(self, columns: Seq<ColumnView>) -> bool
        decreases self,
    {
        match self {
            Formula::True => true,
            Formula::Eq(column, _) => has_column(columns, column),
            Formula::Neq(column, _) => has_column(columns, column),
            Formula::Gt(column, _) => has_column(columns, column),
            Formula::Lt(column, _) => has_column(columns, column),
            Formula::And(children) => forall|i: int|
                0 <= i < children.len() ==> (#[trigger] children[i]).names_only(columns),
            Formula::Or(children) => forall|i: int|
                0 <= i < children.len() ==> (#[trigger] children[i]).names_only(columns),
        }
    }
}

/// Some column has the given name.
pub open spec fn has_column(columns: Seq<ColumnView>, name: Seq<char>) -> bool {
    exists|i: int| 0 <= i < columns.len() && (#[trigger] columns[i]).name == name
}

/// Looks up the value that a row holds under a column name.
pub fn find_cell<'a>(table: &Table, row: &'a Vec<Value>, name: &String) -> (found: Option<&'a Value>)
    ensures
        match found {
            Some(value) => cell(table@.columns, row_data(row@), name@) == Some(value@),
            None => cell(table@.columns, row_data(row@), name@) is None,
        },
{
    let mut i: usize = 0;
    while i < table.columns.len() && i < row.len()
        invariant
            cell(table@.columns, row_data(row@), name@) == cell_from(
                table@.columns,
                row_data(row@),
                name@,
                i as int,
            ),
        decreases table.columns.len() - i,
    {
        if table.columns[i].name == *name {
            return Some(&row[i]);
        }
        i = i + 1;
    }
    None
}

impl Predicate {
    /// The comparison of a column with a value.
    pub fn comparison(kind: Comparison, column: String, value: Value) -> (p: Predicate)
        ensures
            p@ == comparison_of(kind, column@, value@),
    {
        match kind {
            Comparison::Eq => Predicate::Eq(column, value),
            Comparison::Neq => Predicate::Neq(column, value),
            Comparison::Gt => Predicate::Gt(column, value),
            Comparison::Lt => Predicate::Lt(column, value),
        }
    }

    /// The combination of predicates under a connective.
    pub fn connect(connective: Connective, children: Vec<Predicate>) -> (p: Predicate)
        ensures
            p@ == connected(connective, formulas(children@)),
    {
        match connective {
            Connective::And => Predicate::And(children),
            Connective::Or => Predicate::Or(children),
        }
    }

    /// The predicate that every row satisfies.
    pub fn true_() -> (p: Predicate)
        ensures
            p@ == Formula::True,
    {
        Predicate::True
    }

    /// The predicate that no row satisfies: the empty disjunction.
    pub fn false_() -> (p: Predicate)
        ensures
            p@ == Formula::Or(Seq::empty()),
    {
        let p = Predicate::Or(Vec::new());
        assert(formulas(Seq::<Predicate>::empty()) =~= Seq::<Formula>::empty());
        p
    }

    /// Evaluates the predicate on a row of the table.
    pub fn test(&self, row: &Vec<Value>, table: &Table) -> (b: bool)
        ensures
            b == self@.holds(table@.columns, row_data(row@)),
        decreases self,
    {
        match self {
            Predicate::True => true,
            Predicate::Eq(column, value) => match find_cell(table, row, column) {
                Some(found) => found.same_as(value),
                None => false,
            },
            Predicate::Neq(column, value) => match find_cell(table, row, column) {
                Some(found) => !found.same_as(value),
                None => true,
            },
            Predicate::Gt(column, value) => match find_cell(table, row, column) {
                Some(found) => value.less_than(found),
                None => false,
            },
            Predicate::Lt(column, value) => match find_cell(table, row, column) {
                Some(found) => found.less_than(value),
                None => false,
            },
            Predicate::And(children) => all_hold(children, row, table),
            Predicate::Or(children) => any_holds(children, row, table),
        }
    }
}

/// Whether every predicate of a list holds on a row of the table.
pub fn all_hold(predicates: &Vec<Predicate>, row: &Vec<Value>, table: &Table) -> (b: bool)
    ensures
        b == Formula::And(formulas(predicates@)).holds(table@.columns, row_data(row@)),
    decreases predicates,
{
    let mut i: usize = 0;
    while i < predicates.len()
        invariant
            i <= predicates.len(),
            forall|k: int|
                0 <= k < i ==> (#[trigger] formulas(predicates@)[k]).holds(
                    table@.columns,
                    row_data(row@),
                ),
        decreases predicates.len() - i,
    {
        if !predicates[i].test(row, table) {
            proof {
                lemma_and_holds(formulas(predicates@), table@.columns, row_data(row@));
                assert(!formulas(predicates@)[i as int].holds(table@.columns, row_data(row@)));
            }
            return false;
        }
        i = i + 1;
    }
    proof {
        lemma_and_holds(formulas(predicates@), table@.columns, row_data(row@));
    }
    true
}

/// Whether some predicate of a list holds on a row of the table.
pub fn any_holds(predicates: &Vec<Predicate>, row: &Vec<Value>, table: &Table) -> (b: bool)
    ensures
        b == Formula::Or(formulas(predicates@)).holds(table@.columns, row_data(row@)),
    decreases predicates,
{
    let mut i: usize = 0;
    while i < predicates.len()
        invariant
            i <= predicates.len(),
            forall|k: int|
                0 <= k < i ==> !(#[trigger] formulas(predicates@)[k]).holds(
                    table@.columns,
                    row_data(row@),
                ),
        decreases predicates.len() - i,
    {
        if predicates[i].test(row, table) {
            proof {
                lemma_or_holds(formulas(predicates@), table@.columns, row_data(row@));
                assert(formulas(predicates@)[i as int].holds(table@.columns, row_data(row@)));
            }
            return true;
        }
        i = i + 1;
    }
    proof {
        lemma_or_holds(formulas(predicates@), table@.columns, row_data(row@));
    }
    false
}

/// A comparison evaluates to what its operator makes of the value that the
/// row holds under the column name. Where the row holds none, only the
/// inequality holds.
pub proof fn lemma_comparison_holds(
    kind: Comparison,
    column: Seq<char>,
    value: Datum,
    columns: Seq<ColumnView>,
    row: Seq<Datum>,
)
    ensures
        comparison_of(kind, column, value).holds(columns, row) == match cell(columns, row, column) {
            Some(found) => compares(kind, found, value),
            None => kind == Comparison::Neq,
        },
{
}

/// The empty conjunction holds on every row and the empty disjunction on
/// none.
pub proof fn lemma_empty_connectives(columns: Seq<ColumnView>, row: Seq<Datum>)
    ensures
        Formula::And(Seq::empty()).holds(columns, row),
        !Formula::Or(Seq::empty()).holds(columns, row),
{
    lemma_and_holds(Seq::empty(), columns, row);
    lemma_or_holds(Seq::empty(), columns, row);
}

/// A conjunction holds exactly when each of its children holds.
pub proof fn lemma_and_holds(children: Seq<Formula>, columns: Seq<ColumnView>, row: Seq<Datum>)
    ensures
        Formula::And(children).holds(columns, row) <==> (forall|i: int|
            0 <= i < children.len() ==> (#[trigger] children[i]).holds(columns, row)),
{
    let whole = Formula::And(children);
    assert forall|i: int| #![trigger children[i]] 0 <= i < children.len() implies decreases_to!(whole => whole->And_0[i]) by {}
}

/// A disjunction holds exactly when one of its children holds.
pub proof fn lemma_or_holds(children: Seq<Formula>, columns: Seq<ColumnView>, row: Seq<Datum>)
    ensures
        Formula::Or(children).holds(columns, row) <==> (exists|i: int|
            0 <= i < children.len() && (#[trigger] children[i]).holds(columns, row)),
{
    let whole = Formula::Or(children);
    assert forall|i: int| #![trigger children[i]] 0 <= i < children.len() implies decreases_to!(whole => whole->Or_0[i]) by {}
}

/// A conjunction or disjunction names only columns of the table exactly
/// when each of its children does.
pub proof fn lemma_names_only(children: Seq<Formula>, columns: Seq<ColumnView>)
    ensures
        Formula::And(children).names_only(columns) <==> (forall|i: int|
            0 <= i < children.len() ==> (#[trigger] children[i]).names_only(columns)),
        Formula::Or(children).names_only(columns) <==> (forall|i: int|
            0 <= i < children.len() ==> (#[trigger] children[i]).names_only(columns)),
{
    let conj = Formula::And(children);
    assert forall|i: int| #![trigger children[i]] 0 <= i < children.len() implies decreases_to!(conj => conj->And_0[i]) by {}
    let disj = Formula::Or(children);
    assert forall|i: int| #![trigger children[i]] 0 <= i < children.len() implies decreases_to!(disj => disj->Or_0[i]) by {}
}

} // verus!
