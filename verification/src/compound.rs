//! Conjunctions and disjunctions of simple predicates whose children's
//! outcomes add up to a requested outcome.

use crate::entropy::{draw_below, draw_ratio};
use crate::error::GenError;
use crate::predicate::{connected, formulas, lemma_names_only, Connective, Formula, Predicate};
use crate::simple::{lemma_simple_names_column, simple_for, SimplePredicate};
use crate::table::{Table, TableView};
use rand::rngs::StdRng;
use vstd::pervasive::unreached;
use vstd::prelude::*;

verus! {

/// A predicate that is a conjunction or a disjunction of simple predicates.
#[derive(Debug, Clone, PartialEq, Eq)]
pub struct CompoundPredicate(pub Predicate);

/// The most children that a compound predicate has.
pub const MAX_FAN_OUT: usize = 3;

/// Whether the outcome of a connective is decided by a single child: a
/// conjunction is false as soon as one child is, a disjunction true as soon
/// as one child is. Otherwise all children must have the outcome.
pub open spec fn needs_witness(connective: Connective, outcome: bool) -> bool {
    (connective == Connective::And) != outcome
}

/// The children's outcomes give the connective the requested outcome: where
/// one child decides, some child has the outcome; otherwise all have it.
pub open spec fn labels_fit(connective: Connective, outcome: bool, labels: Seq<bool>) -> bool {
    if needs_witness(connective, outcome) {
        labels.contains(outcome)
    } else {
        forall|i: int| 0 <= i < labels.len() ==> labels[i] == outcome
    }
}

/// Each child is a simple predicate for the outcome at its position.
pub open spec fn children_fit(children: Seq<Formula>, table: TableView, labels: Seq<bool>) -> bool {
    &&& children.len() == labels.len()
    &&& forall|i: int| 0 <= i < children.len() ==> simple_for(#[trigger] children[i], table, labels[i])
}

/// `formula` is a compound predicate for `outcome`: at most three simple
/// predicates under one connective, with outcomes that give the connective
/// the requested outcome.
pub open spec fn compound_for(formula: Formula, table: TableView, outcome: bool) -> bool {
    exists|connective: Connective, children: Seq<Formula>, labels: Seq<bool>|
        #![trigger connected(connective, children), children_fit(children, table, labels)]
        {
            &&& connected(connective, children) == formula
            &&& children.len() <= MAX_FAN_OUT
            &&& children_fit(children, table, labels)
            &&& labels_fit(connective, outcome, labels)
        }
}

/// A compound predicate names columns of the table only.
pub proof fn lemma_compound_names_columns(formula: Formula, table: TableView, outcome: bool)
    requires
        compound_for(formula, table, outcome),
    ensures
        formula.names_only(table.columns),
{
    let (connective, children, labels) = choose|
        connective: Connective,
        children: Seq<Formula>,
        labels: Seq<bool>,
    |
        #![trigger connected(connective, children), children_fit(children, table, labels)]
        {
            &&& connected(connective, children) == formula
            &&& children.len() <= MAX_FAN_OUT
            &&& children_fit(children, table, labels)
            &&& labels_fit(connective, outcome, labels)
        };
    assert forall|i: int| 0 <= i < children.len() implies (#[trigger] children[i]).names_only(
        table.columns,
    ) by {
        lemma_simple_names_column(children[i], table, labels[i]);
    }
    lemma_names_only(children, table.columns);
}

/// What [`settle`] turns a list of outcomes into: the list itself where it
/// holds the wanted outcome, and else the list with the wanted outcome put
/// at `position`.
pub open spec fn settled(labels: Seq<bool>, wanted: bool, position: int) -> Seq<bool> {
    if labels.contains(wanted) {
        labels
    } else {
        labels.update(position, wanted)
    }
}

/// Makes sure that a list of outcomes holds the wanted one, by forcing it
/// at `position` where all outcomes are the opposite.
pub fn settle(labels: &mut Vec<bool>, wanted: bool, position: usize)
    requires
        position < old(labels).len(),
    ensures
        final(labels)@ == settled(old(labels)@, wanted, position as int),
        final(labels)@.contains(wanted),
{
    let mut i: usize = 0;
    while i < labels.len()
        invariant
            i <= labels.len(),
            labels@ == old(labels)@,
            forall|k: int| 0 <= k < i ==> labels[k] != wanted,
        decreases labels.len() - i,
    {
        if labels[i] == wanted {
            assert(labels@[i as int] == wanted);
            return ;
        }
        i = i + 1;
    }
    labels.set(position, wanted);
    assert(labels@[position as int] == wanted);
}

/// Draws the outcomes of the children of a compound predicate.
///
/// Where all children must have the outcome, between none and three
/// children are drawn. Where one child decides, between one and three
/// children are drawn, each with either outcome, and one is forced to the
/// deciding outcome if none has it.
pub fn draw_labels(rng: &mut StdRng, connective: Connective, outcome: bool) -> (labels: Vec<bool>)
    ensures
        labels.len() <= MAX_FAN_OUT,
        labels_fit(connective, outcome, labels@),
{
    let decided_by_one = match connective {
        Connective::And => !outcome,
        Connective::Or => outcome,
    };
    let mut labels: Vec<bool> = Vec::new();
    if decided_by_one {
        let count = draw_below(rng, MAX_FAN_OUT as u128) as usize + 1;
        let mut i: usize = 0;
        while i < count
            invariant
                i <= count <= MAX_FAN_OUT,
                labels.len() == i,
            decreases count - i,
        {
            labels.push(draw_ratio(rng, 1, 2));
            i = i + 1;
        }
        let position = draw_below(rng, count as u128) as usize;
        settle(&mut labels, outcome, position);
    } else {
        let count = draw_below(rng, MAX_FAN_OUT as u128 + 1) as usize;
        let mut i: usize = 0;
        while i < count
            invariant
                i <= count <= MAX_FAN_OUT,
                labels.len() == i,
                forall|k: int| 0 <= k < i ==> labels[k] == outcome,
            decreases count - i,
        {
            labels.push(outcome);
            i = i + 1;
        }
    }
    labels
}

impl CompoundPredicate {
    /// Draws a compound predicate for `outcome`: a conjunction with
    /// probability 7 in 10, else a disjunction.
    ///
    /// Fails exactly when the table has no column or a row of another
    /// length than the column count. A table without rows is in order.
    pub fn arbitrary_from(rng: &mut StdRng, table: &Table, outcome: bool) -> (drawn: Result<
        CompoundPredicate,
        GenError,
    >)
        ensures
            drawn is Err <==> !table@.well_formed(),
            drawn matches Err(e) ==> e == GenError::MalformedInput,
            drawn matches Ok(compound) ==> compound_for(compound.0@, table@, outcome),
            drawn matches Ok(compound) ==> compound.0@.names_only(table@.columns),
    {
        if !table.is_well_formed() {
            return Err(GenError::MalformedInput);
        }
        let connective = if draw_ratio(rng, 7, 10) {
            Connective::And
        } else {
            Connective::Or
        };
        let labels = draw_labels(rng, connective, outcome);
        let mut children: Vec<Predicate> = Vec::new();
        let mut i: usize = 0;
        while i < labels.len()
            invariant
                table@.well_formed(),
                i <= labels.len(),
                children.len() == i,
                forall|k: int| 0 <= k < i ==> simple_for((#[trigger] children[k])@, table@, labels[k]),
            decreases labels.len() - i,
        {
            match SimplePredicate::arbitrary_from(rng, table, labels[i]) {
                Ok(simple) => children.push(simple.0),
                Err(_) => unreached(),
            }
            i = i + 1;
        }
        let ghost views = formulas(children@);
        let p = Predicate::connect(connective, children);
        proof {
            assert(children_fit(views, table@, labels@));
            assert(connected(connective, views) == p@);
            lemma_compound_names_columns(p@, table@, outcome);
        }
        Ok(CompoundPredicate(p))
    }
}

impl Predicate {
    /// Draws a compound predicate for an outcome that is itself drawn, true
    /// and false being equally likely.
    ///
    /// Fails exactly when the table has no column or a row of another
    /// length than the column count.
    pub fn arbitrary_from(rng: &mut StdRng, table: &Table) -> (drawn: Result<Predicate, GenError>)
        ensures
            drawn is Err <==> !table@.well_formed(),
            drawn matches Err(e) ==> e == GenError::MalformedInput,
            drawn matches Ok(p) ==> compound_for(p@, table@, true) || compound_for(p@, table@, false),
            drawn matches Ok(p) ==> p@.names_only(table@.columns),
    {
        let outcome = draw_ratio(rng, 1, 2);
        match CompoundPredicate::arbitrary_from(rng, table, outcome) {
            Ok(compound) => Ok(compound.0),
            Err(e) => Err(e),
        }
    }
}

} // verus!
