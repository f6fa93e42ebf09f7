//! Statements against a table, drawn by fixed frequencies or by the
//! operations a caller still wants.

use crate::arbitrary::append_letters;
use crate::choice::{frequency, pick};
use crate::compound::compound_for;
use crate::entropy::draw_below;
use crate::error::GenError;
use crate::predicate::Predicate;
use crate::table::{columns_data, distinct_names, row_data, Column, ColumnView, Table, TableView};
use crate::value::{ColumnType, Datum, Value};
use rand::rngs::StdRng;
use vstd::prelude::*;

verus! {

/// The most columns that [`Table::arbitrary`] gives a table.
pub const MAX_COLUMNS: usize = 9;

/// The most letters that [`Table::arbitrary`] gives a table's name.
pub const MAX_NAME_LEN: usize = 8;

/// One more than the most rows that an insertion holds.
pub const INSERT_ROWS_END: usize = 10;

/// The creation of a table.
#[derive(Debug, Clone, PartialEq, Eq)]
pub struct Create {
    pub table: Table,
}

/// The selection of the rows of a table that satisfy a predicate.
#[derive(Debug, Clone, PartialEq, Eq)]
pub struct Select {
    pub table: String,
    pub predicate: Predicate,
}

/// The insertion of rows into a table.
#[derive(Debug, Clone, PartialEq, Eq)]
pub struct Insert {
    pub table: String,
    pub values: Vec<Vec<Value>>,
}

/// The deletion of the rows of a table that satisfy a predicate.
#[derive(Debug, Clone, PartialEq, Eq)]
pub struct Delete {
    pub table: String,
    pub predicate: Predicate,
}

/// A statement.
#[derive(Debug, Clone, PartialEq, Eq)]
pub enum Query {
    Create(Create),
    Select(Select),
    Insert(Insert),
    Delete(Delete),
}

/// The four kinds of statement.
#[derive(Clone, Copy, Debug, PartialEq, Eq, Structural)]
pub enum QueryKind {
    Create,
    Select,
    Insert,
    Delete,
}

/// How many operations of each class a caller still wants.
#[derive(Clone, Copy, Debug, PartialEq, Eq, Structural)]
pub struct Remaining {
    pub read: u32,
    pub write: u32,
    pub create: u32,
}

/// The row holds one value for each column, each of its column's type.
pub open spec fn row_typed(row: Seq<Datum>, columns: Seq<ColumnView>) -> bool {
    &&& row.len() == columns.len()
    &&& forall|c: int| 0 <= c < row.len() ==> (#[trigger] row[c]).has_type(columns[c].column_type)
}

/// `predicate` is a compound predicate over the table, for one outcome or
/// the other.
pub open spec fn filters(predicate: Predicate, table: TableView) -> bool {
    compound_for(predicate@, table, true) || compound_for(predicate@, table, false)
}

impl Create {
    /// The table is freshly made: at least one column, distinct column
    /// names, no rows.
    pub open spec fn fresh(&self) -> bool {
        &&& self.table@.well_formed()
        &&& distinct_names(self.table@.columns)
        &&& self.table@.rows.len() == 0
    }
}

impl Select {
    /// The selection is one from the given table: it carries the table's
    /// name and a compound predicate over the table.
    pub open spec fn reads(&self, table: TableView) -> bool {
        self.table@ == table.name && filters(self.predicate, table)
    }
}

impl Delete {
    /// The deletion is one from the given table: it carries the table's
    /// name and a compound predicate over the table.
    pub open spec fn clears(&self, table: TableView) -> bool {
        self.table@ == table.name && filters(self.predicate, table)
    }
}

impl Insert {
    /// The insertion is one into the given table: it carries the table's
    /// name and between one and nine rows, each of which holds one value of
    /// the right type for each column.
    pub open spec fn fills(&self, table: TableView) -> bool {
        &&& self.table@ == table.name
        &&& 1 <= self.values.len() < INSERT_ROWS_END
        &&& forall|r: int|
            0 <= r < self.values.len() ==> row_typed(row_data((#[trigger] self.values[r])@), table.columns)
    }
}

impl Query {
    /// The kind of the statement.
    pub open spec fn kind(&self) -> QueryKind {
        match self {
            Query::Create(_) => QueryKind::Create,
            Query::Select(_) => QueryKind::Select,
            Query::Insert(_) => QueryKind::Insert,
            Query::Delete(_) => QueryKind::Delete,
        }
    }

    /// The statement is one drawn against the given table: a creation of a
    /// fresh table, or a selection, insertion or deletion on the given one.
    pub open spec fn targets(&self, table: TableView) -> bool {
        match self {
            Query::Create(create) => create.fresh(),
            Query::Select(select) => select.reads(table),
            Query::Insert(insert) => insert.fills(table),
            Query::Delete(delete) => delete.clears(table),
        }
    }
}

impl QueryKind {
    /// The kind at a position: the four kinds in the order in which they
    /// are declared.
    pub fn from_index(index: usize) -> (kind: QueryKind)
        requires
            index < 4,
        ensures
            kind == match index {
                0 => QueryKind::Create,
                1 => QueryKind::Select,
                2 => QueryKind::Insert,
                _ => QueryKind::Delete,
            },
    {
        if index == 0 {
            QueryKind::Create
        } else if index == 1 {
            QueryKind::Select
        } else if index == 2 {
            QueryKind::Insert
        } else {
            QueryKind::Delete
        }
    }
}

impl ColumnType {
    /// The column type at a position: the three types in the order in which
    /// they are declared.
    pub fn from_index(index: usize) -> (column_type: ColumnType)
        requires
            index < 3,
        ensures
            column_type == match index {
                0 => ColumnType::Integer,
                1 => ColumnType::Text,
                _ => ColumnType::Blob,
            },
    {
        if index == 0 {
            ColumnType::Integer
        } else if index == 1 {
            ColumnType::Text
        } else {
            ColumnType::Blob
        }
    }
}

impl Table {
    /// Draws a table without rows: a name of one to eight letters and one
    /// to nine columns of arbitrary types. The column at position `i` gets
    /// a name of `i + 1` letters, so no two columns share a name.
    pub fn arbitrary(rng: &mut StdRng) -> (table: Table)
        ensures
            table@.well_formed(),
            distinct_names(table@.columns),
            table@.rows.len() == 0,
            1 <= table@.name.len() <= MAX_NAME_LEN,
            table@.columns.len() <= MAX_COLUMNS,
    {
        let name_len = draw_below(rng, MAX_NAME_LEN as u128) as usize + 1;
        let mut name = String::new();
        append_letters(rng, &mut name, name_len);
        let count = draw_below(rng, MAX_COLUMNS as u128) as usize + 1;
        let mut columns: Vec<Column> = Vec::new();
        let mut i: usize = 0;
        while i < count
            invariant
                i <= count <= MAX_COLUMNS,
                columns.len() == i,
                forall|k: int| 0 <= k < i ==> (#[trigger] columns[k]).name@.len() == k + 1,
            decreases count - i,
        {
            let mut column_name = String::new();
            append_letters(rng, &mut column_name, i + 1);
            let column_type = ColumnType::from_index(draw_below(rng, 3) as usize);
            columns.push(Column { name: column_name, column_type });
            i = i + 1;
        }
        let table = Table { name, columns, rows: Vec::new() };
        proof {
            let views = table@.columns;
            assert forall|a: int, b: int| 0 <= a < b < views.len() implies (#[trigger] views[a]).name != (
            #[trigger] views[b]).name by {
                assert(views[a].name.len() == a + 1);
                assert(views[b].name.len() == b + 1);
            }
        }
        table
    }
}

impl Create {
    /// Draws the creation of a table drawn by [`Table::arbitrary`].
    pub fn arbitrary(rng: &mut StdRng) -> (create: Create)
        ensures
            create.fresh(),
    {
        Create { table: Table::arbitrary(rng) }
    }
}

impl Select {
    /// Draws a selection from the given table.
    ///
    /// Fails exactly when the table has no column or a row of another
    /// length than the column count.
    pub fn on_table(rng: &mut StdRng, table: &Table) -> (drawn: Result<Select, GenError>)
        ensures
            drawn is Err <==> !table@.well_formed(),
            drawn matches Err(e) ==> e == GenError::MalformedInput,
            drawn matches Ok(select) ==> select.reads(table@),
    {
        match Predicate::arbitrary_from(rng, table) {
            Ok(predicate) => Ok(Select { table: table.name.clone(), predicate }),
            Err(e) => Err(e),
        }
    }

    /// Draws a selection from one of the given tables, each being equally
    /// likely.
    ///
    /// Fails with `EmptyChoiceSet` exactly when no table is given, and with
    /// `MalformedInput` when the table drawn has no column or a row of
    /// another length than the column count; so it succeeds whenever there
    /// is a table and every table is well formed.
    pub fn arbitrary_from(rng: &mut StdRng, tables: &Vec<Table>) -> (drawn: Result<Select, GenError>)
        ensures
            drawn == Err::<Select, GenError>(GenError::EmptyChoiceSet) <==> tables.len() == 0,
            drawn matches Err(e) ==> e == GenError::EmptyChoiceSet || (e == GenError::MalformedInput
                && exists|i: int| 0 <= i < tables.len() && !(#[trigger] tables[i])@.well_formed()),
            drawn matches Ok(select) ==> exists|i: int|
                0 <= i < tables.len() && (#[trigger] tables[i])@.well_formed() && select.reads(tables[i]@),
    {
        match pick(rng, tables) {
            Ok(table) => Select::on_table(rng, table),
            Err(e) => Err(e),
        }
    }

    /// Draws a selection from one of the given tables, each being equally
    /// likely.
    ///
    /// Fails with `EmptyChoiceSet` exactly when no table is given, and with
    /// `MalformedInput` when the table drawn has no column or a row of
    /// another length than the column count; so it succeeds whenever there
    /// is a table and every table is well formed.
    pub fn arbitrary_from_refs(rng: &mut StdRng, tables: &Vec<&Table>) -> (drawn: Result<
        Select,
        GenError,
    >)
        ensures
            drawn == Err::<Select, GenError>(GenError::EmptyChoiceSet) <==> tables.len() == 0,
            drawn matches Err(e) ==> e == GenError::EmptyChoiceSet || (e == GenError::MalformedInput
                && exists|i: int| 0 <= i < tables.len() && !(*#[trigger] tables[i])@.well_formed()),
            drawn matches Ok(select) ==> exists|i: int|
                0 <= i < tables.len() && (*#[trigger] tables[i])@.well_formed() && select.reads(
                    (*tables[i])@,
                ),
    {
        match pick(rng, tables) {
            Ok(table) => Select::on_table(rng, *table),
            Err(e) => Err(e),
        }
    }
}

impl Delete {
    /// Draws a deletion from the given table.
    ///
    /// Fails exactly when the table has no column or a row of another
    /// length than the column count.
    pub fn arbitrary_from(rng: &mut StdRng, table: &Table) -> (drawn: Result<Delete, GenError>)
        ensures
            drawn is Err <==> !table@.well_formed(),
            drawn matches Err(e) ==> e == GenError::MalformedInput,
            drawn matches Ok(delete) ==> delete.clears(table@),
    {
        match Predicate::arbitrary_from(rng, table) {
            Ok(predicate) => Ok(Delete { table: table.name.clone(), predicate }),
            Err(e) => Err(e),
        }
    }
}

/// Draws a row that holds one value of the right type for each column.
pub fn arbitrary_row(rng: &mut StdRng, columns: &Vec<Column>) -> (row: Vec<Value>)
    ensures
        row_typed(row_data(row@), columns_data(columns@)),
{
    let mut row: Vec<Value> = Vec::new();
    let mut c: usize = 0;
    while c < columns.len()
        invariant
            c <= columns.len(),
            row.len() == c,
            forall|k: int| 0 <= k < c ==> (#[trigger] row[k])@.has_type(columns[k].column_type),
        decreases columns.len() - c,
    {
        row.push(Value::arbitrary_from(rng, columns[c].column_type));
        c = c + 1;
    }
    row
}

impl Insert {
    /// Draws an insertion of one to nine rows into the given table.
    ///
    /// Fails exactly when the table has no column.
    pub fn arbitrary_from(rng: &mut StdRng, table: &Table) -> (drawn: Result<Insert, GenError>)
        ensures
            drawn is Err <==> table.columns.len() == 0,
            drawn matches Err(e) ==> e == GenError::MalformedInput,
            drawn matches Ok(insert) ==> insert.fills(table@),
    {
        if table.columns.len() == 0 {
            return Err(GenError::MalformedInput);
        }
        let count = draw_below(rng, INSERT_ROWS_END as u128 - 1) as usize + 1;
        let mut values: Vec<Vec<Value>> = Vec::new();
        let mut r: usize = 0;
        while r < count
            invariant
                r <= count < INSERT_ROWS_END,
                values.len() == r,
                forall|k: int|
                    0 <= k < r ==> row_typed(row_data((#[trigger] values[k])@), table@.columns),
            decreases count - r,
        {
            values.push(arbitrary_row(rng, &table.columns));
            r = r + 1;
        }
        Ok(Insert { table: table.name.clone(), values })
    }
}

impl Query {
    /// Draws a statement of the given kind against the table.
    ///
    /// Fails exactly when the table has no column or a row of another
    /// length than the column count.
    pub fn of_kind(rng: &mut StdRng, table: &Table, kind: QueryKind) -> (drawn: Result<Query, GenError>)
        ensures
            drawn is Err <==> !table@.well_formed(),
            drawn matches Err(e) ==> e == GenError::MalformedInput,
            drawn matches Ok(query) ==> query.kind() == kind && query.targets(table@),
    {
        if !table.is_well_formed() {
            return Err(GenError::MalformedInput);
        }
        match kind {
            QueryKind::Create => Ok(Query::Create(Create::arbitrary(rng))),
            QueryKind::Select => match Select::on_table(rng, table) {
                Ok(select) => Ok(Query::Select(select)),
                Err(e) => Err(e),
            },
            QueryKind::Insert => match Insert::arbitrary_from(rng, table) {
                Ok(insert) => Ok(Query::Insert(insert)),
                Err(e) => Err(e),
            },
            QueryKind::Delete => match Delete::arbitrary_from(rng, table) {
                Ok(delete) => Ok(Query::Delete(delete)),
                Err(e) => Err(e),
            },
        }
    }

    /// Draws a statement against the table, of a kind drawn with the given
    /// weights for creation, selection, insertion and deletion.
    ///
    /// Fails with `MalformedInput` exactly when the table has no column or
    /// a row of another length than the column count, and otherwise with
    /// `EmptyChoiceSet` exactly when all four weights are zero. A kind of
    /// weight zero is never drawn.
    pub fn weighted(
        rng: &mut StdRng,
        table: &Table,
        create: u32,
        select: u32,
        insert: u32,
        delete: u32,
    ) -> (drawn: Result<Query, GenError>)
        ensures
            drawn == Err::<Query, GenError>(GenError::MalformedInput) <==> !table@.well_formed(),
            drawn == Err::<Query, GenError>(GenError::EmptyChoiceSet) <==> table@.well_formed() && create
                == 0 && select == 0 && insert == 0 && delete == 0,
            drawn matches Err(e) ==> e == GenError::MalformedInput || e == GenError::EmptyChoiceSet,
            drawn matches Ok(query) ==> {
                &&& query.targets(table@)
                &&& query is Create ==> create > 0
                &&& query is Select ==> select > 0
                &&& query is Insert ==> insert > 0
                &&& query is Delete ==> delete > 0
            },
    {
        if !table.is_well_formed() {
            return Err(GenError::MalformedInput);
        }
        let mut weights: Vec<u32> = Vec::new();
        weights.push(create);
        weights.push(select);
        weights.push(insert);
        weights.push(delete);
        proof {
            crate::choice::lemma_weight_sum_of_four(weights@);
        }
        match frequency(rng, &weights) {
            Ok(index) => Query::of_kind(rng, table, QueryKind::from_index(index)),
            Err(e) => Err(e),
        }
    }

    /// Draws a statement against the table: a creation with weight 1, a
    /// selection and an insertion with weight 100 each, and never a
    /// deletion.
    ///
    /// Fails exactly when the table has no column or a row of another
    /// length than the column count.
    pub fn arbitrary_from(rng: &mut StdRng, table: &Table) -> (drawn: Result<Query, GenError>)
        ensures
            drawn is Err <==> !table@.well_formed(),
            drawn matches Err(e) ==> e == GenError::MalformedInput,
            drawn matches Ok(query) ==> query.targets(table@) && !(query is Delete),
    {
        Query::weighted(rng, table, 1, 100, 100, 0)
    }

    /// Draws a statement against the table, with the operations that the
    /// caller still wants as weights: creations, reads for selections and
    /// writes for insertions. A deletion is never drawn.
    ///
    /// Fails with `MalformedInput` exactly when the table has no column or
    /// a row of another length than the column count, and otherwise with
    /// `EmptyChoiceSet` exactly when nothing is wanted any more.
    pub fn arbitrary_from_remaining(rng: &mut StdRng, table: &Table, remaining: &Remaining) -> (drawn:
        Result<Query, GenError>)
        ensures
            drawn == Err::<Query, GenError>(GenError::MalformedInput) <==> !table@.well_formed(),
            drawn == Err::<Query, GenError>(GenError::EmptyChoiceSet) <==> table@.well_formed()
                && remaining.create == 0 && remaining.read == 0 && remaining.write == 0,
            drawn matches Err(e) ==> e == GenError::MalformedInput || e == GenError::EmptyChoiceSet,
            drawn matches Ok(query) ==> {
                &&& query.targets(table@)
                &&& query is Create ==> remaining.create > 0
                &&& query is Select ==> remaining.read > 0
                &&& query is Insert ==> remaining.write > 0
                &&& !(query is Delete)
            },
    {
        Query::weighted(rng, table, remaining.create, remaining.read, remaining.write, 0)
    }
}

} // verus!
