//! Tables: a schema and the rows currently stored.

use crate::value::{ColumnType, Datum, Value};
use vstd::prelude::*;

verus! {

/// A column of a table.
#[derive(Debug, Clone, PartialEq, Eq)]
pub struct Column {
    pub name: String,
    pub column_type: ColumnType,
}

/// What a [`Column`] stands for.
pub struct ColumnView {
    pub name: Seq<char>,
    pub column_type: ColumnType,
}

impl View for Column {
    type V = ColumnView;

    open spec fn view(&self) -> ColumnView {
        ColumnView { name: self.name@, column_type: self.column_type }
    }
}

/// A table: its name, its columns in order, and its rows in order, each row
/// a list of values.
#[derive(Debug, Clone, PartialEq, Eq)]
pub struct Table {
    pub name: String,
    pub columns: Vec<Column>,
    pub rows: Vec<Vec<Value>>,
}

/// What a [`Table`] stands for.
pub struct TableView {
    pub name: Seq<char>,
    pub columns: Seq<ColumnView>,
    pub rows: Seq<Seq<Datum>>,
}

/// The data that a row of values stands for.
pub open spec fn row_data(row: Seq<Value>) -> Seq<Datum> {
    Seq::new(row.len(), |i: int| row[i]@)
}

/// The views of a list of columns.
pub open spec fn columns_data(columns: Seq<Column>) -> Seq<ColumnView> {
    Seq::new(columns.len(), |i: int| columns[i]@)
}

impl View for Table {
    type V = TableView;

    open spec fn view(&self) -> TableView {
        TableView {
            name: self.name@,
            columns: columns_data(self.columns@),
            rows: Seq::new(self.rows.len() as nat, |i: int| row_data(self.rows[i]@)),
        }
    }
}

/// A row fits a list of columns when there is at least one column and the
/// row holds one value for each.
pub open spec fn row_fits(columns: Seq<ColumnView>, row: Seq<Datum>) -> bool {
    columns.len() > 0 && row.len() == columns.len()
}

/// No two columns share a name.
pub open spec fn distinct_names(columns: Seq<ColumnView>) -> bool {
    forall|i: int, j: int|
        0 <= i < j < columns.len() ==> (#[trigger] columns[i]).name != (#[trigger] columns[j]).name
}

/// The value that a row holds under a column name: the value at the
/// position of the first column of that name, looked for from position
/// `from` on. There is none where no such column exists or the row ends
/// before it.
pub open spec fn cell_from(
    columns: Seq<ColumnView>,
    row: Seq<Datum>,
    name: Seq<char>,
    from: int,
) -> Option<Datum>
    decreases columns.len() - from,
{
    if from < 0 || from >= columns.len() || from >= row.len() {
        None
    } else if columns[from].name == name {
        Some(row[from])
    } else {
        cell_from(columns, row, name, from + 1)
    }
}

/// The value that a row holds under a column name.
pub open spec fn cell(columns: Seq<ColumnView>, row: Seq<Datum>, name: Seq<char>) -> Option<Datum> {
    cell_from(columns, row, name, 0)
}

/// Under a column's name a row holds the value at that column's position,
/// provided no earlier column has the same name.
pub proof fn lemma_cell_at(columns: Seq<ColumnView>, row: Seq<Datum>, index: int, from: int)
    requires
        0 <= from <= index < columns.len(),
        index < row.len(),
        forall|j: int| from <= j < index ==> (#[trigger] columns[j]).name != columns[index].name,
    ensures
        cell_from(columns, row, columns[index].name, from) == Some(row[index]),
    decreases index - from,
{
    if from < index {
        lemma_cell_at(columns, row, index, from + 1);
    }
}

/// Under the name of each column that it reaches, a row holds a value.
pub proof fn lemma_cell_found(columns: Seq<ColumnView>, row: Seq<Datum>, index: int, from: int)
    requires
        0 <= from <= index < columns.len(),
        index < row.len(),
    ensures
        cell_from(columns, row, columns[index].name, from) is Some,
    decreases index - from,
{
    if columns[from].name != columns[index].name {
        lemma_cell_found(columns, row, index, from + 1);
    }
}

/// Where column names are distinct, a row holds under each column's name
/// the value at that column's position.
pub proof fn lemma_cell_of_distinct(columns: Seq<ColumnView>, row: Seq<Datum>, index: int)
    requires
        distinct_names(columns),
        0 <= index < columns.len(),
        index < row.len(),
    ensures
        cell(columns, row, columns[index].name) == Some(row[index]),
{
    lemma_cell_at(columns, row, index, 0);
}

impl TableView {
    /// The table has at least one column and every row holds one value for
    /// each column.
    pub open spec fn well_formed(self) -> bool {
        &&& self.columns.len() > 0
        &&& forall|r: int| 0 <= r < self.rows.len() ==> (#[trigger] self.rows[r]).len() == self.columns.len()
    }

    /// The values found in one column, row by row.
    pub open spec fn column_values(self, index: int) -> Seq<Datum> {
        Seq::new(self.rows.len(), |r: int| self.rows[r][index])
    }
}

impl Table {
    /// Whether the table has at least one column and every row holds one
    /// value for each column.
    pub fn is_well_formed(&self) -> (b: bool)
        ensures
            b == self@.well_formed(),
    {
        if self.columns.len() == 0 {
            return false;
        }
        let mut r: usize = 0;
        while r < self.rows.len()
            invariant
                r <= self.rows.len(),
                forall|k: int| 0 <= k < r ==> (#[trigger] self@.rows[k]).len() == self@.columns.len(),
            decreases self.rows.len() - r,
        {
            if self.rows[r].len() != self.columns.len() {
                assert(self@.rows[r as int].len() != self@.columns.len());
                return false;
            }
            r = r + 1;
        }
        true
    }

    /// Whether a row holds one value for each column of the table, and the
    /// table has a column at all.
    pub fn fits(&self, row: &Vec<Value>) -> (b: bool)
        ensures
            b == row_fits(self@.columns, row_data(row@)),
    {
        self.columns.len() > 0 && row.len() == self.columns.len()
    }

    /// Whether no two columns share a name.
    pub fn has_distinct_names(&self) -> (b: bool)
        ensures
            b == distinct_names(self@.columns),
    {
        let n = self.columns.len();
        let mut j: usize = 0;
        while j < n
            invariant
                n == self.columns.len(),
                j <= n,
                forall|a: int, b: int|
                    0 <= a < b < j ==> (#[trigger] self@.columns[a]).name != (
                    #[trigger] self@.columns[b]).name,
            decreases n - j,
        {
            let mut i: usize = 0;
            while i < j
                invariant
                    n == self.columns.len(),
                    j < n,
                    i <= j,
                    forall|a: int|
                        0 <= a < i ==> (#[trigger] self@.columns[a]).name != self@.columns[j as int].name,
                decreases j - i,
            {
                if self.columns[i].name == self.columns[j].name {
                    assert(self@.columns[i as int].name == self@.columns[j as int].name);
                    return false;
                }
                i = i + 1;
            }
            j = j + 1;
        }
        true
    }

    /// The values found in one column, row by row.
    pub fn column_values(&self, index: usize) -> (values: Vec<&Value>)
        requires
            self@.well_formed(),
            index < self.columns.len(),
        ensures
            values.len() == self.rows.len(),
            forall|r: int| 0 <= r < values.len() ==> *(#[trigger] values[r]) == self.rows[r][index as int],
            refs_data(values@) == self@.column_values(index as int),
    {
        let mut values: Vec<&Value> = Vec::new();
        let mut r: usize = 0;
        while r < self.rows.len()
            invariant
                self@.well_formed(),
                index < self.columns.len(),
                r <= self.rows.len(),
                values.len() == r,
                forall|k: int| 0 <= k < r ==> *(#[trigger] values[k]) == self.rows[k][index as int],
            decreases self.rows.len() - r,
        {
            assert(self@.rows[r as int].len() == self@.columns.len());
            values.push(&self.rows[r][index]);
            r = r + 1;
        }
        assert(refs_data(values@) =~= self@.column_values(index as int));
        values
    }
}

/// The data that a list of borrowed values stands for.
pub open spec fn refs_data(values: Seq<&Value>) -> Seq<Datum> {
    Seq::new(values.len(), |i: int| (*values[i])@)
}

} // verus!
