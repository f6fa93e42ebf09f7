//! Column types and the values a row holds.

use crate::order::{
    agree_before, byte_keys, char_keys, lemma_byte_keys_injective, lemma_char_keys_injective,
    lemma_lex_decided_at, lemma_lex_transitive, lemma_lex_trichotomy, lex_lt,
};
use vstd::prelude::*;
use vstd::string::*;

verus! {

/// The declared type of a column.
#[derive(Clone, Copy, Debug, PartialEq, Eq, Structural)]
pub enum ColumnType {
    Integer,
    Text,
    Blob,
}

/// What a [`Value`] stands for: NULL, an integer, a text as its code points,
/// or a blob as its bytes.
pub enum Datum {
    Null,
    Integer(int),
    Text(Seq<char>),
    Blob(Seq<u8>),
}

impl Datum {
    /// The column type that the datum belongs to; NULL belongs to none.
    pub open spec fn kind(self) -> Option<ColumnType> {
        match self {
            Datum::Null => None,
            Datum::Integer(_) => Some(ColumnType::Integer),
            Datum::Text(_) => Some(ColumnType::Text),
            Datum::Blob(_) => Some(ColumnType::Blob),
        }
    }

    /// The datum is of the given column type.
    pub open spec fn has_type(self, column_type: ColumnType) -> bool {
        self.kind() == Some(column_type)
    }

    /// `self` is strictly less than `other`. Only data of one type compare:
    /// integers by size, texts and blobs lexicographically. NULL compares
    /// with nothing.
    pub open spec fn lt(self, other: Datum) -> bool {
        match (self, other) {
            (Datum::Integer(x), Datum::Integer(y)) => x < y,
            (Datum::Text(x), Datum::Text(y)) => lex_lt(char_keys(x), char_keys(y)),
            (Datum::Blob(x), Datum::Blob(y)) => lex_lt(byte_keys(x), byte_keys(y)),
            _ => false,
        }
    }

    /// A [`Value`] can hold the datum: an integer is one of 64 bits.
    pub open spec fn representable(self) -> bool {
        self matches Datum::Integer(x) ==> i64::MIN <= x <= i64::MAX
    }

    /// No datum of the same type that a [`Value`] can hold is smaller.
    pub open spec fn is_least(self) -> bool {
        match self {
            Datum::Null => true,
            Datum::Integer(x) => x == i64::MIN,
            Datum::Text(x) => x.len() == 0,
            Datum::Blob(x) => x.len() == 0,
        }
    }

    /// No datum of the same type that a [`Value`] can hold is greater.
    pub open spec fn is_greatest(self) -> bool {
        match self {
            Datum::Null => true,
            Datum::Integer(x) => x == i64::MAX,
            Datum::Text(_) => false,
            Datum::Blob(_) => false,
        }
    }
}

/// Of two data of one type, one is less than the other or they are equal,
/// and only one of the three.
pub proof fn lemma_datum_trichotomy(a: Datum, b: Datum)
    requires
        a.kind() == b.kind(),
    ensures
        a.lt(b) || b.lt(a) || a == b,
        !(a.lt(b) && b.lt(a)),
        !(a.lt(b) && a == b),
{
    match (a, b) {
        (Datum::Text(x), Datum::Text(y)) => {
            lemma_lex_trichotomy(char_keys(x), char_keys(y));
            lemma_char_keys_injective(x, y);
        },
        (Datum::Blob(x), Datum::Blob(y)) => {
            lemma_lex_trichotomy(byte_keys(x), byte_keys(y));
            lemma_byte_keys_injective(x, y);
        },
        _ => {},
    }
}

/// The order on data is transitive.
pub proof fn lemma_datum_lt_transitive(a: Datum, b: Datum, c: Datum)
    requires
        a.lt(b),
        b.lt(c),
    ensures
        a.lt(c),
{
    match (a, b, c) {
        (Datum::Text(x), Datum::Text(y), Datum::Text(z)) => {
            lemma_lex_transitive(char_keys(x), char_keys(y), char_keys(z));
        },
        (Datum::Blob(x), Datum::Blob(y), Datum::Blob(z)) => {
            lemma_lex_transitive(byte_keys(x), byte_keys(y), byte_keys(z));
        },
        _ => {},
    }
}

/// A value in a row or in a predicate.
#[derive(Debug, PartialEq, Eq)]
pub enum Value {
    Null,
    Integer(i64),
    Text(String),
    Blob(Vec<u8>),
}

impl View for Value {
    type V = Datum;

    open spec fn view(&self) -> Datum {
        match self {
            Value::Null => Datum::Null,
            Value::Integer(x) => Datum::Integer(*x as int),
            Value::Text(x) => Datum::Text(x@),
            Value::Blob(x) => Datum::Blob(x@),
        }
    }
}

impl Clone for Value {
    fn clone(&self) -> (copy: Value)
        ensures
            copy@ == self@,
    {
        match self {
            Value::Null => Value::Null,
            Value::Integer(x) => Value::Integer(*x),
            Value::Text(x) => Value::Text(x.clone()),
            Value::Blob(x) => Value::Blob(clone_bytes(x)),
        }
    }
}

/// Copies a blob byte by byte.
pub fn clone_bytes(bytes: &Vec<u8>) -> (copy: Vec<u8>)
    ensures
        copy@ == bytes@,
{
    let mut copy: Vec<u8> = Vec::new();
    let mut i: usize = 0;
    while i < bytes.len()
        invariant
            i <= bytes.len(),
            copy@ == bytes@.take(i as int),
        decreases bytes.len() - i,
    {
        copy.push(bytes[i]);
        assert(bytes@.take(i + 1) =~= bytes@.take(i as int).push(bytes@[i as int]));
        i = i + 1;
    }
    assert(bytes@.take(i as int) =~= bytes@);
    copy
}

/// Whether two texts are the same, and if not, whether the first comes
/// first.
fn text_order(a: &str, b: &str) -> (r: (bool, bool))
    ensures
        r.0 == (a@ == b@),
        r.1 == lex_lt(char_keys(a@), char_keys(b@)),
{
    let n = a.unicode_len();
    let m = b.unicode_len();
    let mut k: usize = 0;
    while k < n && k < m && a.get_char(k) == b.get_char(k)
        invariant
            n == a@.len(),
            m == b@.len(),
            agree_before(char_keys(a@), char_keys(b@), k as int),
        decreases n - k,
    {
        k = k + 1;
    }
    proof {
        lemma_lex_decided_at(char_keys(a@), char_keys(b@), k as int);
        lemma_char_keys_injective(a@, b@);
    }
    if k == n {
        (k == m, k < m)
    } else if k == m {
        (false, false)
    } else {
        (false, a.get_char(k) < b.get_char(k))
    }
}

/// Whether two blobs are the same, and if not, whether the first comes
/// first.
fn blob_order(a: &Vec<u8>, b: &Vec<u8>) -> (r: (bool, bool))
    ensures
        r.0 == (a@ == b@),
        r.1 == lex_lt(byte_keys(a@), byte_keys(b@)),
{
    let n = a.len();
    let m = b.len();
    let mut k: usize = 0;
    while k < n && k < m && a[k] == b[k]
        invariant
            n == a@.len(),
            m == b@.len(),
            agree_before(byte_keys(a@), byte_keys(b@), k as int),
        decreases n - k,
    {
        k = k + 1;
    }
    proof {
        lemma_lex_decided_at(byte_keys(a@), byte_keys(b@), k as int);
        lemma_byte_keys_injective(a@, b@);
    }
    if k == n {
        (k == m, k < m)
    } else if k == m {
        (false, false)
    } else {
        (false, a[k] < b[k])
    }
}

impl Value {
    /// Whether the value is of the given column type. NULL is of none.
    pub fn has_type(&self, column_type: ColumnType) -> (b: bool)
        ensures
            b == self@.has_type(column_type),
    {
        match self {
            Value::Null => false,
            Value::Integer(_) => column_type == ColumnType::Integer,
            Value::Text(_) => column_type == ColumnType::Text,
            Value::Blob(_) => column_type == ColumnType::Blob,
        }
    }

    /// Whether two values stand for the same datum.
    pub fn same_as(&self, other: &Value) -> (b: bool)
        ensures
            b == (self@ == other@),
    {
        match (self, other) {
            (Value::Null, Value::Null) => true,
            (Value::Integer(x), Value::Integer(y)) => *x == *y,
            (Value::Text(x), Value::Text(y)) => text_order(x.as_str(), y.as_str()).0,
            (Value::Blob(x), Value::Blob(y)) => blob_order(x, y).0,
            _ => false,
        }
    }

    /// Whether `self` is strictly less than `other`.
    pub fn less_than(&self, other: &Value) -> (b: bool)
        ensures
            b == self@.lt(other@),
    {
        match (self, other) {
            (Value::Integer(x), Value::Integer(y)) => *x < *y,
            (Value::Text(x), Value::Text(y)) => text_order(x.as_str(), y.as_str()).1,
            (Value::Blob(x), Value::Blob(y)) => blob_order(x, y).1,
            _ => false,
        }
    }

    /// Whether nothing of the value's type is smaller.
    pub fn is_least(&self) -> (b: bool)
        ensures
            b == self@.is_least(),
    {
        match self {
            Value::Null => true,
            Value::Integer(x) => *x == i64::MIN,
            Value::Text(x) => x.as_str().unicode_len() == 0,
            Value::Blob(x) => x.len() == 0,
        }
    }

    /// Whether nothing of the value's type is greater.
    pub fn is_greatest(&self) -> (b: bool)
        ensures
            b == self@.is_greatest(),
    {
        match self {
            Value::Null => true,
            Value::Integer(x) => *x == i64::MAX,
            Value::Text(_) => false,
            Value::Blob(_) => false,
        }
    }
}

} // verus!
