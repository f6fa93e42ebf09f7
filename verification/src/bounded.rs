//! Values strictly beyond a reference value, or beyond every value of a
//! column.

use crate::arbitrary::{append_bytes, append_letters, drawn_for, integer_at, is_letter};
use crate::entropy::draw_below;
use crate::error::GenError;
use crate::order::{byte_keys, char_keys, lemma_lex_prefix, lex_lt, lex_lt_at};
use crate::table::refs_data;
use crate::value::{
    lemma_datum_lt_transitive, lemma_datum_trichotomy, ColumnType, Datum, Value,
};
use rand::rngs::StdRng;
use vstd::prelude::*;
use vstd::string::*;

verus! {

/// A value strictly greater than the one it was made from.
#[derive(Debug, Clone, PartialEq, Eq)]
pub struct GTValue(pub Value);

/// A value strictly less than the one it was made from.
#[derive(Debug, Clone, PartialEq, Eq)]
pub struct LTValue(pub Value);

/// `datum` is strictly greater than every one of `values` that is of its
/// type.
pub open spec fn above_all(datum: Datum, values: Seq<Datum>) -> bool {
    forall|i: int|
        0 <= i < values.len() && (#[trigger] values[i]).kind() == datum.kind() ==> values[i].lt(datum)
}

/// `datum` is strictly less than every one of `values` that is of its type.
pub open spec fn below_all(datum: Datum, values: Seq<Datum>) -> bool {
    forall|i: int|
        0 <= i < values.len() && (#[trigger] values[i]).kind() == datum.kind() ==> datum.lt(values[i])
}

/// One of `values` is of the given type and the greatest of that type.
pub open spec fn holds_greatest(values: Seq<Datum>, column_type: ColumnType) -> bool {
    exists|i: int|
        0 <= i < values.len() && (#[trigger] values[i]).has_type(column_type) && values[i].is_greatest()
}

/// One of `values` is of the given type and the least of that type.
pub open spec fn holds_least(values: Seq<Datum>, column_type: ColumnType) -> bool {
    exists|i: int|
        0 <= i < values.len() && (#[trigger] values[i]).has_type(column_type) && values[i].is_least()
}

/// The most letters or bytes by which a greater text or blob is longer than
/// the one it was made from.
pub const MAX_EXTENSION: usize = 3;

/// `greater` is what is drawn above `reference`: a greater integer, or the
/// text extended by one to three letters, or the blob extended by one to
/// three bytes.
pub open spec fn greater_drawn(reference: Datum, greater: Datum) -> bool {
    match (reference, greater) {
        (Datum::Integer(x), Datum::Integer(y)) => x < y <= i64::MAX,
        (Datum::Text(x), Datum::Text(y)) => {
            &&& x.len() < y.len() <= x.len() + MAX_EXTENSION
            &&& y.take(x.len() as int) == x
            &&& forall|i: int| x.len() <= i < y.len() ==> is_letter(#[trigger] y[i])
        },
        (Datum::Blob(x), Datum::Blob(y)) => {
            &&& x.len() < y.len() <= x.len() + MAX_EXTENSION
            &&& y.take(x.len() as int) == x
        },
        _ => false,
    }
}

/// `less` is what is drawn below `reference`: a lesser integer, or a proper
/// prefix of the text or blob.
pub open spec fn lesser_drawn(reference: Datum, less: Datum) -> bool {
    match (reference, less) {
        (Datum::Integer(x), Datum::Integer(y)) => i64::MIN <= y < x,
        (Datum::Text(x), Datum::Text(y)) => y.len() < x.len() && y == x.take(y.len() as int),
        (Datum::Blob(x), Datum::Blob(y)) => y.len() < x.len() && y == x.take(y.len() as int),
        _ => false,
    }
}

/// What is drawn above a value is strictly greater, and what is drawn below
/// it is strictly less.
pub proof fn lemma_drawn_beyond(reference: Datum, other: Datum)
    ensures
        greater_drawn(reference, other) ==> reference.lt(other),
        lesser_drawn(reference, other) ==> other.lt(reference),
{
    match (reference, other) {
        (Datum::Text(x), Datum::Text(y)) => {
            if greater_drawn(reference, other) {
                lemma_text_prefix_lt(x, y);
            }
            if lesser_drawn(reference, other) {
                lemma_text_prefix_lt(y, x);
            }
        },
        (Datum::Blob(x), Datum::Blob(y)) => {
            if greater_drawn(reference, other) {
                lemma_blob_prefix_lt(x, y);
            }
            if lesser_drawn(reference, other) {
                lemma_blob_prefix_lt(y, x);
            }
        },
        _ => {},
    }
}

/// The first `len` characters of a text.
pub fn text_prefix(text: &String, len: usize) -> (prefix: String)
    requires
        len <= text@.len(),
    ensures
        prefix@ == text@.take(len as int),
{
    text.as_str().substring_char(0, len).to_owned()
}

/// The first `len` bytes of a blob.
pub fn blob_prefix(blob: &Vec<u8>, len: usize) -> (prefix: Vec<u8>)
    requires
        len <= blob@.len(),
    ensures
        prefix@ == blob@.take(len as int),
{
    let mut prefix: Vec<u8> = Vec::new();
    let mut i: usize = 0;
    while i < len
        invariant
            i <= len <= blob@.len(),
            prefix@ == blob@.take(i as int),
        decreases len - i,
    {
        prefix.push(blob[i]);
        assert(blob@.take(i + 1) =~= blob@.take(i as int).push(blob@[i as int]));
        i = i + 1;
    }
    prefix
}

/// A text comes after each of its proper prefixes.
pub proof fn lemma_text_prefix_lt(short: Seq<char>, long: Seq<char>)
    requires
        short.len() < long.len(),
        short == long.take(short.len() as int),
    ensures
        Datum::Text(short).lt(Datum::Text(long)),
{
    assert(char_keys(short) =~= char_keys(long).take(short.len() as int));
    lemma_lex_prefix(char_keys(short), char_keys(long));
}

/// A blob comes after each of its proper prefixes.
pub proof fn lemma_blob_prefix_lt(short: Seq<u8>, long: Seq<u8>)
    requires
        short.len() < long.len(),
        short == long.take(short.len() as int),
    ensures
        Datum::Blob(short).lt(Datum::Blob(long)),
{
    assert(byte_keys(short) =~= byte_keys(long).take(short.len() as int));
    lemma_lex_prefix(byte_keys(short), byte_keys(long));
}

/// The position of a value of the given type that none of that type
/// exceeds, if the list holds a value of that type at all.
pub fn greatest_of_type(values: &Vec<&Value>, column_type: ColumnType) -> (found: Option<usize>)
    ensures
        found is None <==> forall|i: int|
            0 <= i < values.len() ==> !(*#[trigger] values[i])@.has_type(column_type),
        found matches Some(top) ==> {
            &&& top < values.len()
            &&& (*values[top as int])@.has_type(column_type)
            &&& forall|i: int|
                0 <= i < values.len() && (*#[trigger] values[i])@.has_type(column_type) ==> !(
                *values[top as int])@.lt((*values[i])@)
        },
{
    let mut found: Option<usize> = None;
    let mut i: usize = 0;
    while i < values.len()
        invariant
            i <= values.len(),
            found is None <==> forall|k: int|
                0 <= k < i ==> !(*#[trigger] values[k])@.has_type(column_type),
            found matches Some(top) ==> {
                &&& top < i
                &&& (*values[top as int])@.has_type(column_type)
                &&& forall|k: int|
                    0 <= k < i && (*#[trigger] values[k])@.has_type(column_type) ==> !(
                    *values[top as int])@.lt((*values[k])@)
            },
        decreases values.len() - i,
    {
        if values[i].has_type(column_type) {
            match found {
                None => {
                    proof {
                        lemma_datum_trichotomy((*values[i as int])@, (*values[i as int])@);
                    }
                    found = Some(i);
                },
                Some(top) => {
                    if values[top].less_than(values[i]) {
                        proof {
                            lemma_datum_trichotomy((*values[i as int])@, (*values[i as int])@);
                            assert forall|k: int|
                                0 <= k < i && (*#[trigger] values[k])@.has_type(column_type) implies !(
                            *values[i as int])@.lt((*values[k])@) by {
                                if (*values[i as int])@.lt((*values[k])@) {
                                    lemma_datum_lt_transitive(
                                        (*values[top as int])@,
                                        (*values[i as int])@,
                                        (*values[k])@,
                                    );
                                }
                            }
                        }
                        found = Some(i);
                    }
                },
            }
        }
        i = i + 1;
    }
    found
}

/// The position of a value of the given type that exceeds none of that
/// type, if the list holds a value of that type at all.
pub fn least_of_type(values: &Vec<&Value>, column_type: ColumnType) -> (found: Option<usize>)
    ensures
        found is None <==> forall|i: int|
            0 <= i < values.len() ==> !(*#[trigger] values[i])@.has_type(column_type),
        found matches Some(bottom) ==> {
            &&& bottom < values.len()
            &&& (*values[bottom as int])@.has_type(column_type)
            &&& forall|i: int|
                0 <= i < values.len() && (*#[trigger] values[i])@.has_type(column_type) ==> !(
                *values[i])@.lt((*values[bottom as int])@)
        },
{
    let mut found: Option<usize> = None;
    let mut i: usize = 0;
    while i < values.len()
        invariant
            i <= values.len(),
            found is None <==> forall|k: int|
                0 <= k < i ==> !(*#[trigger] values[k])@.has_type(column_type),
            found matches Some(bottom) ==> {
                &&& bottom < i
                &&& (*values[bottom as int])@.has_type(column_type)
                &&& forall|k: int|
                    0 <= k < i && (*#[trigger] values[k])@.has_type(column_type) ==> !(
                    *values[k])@.lt((*values[bottom as int])@)
            },
        decreases values.len() - i,
    {
        if values[i].has_type(column_type) {
            match found {
                None => {
                    proof {
                        lemma_datum_trichotomy((*values[i as int])@, (*values[i as int])@);
                    }
                    found = Some(i);
                },
                Some(bottom) => {
                    if values[i].less_than(values[bottom]) {
                        proof {
                            lemma_datum_trichotomy((*values[i as int])@, (*values[i as int])@);
                            assert forall|k: int|
                                0 <= k < i && (*#[trigger] values[k])@.has_type(column_type) implies !(
                            *values[k])@.lt((*values[i as int])@) by {
                                if (*values[k])@.lt((*values[i as int])@) {
                                    lemma_datum_lt_transitive(
                                        (*values[k])@,
                                        (*values[i as int])@,
                                        (*values[bottom as int])@,
                                    );
                                }
                            }
                        }
                        found = Some(i);
                    }
                },
            }
        }
        i = i + 1;
    }
    found
}

/// Whether some value exists that is of the given type and strictly greater
/// than every one of `values` of that type.
pub fn has_room_above(values: &Vec<&Value>, column_type: ColumnType) -> (b: bool)
    ensures
        b == !holds_greatest(refs_data(values@), column_type),
{
    let ghost data = refs_data(values@);
    let mut i: usize = 0;
    while i < values.len()
        invariant
            i <= values.len(),
            data == refs_data(values@),
            forall|k: int|
                0 <= k < i ==> !((#[trigger] data[k]).has_type(column_type) && data[k].is_greatest()),
        decreases values.len() - i,
    {
        if values[i].has_type(column_type) && values[i].is_greatest() {
            assert(data[i as int].has_type(column_type) && data[i as int].is_greatest());
            return false;
        }
        i = i + 1;
    }
    true
}

/// Whether some value exists that is of the given type and strictly less
/// than every one of `values` of that type.
pub fn has_room_below(values: &Vec<&Value>, column_type: ColumnType) -> (b: bool)
    ensures
        b == !holds_least(refs_data(values@), column_type),
{
    let ghost data = refs_data(values@);
    let mut i: usize = 0;
    while i < values.len()
        invariant
            i <= values.len(),
            data == refs_data(values@),
            forall|k: int|
                0 <= k < i ==> !((#[trigger] data[k]).has_type(column_type) && data[k].is_least()),
        decreases values.len() - i,
    {
        if values[i].has_type(column_type) && values[i].is_least() {
            assert(data[i as int].has_type(column_type) && data[i as int].is_least());
            return false;
        }
        i = i + 1;
    }
    true
}

impl GTValue {
    /// Draws a value strictly greater than `reference` and of its type.
    ///
    /// Fails exactly when there is none: for NULL and for the greatest
    /// integer.
    pub fn arbitrary_from(rng: &mut StdRng, reference: &Value) -> (drawn: Result<GTValue, GenError>)
        ensures
            drawn is Err <==> reference@.is_greatest(),
            drawn matches Err(e) ==> e == GenError::DomainExhausted,
            drawn matches Ok(greater) ==> greater_drawn(reference@, greater.0@),
            drawn matches Ok(greater) ==> reference@.lt(greater.0@),
    {
        proof {
            assert forall|other: Datum| greater_drawn(reference@, other) implies reference@.lt(
                other,
            ) by {
                lemma_drawn_beyond(reference@, other);
            }
        }
        match reference {
            Value::Null => Err(GenError::DomainExhausted),
            Value::Integer(x) => {
                if *x == i64::MAX {
                    return Err(GenError::DomainExhausted);
                }
                let room: u128 = (i64::MAX as i128 - *x as i128) as u128;
                let offset = draw_below(rng, room);
                Ok(GTValue(Value::Integer(integer_at(*x + 1, offset))))
            },
            Value::Text(x) => {
                let count = draw_below(rng, MAX_EXTENSION as u128) as usize + 1;
                let mut text = x.clone();
                append_letters(rng, &mut text, count);
                Ok(GTValue(Value::Text(text)))
            },
            Value::Blob(x) => {
                let count = draw_below(rng, MAX_EXTENSION as u128) as usize + 1;
                let mut blob = blob_prefix(x, x.len());
                assert(blob@ =~= x@);
                append_bytes(rng, &mut blob, count);
                Ok(GTValue(Value::Blob(blob)))
            },
        }
    }

    /// Draws a value of the given type that is strictly greater than every
    /// one of `values` of that type.
    ///
    /// Fails exactly when there is none: when `values` holds the greatest
    /// integer.
    pub fn arbitrary_above(
        rng: &mut StdRng,
        column_type: ColumnType,
        values: &Vec<&Value>,
    ) -> (drawn: Result<GTValue, GenError>)
        ensures
            drawn is Err <==> holds_greatest(refs_data(values@), column_type),
            drawn matches Err(e) ==> e == GenError::DomainExhausted,
            drawn matches Ok(greater) ==> greater.0@.has_type(column_type) && above_all(
                greater.0@,
                refs_data(values@),
            ),
            drawn matches Ok(greater) ==> drawn_for(greater.0@, column_type) || exists|i: int|
                0 <= i < values.len() && #[trigger] greater_drawn(refs_data(values@)[i], greater.0@),
    {
        let ghost data = refs_data(values@);
        match greatest_of_type(values, column_type) {
            None => {
                let value = Value::arbitrary_from(rng, column_type);
                assert forall|i: int| 0 <= i < data.len() implies !(#[trigger] data[i]).has_type(
                    column_type,
                ) by {
                    assert(!(*values[i])@.has_type(column_type));
                }
                Ok(GTValue(value))
            },
            Some(top) => {
                let ghost peak = (*values[top as int])@;
                assert(data[top as int] == peak);
                match GTValue::arbitrary_from(rng, values[top]) {
                    Ok(greater) => {
                        proof {
                            assert forall|i: int|
                                0 <= i < data.len() && (#[trigger] data[i]).kind()
                                    == greater.0@.kind() implies data[i].lt(greater.0@) by {
                                assert((*values[i])@.has_type(column_type));
                                lemma_datum_trichotomy(data[i], peak);
                                if data[i].lt(peak) {
                                    lemma_datum_lt_transitive(data[i], peak, greater.0@);
                                }
                            }
                            assert forall|i: int|
                                0 <= i < data.len() && (#[trigger] data[i]).has_type(
                                    column_type,
                                ) implies !data[i].is_greatest() by {
                                assert((*values[i])@.has_type(column_type));
                                lemma_datum_trichotomy(data[i], peak);
                            }
                        }
                        assert(greater_drawn(data[top as int], greater.0@));
                        Ok(greater)
                    },
                    Err(e) => Err(e),
                }
            },
        }
    }
}

impl LTValue {
    /// Draws a value strictly less than `reference` and of its type.
    ///
    /// Fails exactly when there is none: for NULL, for the least integer,
    /// and for the empty text and the empty blob.
    pub fn arbitrary_from(rng: &mut StdRng, reference: &Value) -> (drawn: Result<LTValue, GenError>)
        ensures
            drawn is Err <==> reference@.is_least(),
            drawn matches Err(e) ==> e == GenError::DomainExhausted,
            drawn matches Ok(less) ==> lesser_drawn(reference@, less.0@),
            drawn matches Ok(less) ==> less.0@.lt(reference@),
    {
        proof {
            assert forall|other: Datum| lesser_drawn(reference@, other) implies other.lt(
                reference@,
            ) by {
                lemma_drawn_beyond(reference@, other);
            }
        }
        match reference {
            Value::Null => Err(GenError::DomainExhausted),
            Value::Integer(x) => {
                if *x == i64::MIN {
                    return Err(GenError::DomainExhausted);
                }
                let room: u128 = (*x as i128 - i64::MIN as i128) as u128;
                let offset = draw_below(rng, room);
                Ok(LTValue(Value::Integer(integer_at(i64::MIN, offset))))
            },
            Value::Text(x) => {
                let len = x.as_str().unicode_len();
                if len == 0 {
                    return Err(GenError::DomainExhausted);
                }
                let keep = draw_below(rng, len as u128) as usize;
                let text = text_prefix(x, keep);
                Ok(LTValue(Value::Text(text)))
            },
            Value::Blob(x) => {
                if x.len() == 0 {
                    return Err(GenError::DomainExhausted);
                }
                let keep = draw_below(rng, x.len() as u128) as usize;
                let blob = blob_prefix(x, keep);
                Ok(LTValue(Value::Blob(blob)))
            },
        }
    }

    /// Draws a value of the given type that is strictly less than every one
    /// of `values` of that type.
    ///
    /// Fails exactly when there is none: when `values` holds the least
    /// integer, the empty text or the empty blob of that type.
    pub fn arbitrary_below(
        rng: &mut StdRng,
        column_type: ColumnType,
        values: &Vec<&Value>,
    ) -> (drawn: Result<LTValue, GenError>)
        ensures
            drawn is Err <==> holds_least(refs_data(values@), column_type),
            drawn matches Err(e) ==> e == GenError::DomainExhausted,
            drawn matches Ok(less) ==> less.0@.has_type(column_type) && below_all(
                less.0@,
                refs_data(values@),
            ),
            drawn matches Ok(less) ==> drawn_for(less.0@, column_type) || exists|i: int|
                0 <= i < values.len() && #[trigger] lesser_drawn(refs_data(values@)[i], less.0@),
    {
        let ghost data = refs_data(values@);
        match least_of_type(values, column_type) {
            None => {
                let value = Value::arbitrary_from(rng, column_type);
                assert forall|i: int| 0 <= i < data.len() implies !(#[trigger] data[i]).has_type(
                    column_type,
                ) by {
                    assert(!(*values[i])@.has_type(column_type));
                }
                Ok(LTValue(value))
            },
            Some(bottom) => {
                let ghost floor = (*values[bottom as int])@;
                assert(data[bottom as int] == floor);
                match LTValue::arbitrary_from(rng, values[bottom]) {
                    Ok(less) => {
                        proof {
                            assert forall|i: int|
                                0 <= i < data.len() && (#[trigger] data[i]).kind()
                                    == less.0@.kind() implies less.0@.lt(data[i]) by {
                                assert((*values[i])@.has_type(column_type));
                                lemma_datum_trichotomy(data[i], floor);
                                if floor.lt(data[i]) {
                                    lemma_datum_lt_transitive(less.0@, floor, data[i]);
                                }
                            }
                            assert forall|i: int|
                                0 <= i < data.len() && (#[trigger] data[i]).has_type(
                                    column_type,
                                ) implies !data[i].is_least() by {
                                assert((*values[i])@.has_type(column_type));
                                lemma_datum_trichotomy(data[i], floor);
                                if data[i].is_least() {
                                    lemma_least_has_none_below(data[i], floor);
                                }
                            }
                        }
                        assert(lesser_drawn(data[bottom as int], less.0@));
                        Ok(less)
                    },
                    Err(e) => Err(e),
                }
            },
        }
    }
}

/// Nothing that a value can hold is less than the least datum of a type.
pub proof fn lemma_least_has_none_below(least: Datum, other: Datum)
    requires
        least.is_least(),
        other.representable(),
    ensures
        !other.lt(least),
{
    match (other, least) {
        (Datum::Text(x), Datum::Text(y)) => {
            if lex_lt(char_keys(x), char_keys(y)) {
                let k = choose|k: int| lex_lt_at(char_keys(x), char_keys(y), k);
                assert(k < char_keys(y).len());
            }
        },
        (Datum::Blob(x), Datum::Blob(y)) => {
            if lex_lt(byte_keys(x), byte_keys(y)) {
                let k = choose|k: int| lex_lt_at(byte_keys(x), byte_keys(y), k);
                assert(k < byte_keys(y).len());
            }
        },
        _ => {},
    }
}

} // verus!
