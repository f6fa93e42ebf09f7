//! Arbitrary values of a column type.

use crate::choice::pick;
use crate::entropy::draw_below;
use crate::value::{ColumnType, Datum, Value};
use rand::rngs::StdRng;
use vstd::prelude::*;
use vstd::string::*;

verus! {

/// The longest text that [`arbitrary_text`] makes.
pub const MAX_TEXT_LEN: usize = 16;

/// The longest blob that [`arbitrary_blob`] makes.
pub const MAX_BLOB_LEN: usize = 16;

/// The letters that generated texts are made of.
pub open spec fn letters() -> Seq<char> {
    "abcdefghijklmnopqrstuvwxyz"@
}

/// A lower-case letter of the Latin alphabet.
pub open spec fn is_letter(c: char) -> bool {
    'a' <= c <= 'z'
}

/// There are 26 letters, each of them lower case.
pub proof fn lemma_letters()
    ensures
        letters().len() == 26,
        forall|i: int| 0 <= i < 26 ==> is_letter(#[trigger] letters()[i]),
{
    reveal_strlit("abcdefghijklmnopqrstuvwxyz");
}

/// The letter at a position of the alphabet, as a text of length one.
pub fn letter(index: usize) -> (s: &'static str)
    requires
        index < 26,
    ensures
        s@ == letters().subrange(index as int, index + 1),
{
    proof {
        lemma_letters();
    }
    let all: &'static str = "abcdefghijklmnopqrstuvwxyz";
    all.substring_char(index, index + 1)
}

/// The integer that lies `offset` above `low`.
pub fn integer_at(low: i64, offset: u128) -> (value: i64)
    requires
        low + offset <= i64::MAX,
    ensures
        value == low + offset,
{
    (low as i128 + offset as i128) as i64
}

/// Appends `count` letters, each drawn with the same probability.
pub fn append_letters(rng: &mut StdRng, text: &mut String, count: usize)
    ensures
        final(text)@.len() == old(text)@.len() + count,
        final(text)@.take(old(text)@.len() as int) == old(text)@,
        forall|i: int| old(text)@.len() <= i < final(text)@.len() ==> is_letter(#[trigger] final(text)@[i]),
{
    let ghost before = text@;
    let mut i: usize = 0;
    while i < count
        invariant
            i <= count,
            text@.len() == before.len() + i,
            text@.take(before.len() as int) == before,
            forall|k: int| before.len() <= k < text@.len() ==> is_letter(#[trigger] text@[k]),
        decreases count - i,
    {
        let ghost prior = text@;
        let index = draw_below(rng, 26) as usize;
        let one = letter(index);
        proof {
            lemma_letters();
            assert(one@[0] == letters()[index as int]);
        }
        text.append(one);
        assert(text@ == prior + one@);
        assert(text@.take(before.len() as int) =~= prior.take(before.len() as int));
        i = i + 1;
    }
}

/// Draws a text of at most [`MAX_TEXT_LEN`] letters.
pub fn arbitrary_text(rng: &mut StdRng) -> (text: String)
    ensures
        text@.len() <= MAX_TEXT_LEN,
        forall|i: int| 0 <= i < text@.len() ==> is_letter(#[trigger] text@[i]),
{
    let len = draw_below(rng, MAX_TEXT_LEN as u128 + 1) as usize;
    let mut text = String::new();
    append_letters(rng, &mut text, len);
    text
}

/// Appends `count` bytes, each drawn with the same probability.
pub fn append_bytes(rng: &mut StdRng, blob: &mut Vec<u8>, count: usize)
    ensures
        final(blob)@.len() == old(blob)@.len() + count,
        final(blob)@.take(old(blob)@.len() as int) == old(blob)@,
{
    let ghost before = blob@;
    let mut i: usize = 0;
    while i < count
        invariant
            i <= count,
            blob@.len() == before.len() + i,
            blob@.take(before.len() as int) == before,
        decreases count - i,
    {
        let ghost prior = blob@;
        let byte = draw_below(rng, 256) as u8;
        blob.push(byte);
        assert(blob@.take(before.len() as int) =~= prior.take(before.len() as int));
        i = i + 1;
    }
}

/// Draws a blob of at most [`MAX_BLOB_LEN`] bytes.
pub fn arbitrary_blob(rng: &mut StdRng) -> (blob: Vec<u8>)
    ensures
        blob@.len() <= MAX_BLOB_LEN,
{
    let len = draw_below(rng, MAX_BLOB_LEN as u128 + 1) as usize;
    let mut blob: Vec<u8> = Vec::new();
    append_bytes(rng, &mut blob, len);
    blob
}

/// The datum that [`nudged`] turns a datum into: the next integer, wrapping
/// round at the top, or the text or blob made one element longer.
pub open spec fn nudge_of(datum: Datum) -> Datum {
    match datum {
        Datum::Null => Datum::Null,
        Datum::Integer(x) => Datum::Integer(if x == i64::MAX { i64::MIN as int } else { x + 1 }),
        Datum::Text(x) => Datum::Text(x.push('a')),
        Datum::Blob(x) => Datum::Blob(x.push(0u8)),
    }
}

/// A datum other than NULL differs from what it is nudged to, and the two
/// are of one type.
pub proof fn lemma_nudge_differs(datum: Datum)
    ensures
        nudge_of(datum).kind() == datum.kind(),
        datum != Datum::Null ==> nudge_of(datum) != datum,
{
    match datum {
        Datum::Text(x) => {
            assert(x.push('a').len() != x.len());
        },
        Datum::Blob(x) => {
            assert(x.push(0u8).len() != x.len());
        },
        _ => {},
    }
}

/// Turns a value into another one of the same type.
pub fn nudged(value: Value) -> (other: Value)
    ensures
        other@ == nudge_of(value@),
{
    match value {
        Value::Null => Value::Null,
        Value::Integer(x) => Value::Integer(if x == i64::MAX { i64::MIN } else { x + 1 }),
        Value::Text(x) => {
            let mut text = x;
            proof {
                lemma_letters();
                assert(letters().subrange(0, 1) =~= seq!['a']) by {
                    reveal_strlit("abcdefghijklmnopqrstuvwxyz");
                }
            }
            let ghost before = text@;
            text.append(letter(0));
            assert(text@ =~= before.push('a'));
            Value::Text(text)
        },
        Value::Blob(x) => {
            let mut blob = x;
            blob.push(0u8);
            Value::Blob(blob)
        },
    }
}

/// `datum` is what is drawn for a column type: any integer, a text of at
/// most [`MAX_TEXT_LEN`] letters, or a blob of at most [`MAX_BLOB_LEN`]
/// bytes.
pub open spec fn drawn_for(datum: Datum, column_type: ColumnType) -> bool {
    match datum {
        Datum::Null => false,
        Datum::Integer(x) => column_type == ColumnType::Integer && i64::MIN <= x <= i64::MAX,
        Datum::Text(x) => {
            &&& column_type == ColumnType::Text
            &&& x.len() <= MAX_TEXT_LEN
            &&& forall|i: int| 0 <= i < x.len() ==> is_letter(#[trigger] x[i])
        },
        Datum::Blob(x) => column_type == ColumnType::Blob && x.len() <= MAX_BLOB_LEN,
    }
}

impl Value {
    /// Draws a value of the given column type: any integer with the same
    /// probability, or a text or blob of a length drawn up to the maximum,
    /// made of letters or bytes drawn with the same probability each.
    pub fn arbitrary_from(rng: &mut StdRng, column_type: ColumnType) -> (value: Value)
        ensures
            drawn_for(value@, column_type),
            value@.has_type(column_type),
    {
        match column_type {
            ColumnType::Integer => {
                let offset = draw_below(rng, 0x1_0000_0000_0000_0000);
                Value::Integer(integer_at(i64::MIN, offset))
            },
            ColumnType::Text => Value::Text(arbitrary_text(rng)),
            ColumnType::Blob => Value::Blob(arbitrary_blob(rng)),
        }
    }

    /// Draws a value of the given column type that differs from `avoid`.
    pub fn arbitrary_other(rng: &mut StdRng, column_type: ColumnType, avoid: &Value) -> (value: Value)
        ensures
            value@.has_type(column_type),
            value@ != avoid@,
    {
        let candidate = Value::arbitrary_from(rng, column_type);
        if candidate.same_as(avoid) {
            proof {
                lemma_nudge_differs(candidate@);
            }
            nudged(candidate)
        } else {
            candidate
        }
    }

    /// Picks one of the given values, each with the same probability, or
    /// NULL where there is none.
    pub fn arbitrary_among(rng: &mut StdRng, values: &Vec<&Value>) -> (value: Value)
        ensures
            values.len() == 0 ==> value@ == Datum::Null,
            values.len() > 0 ==> exists|i: int| 0 <= i < values.len() && (*#[trigger] values[i])@ == value@,
    {
        match pick(rng, values) {
            Ok(found) => (*found).clone(),
            Err(_) => Value::Null,
        }
    }
}

} // verus!
