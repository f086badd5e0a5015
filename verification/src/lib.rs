//! Client-side data interchange for a columnar time-series database:
//! typed points are written out as line protocol, and columnar result
//! batches are decoded into rows of typed values.

pub mod client;
pub mod point;
pub mod query;
pub mod row;
pub mod serializer;
pub mod string_map;
pub mod text;
pub mod write;

use vstd::prelude::*;

verus! {

/// A decoded cell.
///
/// A floating-point number is held as its bit pattern: that of a 32-bit
/// number in `F16` and `F32`, that of a 64-bit number in `F64`. A time of
/// day, a duration or a timestamp comes with the word for its unit.
#[derive(Debug, Clone, PartialEq, Eq)]
pub enum Value {
    Time32(i32, String),
    Time64(i64, String),
    Int8(i8),
    Int16(i16),
    Int32(i32),
    Int64(i64),
    U8(u8),
    U16(u16),
    U32(u32),
    U64(u64),
    U128(u128),
    F16(u32),
    F32(u32),
    F64(u64),
    Text(String),
    String(String),
    Bool(bool),
    Date32(i32),
    Date64(i64),
    Null,
    Fallback,
}

/// What a decoded cell holds.
pub enum Datum {
    Time32(i32, Seq<char>),
    Time64(i64, Seq<char>),
    Int8(i8),
    Int16(i16),
    Int32(i32),
    Int64(i64),
    U8(u8),
    U16(u16),
    U32(u32),
    U64(u64),
    U128(u128),
    F16(u32),
    F32(u32),
    F64(u64),
    Text(Seq<char>),
    String(Seq<char>),
    Bool(bool),
    Date32(i32),
    Date64(i64),
    Null,
    Fallback,
}

impl View for Value {
    type V = Datum;

    open spec fn view(&self) -> Datum {
        match self {
            Value::Time32(count, unit) => Datum::Time32(*count, unit@),
            Value::Time64(count, unit) => Datum::Time64(*count, unit@),
            Value::Int8(number) => Datum::Int8(*number),
            Value::Int16(number) => Datum::Int16(*number),
            Value::Int32(number) => Datum::Int32(*number),
            Value::Int64(number) => Datum::Int64(*number),
            Value::U8(number) => Datum::U8(*number),
            Value::U16(number) => Datum::U16(*number),
            Value::U32(number) => Datum::U32(*number),
            Value::U64(number) => Datum::U64(*number),
            Value::U128(number) => Datum::U128(*number),
            Value::F16(bits) => Datum::F16(*bits),
            Value::F32(bits) => Datum::F32(*bits),
            Value::F64(bits) => Datum::F64(*bits),
            Value::Text(text) => Datum::Text(text@),
            Value::String(text) => Datum::String(text@),
            Value::Bool(flag) => Datum::Bool(*flag),
            Value::Date32(days) => Datum::Date32(*days),
            Value::Date64(milliseconds) => Datum::Date64(*milliseconds),
            Value::Null => Datum::Null,
            Value::Fallback => Datum::Fallback,
        }
    }
}

/// What a cell that may be absent holds.
pub open spec fn datum_of(cell: Option<Value>) -> Option<Datum> {
    match cell {
        Some(value) => Some(value@),
        None => None,
    }
}

/// A decoded row.
pub type ReturnDataType = crate::row::DecodedRow;

} // verus!
