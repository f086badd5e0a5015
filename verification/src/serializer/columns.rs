//! Columns as this library reads them: the declared type of a column and
//! what each of its slots holds.

use arrow::array::{ArrayData, BooleanArray, LargeStringArray, StringArray, StringViewArray};
use arrow::buffer::ScalarBuffer;
use arrow::datatypes::{ArrowPrimitiveType, DataType, Float16Type};
use vstd::prelude::*;

verus! {

/// A column: `arrow::array::ArrayData`.
#[verifier::external_type_specification]
#[verifier::external_body]
pub struct ExArrayData(ArrayData);

/// The unit of a time, a duration or a timestamp.
#[derive(Debug, Clone, Copy, PartialEq, Eq, Structural)]
pub enum TimeUnit {
    Second,
    Millisecond,
    Microsecond,
    Nanosecond,
}

/// The declared type of a column, as far as this library tells types apart.
#[derive(Debug, Clone, Copy, PartialEq, Eq, Structural)]
pub enum ArrowType {
    Null,
    Boolean,
    Int8,
    Int16,
    Int32,
    Int64,
    UInt8,
    UInt16,
    UInt32,
    UInt64,
    Float16,
    Float32,
    Float64,
    Timestamp(TimeUnit),
    Date32,
    Date64,
    Time32(TimeUnit),
    Time64(TimeUnit),
    Duration(TimeUnit),
    Utf8,
    LargeUtf8,
    Utf8View,
    /// Every other type.
    Other,
}

impl ArrowType {
    /// Whether the type comes with a unit of time.
    pub open spec fn is_timed(self) -> bool {
        self is Timestamp || self is Time32 || self is Time64 || self is Duration
    }

    /// The type where it comes without a unit, `Other` in place of every other type.
    pub open spec fn plain_part(self) -> ArrowType {
        if self.is_timed() {
            ArrowType::Other
        } else {
            self
        }
    }

    /// The type where it comes with a unit, `Other` in place of every other type.
    pub open spec fn timed_part(self) -> ArrowType {
        if self.is_timed() {
            self
        } else {
            ArrowType::Other
        }
    }

    /// The width in bits of a slot that holds a number: 0 where the type
    /// holds none.
    pub open spec fn word_bits(self) -> nat {
        match self {
            ArrowType::Int8 | ArrowType::UInt8 => 8,
            ArrowType::Int16 | ArrowType::UInt16 | ArrowType::Float16 => 16,
            ArrowType::Int32 | ArrowType::UInt32 | ArrowType::Float32 | ArrowType::Date32
            | ArrowType::Time32(_) => 32,
            ArrowType::Int64 | ArrowType::UInt64 | ArrowType::Float64 | ArrowType::Date64
            | ArrowType::Time64(_) | ArrowType::Timestamp(_) | ArrowType::Duration(_) => 64,
            _ => 0,
        }
    }
}

/// What one slot of a column holds: nothing, the bits of a number, a
/// boolean, or a text.
pub enum Cell {
    Null,
    Word(u64),
    Flag(bool),
    Text(Seq<char>),
}

/// The declared type of a column.
pub uninterp spec fn column_type(column: ArrayData) -> ArrowType;

/// The slots of a column, from the first row to the last.
pub uninterp spec fn column_cells(column: ArrayData) -> Seq<Cell>;

/// The bits of the 32-bit floating-point number that a 16-bit one, given by its bits, widens to.
pub uninterp spec fn half_as_single(half: u16) -> u32;

/// `ArrayData::len` is the number of slots of the column.
pub assume_specification[ ArrayData::len ](column: &ArrayData) -> (len: usize)
    ensures
        len == column_cells(*column).len(),
;

/// `ArrayData::is_null` tells whether the slot at index `i` is marked as
/// holding nothing. It panics past the last slot.
pub assume_specification[ ArrayData::is_null ](column: &ArrayData, i: usize) -> (null: bool)
    requires
        i < column_cells(*column).len(),
    ensures
        null == (column_cells(*column)[i as int] is Null),
;

/// `ArrayData::data_type` where it is one of the types without a unit that
/// this library tells apart; `Other` for every other type, the types with
/// a unit among them.
#[verifier::external_body]
pub(crate) fn plain_type_of(column: &ArrayData) -> (declared: ArrowType)
    ensures
        declared == column_type(*column).plain_part(),
{
    match column.data_type() {
        DataType::Null => ArrowType::Null, DataType::Boolean => ArrowType::Boolean,
        DataType::Int8 => ArrowType::Int8, DataType::Int16 => ArrowType::Int16,
        DataType::Int32 => ArrowType::Int32, DataType::Int64 => ArrowType::Int64,
        DataType::UInt8 => ArrowType::UInt8, DataType::UInt16 => ArrowType::UInt16,
        DataType::UInt32 => ArrowType::UInt32, DataType::UInt64 => ArrowType::UInt64,
        DataType::Float16 => ArrowType::Float16, DataType::Float32 => ArrowType::Float32,
        DataType::Float64 => ArrowType::Float64, DataType::Date32 => ArrowType::Date32,
        DataType::Date64 => ArrowType::Date64, DataType::Utf8 => ArrowType::Utf8,
        DataType::LargeUtf8 => ArrowType::LargeUtf8, DataType::Utf8View => ArrowType::Utf8View,
        _ => ArrowType::Other,
    }
}

/// `ArrayData::data_type` where it is a timestamp, a time or a duration,
/// with its unit; `Other` for every other type. The time zone of a
/// timestamp is left out.
#[verifier::external_body]
pub(crate) fn timed_type_of(column: &ArrayData) -> (declared: ArrowType)
    ensures
        declared == column_type(*column).timed_part(),
{
    let (DataType::Timestamp(unit, _) | DataType::Time32(unit) | DataType::Time64(unit)
    | DataType::Duration(unit)) = column.data_type() else { return ArrowType::Other };
    let unit = match unit {
        arrow::datatypes::TimeUnit::Second => TimeUnit::Second,
        arrow::datatypes::TimeUnit::Millisecond => TimeUnit::Millisecond,
        arrow::datatypes::TimeUnit::Microsecond => TimeUnit::Microsecond,
        arrow::datatypes::TimeUnit::Nanosecond => TimeUnit::Nanosecond,
    };
    match column.data_type() {
        DataType::Timestamp(..) => ArrowType::Timestamp(unit),
        DataType::Time32(_) => ArrowType::Time32(unit),
        DataType::Time64(_) => ArrowType::Time64(unit),
        _ => ArrowType::Duration(unit),
    }
}

/// The slot at index `i` of a column of 8-bit numbers, as `ScalarBuffer`
/// reads it from the buffer of values: the bits of the number.
#[verifier::external_body]
pub(crate) fn word8_at(column: &ArrayData, i: usize) -> (word: u8)
    requires
        column_type(*column).word_bits() == 8,
        i < column_cells(*column).len(),
    ensures
        column_cells(*column)[i as int] !is Null ==> column_cells(*column)[i as int] == Cell::Word(
            word as u64,
        ),
{
    ScalarBuffer::<u8>::new(column.buffers()[0].clone(), column.offset(), column.len())[i]
}

/// The slot at index `i` of a column of 16-bit numbers, as `ScalarBuffer`
/// reads it from the buffer of values: the bits of the number.
#[verifier::external_body]
pub(crate) fn word16_at(column: &ArrayData, i: usize) -> (word: u16)
    requires
        column_type(*column).word_bits() == 16,
        i < column_cells(*column).len(),
    ensures
        column_cells(*column)[i as int] !is Null ==> column_cells(*column)[i as int] == Cell::Word(
            word as u64,
        ),
{
    ScalarBuffer::<u16>::new(column.buffers()[0].clone(), column.offset(), column.len())[i]
}

/// The slot at index `i` of a column of 32-bit numbers, as `ScalarBuffer`
/// reads it from the buffer of values: the bits of the number.
#[verifier::external_body]
pub(crate) fn word32_at(column: &ArrayData, i: usize) -> (word: u32)
    requires
        column_type(*column).word_bits() == 32,
        i < column_cells(*column).len(),
    ensures
        column_cells(*column)[i as int] !is Null ==> column_cells(*column)[i as int] == Cell::Word(
            word as u64,
        ),
{
    ScalarBuffer::<u32>::new(column.buffers()[0].clone(), column.offset(), column.len())[i]
}

/// The slot at index `i` of a column of 64-bit numbers, as `ScalarBuffer`
/// reads it from the buffer of values: the bits of the number.
#[verifier::external_body]
pub(crate) fn word64_at(column: &ArrayData, i: usize) -> (word: u64)
    requires
        column_type(*column).word_bits() == 64,
        i < column_cells(*column).len(),
    ensures
        column_cells(*column)[i as int] !is Null ==> column_cells(*column)[i as int] == Cell::Word(
            word,
        ),
{
    ScalarBuffer::<u64>::new(column.buffers()[0].clone(), column.offset(), column.len())[i]
}

/// `f16::to_f32` on the 16-bit floating-point number of the given bits,
/// and the bits of what it returns.
#[verifier::external_body]
pub(crate) fn half_to_single(half: u16) -> (single: u32)
    ensures
        single == half_as_single(half),
{
    <Float16Type as ArrowPrimitiveType>::Native::from_bits(half).to_f32().to_bits()
}

/// `BooleanArray::value` at index `i` of a boolean column.
#[verifier::external_body]
pub(crate) fn flag_at(column: &ArrayData, i: usize) -> (flag: bool)
    requires
        column_type(*column) == ArrowType::Boolean,
        i < column_cells(*column).len(),
    ensures
        column_cells(*column)[i as int] !is Null ==> column_cells(*column)[i as int] == Cell::Flag(
            flag,
        ),
{
    BooleanArray::from(column.clone()).value(i)
}

/// `StringArray::value` at index `i` of a column of strings with 32-bit offsets.
#[verifier::external_body]
pub(crate) fn utf8_at(column: &ArrayData, i: usize) -> (text: String)
    requires
        column_type(*column) == ArrowType::Utf8,
        i < column_cells(*column).len(),
    ensures
        column_cells(*column)[i as int] !is Null ==> column_cells(*column)[i as int] == Cell::Text(
            text@,
        ),
{
    StringArray::from(column.clone()).value(i).to_string()
}

/// `LargeStringArray::value` at index `i` of a column of strings with 64-bit offsets.
#[verifier::external_body]
pub(crate) fn large_utf8_at(column: &ArrayData, i: usize) -> (text: String)
    requires
        column_type(*column) == ArrowType::LargeUtf8,
        i < column_cells(*column).len(),
    ensures
        column_cells(*column)[i as int] !is Null ==> column_cells(*column)[i as int] == Cell::Text(
            text@,
        ),
{
    LargeStringArray::from(column.clone()).value(i).to_string()
}

/// `StringViewArray::value` at index `i` of a column of string views.
#[verifier::external_body]
pub(crate) fn utf8_view_at(column: &ArrayData, i: usize) -> (text: String)
    requires
        column_type(*column) == ArrowType::Utf8View,
        i < column_cells(*column).len(),
    ensures
        column_cells(*column)[i as int] !is Null ==> column_cells(*column)[i as int] == Cell::Text(
            text@,
        ),
{
    StringViewArray::from(column.clone()).value(i).to_string()
}

/// The declared type of the column.
pub fn column_type_of(column: &ArrayData) -> (declared: ArrowType)
    ensures
        declared == column_type(*column),
{
    let plain = plain_type_of(column);
    if plain != ArrowType::Other {
        plain
    } else {
        timed_type_of(column)
    }
}

} // verus!
