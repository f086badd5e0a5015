//! The typed strategy: every cell of a batch becomes a [`Value`], column by
//! column, and the columns are then turned into rows.

use crate::row::{
    distinct_names, lemma_put_distinct, lemma_put_names, names_of, put, DecodedRow,
};
use crate::serializer::batch::{batch_columns, batch_rows, Batch};
use crate::serializer::SerializerTrait;
use crate::serializer::columns::{
    column_cells, column_type, column_type_of, flag_at, half_as_single, half_to_single,
    large_utf8_at, utf8_at, utf8_view_at, word16_at, word32_at, word64_at, word8_at, ArrowType,
    Cell, TimeUnit,
};
use crate::{datum_of, Datum, Value};
use arrow::array::ArrayData;
use vstd::prelude::*;
use vstd::string::StringExecFns;

verus! {

/// The word that goes with a time for its unit.
pub open spec fn unit_word(unit: TimeUnit) -> Seq<char> {
    match unit {
        TimeUnit::Second => "s"@,
        TimeUnit::Millisecond => "ms"@,
        TimeUnit::Microsecond => "µs"@,
        TimeUnit::Nanosecond => "ns"@,
    }
}

/// The word that goes with a time for its unit.
pub fn unit_text(unit: TimeUnit) -> (word: String)
    ensures
        word@ == unit_word(unit),
{
    match unit {
        TimeUnit::Second => String::from_str("s"),
        TimeUnit::Millisecond => String::from_str("ms"),
        TimeUnit::Microsecond => String::from_str("µs"),
        TimeUnit::Nanosecond => String::from_str("ns"),
    }
}

/// Whether the cells of a column of this type are decoded one by one. The
/// others are a column without values, every type that this library does
/// not know, and a time in a unit that its width does not have.
pub open spec fn is_decoded(declared: ArrowType) -> bool {
    match declared {
        ArrowType::Null => false,
        ArrowType::Other => false,
        ArrowType::Time32(unit) => unit == TimeUnit::Second || unit == TimeUnit::Millisecond,
        ArrowType::Time64(unit) => unit == TimeUnit::Microsecond || unit == TimeUnit::Nanosecond,
        _ => true,
    }
}

/// The bits of a slot that holds a number.
pub open spec fn word_of(cell: Cell) -> u64 {
    match cell {
        Cell::Word(word) => word,
        _ => 0,
    }
}

/// The boolean of a slot that holds one.
pub open spec fn flag_of(cell: Cell) -> bool {
    match cell {
        Cell::Flag(flag) => flag,
        _ => false,
    }
}

/// The text of a slot that holds one.
pub open spec fn text_in(cell: Cell) -> Seq<char> {
    match cell {
        Cell::Text(text) => text,
        _ => Seq::empty(),
    }
}

/// What a slot that holds something is decoded to, by the declared type of
/// its column. The bits of a signed number are read in two's complement.
/// A 16-bit floating-point number is widened to 32 bits. A time, a duration
/// and a timestamp keep their unit.
pub open spec fn present_cell(declared: ArrowType, cell: Cell) -> Datum {
    let word = word_of(cell);
    match declared {
        ArrowType::Boolean => Datum::Bool(flag_of(cell)),
        ArrowType::Int8 => Datum::Int8((word as u8) as i8),
        ArrowType::Int16 => Datum::Int16((word as u16) as i16),
        ArrowType::Int32 => Datum::Int32((word as u32) as i32),
        ArrowType::Int64 => Datum::Int64(word as i64),
        ArrowType::UInt8 => Datum::U8(word as u8),
        ArrowType::UInt16 => Datum::U16(word as u16),
        ArrowType::UInt32 => Datum::U32(word as u32),
        ArrowType::UInt64 => Datum::U64(word),
        ArrowType::Float16 => Datum::F16(half_as_single(word as u16)),
        ArrowType::Float32 => Datum::F32(word as u32),
        ArrowType::Float64 => Datum::F64(word),
        ArrowType::Date32 => Datum::Date32((word as u32) as i32),
        ArrowType::Date64 => Datum::Date64(word as i64),
        ArrowType::Utf8 => Datum::Text(text_in(cell)),
        ArrowType::LargeUtf8 => Datum::Text(text_in(cell)),
        ArrowType::Utf8View => Datum::Text(text_in(cell)),
        ArrowType::Timestamp(unit) => Datum::Time64(word as i64, unit_word(unit)),
        ArrowType::Duration(unit) => Datum::Time64(word as i64, unit_word(unit)),
        ArrowType::Time32(unit) => Datum::Time32((word as u32) as i32, unit_word(unit)),
        ArrowType::Time64(unit) => Datum::Time64(word as i64, unit_word(unit)),
        ArrowType::Null => Datum::Null,
        ArrowType::Other => Datum::Fallback,
    }
}

/// What one slot is decoded to: every slot of a column without values is
/// the null value, every slot of a column that is not decoded is the
/// fallback value, and in every other column a slot that holds nothing is
/// absent and a slot that holds something is what it holds.
pub open spec fn decoded_cell(declared: ArrowType, cell: Cell) -> Option<Datum> {
    if declared == ArrowType::Null {
        Some(Datum::Null)
    } else if !is_decoded(declared) {
        Some(Datum::Fallback)
    } else if cell is Null {
        None
    } else {
        Some(present_cell(declared, cell))
    }
}

/// The first `rows` slots of a column, decoded.
pub open spec fn decoded_column(column: ArrayData, rows: nat) -> Seq<Option<Datum>> {
    Seq::new(rows, |i: int| decoded_cell(column_type(column), column_cells(column)[i]))
}

/// What a sequence of cells holds.
pub open spec fn data_of(cells: Seq<Option<Value>>) -> Seq<Option<Datum>> {
    Seq::new(cells.len(), |i: int| datum_of(cells[i]))
}

/// Nulls come through: in a column whose cells are decoded, a slot is
/// decoded to an absent cell exactly when it holds nothing.
pub proof fn lemma_null_comes_through(declared: ArrowType, cell: Cell)
    requires
        is_decoded(declared),
    ensures
        decoded_cell(declared, cell) is None <==> cell is Null,
{
}

/// Decoding never fails: a column that is not decoded gives a value for
/// every slot, the fallback value but for a column without values.
pub proof fn lemma_undecoded_is_total(declared: ArrowType, cell: Cell)
    requires
        !is_decoded(declared),
    ensures
        decoded_cell(declared, cell) == if declared == ArrowType::Null {
            Some(Datum::Null)
        } else {
            Some(Datum::Fallback)
        },
{
}

/// The slot at index `i` of a column, decoded.
pub fn decode_cell(column: &ArrayData, declared: ArrowType, i: usize) -> (cell: Option<Value>)
    requires
        declared == column_type(*column),
        i < column_cells(*column).len(),
    ensures
        datum_of(cell) == decoded_cell(declared, column_cells(*column)[i as int]),
{
    match declared {
        ArrowType::Null => {
            return Some(Value::Null);
        },
        ArrowType::Other => {
            return Some(Value::Fallback);
        },
        ArrowType::Time32(TimeUnit::Microsecond) | ArrowType::Time32(TimeUnit::Nanosecond) => {
            return Some(Value::Fallback);
        },
        ArrowType::Time64(TimeUnit::Second) | ArrowType::Time64(TimeUnit::Millisecond) => {
            return Some(Value::Fallback);
        },
        _ => {},
    }
    if column.is_null(i) {
        return None;
    }
    let value = match declared {
        ArrowType::Boolean => Value::Bool(flag_at(column, i)),
        ArrowType::Int8 => Value::Int8(word8_at(column, i) as i8),
        ArrowType::Int16 => Value::Int16(word16_at(column, i) as i16),
        ArrowType::Int32 => Value::Int32(word32_at(column, i) as i32),
        ArrowType::Int64 => Value::Int64(word64_at(column, i) as i64),
        ArrowType::UInt8 => Value::U8(word8_at(column, i)),
        ArrowType::UInt16 => Value::U16(word16_at(column, i)),
        ArrowType::UInt32 => Value::U32(word32_at(column, i)),
        ArrowType::UInt64 => Value::U64(word64_at(column, i)),
        ArrowType::Float16 => Value::F16(half_to_single(word16_at(column, i))),
        ArrowType::Float32 => Value::F32(word32_at(column, i)),
        ArrowType::Float64 => Value::F64(word64_at(column, i)),
        ArrowType::Date32 => Value::Date32(word32_at(column, i) as i32),
        ArrowType::Date64 => Value::Date64(word64_at(column, i) as i64),
        ArrowType::Utf8 => Value::Text(utf8_at(column, i)),
        ArrowType::LargeUtf8 => Value::Text(large_utf8_at(column, i)),
        ArrowType::Utf8View => Value::Text(utf8_view_at(column, i)),
        ArrowType::Timestamp(unit) => Value::Time64(word64_at(column, i) as i64, unit_text(unit)),
        ArrowType::Duration(unit) => Value::Time64(word64_at(column, i) as i64, unit_text(unit)),
        ArrowType::Time32(unit) => Value::Time32(word32_at(column, i) as i32, unit_text(unit)),
        ArrowType::Time64(unit) => Value::Time64(word64_at(column, i) as i64, unit_text(unit)),
        ArrowType::Null => Value::Null,
        ArrowType::Other => Value::Fallback,
    };
    Some(value)
}

/// Appends the first `row_count` slots of the column, decoded.
fn push_cells(
    column: &ArrayData,
    declared: ArrowType,
    row_count: usize,
    column_values: &mut Vec<Option<Value>>,
)
    requires
        declared == column_type(*column),
        row_count <= column_cells(*column).len(),
    ensures
        data_of(final(column_values)@) == data_of(old(column_values)@) + decoded_column(
            *column,
            row_count as nat,
        ),
{
    let ghost before = data_of(column_values@);
    let mut i: usize = 0;
    assert(data_of(column_values@) =~= before + decoded_column(*column, 0));
    while i < row_count
        invariant
            i <= row_count <= column_cells(*column).len(),
            declared == column_type(*column),
            data_of(column_values@) == before + decoded_column(*column, i as nat),
        decreases row_count - i,
    {
        let ghost held = column_values@;
        let cell = decode_cell(column, declared, i);
        column_values.push(cell);
        assert(data_of(column_values@) =~= data_of(held).push(datum_of(cell)));
        assert(decoded_column(*column, (i + 1) as nat) =~= decoded_column(*column, i as nat).push(
            datum_of(cell),
        ));
        i += 1;
    }
}

/// Appends the first `row_count` slots of a column of durations: each
/// that holds something as the count with the word for the unit.
pub fn serialize_duration_column(
    column: &ArrayData,
    time_unit: TimeUnit,
    row_count: usize,
    column_values: &mut Vec<Option<Value>>,
)
    requires
        column_type(*column) == ArrowType::Duration(time_unit),
        row_count <= column_cells(*column).len(),
    ensures
        data_of(final(column_values)@) == data_of(old(column_values)@) + decoded_column(
            *column,
            row_count as nat,
        ),
{
    push_cells(column, ArrowType::Duration(time_unit), row_count, column_values);
}

/// Appends the first `row_count` slots of a column of timestamps: each
/// that holds something as the count with the word for the unit.
pub fn serialize_timestamp_column(
    column: &ArrayData,
    time_unit: TimeUnit,
    row_count: usize,
    column_values: &mut Vec<Option<Value>>,
)
    requires
        column_type(*column) == ArrowType::Timestamp(time_unit),
        row_count <= column_cells(*column).len(),
    ensures
        data_of(final(column_values)@) == data_of(old(column_values)@) + decoded_column(
            *column,
            row_count as nat,
        ),
{
    push_cells(column, ArrowType::Timestamp(time_unit), row_count, column_values);
}

/// Appends the first `row_count` slots of a column of 32-bit times of day:
/// in seconds or milliseconds each that holds something as the count with
/// the word for the unit, in any other unit the fallback value.
pub fn serialize_time32_column(
    column: &ArrayData,
    time_unit: TimeUnit,
    row_count: usize,
    column_values: &mut Vec<Option<Value>>,
)
    requires
        column_type(*column) == ArrowType::Time32(time_unit),
        row_count <= column_cells(*column).len(),
    ensures
        data_of(final(column_values)@) == data_of(old(column_values)@) + decoded_column(
            *column,
            row_count as nat,
        ),
{
    push_cells(column, ArrowType::Time32(time_unit), row_count, column_values);
}

/// Appends the first `row_count` slots of a column of 64-bit times of day:
/// in microseconds or nanoseconds each that holds something as the count
/// with the word for the unit, in any other unit the fallback value.
pub fn serialize_time64_column(
    column: &ArrayData,
    time_unit: TimeUnit,
    row_count: usize,
    column_values: &mut Vec<Option<Value>>,
)
    requires
        column_type(*column) == ArrowType::Time64(time_unit),
        row_count <= column_cells(*column).len(),
    ensures
        data_of(final(column_values)@) == data_of(old(column_values)@) + decoded_column(
            *column,
            row_count as nat,
        ),
{
    push_cells(column, ArrowType::Time64(time_unit), row_count, column_values);
}

/// Decodes the first `row_count` slots of a column, and hands them back
/// under the name of the column.
pub fn serialize_column(column: &ArrayData, field_name: String, row_count: usize) -> (decoded: (
    String,
    Vec<Option<Value>>,
))
    requires
        row_count <= column_cells(*column).len(),
    ensures
        decoded.0 == field_name,
        data_of(decoded.1@) == decoded_column(*column, row_count as nat),
{
    let mut column_values: Vec<Option<Value>> = Vec::new();
    assert(data_of(column_values@) =~= Seq::empty());
    let declared = column_type_of(column);
    match declared {
        ArrowType::Duration(time_unit) => {
            serialize_duration_column(column, time_unit, row_count, &mut column_values);
        },
        ArrowType::Timestamp(time_unit) => {
            serialize_timestamp_column(column, time_unit, row_count, &mut column_values);
        },
        ArrowType::Time32(time_unit) => {
            serialize_time32_column(column, time_unit, row_count, &mut column_values);
        },
        ArrowType::Time64(time_unit) => {
            serialize_time64_column(column, time_unit, row_count, &mut column_values);
        },
        _ => {
            push_cells(column, declared, row_count, &mut column_values);
        },
    }
    assert(data_of(column_values@) =~= decoded_column(*column, row_count as nat));
    (field_name, column_values)
}

/// What decoded columns hold: the name and the cells of each.
pub open spec fn columns_data(columns: Seq<(String, Vec<Option<Value>>)>) -> Seq<
    (Seq<char>, Seq<Option<Datum>>),
> {
    Seq::new(columns.len(), |c: int| (columns[c].0@, data_of(columns[c].1@)))
}

/// Row `r` of the given columns: each column, from the first to the last,
/// puts its cell at `r` under its name. A column that ends before `r` puts
/// nothing.
pub open spec fn row_of(columns: Seq<(Seq<char>, Seq<Option<Datum>>)>, r: int) -> Seq<
    (Seq<char>, Option<Datum>),
>
    decreases columns.len(),
{
    if columns.len() == 0 {
        Seq::empty()
    } else {
        let before = row_of(columns.drop_last(), r);
        let last = columns.last();
        if 0 <= r < last.1.len() {
            put(before, last.0, last.1[r])
        } else {
            before
        }
    }
}

/// Every row has the names of the columns, each once: where every column
/// reaches row `r`, a name is in the row exactly when a column has it.
pub proof fn lemma_row_has_every_column(columns: Seq<(Seq<char>, Seq<Option<Datum>>)>, r: int)
    requires
        forall|c: int| 0 <= c < columns.len() ==> 0 <= r < (#[trigger] columns[c]).1.len(),
    ensures
        distinct_names(row_of(columns, r)),
        forall|name: Seq<char>|
            names_of(row_of(columns, r)).contains(name) <==> exists|c: int|
                0 <= c < columns.len() && (#[trigger] columns[c]).0 == name,
    decreases columns.len(),
{
    if columns.len() == 0 {
        assert(names_of(row_of(columns, r)) =~= Seq::<Seq<char>>::empty());
    } else {
        let shorter = columns.drop_last();
        let last = columns.last();
        assert forall|c: int| 0 <= c < shorter.len() implies 0 <= r < (#[trigger] shorter[c]).1.len() by {
            assert(shorter[c] == columns[c]);
        }
        lemma_row_has_every_column(shorter, r);
        let before = row_of(shorter, r);
        assert(0 <= r < columns[columns.len() - 1].1.len());
        lemma_put_names(before, last.0, last.1[r]);
        lemma_put_distinct(before, last.0, last.1[r]);
        assert forall|name: Seq<char>| names_of(row_of(columns, r)).contains(name) <==> exists|
            c: int,
        |
            0 <= c < columns.len() && (#[trigger] columns[c]).0 == name by {
            if names_of(before).contains(name) {
                let c = choose|c: int| 0 <= c < shorter.len() && (#[trigger] shorter[c]).0 == name;
                assert(columns[c].0 == name);
            }
            if name == last.0 {
                assert(columns[columns.len() - 1].0 == name);
            }
            if exists|c: int| 0 <= c < columns.len() && (#[trigger] columns[c]).0 == name {
                let c = choose|c: int| 0 <= c < columns.len() && (#[trigger] columns[c]).0 == name;
                if c < shorter.len() {
                    assert(shorter[c].0 == name);
                }
            }
        }
    }
}

/// Turns decoded columns into `row_count` rows, in the order of the rows
/// and, within a row, of the columns.
pub fn transpose(columns: Vec<(String, Vec<Option<Value>>)>, row_count: usize) -> (rows: Vec<
    DecodedRow,
>)
    ensures
        rows@.len() == row_count,
        forall|r: int|
            0 <= r < row_count ==> (#[trigger] rows@[r])@ == row_of(columns_data(columns@), r),
{
    let ghost all = columns_data(columns@);
    let mut rows: Vec<DecodedRow> = Vec::new();
    while rows.len() < row_count
        invariant
            rows@.len() <= row_count,
            forall|r: int|
                0 <= r < rows@.len() ==> (#[trigger] rows@[r])@ == Seq::<
                    (Seq<char>, Option<Datum>),
                >::empty(),
        decreases row_count - rows@.len(),
    {
        rows.push(DecodedRow::new());
    }
    let mut columns = columns;
    let mut later: Vec<(String, Vec<Option<Value>>)> = Vec::new();
    while columns.len() > 0
        invariant
            columns@.len() + later@.len() == all.len(),
            forall|c: int| 0 <= c < columns@.len() ==> columns_data(columns@)[c] == all[c],
            forall|j: int|
                0 <= j < later@.len() ==> columns_data(later@)[j] == all[all.len() - 1 - j],
        decreases columns@.len(),
    {
        let ghost ahead = columns@;
        let ghost stacked = later@;
        match columns.pop() {
            Some(column) => {
                later.push(column);
                proof {
                    assert(columns_data(ahead)[ahead.len() - 1] == all[ahead.len() - 1]);
                    assert forall|c: int| 0 <= c < columns@.len() implies columns_data(
                        columns@,
                    )[c] == all[c] by {
                        assert(columns_data(ahead)[c] == all[c]);
                    }
                    assert forall|j: int| 0 <= j < later@.len() implies columns_data(later@)[j]
                        == all[all.len() - 1 - j] by {
                        if j < stacked.len() {
                            assert(columns_data(stacked)[j] == all[all.len() - 1 - j]);
                        }
                    }
                }
            },
            None => {},
        }
    }
    assert(all.take(0) =~= Seq::empty());
    while later.len() > 0
        invariant
            later@.len() <= all.len(),
            rows@.len() == row_count,
            forall|j: int|
                0 <= j < later@.len() ==> columns_data(later@)[j] == all[all.len() - 1 - j],
            forall|r: int|
                0 <= r < row_count ==> (#[trigger] rows@[r])@ == row_of(
                    all.take(all.len() - later@.len()),
                    r,
                ),
        decreases later@.len(),
    {
        let ghost k = all.len() - later@.len();
        let ghost base = all.take(k);
        let ghost stacked = later@;
        match later.pop() {
            Some((name, cells)) => {
                let mut cells = cells;
                let ghost column = all[k];
                proof {
                    assert(columns_data(stacked)[stacked.len() - 1] == all[k]);
                    assert(column.0 == name@);
                    assert(column.1 == data_of(cells@));
                    assert forall|j: int| 0 <= j < later@.len() implies columns_data(later@)[j]
                        == all[all.len() - 1 - j] by {
                        assert(columns_data(stacked)[j] == all[all.len() - 1 - j]);
                    }
                }
                while cells.len() > 0
                    invariant
                        cells@.len() <= column.1.len(),
                        forall|i: int|
                            0 <= i < cells@.len() ==> datum_of(#[trigger] cells@[i]) == column.1[i],
                        column.0 == name@,
                        rows@.len() == row_count,
                        forall|r: int|
                            0 <= r < row_count ==> (#[trigger] rows@[r])@ == if cells@.len() <= r
                                < column.1.len() {
                                put(row_of(base, r), column.0, column.1[r])
                            } else {
                                row_of(base, r)
                            },
                    decreases cells@.len(),
                {
                    match cells.pop() {
                        Some(cell) => {
                            let r = cells.len();
                            if r < row_count {
                                let ghost held = rows@;
                                rows[r].insert(name.clone(), cell);
                                assert forall|q: int| 0 <= q < row_count implies (
                                #[trigger] rows@[q])@ == if cells@.len() <= q < column.1.len() {
                                    put(row_of(base, q), column.0, column.1[q])
                                } else {
                                    row_of(base, q)
                                } by {
                                    if q != r {
                                        assert(rows@[q] == held[q]);
                                    }
                                }
                            }
                        },
                        None => {},
                    }
                }
                proof {
                    assert(all.take(k + 1).drop_last() =~= base);
                    assert(all.take(k + 1).last() == column);
                }
            },
            None => {},
        }
    }
    assert(all.take(all.len() as int) =~= all);
    rows
}

/// What a batch holds once each of its columns is decoded: the name and the
/// decoded cells of each column.
pub open spec fn decoded_batch(batch: Batch) -> Seq<(Seq<char>, Seq<Option<Datum>>)> {
    Seq::new(
        batch_columns(batch).len(),
        |c: int|
            (
                batch_columns(batch)[c].name,
                Seq::new(
                    batch_rows(batch),
                    |i: int|
                        decoded_cell(batch_columns(batch)[c].declared, batch_columns(batch)[c].cells[i]),
                ),
            ),
    )
}

/// Decodes a batch into its rows: one row for each row of the batch, in
/// order, with the decoded cell of every column under the name of the column.
pub fn serialize_batch_columnwise(batch: &Batch) -> (rows: Vec<DecodedRow>)
    ensures
        rows@.len() == batch_rows(*batch),
        forall|r: int|
            0 <= r < rows@.len() ==> (#[trigger] rows@[r])@ == row_of(decoded_batch(*batch), r),
{
    let row_count = batch.num_rows();
    let field_count = batch.num_columns();
    let mut columns: Vec<(String, Vec<Option<Value>>)> = Vec::new();
    let mut index: usize = 0;
    while index < field_count
        invariant
            index <= field_count,
            field_count == batch_columns(*batch).len(),
            row_count == batch_rows(*batch),
            columns@.len() == index,
            forall|c: int|
                0 <= c < index ==> #[trigger] columns_data(columns@)[c] == decoded_batch(*batch)[c],
        decreases field_count - index,
    {
        let column = batch.column(index);
        let field_name = batch.column_name(index);
        let decoded = serialize_column(&column, field_name, row_count);
        let ghost held = columns@;
        proof {
            assert(data_of(decoded.1@) =~= decoded_batch(*batch)[index as int].1);
        }
        columns.push(decoded);
        proof {
            assert forall|c: int| 0 <= c < index + 1 implies #[trigger] columns_data(columns@)[c]
                == decoded_batch(*batch)[c] by {
                if c < index {
                    assert(columns_data(held)[c] == decoded_batch(*batch)[c]);
                }
            }
        }
        index += 1;
    }
    assert(columns_data(columns@) =~= decoded_batch(*batch));
    transpose(columns, row_count)
}

/// The typed strategy.
pub struct LibrarySerializer;

/// A row of typed values.
pub type LibraryReturnType = DecodedRow;

impl SerializerTrait for LibrarySerializer {
    type Output = DecodedRow;

    /// One row of typed values for each row of the batch, in order.
    fn serialize<E>(batch: Result<Batch, E>) -> (items: Option<Vec<DecodedRow>>)
        ensures
            match batch {
                Ok(batch) => {
                    &&& items matches Some(rows)
                    &&& rows@.len() == batch_rows(batch)
                    &&& forall|r: int|
                        0 <= r < rows@.len() ==> (#[trigger] rows@[r])@ == row_of(
                            decoded_batch(batch),
                            r,
                        )
                },
                Err(_) => items is None,
            },
    {
        match batch {
            Ok(batch) => Some(serialize_batch_columnwise(&batch)),
            Err(_) => None,
        }
    }
}

} // verus!
