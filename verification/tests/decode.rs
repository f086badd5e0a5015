use std::io::Cursor;
use std::sync::Arc;

use arrow::array::{
    Array, ArrayData, ArrayRef, BinaryArray, BooleanArray, Date32Array, Date64Array,
    DurationMicrosecondArray, DurationMillisecondArray, DurationNanosecondArray,
    DurationSecondArray, Float16Array, Float32Array, Float64Array, Int16Array, Int32Array,
    Int64Array, Int8Array, LargeStringArray, NullArray, RecordBatch, StringArray,
    StringViewArray, Time32MillisecondArray, Time32SecondArray, Time64MicrosecondArray,
    Time64NanosecondArray, TimestampMicrosecondArray, TimestampMillisecondArray,
    TimestampNanosecondArray, TimestampSecondArray, UInt16Array, UInt32Array, UInt64Array,
    UInt8Array,
};
use arrow::buffer::Buffer;
use arrow::datatypes::{ArrowPrimitiveType, DataType, Field, Float16Type, Schema, TimeUnit as Unit};
use arrow::ipc::reader::StreamReader;
use influxdb3::row::DecodedRow;
use influxdb3::serializer::batch::Batch;
use influxdb3::serializer::columns::{column_type_of, ArrowType, TimeUnit};
use influxdb3::serializer::library_serializer::{
    decode_cell, serialize_batch_columnwise, serialize_column, serialize_duration_column,
    serialize_time32_column, serialize_time64_column, serialize_timestamp_column, transpose,
    unit_text, LibrarySerializer,
};
use influxdb3::serializer::raw_serializer::{raw_items, RawSerializer};
use influxdb3::serializer::unsafe_serializer::{unsafe_serialize, UnsafeSerializer};
use influxdb3::serializer::{Serializer, SerializerTrait};
use influxdb3::Value;

fn decode(array: &dyn Array) -> Vec<Option<Value>> {
    let data = array.to_data();
    let (name, cells) = serialize_column(&data, "c".to_string(), data.len());
    assert_eq!(name, "c");
    assert_eq!(cells.len(), array.len());
    cells
}

fn sample_batch() -> RecordBatch {
    let schema = Schema::new(vec![
        Field::new("a", DataType::Int32, true),
        Field::new("b", DataType::Utf8, true),
    ]);
    let a: ArrayRef = Arc::new(Int32Array::from(vec![Some(1), None, Some(3)]));
    let b: ArrayRef = Arc::new(StringArray::from(vec![Some("x"), Some("y"), None]));
    RecordBatch::try_new(Arc::new(schema), vec![a, b]).unwrap()
}

fn cell<'a>(row: &'a DecodedRow, name: &str) -> &'a Option<Value> {
    row.get(name).unwrap()
}

#[test]
fn typed_strategy_decodes_the_sample_batch() {
    let batch = Batch { record_batch: sample_batch() };
    let failed: Result<Batch, String> = Ok(batch);
    let rows = LibrarySerializer::serialize(failed).unwrap();
    assert_eq!(rows.len(), 3);
    assert_eq!(cell(&rows[0], "a"), &Some(Value::Int32(1)));
    assert_eq!(cell(&rows[0], "b"), &Some(Value::Text("x".to_string())));
    assert_eq!(cell(&rows[1], "a"), &None);
    assert_eq!(cell(&rows[1], "b"), &Some(Value::Text("y".to_string())));
    assert_eq!(cell(&rows[2], "a"), &Some(Value::Int32(3)));
    assert_eq!(cell(&rows[2], "b"), &None);
    for row in &rows {
        assert_eq!(row.len(), 2);
        assert_eq!(row.name_at(0), "a");
        assert_eq!(row.name_at(1), "b");
        assert_eq!(row.get("c"), None);
        assert_eq!(row.position("b"), Some(1));
    }
    assert_eq!(rows[2].value_at(0), &Some(Value::Int32(3)));
}

#[test]
fn an_error_in_place_of_a_batch_gives_no_items() {
    let failed: Result<Batch, String> = Err("lost".to_string());
    assert_eq!(LibrarySerializer::serialize(failed), None);
    let failed: Result<Batch, String> = Err("lost".to_string());
    assert_eq!(RawSerializer::serialize(failed), None);
    let failed: Result<Batch, String> = Err("lost".to_string());
    assert_eq!(UnsafeSerializer::serialize(failed), None);
    let failed: Option<Result<Batch, String>> = Some(Err("lost".to_string()));
    assert_eq!(unsafe_serialize(failed), None);
    let ended: Option<Result<Batch, String>> = None;
    assert_eq!(unsafe_serialize(ended), None);
    assert_eq!(raw_items(None), None);
    assert_eq!(raw_items(Some(vec![1, 2])), Some(vec![vec![1, 2]]));
    assert_eq!(Serializer::default(), Serializer::Unsafe);
}

#[test]
fn the_three_strategies_agree_on_the_sample_batch() {
    let typed = serialize_batch_columnwise(&Batch { record_batch: sample_batch() });

    let ok: Result<Batch, String> = Ok(Batch { record_batch: sample_batch() });
    let generic = UnsafeSerializer::serialize(ok).unwrap();
    assert_eq!(generic.len(), typed.len());
    assert_eq!(generic[0]["a"], 1);
    assert_eq!(generic[0]["b"], "x");
    assert!(generic[1]["a"].is_null());
    assert_eq!(generic[1]["b"], "y");
    assert_eq!(generic[2]["a"], 3);
    assert!(generic[2]["b"].is_null());
    for (row, object) in typed.iter().zip(generic.iter()) {
        assert_eq!(object.as_object().unwrap().len(), row.len());
    }
    let some: Option<Result<Batch, String>> = Some(Ok(Batch { record_batch: sample_batch() }));
    assert_eq!(unsafe_serialize(some).unwrap(), generic);

    let ok: Result<Batch, String> = Ok(Batch { record_batch: sample_batch() });
    let raw = RawSerializer::serialize(ok).unwrap();
    assert_eq!(raw.len(), 1);
    let reader = StreamReader::try_new(Cursor::new(raw[0].clone()), None).unwrap();
    let batches: Vec<RecordBatch> = reader.map(|b| b.unwrap()).collect();
    assert_eq!(batches.len(), 1);
    assert_eq!(batches[0], sample_batch());
    let again = serialize_batch_columnwise(&Batch { record_batch: batches[0].clone() });
    assert_eq!(again, typed);
}

#[test]
fn integers_of_every_width() {
    assert_eq!(
        decode(&Int8Array::from(vec![Some(-128), None, Some(127), Some(-1)])),
        vec![Some(Value::Int8(-128)), None, Some(Value::Int8(127)), Some(Value::Int8(-1))]
    );
    assert_eq!(
        decode(&Int16Array::from(vec![Some(i16::MIN), Some(-2), None])),
        vec![Some(Value::Int16(i16::MIN)), Some(Value::Int16(-2)), None]
    );
    assert_eq!(
        decode(&Int32Array::from(vec![Some(i32::MIN), Some(i32::MAX), Some(-7)])),
        vec![Some(Value::Int32(i32::MIN)), Some(Value::Int32(i32::MAX)), Some(Value::Int32(-7))]
    );
    assert_eq!(
        decode(&Int64Array::from(vec![Some(i64::MIN), None, Some(-9)])),
        vec![Some(Value::Int64(i64::MIN)), None, Some(Value::Int64(-9))]
    );
    assert_eq!(
        decode(&UInt8Array::from(vec![Some(255), None, Some(0)])),
        vec![Some(Value::U8(255)), None, Some(Value::U8(0))]
    );
    assert_eq!(
        decode(&UInt16Array::from(vec![Some(u16::MAX), Some(1)])),
        vec![Some(Value::U16(u16::MAX)), Some(Value::U16(1))]
    );
    assert_eq!(
        decode(&UInt32Array::from(vec![Some(u32::MAX), None])),
        vec![Some(Value::U32(u32::MAX)), None]
    );
    assert_eq!(
        decode(&UInt64Array::from(vec![None, Some(u64::MAX)])),
        vec![None, Some(Value::U64(u64::MAX))]
    );
}

#[test]
fn floating_point_numbers_keep_their_bits() {
    assert_eq!(
        decode(&Float32Array::from(vec![Some(1.5_f32), None, Some(-0.0_f32)])),
        vec![
            Some(Value::F32(1.5_f32.to_bits())),
            None,
            Some(Value::F32((-0.0_f32).to_bits()))
        ]
    );
    assert_eq!(
        decode(&Float64Array::from(vec![Some(51.25_f64), Some(f64::INFINITY), None])),
        vec![
            Some(Value::F64(51.25_f64.to_bits())),
            Some(Value::F64(f64::INFINITY.to_bits())),
            None
        ]
    );
    let half = <Float16Type as ArrowPrimitiveType>::Native::from_f32(1.5);
    let tiny = <Float16Type as ArrowPrimitiveType>::Native::from_f32(-0.333);
    assert_eq!(
        decode(&Float16Array::from(vec![Some(half), None, Some(tiny)])),
        vec![
            Some(Value::F16(1.5_f32.to_bits())),
            None,
            Some(Value::F16(tiny.to_f32().to_bits()))
        ]
    );
}

#[test]
fn booleans_texts_and_dates() {
    assert_eq!(
        decode(&BooleanArray::from(vec![Some(true), None, Some(false)])),
        vec![Some(Value::Bool(true)), None, Some(Value::Bool(false))]
    );
    let text = |s: &str| Some(Value::Text(s.to_string()));
    assert_eq!(
        decode(&StringArray::from(vec![Some("x"), None, Some(""), Some("µs é")])),
        vec![text("x"), None, text(""), text("µs é")]
    );
    assert_eq!(
        decode(&LargeStringArray::from(vec![Some("large"), None])),
        vec![text("large"), None]
    );
    assert_eq!(
        decode(&StringViewArray::from(vec![
            Some("view"),
            None,
            Some("a text that is longer than twelve bytes")
        ])),
        vec![text("view"), None, text("a text that is longer than twelve bytes")]
    );
    assert_eq!(
        decode(&Date32Array::from(vec![Some(-1), None, Some(19_000)])),
        vec![Some(Value::Date32(-1)), None, Some(Value::Date32(19_000))]
    );
    assert_eq!(
        decode(&Date64Array::from(vec![Some(-86_400_000), None])),
        vec![Some(Value::Date64(-86_400_000)), None]
    );
}

#[test]
fn times_keep_their_unit() {
    let time64 = |count: i64, unit: &str| Some(Value::Time64(count, unit.to_string()));
    let time32 = |count: i32, unit: &str| Some(Value::Time32(count, unit.to_string()));
    assert_eq!(
        decode(&TimestampSecondArray::from(vec![Some(-5), None])),
        vec![time64(-5, "s"), None]
    );
    assert_eq!(
        decode(&TimestampMillisecondArray::from(vec![Some(5)])),
        vec![time64(5, "ms")]
    );
    assert_eq!(
        decode(&TimestampMicrosecondArray::from(vec![Some(6)]).with_timezone("+01:00")),
        vec![time64(6, "µs")]
    );
    assert_eq!(
        decode(&TimestampNanosecondArray::from(vec![Some(i64::MAX), None])),
        vec![time64(i64::MAX, "ns"), None]
    );
    assert_eq!(decode(&DurationSecondArray::from(vec![Some(1)])), vec![time64(1, "s")]);
    assert_eq!(decode(&DurationMillisecondArray::from(vec![Some(2)])), vec![time64(2, "ms")]);
    assert_eq!(
        decode(&DurationMicrosecondArray::from(vec![None, Some(3)])),
        vec![None, time64(3, "µs")]
    );
    assert_eq!(decode(&DurationNanosecondArray::from(vec![Some(-4)])), vec![time64(-4, "ns")]);
    assert_eq!(
        decode(&Time32SecondArray::from(vec![Some(86_399), None])),
        vec![time32(86_399, "s"), None]
    );
    assert_eq!(decode(&Time32MillisecondArray::from(vec![Some(7)])), vec![time32(7, "ms")]);
    assert_eq!(decode(&Time64MicrosecondArray::from(vec![Some(8)])), vec![time64(8, "µs")]);
    assert_eq!(
        decode(&Time64NanosecondArray::from(vec![None, Some(9)])),
        vec![None, time64(9, "ns")]
    );
    assert_eq!(unit_text(TimeUnit::Second), "s");
    assert_eq!(unit_text(TimeUnit::Millisecond), "ms");
    assert_eq!(unit_text(TimeUnit::Microsecond), "µs");
    assert_eq!(unit_text(TimeUnit::Nanosecond), "ns");
}

#[test]
fn the_helpers_append_to_what_is_there() {
    let mut cells = vec![Some(Value::Null)];
    let data = DurationSecondArray::from(vec![Some(1), None]).to_data();
    serialize_duration_column(&data, TimeUnit::Second, 2, &mut cells);
    let data = TimestampNanosecondArray::from(vec![Some(2)]).to_data();
    serialize_timestamp_column(&data, TimeUnit::Nanosecond, 1, &mut cells);
    let data = Time32MillisecondArray::from(vec![Some(3), Some(4)]).to_data();
    serialize_time32_column(&data, TimeUnit::Millisecond, 1, &mut cells);
    let data = Time64MicrosecondArray::from(vec![Some(5)]).to_data();
    serialize_time64_column(&data, TimeUnit::Microsecond, 1, &mut cells);
    assert_eq!(
        cells,
        vec![
            Some(Value::Null),
            Some(Value::Time64(1, "s".to_string())),
            None,
            Some(Value::Time64(2, "ns".to_string())),
            Some(Value::Time32(3, "ms".to_string())),
            Some(Value::Time64(5, "µs".to_string())),
        ]
    );
}

#[test]
fn types_that_are_not_decoded_never_fail() {
    assert_eq!(
        decode(&NullArray::new(3)),
        vec![Some(Value::Null), Some(Value::Null), Some(Value::Null)]
    );
    let binary = BinaryArray::from(vec![Some(&b"ab"[..]), None]);
    assert_eq!(decode(&binary), vec![Some(Value::Fallback), Some(Value::Fallback)]);
    assert_eq!(column_type_of(&binary.to_data()), ArrowType::Other);

    let odd = ArrayData::builder(DataType::Time32(Unit::Microsecond))
        .len(2)
        .add_buffer(Buffer::from_vec(vec![1_i32, 2]))
        .build()
        .unwrap();
    assert_eq!(column_type_of(&odd), ArrowType::Time32(TimeUnit::Microsecond));
    let (_, cells) = serialize_column(&odd, "t".to_string(), 2);
    assert_eq!(cells, vec![Some(Value::Fallback), Some(Value::Fallback)]);

    let odd = ArrayData::builder(DataType::Time64(Unit::Second))
        .len(1)
        .add_buffer(Buffer::from_vec(vec![1_i64]))
        .build()
        .unwrap();
    assert_eq!(decode_cell(&odd, ArrowType::Time64(TimeUnit::Second), 0), Some(Value::Fallback));
}

#[test]
fn declared_types_are_told_apart() {
    let of = |array: &dyn Array| column_type_of(&array.to_data());
    assert_eq!(of(&NullArray::new(1)), ArrowType::Null);
    assert_eq!(of(&BooleanArray::from(vec![true])), ArrowType::Boolean);
    assert_eq!(of(&Int8Array::from(vec![1])), ArrowType::Int8);
    assert_eq!(of(&Int16Array::from(vec![1])), ArrowType::Int16);
    assert_eq!(of(&Int32Array::from(vec![1])), ArrowType::Int32);
    assert_eq!(of(&Int64Array::from(vec![1])), ArrowType::Int64);
    assert_eq!(of(&UInt8Array::from(vec![1])), ArrowType::UInt8);
    assert_eq!(of(&UInt16Array::from(vec![1])), ArrowType::UInt16);
    assert_eq!(of(&UInt32Array::from(vec![1])), ArrowType::UInt32);
    assert_eq!(of(&UInt64Array::from(vec![1])), ArrowType::UInt64);
    assert_eq!(of(&Float32Array::from(vec![1.0])), ArrowType::Float32);
    assert_eq!(of(&Float64Array::from(vec![1.0])), ArrowType::Float64);
    assert_eq!(of(&Date32Array::from(vec![1])), ArrowType::Date32);
    assert_eq!(of(&Date64Array::from(vec![1])), ArrowType::Date64);
    assert_eq!(of(&StringArray::from(vec!["a"])), ArrowType::Utf8);
    assert_eq!(of(&LargeStringArray::from(vec!["a"])), ArrowType::LargeUtf8);
    assert_eq!(of(&StringViewArray::from(vec!["a"])), ArrowType::Utf8View);
    assert_eq!(
        of(&TimestampSecondArray::from(vec![1])),
        ArrowType::Timestamp(TimeUnit::Second)
    );
    assert_eq!(
        of(&DurationMillisecondArray::from(vec![1])),
        ArrowType::Duration(TimeUnit::Millisecond)
    );
    assert_eq!(
        of(&Time32SecondArray::from(vec![1])),
        ArrowType::Time32(TimeUnit::Second)
    );
    assert_eq!(
        of(&Time64NanosecondArray::from(vec![1])),
        ArrowType::Time64(TimeUnit::Nanosecond)
    );
}

#[test]
fn a_slice_of_a_column_is_read_from_its_offset() {
    let numbers = Int32Array::from(vec![Some(1), None, Some(3), Some(4), None]);
    assert_eq!(
        decode(&numbers.slice(1, 3)),
        vec![None, Some(Value::Int32(3)), Some(Value::Int32(4))]
    );
    let flags = BooleanArray::from(vec![Some(true), Some(false), None, Some(true)]);
    assert_eq!(decode(&flags.slice(1, 3)), vec![Some(Value::Bool(false)), None, Some(Value::Bool(true))]);
    let texts = StringArray::from(vec![Some("a"), Some("bb"), None, Some("dddd")]);
    assert_eq!(
        decode(&texts.slice(1, 3)),
        vec![Some(Value::Text("bb".to_string())), None, Some(Value::Text("dddd".to_string()))]
    );
    let wide = Int64Array::from(vec![10, 20, 30]);
    let data = wide.slice(2, 1).to_data();
    assert_eq!(decode_cell(&data, ArrowType::Int64, 0), Some(Value::Int64(30)));
    let (_, first) = serialize_column(&wide.to_data(), "w".to_string(), 2);
    assert_eq!(first, vec![Some(Value::Int64(10)), Some(Value::Int64(20))]);
}

#[test]
fn columns_become_rows_in_order() {
    let columns = vec![
        ("b".to_string(), vec![Some(Value::Int8(1)), None, Some(Value::Int8(3))]),
        ("a".to_string(), vec![Some(Value::Bool(true)), Some(Value::Bool(false))]),
        ("b".to_string(), vec![None, Some(Value::Int8(5)), None, Some(Value::Int8(9))]),
    ];
    let rows = transpose(columns, 3);
    assert_eq!(rows.len(), 3);
    assert_eq!(rows[0].len(), 2);
    assert_eq!(rows[0].name_at(0), "b");
    assert_eq!(rows[0].name_at(1), "a");
    assert_eq!(rows[0].get("b"), Some(&None));
    assert_eq!(rows[0].get("a"), Some(&Some(Value::Bool(true))));
    assert_eq!(rows[1].get("b"), Some(&Some(Value::Int8(5))));
    assert_eq!(rows[1].get("a"), Some(&Some(Value::Bool(false))));
    assert_eq!(rows[2].get("b"), Some(&None));
    assert_eq!(rows[2].get("a"), None);
    assert_eq!(rows[2].len(), 1);
    assert!(transpose(Vec::new(), 0).is_empty());
    let empty = transpose(Vec::new(), 2);
    assert_eq!(empty.len(), 2);
    assert_eq!(empty[0].len(), 0);
}

#[test]
fn a_row_keeps_the_order_of_first_insertion() {
    let mut row = DecodedRow::new();
    row.insert("z".to_string(), Some(Value::Int32(1)));
    row.insert("a".to_string(), None);
    row.insert("z".to_string(), Some(Value::Int32(2)));
    assert_eq!(row.len(), 2);
    assert_eq!(row.name_at(0), "z");
    assert_eq!(row.value_at(0), &Some(Value::Int32(2)));
    assert_eq!(row.name_at(1), "a");
    assert_eq!(row.position("a"), Some(1));
    assert_eq!(row.position("b"), None);
}

#[test]
fn a_batch_without_columns_has_empty_rows() {
    let options = arrow::array::RecordBatchOptions::new().with_row_count(Some(2));
    let batch =
        RecordBatch::try_new_with_options(Arc::new(Schema::empty()), vec![], &options).unwrap();
    let batch = Batch { record_batch: batch };
    let rows = serialize_batch_columnwise(&batch);
    assert_eq!(rows.len(), 2);
    assert_eq!(rows[1].len(), 0);
}
