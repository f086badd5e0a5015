//! A batch of query results: columns of one length under their names.

use crate::serializer::columns::{column_cells, column_type, ArrowType, Cell};
use arrow::array::{Array, ArrayData, RecordBatch};
use arrow::ipc::writer::StreamWriter;
use serde_json::Value as JsonValue;
use vstd::prelude::*;

verus! {

/// A row of a batch in generic form: `serde_json::Value`.
#[verifier::external_type_specification]
#[verifier::external_body]
pub struct ExJsonValue(JsonValue);

/// A batch: an `arrow::array::RecordBatch`. The verifier does not look
/// into it; what it holds is told by [`batch_columns`] and [`batch_rows`].
#[verifier::external_body]
pub struct Batch {
    pub record_batch: RecordBatch,
}

/// What a column of a batch holds.
pub struct ColumnContent {
    pub name: Seq<char>,
    pub declared: ArrowType,
    pub cells: Seq<Cell>,
}

/// The columns of a batch, in the order of its schema.
pub uninterp spec fn batch_columns(batch: Batch) -> Seq<ColumnContent>;

/// The number of rows of a batch.
pub uninterp spec fn batch_rows(batch: Batch) -> nat;

/// The batch as a stream in the interprocess format, as a `StreamWriter`
/// writes its schema and the batch; `None` where the writer reports an error.
pub uninterp spec fn batch_ipc_stream(batch: Batch) -> Option<Seq<u8>>;

/// The number of rows that `serde_arrow::from_record_batch` builds of a
/// batch in generic form; `None` where it reports an error.
pub uninterp spec fn batch_generic_rows(batch: Batch) -> Option<nat>;

impl Batch {
    /// `RecordBatch::num_rows`: the number of rows.
    #[verifier::external_body]
    pub(crate) fn num_rows(&self) -> (rows: usize)
        ensures
            rows == batch_rows(*self),
    {
        self.record_batch.num_rows()
    }

    /// `RecordBatch::num_columns`: the number of columns.
    #[verifier::external_body]
    pub(crate) fn num_columns(&self) -> (columns: usize)
        ensures
            columns == batch_columns(*self).len(),
    {
        self.record_batch.num_columns()
    }

    /// `RecordBatch::column` at `index`, as `Array::to_data` gives its
    /// data. Every column of a batch has as many slots as the batch has rows.
    #[verifier::external_body]
    pub(crate) fn column(&self, index: usize) -> (column: ArrayData)
        requires
            index < batch_columns(*self).len(),
        ensures
            column_type(column) == batch_columns(*self)[index as int].declared,
            column_cells(column) == batch_columns(*self)[index as int].cells,
            column_cells(column).len() == batch_rows(*self),
    {
        self.record_batch.column(index).to_data()
    }

    /// The name of the field at `index` of the schema of the batch, which
    /// has one field for each column.
    #[verifier::external_body]
    pub(crate) fn column_name(&self, index: usize) -> (name: String)
        requires
            index < batch_columns(*self).len(),
        ensures
            name@ == batch_columns(*self)[index as int].name,
    {
        self.record_batch.schema_ref().field(index).name().clone()
    }

    /// The batch as a stream in the interprocess format: what a
    /// `StreamWriter` writes for the schema and the batch; `None` where it
    /// reports an error.
    #[verifier::external_body]
    pub(crate) fn to_ipc_stream(&self) -> (bytes: Option<Vec<u8>>)
        ensures
            match bytes {
                Some(written) => batch_ipc_stream(*self) == Some(written@),
                None => batch_ipc_stream(*self) is None,
            },
    {
        let mut buffer = Vec::new();
        let mut writer = StreamWriter::try_new(&mut buffer, self.record_batch.schema_ref()).ok()?;
        writer.write(&self.record_batch).ok()?;
        writer.finish().ok()?;
        drop(writer);
        Some(buffer)
    }

    /// The rows of the batch in generic form, as
    /// `serde_arrow::from_record_batch` builds them; `None` where it
    /// reports an error.
    #[verifier::external_body]
    pub(crate) fn to_generic_rows(&self) -> (rows: Option<Vec<JsonValue>>)
        ensures
            match rows {
                Some(built) => batch_generic_rows(*self) == Some(built@.len()),
                None => batch_generic_rows(*self) is None,
            },
    {
        serde_arrow::from_record_batch(&self.record_batch).ok()
    }
}

} // verus!
