//! Results of a query taken batch by batch.

use crate::row::DecodedRow;
use crate::serializer::batch::{batch_generic_rows, batch_rows, Batch};
use crate::serializer::library_serializer::{decoded_batch, row_of};
use crate::serializer::unsafe_serializer::unsafe_serialize;
use crate::serializer::Serializer;
use serde_json::Value as JsonValue;
use vstd::prelude::*;

verus! {

/// The items of one batch, in the form of the strategy that made them.
pub enum BatchItems {
    /// Rows of typed values.
    Library(Vec<DecodedRow>),
    /// Rows in generic form.
    Unsafe(Vec<JsonValue>),
}

/// Why a result stream has ended before its end.
#[derive(Debug, Clone, Copy, PartialEq, Eq, Structural)]
pub enum StreamFailure {
    /// The upstream delivered an error in place of a batch.
    Upstream,
    /// A batch could not be decoded.
    Decode,
}

/// What turns the batches of a result, one after the other, into items.
/// Whoever holds the stream pulls the next batch and hands it to [`Self::next`].
#[derive(Debug)]
pub struct QueryResultByBatch {
    pub serializer: Serializer,
}

impl QueryResultByBatch {
    /// A result that is handed on by `serializer`, or by the generic
    /// strategy where none is given.
    pub fn new(serializer: Option<Serializer>) -> (result: Self)
        ensures
            result.serializer == match serializer {
                Some(given) => given,
                None => Serializer::Unsafe,
            },
    {
        QueryResultByBatch {
            serializer: match serializer {
                Some(given) => given,
                None => Serializer::Unsafe,
            },
        }
    }

    /// What is handed on for the next batch of the stream, which may have
    /// ended (`None`) or delivered an error in place of a batch.
    ///
    /// The end of the stream is `Ok(None)`. An error of the upstream is a
    /// failure, and so is a batch that cannot be decoded: nothing of such a
    /// batch is handed on. Of a batch, the typed strategy hands on the
    /// rows, and the generic strategy the rows in generic form. The raw
    /// strategy does not take results batch by batch and hands on nothing.
    pub fn next<E>(&mut self, batch: Option<Result<Batch, E>>) -> (items: Result<
        Option<BatchItems>,
        StreamFailure,
    >)
        ensures
            final(self).serializer == old(self).serializer,
            match batch {
                None => items matches Ok(None),
                Some(Err(_)) => items matches Err(StreamFailure::Upstream),
                Some(Ok(batch)) => match old(self).serializer {
                    Serializer::Library => {
                        &&& items matches Ok(Some(BatchItems::Library(rows)))
                        &&& rows@.len() == batch_rows(batch)
                        &&& forall|r: int|
                            0 <= r < rows@.len() ==> (#[trigger] rows@[r])@ == row_of(
                                decoded_batch(batch),
                                r,
                            )
                    },
                    Serializer::Unsafe => match batch_generic_rows(batch) {
                        Some(count) => {
                            &&& items matches Ok(Some(BatchItems::Unsafe(rows)))
                            &&& rows@.len() == count
                        },
                        None => items matches Err(StreamFailure::Decode),
                    },
                    Serializer::Raw => items matches Ok(None),
                },
            },
    {
        match batch {
            None => Ok(None),
            Some(Err(_)) => Err(StreamFailure::Upstream),
            Some(Ok(batch)) => match self.serializer {
                Serializer::Unsafe => match unsafe_serialize(Some(Ok::<Batch, E>(batch))) {
                    Some(rows) => Ok(Some(BatchItems::Unsafe(rows))),
                    None => Err(StreamFailure::Decode),
                },
                Serializer::Library => Ok(
                    Some(
                        BatchItems::Library(QueryResultByBatch::serialize_batch_columnwise(&batch)),
                    ),
                ),
                Serializer::Raw => Ok(None),
            },
        }
    }

    /// Decodes a batch into its rows: one row for each row of the batch,
    /// in order, with the decoded cell of every column under the name of
    /// the column.
    pub fn serialize_batch_columnwise(batch: &Batch) -> (rows: Vec<DecodedRow>)
        ensures
            rows@.len() == batch_rows(*batch),
            forall|r: int|
                0 <= r < rows@.len() ==> (#[trigger] rows@[r])@ == row_of(decoded_batch(*batch), r),
    {
        crate::serializer::library_serializer::serialize_batch_columnwise(batch)
    }
}

} // verus!
