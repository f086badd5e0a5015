//! The strategies by which a batch of query results is handed on.

pub mod batch;
pub mod columns;
pub mod library_serializer;
pub mod raw_serializer;
pub mod unsafe_serializer;

use crate::serializer::batch::Batch;
use vstd::prelude::*;

verus! {

/// The strategy by which batches are handed on.
#[derive(Debug, Clone, Copy, PartialEq, Eq, Structural)]
pub enum Serializer {
    /// Rows in generic form: fast, without the types of the cells.
    Unsafe,
    /// Rows of typed values.
    Library,
    /// The batch itself, in the interprocess format.
    Raw,
}

impl Default for Serializer {
    /// The generic strategy.
    fn default() -> (strategy: Self)
        ensures
            strategy == Serializer::Unsafe,
    {
        Serializer::Unsafe
    }
}

/// A strategy: what one batch of a result stream becomes.
pub trait SerializerTrait {
    /// What the consumer is handed, item by item.
    type Output;

    /// The items of one batch, or `None` where the stream delivered an
    /// error in place of the batch or the batch cannot be handed on.
    fn serialize<E>(batch: Result<Batch, E>) -> (items: Option<Vec<Self::Output>>)
        ensures
            batch is Err ==> items is None,
    ;
}

} // verus!
