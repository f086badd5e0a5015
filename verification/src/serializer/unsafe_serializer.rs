//! The generic strategy: the rows of a batch in generic form.

use crate::serializer::batch::{batch_generic_rows, Batch};
use crate::serializer::SerializerTrait;
use serde_json::Value as JsonValue;
use vstd::prelude::*;

verus! {

/// The generic strategy.
pub struct UnsafeSerializer;

/// The rows of a batch in generic form, or `None` where the stream
/// delivered an error in place of the batch or the rows cannot be built.
pub fn unsafe_serialize<E>(batch: Option<Result<Batch, E>>) -> (rows: Option<Vec<JsonValue>>)
    ensures
        match batch {
            Some(Ok(batch)) => match rows {
                Some(built) => batch_generic_rows(batch) == Some(built@.len()),
                None => batch_generic_rows(batch) is None,
            },
            _ => rows is None,
        },
{
    match batch {
        Some(Ok(batch)) => batch.to_generic_rows(),
        _ => None,
    }
}

impl SerializerTrait for UnsafeSerializer {
    type Output = JsonValue;

    /// The rows of the batch in generic form; nothing where they cannot be built.
    fn serialize<E>(batch: Result<Batch, E>) -> (items: Option<Vec<JsonValue>>)
        ensures
            match batch {
                Ok(batch) => match items {
                    Some(built) => batch_generic_rows(batch) == Some(built@.len()),
                    None => batch_generic_rows(batch) is None,
                },
                Err(_) => items is None,
            },
    {
        match batch {
            Ok(batch) => batch.to_generic_rows(),
            Err(_) => None,
        }
    }
}

} // verus!
