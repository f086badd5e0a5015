//! The raw strategy: a batch is handed on whole, in the interprocess format.

use crate::serializer::batch::{batch_ipc_stream, Batch};
use crate::serializer::SerializerTrait;
use vstd::prelude::*;

verus! {

/// The raw strategy.
pub struct RawSerializer;

/// The items of a batch that was written out as `encoded`: the one buffer,
/// or nothing where writing failed.
pub fn raw_items(encoded: Option<Vec<u8>>) -> (items: Option<Vec<Vec<u8>>>)
    ensures
        match encoded {
            Some(bytes) => items matches Some(buffers) && buffers@ == seq![bytes],
            None => items is None,
        },
{
    match encoded {
        Some(bytes) => {
            let mut buffers: Vec<Vec<u8>> = Vec::new();
            buffers.push(bytes);
            assert(buffers@ =~= seq![bytes]);
            Some(buffers)
        },
        None => None,
    }
}

impl SerializerTrait for RawSerializer {
    type Output = Vec<u8>;

    /// One buffer that holds the whole batch in the interprocess format;
    /// nothing where the batch cannot be written in it.
    fn serialize<E>(batch: Result<Batch, E>) -> (items: Option<Vec<Vec<u8>>>)
        ensures
            match batch {
                Ok(batch) => match items {
                    Some(buffers) => buffers@.len() == 1 && batch_ipc_stream(batch) == Some(
                        buffers@[0]@,
                    ),
                    None => batch_ipc_stream(batch) is None,
                },
                Err(_) => items is None,
            },
    {
        match batch {
            Ok(batch) => raw_items(batch.to_ipc_stream()),
            Err(_) => None,
        }
    }
}

} // verus!
