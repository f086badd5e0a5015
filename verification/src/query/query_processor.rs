//! The producer of a result stream, as a state machine: it pulls a batch,
//! decodes it, publishes its items one by one, and starts over, until the
//! stream ends, fails, or the consumer is gone.
//!
//! The machine decides; whoever runs it performs the action that a step
//! asks for and reports what came of it as the next event.

use vstd::prelude::*;

verus! {

/// Where the producer stands.
#[derive(Debug, Clone, Copy, PartialEq, Eq, Structural)]
pub enum StreamState {
    /// Waiting for the next batch of the upstream.
    AwaitingBatch,
    /// Decoding a batch.
    Decoding,
    /// Publishing the items of a batch: `sent` of `total` are out.
    Publishing { total: usize, sent: usize },
    /// The upstream has ended, or the consumer is gone.
    Completed,
    /// The upstream or the decoder reported an error.
    Failed,
}

/// What came of the last action.
#[derive(Debug, Clone, Copy, PartialEq, Eq, Structural)]
pub enum StreamEvent {
    /// The upstream delivered a batch.
    Batch,
    /// The upstream delivered an error.
    UpstreamError,
    /// The upstream has no more batches.
    UpstreamEnd,
    /// The batch was decoded into this number of items.
    Decoded { items: usize },
    /// The batch could not be decoded.
    DecodeError,
    /// The item was taken by the queue.
    Sent,
    /// The consumer has dropped its end of the queue.
    ReceiverClosed,
}

/// What the producer does next.
#[derive(Debug, Clone, Copy, PartialEq, Eq, Structural)]
pub enum StreamAction {
    /// Pull the next batch from the upstream.
    Pull,
    /// Decode the batch that was pulled.
    Decode,
    /// Publish the item at `index` of the decoded batch.
    Publish { index: usize },
    /// Stop: nothing more is pulled or published.
    Stop,
}

impl StreamState {
    /// Whether the producer has stopped for good.
    pub open spec fn is_terminal(self) -> bool {
        self is Completed || self is Failed
    }

    /// Whether the state is one that the machine can be in: no more items
    /// are out than the batch has.
    pub open spec fn wf(self) -> bool {
        self matches StreamState::Publishing { total, sent } ==> sent < total
    }

    /// The state after publishing of a decoded batch has got to `sent` of `total` items.
    pub open spec fn after_sent(total: usize, sent: int) -> StreamState {
        if sent < total {
            StreamState::Publishing { total, sent: sent as usize }
        } else {
            StreamState::AwaitingBatch
        }
    }

    /// The state that follows on an event. An event that the state does not
    /// wait for changes nothing.
    pub open spec fn next(self, event: StreamEvent) -> StreamState {
        match (self, event) {
            (StreamState::AwaitingBatch, StreamEvent::Batch) => StreamState::Decoding,
            (StreamState::AwaitingBatch, StreamEvent::UpstreamError) => StreamState::Failed,
            (StreamState::AwaitingBatch, StreamEvent::UpstreamEnd) => StreamState::Completed,
            (StreamState::Decoding, StreamEvent::Decoded { items }) => StreamState::after_sent(
                items,
                0,
            ),
            (StreamState::Decoding, StreamEvent::DecodeError) => StreamState::Failed,
            (StreamState::Publishing { total, sent }, StreamEvent::Sent) => StreamState::after_sent(
                total,
                sent + 1,
            ),
            (StreamState::Publishing { .. }, StreamEvent::ReceiverClosed) => StreamState::Completed,
            _ => self,
        }
    }

    /// What a producer in this state does.
    pub open spec fn action(self) -> StreamAction {
        match self {
            StreamState::AwaitingBatch => StreamAction::Pull,
            StreamState::Decoding => StreamAction::Decode,
            StreamState::Publishing { total, sent } => StreamAction::Publish { index: sent },
            StreamState::Completed => StreamAction::Stop,
            StreamState::Failed => StreamAction::Stop,
        }
    }

    /// The state in which a producer starts.
    pub fn start() -> (state: StreamState)
        ensures
            state == StreamState::AwaitingBatch,
            state.wf(),
    {
        StreamState::AwaitingBatch
    }

    /// What a producer in this state does.
    pub fn next_action(&self) -> (action: StreamAction)
        ensures
            action == self.action(),
    {
        match self {
            StreamState::AwaitingBatch => StreamAction::Pull,
            StreamState::Decoding => StreamAction::Decode,
            StreamState::Publishing { total, sent } => StreamAction::Publish { index: *sent },
            StreamState::Completed => StreamAction::Stop,
            StreamState::Failed => StreamAction::Stop,
        }
    }

    /// One step of the producer: the state that follows on `event`, and
    /// what to do in it.
    pub fn step(self, event: StreamEvent) -> (next: (StreamState, StreamAction))
        ensures
            next.0 == self.next(event),
            next.1 == next.0.action(),
            self.wf() ==> next.0.wf(),
    {
        let state = match (self, event) {
            (StreamState::AwaitingBatch, StreamEvent::Batch) => StreamState::Decoding,
            (StreamState::AwaitingBatch, StreamEvent::UpstreamError) => StreamState::Failed,
            (StreamState::AwaitingBatch, StreamEvent::UpstreamEnd) => StreamState::Completed,
            (StreamState::Decoding, StreamEvent::Decoded { items }) => {
                if items > 0 {
                    StreamState::Publishing { total: items, sent: 0 }
                } else {
                    StreamState::AwaitingBatch
                }
            },
            (StreamState::Decoding, StreamEvent::DecodeError) => StreamState::Failed,
            (StreamState::Publishing { total, sent }, StreamEvent::Sent) => {
                if sent < total && sent + 1 < total {
                    StreamState::Publishing { total, sent: sent + 1 }
                } else {
                    StreamState::AwaitingBatch
                }
            },
            (StreamState::Publishing { .. }, StreamEvent::ReceiverClosed) => StreamState::Completed,
            (state, _) => state,
        };
        (state, state.next_action())
    }
}

/// A producer that has stopped stays stopped: no event takes it out of
/// `Completed` or `Failed`, and all it does there is stop.
pub proof fn lemma_terminal_is_final(state: StreamState, event: StreamEvent)
    requires
        state.is_terminal(),
    ensures
        state.next(event) == state,
        state.action() == StreamAction::Stop,
{
}

/// An error is no cancellation and an end is no error: the producer fails
/// exactly on an error of the upstream or of the decoder, and it completes
/// exactly when the upstream ends or the consumer is gone.
pub proof fn lemma_how_a_producer_stops(state: StreamState, event: StreamEvent)
    requires
        state.wf(),
        !state.is_terminal(),
    ensures
        state.next(event) is Failed <==> (state is AwaitingBatch && event is UpstreamError) || (state
            is Decoding && event is DecodeError),
        state.next(event) is Completed <==> (state is AwaitingBatch && event is UpstreamEnd) || (
        state is Publishing && event is ReceiverClosed),
{
}

/// Nothing of a batch is published before the batch is decoded whole, and
/// the items of a batch go out in their order, each once: publishing
/// starts at the first item, and after the item at `sent` the next one
/// published is the item at `sent + 1`.
pub proof fn lemma_items_in_order(state: StreamState, event: StreamEvent)
    requires
        state.wf(),
    ensures
        state.next(event).action() matches StreamAction::Publish { index } ==> ({
            ||| {
                &&& state is Decoding
                &&& event is Decoded
                &&& index == 0
            }
            ||| {
                &&& state matches StreamState::Publishing { sent, .. }
                &&& event is Sent
                &&& index == sent + 1
            }
            ||| {
                &&& state matches StreamState::Publishing { sent, .. }
                &&& !(event is Sent)
                &&& index == sent
            }
        }),
        state.next(event).wf(),
{
}

/// Batches are taken in the order of the upstream, one at a time: the
/// next batch is pulled only when every item of the last one is out, or
/// when the last one had none.
pub proof fn lemma_one_batch_at_a_time(state: StreamState, event: StreamEvent)
    requires
        state.wf(),
        !(state is AwaitingBatch),
        state.next(event) is AwaitingBatch,
    ensures
        ({
            ||| {
                &&& state matches StreamState::Publishing { total, sent }
                &&& event is Sent
                &&& sent + 1 == total
            }
            ||| {
                &&& state is Decoding
                &&& event matches StreamEvent::Decoded { items }
                &&& items == 0
            }
        }),
{
}

} // verus!
