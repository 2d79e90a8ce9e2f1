//! Result streams: the typed elements that the messages of a streaming
//! request hold, pulled one at a time.

use vstd::prelude::*;
use crate::messages::{ResponsePacket, ResponseView};
use crate::correlator::{
    Correlator, DeliveryMode, Pull, PullView, Table, after_cancel, after_complete,
    after_dispatch_all, after_pull, after_pulls, after_register, lemma_stream_drained,
    lemma_stream_fed, pulled,
};
use crate::errors::{Error, ErrorView};

verus! {

/// A value that one message holds: the answer to a single-shot request, or
/// one element of a result stream.
pub trait Element: Sized + View {
    /// The element that a message holds, or the error at the first of its
    /// fields that is missing, malformed or left over.
    spec fn decoded(message: ResponseView) -> Result<Self::V, ErrorView>;

    /// Decodes a message into its element, field by field in wire order.
    fn decode(packet: &mut ResponsePacket) -> (element: Result<Self, Error>)
        ensures
            old(packet)@.leads_to(final(packet)@),
            match element {
                Ok(value) => Self::decoded(old(packet)@) == Ok::<Self::V, ErrorView>(value@),
                Err(e) => Self::decoded(old(packet)@) == Err::<Self::V, ErrorView>(e@),
            },
    ;
}

/// One pull from a result stream: what it gives, the request that the
/// stream is bound to afterwards, and the registrations afterwards.
pub struct Step<V> {
    pub next: PullView<V>,
    pub binding: Option<i32>,
    pub table: Table,
}

/// What one pull from a result stream does.
///
/// A stream that is bound to no request has ended. Otherwise the next
/// message of its request is pulled and decoded. While nothing has arrived
/// the stream waits. With the end of the request, or its error, the stream
/// ends and is bound no longer. A message that does not decode ends the
/// stream with the error of the decoder, and the request is given up.
pub open spec fn stream_step<T: Element>(binding: Option<i32>, table: Table) -> Step<T::V> {
    match binding {
        None => Step { next: PullView::End, binding: None, table },
        Some(request_id) => match pulled(table, request_id) {
            PullView::Wait => Step { next: PullView::Wait, binding, table },
            PullView::End => Step {
                next: PullView::End,
                binding: None,
                table: after_pull(table, request_id),
            },
            PullView::Failed(e) => Step {
                next: PullView::Failed(e),
                binding: None,
                table: after_pull(table, request_id),
            },
            PullView::Item(message) => match T::decoded(message) {
                Ok(value) => Step {
                    next: PullView::Item(value),
                    binding,
                    table: after_pull(table, request_id),
                },
                Err(e) => Step {
                    next: PullView::Failed(e),
                    binding: None,
                    table: after_cancel(after_pull(table, request_id), request_id),
                },
            },
        },
    }
}

/// Pulls the next element of a result stream.
pub fn next_element<T: Element>(binding: &mut Option<i32>, correlator: &mut Correlator) -> (next:
    Pull<T>)
    ensures
        stream_step::<T>(*old(binding), old(correlator)@) == (Step {
            next: next@,
            binding: *final(binding),
            table: final(correlator)@,
        }),
{
    let request_id = match *binding {
        None => {
            return Pull::End;
        },
        Some(request_id) => request_id,
    };
    match correlator.pull(request_id) {
        Pull::Wait => Pull::Wait,
        Pull::End => {
            *binding = None;
            Pull::End
        },
        Pull::Failed(e) => {
            *binding = None;
            Pull::Failed(e)
        },
        Pull::Item(message) => {
            let mut message = message;
            match T::decode(&mut message) {
                Ok(value) => Pull::Item(value),
                Err(e) => {
                    correlator.cancel(request_id);
                    *binding = None;
                    Pull::Failed(e)
                },
            }
        },
    }
}

/// Gives a result stream up before its end: its request is registered no
/// longer, and the stream is bound to no request.
pub fn discard(binding: &mut Option<i32>, correlator: &mut Correlator)
    ensures
        *final(binding) is None,
        final(correlator)@ == (match *old(binding) {
            Some(request_id) => after_cancel(old(correlator)@, request_id),
            None => old(correlator)@,
        }),
{
    match *binding {
        Some(request_id) => {
            correlator.cancel(request_id);
            *binding = None;
        },
        None => {},
    }
}

/// A result stream after `count` pulls: the request that it is bound to, and
/// the registrations.
pub open spec fn after_steps<T: Element>(binding: Option<i32>, table: Table, count: nat) -> (
    Option<i32>,
    Table,
)
    decreases count,
{
    if count == 0 {
        (binding, table)
    } else {
        let before = after_steps::<T>(binding, table, (count - 1) as nat);
        let step = stream_step::<T>(before.0, before.1);
        (step.binding, step.table)
    }
}

/// A result stream whose request is fed a run of messages that decode, and
/// then the completion sentinel, yields the elements of exactly those
/// messages, in their order, and then ends: it is bound to no request, and
/// its request is registered no longer.
pub proof fn lemma_stream_elements<T: Element>(
    table: Table,
    request_id: i32,
    messages: Seq<ResponseView>,
    count: nat,
)
    requires
        !table.contains_key(request_id),
        count <= messages.len(),
        forall|i: int| 0 <= i < messages.len() ==> (#[trigger] T::decoded(messages[i])) is Ok,
    ensures
        ({
            let fed = after_complete(
                after_dispatch_all(
                    after_register(table, request_id, DeliveryMode::Streaming, None),
                    request_id,
                    messages,
                ),
                request_id,
            );
            let now = after_steps::<T>(Some(request_id), fed, count);
            let step = stream_step::<T>(now.0, now.1);
            &&& now == (Some(request_id), after_pulls(fed, request_id, count))
            &&& count < messages.len() ==> step.next == PullView::Item(
                T::decoded(messages[count as int])->Ok_0,
            )
            &&& count == messages.len() ==> {
                &&& step.next == PullView::<T::V>::End
                &&& step.binding is None
                &&& !step.table.contains_key(request_id)
            }
        }),
    decreases count,
{
    let registered = after_register(table, request_id, DeliveryMode::Streaming, None);
    lemma_stream_fed(table, request_id, messages);
    let fed = after_complete(after_dispatch_all(registered, request_id, messages), request_id);
    assert(fed[request_id].queue == messages);
    lemma_stream_drained(fed, request_id, count);
    if count > 0 {
        let earlier = (count - 1) as nat;
        lemma_stream_elements::<T>(table, request_id, messages, earlier);
        lemma_stream_drained(fed, request_id, earlier);
        assert(T::decoded(messages[earlier as int]) is Ok);
    }
}

} // verus!
