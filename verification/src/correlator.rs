//! The correlator: which request an inbound message belongs to, and what
//! has been delivered to each request.
//!
//! A request is registered under its identifier before it is sent. Inbound
//! messages are dispatched by identifier and queue up until the caller pulls
//! them. A single-shot request takes exactly one message; a streaming request
//! takes messages until its completion sentinel arrives or its count limit is
//! reached.

use vstd::prelude::*;
use std::collections::HashMap;
use std::collections::VecDeque;
use crate::messages::{ResponsePacket, ResponseView};
use crate::errors::{Error, ErrorView};

verus! {

broadcast use vstd::std_specs::hash::group_hash_axioms;

/// Where a request stands.
#[derive(Debug, Clone, Copy, PartialEq, Eq, Structural)]
pub enum RequestState {
    /// Registered; nothing has arrived.
    Pending,
    /// A streaming request that has received at least one message.
    Delivering,
    /// Ended in good order.
    Completed,
    /// Ended by an error of the gateway.
    Errored,
    /// Given up by the caller.
    Cancelled,
}

impl RequestState {
    /// Whether the request has ended.
    pub open spec fn is_terminal(self) -> bool {
        self is Completed || self is Errored || self is Cancelled
    }

    /// Tells whether the request has ended.
    pub fn terminal(&self) -> (ended: bool)
        ensures
            ended == self.is_terminal(),
    {
        match self {
            RequestState::Pending => false,
            RequestState::Delivering => false,
            RequestState::Completed => true,
            RequestState::Errored => true,
            RequestState::Cancelled => true,
        }
    }
}

/// How the replies to a request are delivered.
#[derive(Debug, Clone, Copy, PartialEq, Eq, Structural)]
pub enum DeliveryMode {
    /// Exactly one message answers the request.
    SingleShot,
    /// Any number of messages answer the request.
    Streaming,
}

/// The mathematical value of one registration.
pub struct ChannelView {
    /// How replies are delivered.
    pub mode: DeliveryMode,
    /// How many more messages a streaming request takes before it is
    /// complete, where it has a count limit.
    pub remaining: Option<nat>,
    /// Where the request stands.
    pub state: RequestState,
    /// The messages delivered and not yet pulled, oldest first.
    pub queue: Seq<ResponseView>,
    /// The code and text of the gateway's error, once the request has
    /// failed.
    pub failure: (int, Seq<char>),
}

impl ChannelView {
    /// A new registration. A streaming request with a count limit of zero
    /// is complete at once.
    pub open spec fn fresh(mode: DeliveryMode, limit: Option<nat>) -> ChannelView {
        let remaining = if mode is Streaming {
            limit
        } else {
            None
        };
        ChannelView {
            mode,
            remaining,
            state: if remaining == Some(0nat) {
                RequestState::Completed
            } else {
                RequestState::Pending
            },
            queue: Seq::empty(),
            failure: (0, Seq::empty()),
        }
    }

    /// The registration after one more message has been delivered to it.
    pub open spec fn deliver(self, message: ResponseView) -> ChannelView {
        let last = self.mode is SingleShot || (self.remaining matches Some(n) && n <= 1);
        ChannelView {
            remaining: match self.remaining {
                Some(n) => Some(
                    if n <= 1 {
                        0nat
                    } else {
                        (n - 1) as nat
                    },
                ),
                None => None,
            },
            state: if last {
                RequestState::Completed
            } else {
                RequestState::Delivering
            },
            queue: self.queue.push(message),
            ..self
        }
    }

    /// The registration after its completion sentinel.
    pub open spec fn complete(self) -> ChannelView {
        ChannelView { state: RequestState::Completed, ..self }
    }

    /// The registration after the gateway has answered with an error.
    pub open spec fn fail(self, code: int, text: Seq<char>) -> ChannelView {
        ChannelView { state: RequestState::Errored, failure: (code, text), ..self }
    }

    /// The registration after its oldest queued message has been pulled.
    pub open spec fn drop_oldest(self) -> ChannelView {
        ChannelView { queue: self.queue.skip(1), ..self }
    }
}

/// The registrations by request identifier.
pub type Table = Map<i32, ChannelView>;

/// Whether an inbound message for this identifier is in order: the request
/// is registered and has not ended.
pub open spec fn accepts(table: Table, request_id: i32) -> bool {
    table.contains_key(request_id) && !table[request_id].state.is_terminal()
}

/// The table after a request has been registered. An identifier that is
/// registered already is not registered again.
pub open spec fn after_register(
    table: Table,
    request_id: i32,
    mode: DeliveryMode,
    limit: Option<nat>,
) -> Table {
    if table.contains_key(request_id) {
        table
    } else {
        table.insert(request_id, ChannelView::fresh(mode, limit))
    }
}

/// The table after a message has been dispatched. A message that is not in
/// order changes nothing.
pub open spec fn after_dispatch(table: Table, request_id: i32, message: ResponseView) -> Table {
    if accepts(table, request_id) {
        table.insert(request_id, table[request_id].deliver(message))
    } else {
        table
    }
}

/// Whether a completion sentinel for this identifier is in order: the
/// request is a streaming one, registered and not ended.
pub open spec fn accepts_sentinel(table: Table, request_id: i32) -> bool {
    accepts(table, request_id) && table[request_id].mode is Streaming
}

/// The table after a completion sentinel.
pub open spec fn after_complete(table: Table, request_id: i32) -> Table {
    if accepts_sentinel(table, request_id) {
        table.insert(request_id, table[request_id].complete())
    } else {
        table
    }
}

/// The table after an error of the gateway.
pub open spec fn after_fail(table: Table, request_id: i32, code: int, text: Seq<char>) -> Table {
    if accepts(table, request_id) {
        table.insert(request_id, table[request_id].fail(code, text))
    } else {
        table
    }
}

/// The table after the caller has given a request up: the registration is
/// gone, with all that was queued for it.
pub open spec fn after_cancel(table: Table, request_id: i32) -> Table {
    table.remove(request_id)
}

/// The state in which giving a request up leaves it: `Cancelled`, unless it
/// had ended before.
pub open spec fn cancelled_state(state: RequestState) -> RequestState {
    if state.is_terminal() {
        state
    } else {
        RequestState::Cancelled
    }
}

/// The mathematical value of what a pull gives.
pub enum PullView<V> {
    /// The next element.
    Item(V),
    /// Nothing has arrived yet; the request is still open.
    Wait,
    /// The sequence has ended.
    End,
    /// The sequence has ended with this error.
    Failed(ErrorView),
}

/// What pulling from a request gives: the oldest queued message; else, for
/// a request that is still open, the advice to wait; else the end, or the
/// error of the gateway. An identifier that is not registered gives the end.
pub open spec fn pulled(table: Table, request_id: i32) -> PullView<ResponseView> {
    if !table.contains_key(request_id) {
        PullView::End
    } else {
        let channel = table[request_id];
        if channel.queue.len() > 0 {
            PullView::Item(channel.queue[0])
        } else if !channel.state.is_terminal() {
            PullView::Wait
        } else if channel.state is Errored {
            PullView::Failed(
                ErrorView::GatewayError { code: channel.failure.0, text: channel.failure.1 },
            )
        } else {
            PullView::End
        }
    }
}

/// The table after a pull: the message pulled has left the queue, and a
/// request whose end has been pulled is no longer registered.
pub open spec fn after_pull(table: Table, request_id: i32) -> Table {
    if !table.contains_key(request_id) {
        table
    } else {
        let channel = table[request_id];
        if channel.queue.len() > 0 {
            table.insert(request_id, channel.drop_oldest())
        } else if !channel.state.is_terminal() {
            table
        } else {
            table.remove(request_id)
        }
    }
}

/// What a pull gives.
#[derive(Debug, PartialEq, Eq)]
pub enum Pull<T> {
    /// The next element.
    Item(T),
    /// Nothing has arrived yet; the request is still open.
    Wait,
    /// The sequence has ended.
    End,
    /// The sequence has ended with this error.
    Failed(Error),
}

impl<T: View> View for Pull<T> {
    type V = PullView<T::V>;

    open spec fn view(&self) -> PullView<T::V> {
        match *self {
            Pull::Item(element) => PullView::Item(element@),
            Pull::Wait => PullView::Wait,
            Pull::End => PullView::End,
            Pull::Failed(e) => PullView::Failed(e@),
        }
    }
}

struct Channel {
    mode: DeliveryMode,
    remaining: Option<usize>,
    state: RequestState,
    queue: VecDeque<ResponsePacket>,
    code: i32,
    text: String,
}

spec fn messages_of(queue: Seq<ResponsePacket>) -> Seq<ResponseView> {
    Seq::new(queue.len(), |i: int| queue[i]@)
}

impl View for Channel {
    type V = ChannelView;

    closed spec fn view(&self) -> ChannelView {
        ChannelView {
            mode: self.mode,
            remaining: match self.remaining {
                Some(n) => Some(n as nat),
                None => None,
            },
            state: self.state,
            queue: messages_of(self.queue@),
            failure: (self.code as int, self.text@),
        }
    }
}

spec fn table_of(channels: Map<i32, Channel>) -> Table {
    Map::new(|id: i32| channels.contains_key(id), |id: i32| channels[id]@)
}

proof fn lemma_table_insert(channels: Map<i32, Channel>, request_id: i32, channel: Channel)
    ensures
        table_of(channels.insert(request_id, channel)) == table_of(channels).insert(
            request_id,
            channel@,
        ),
{
    assert(table_of(channels.insert(request_id, channel)) =~= table_of(channels).insert(
        request_id,
        channel@,
    ));
}

proof fn lemma_table_remove(channels: Map<i32, Channel>, request_id: i32)
    ensures
        table_of(channels.remove(request_id)) == table_of(channels).remove(request_id),
{
    assert(table_of(channels.remove(request_id)) =~= table_of(channels).remove(request_id));
}

/// The registrations of the requests in flight, with what has been delivered
/// to each.
pub struct Correlator {
    channels: HashMap<i32, Channel>,
}

impl View for Correlator {
    type V = Table;

    closed spec fn view(&self) -> Table {
        table_of(self.channels@)
    }
}

impl Correlator {
    /// A correlator without registrations.
    pub fn new() -> (correlator: Correlator)
        ensures
            correlator@ == Map::<i32, ChannelView>::empty(),
    {
        let correlator = Correlator { channels: HashMap::new() };
        assert(correlator@ =~= Map::<i32, ChannelView>::empty());
        correlator
    }

    fn register(&mut self, request_id: i32, mode: DeliveryMode, limit: Option<usize>) -> (outcome:
        Result<(), Error>)
        requires
            mode is SingleShot ==> limit is None,
        ensures
            final(self)@ == after_register(
                old(self)@,
                request_id,
                mode,
                match limit {
                    Some(n) => Some(n as nat),
                    None => None,
                },
            ),
            match outcome {
                Ok(_) => !old(self)@.contains_key(request_id),
                Err(e) => old(self)@.contains_key(request_id) && e@
                    == (ErrorView::ProtocolInvariantViolation { request_id: request_id as int }),
            },
    {
        if self.channels.contains_key(&request_id) {
            return Err(Error::ProtocolInvariantViolation { request_id });
        }
        let state = match limit {
            Some(0) => RequestState::Completed,
            _ => RequestState::Pending,
        };
        let channel = Channel {
            mode,
            remaining: limit,
            state,
            queue: VecDeque::new(),
            code: 0,
            text: String::new(),
        };
        proof {
            lemma_table_insert(self.channels@, request_id, channel);
            assert(channel@.queue =~= Seq::<ResponseView>::empty());
        }
        self.channels.insert(request_id, channel);
        Ok(())
    }

    /// Registers a request that exactly one message answers.
    ///
    /// An identifier that is registered already is refused with
    /// `ProtocolInvariantViolation`.
    pub fn register_single(&mut self, request_id: i32) -> (outcome: Result<(), Error>)
        ensures
            final(self)@ == after_register(
                old(self)@,
                request_id,
                DeliveryMode::SingleShot,
                None,
            ),
            match outcome {
                Ok(_) => !old(self)@.contains_key(request_id),
                Err(e) => old(self)@.contains_key(request_id) && e@
                    == (ErrorView::ProtocolInvariantViolation { request_id: request_id as int }),
            },
    {
        self.register(request_id, DeliveryMode::SingleShot, None)
    }

    /// Registers a request that a stream of messages answers, up to `limit`
    /// of them where a limit is given.
    ///
    /// An identifier that is registered already is refused with
    /// `ProtocolInvariantViolation`.
    pub fn register_stream(&mut self, request_id: i32, limit: Option<usize>) -> (outcome: Result<
        (),
        Error,
    >)
        ensures
            final(self)@ == after_register(
                old(self)@,
                request_id,
                DeliveryMode::Streaming,
                match limit {
                    Some(n) => Some(n as nat),
                    None => None,
                },
            ),
            match outcome {
                Ok(_) => !old(self)@.contains_key(request_id),
                Err(e) => old(self)@.contains_key(request_id) && e@
                    == (ErrorView::ProtocolInvariantViolation { request_id: request_id as int }),
            },
    {
        self.register(request_id, DeliveryMode::Streaming, limit)
    }

    /// Tells whether a request is registered.
    pub fn is_registered(&self, request_id: i32) -> (registered: bool)
        ensures
            registered == self@.contains_key(request_id),
    {
        self.channels.contains_key(&request_id)
    }

    /// Where a request stands, if it is registered.
    pub fn state(&self, request_id: i32) -> (state: Option<RequestState>)
        ensures
            state == (if self@.contains_key(request_id) {
                Some(self@[request_id].state)
            } else {
                None
            }),
    {
        match self.channels.get(&request_id) {
            Some(channel) => Some(channel.state),
            None => None,
        }
    }

    /// The number of messages delivered to a request and not yet pulled.
    pub fn queued(&self, request_id: i32) -> (count: usize)
        ensures
            count == (if self@.contains_key(request_id) {
                self@[request_id].queue.len()
            } else {
                0
            }),
    {
        match self.channels.get(&request_id) {
            Some(channel) => channel.queue.len(),
            None => 0,
        }
    }
}

impl Correlator {
    /// Delivers an inbound message to the request it names.
    ///
    /// A single-shot request is complete with its message; a streaming
    /// request is complete with the last message that its count limit
    /// admits. A message for an identifier that is not registered, or whose
    /// request has ended, changes nothing and is reported as
    /// `ProtocolInvariantViolation`.
    pub fn dispatch(&mut self, request_id: i32, message: ResponsePacket) -> (outcome: Result<
        (),
        Error,
    >)
        ensures
            final(self)@ == after_dispatch(old(self)@, request_id, message@),
            match outcome {
                Ok(_) => accepts(old(self)@, request_id),
                Err(e) => !accepts(old(self)@, request_id) && e@
                    == (ErrorView::ProtocolInvariantViolation { request_id: request_id as int }),
            },
    {
        let open = match self.channels.get(&request_id) {
            Some(channel) => !channel.state.terminal(),
            None => false,
        };
        if !open {
            return Err(Error::ProtocolInvariantViolation { request_id });
        }
        let ghost before = self.channels@;
        match self.channels.remove(&request_id) {
            Some(channel) => {
                let Channel { mode, remaining, state: _, mut queue, code, text } = channel;
                let ghost queued = queue@;
                queue.push_back(message);
                let (remaining, last) = match remaining {
                    Some(n) => if n <= 1 {
                        (Some(0), true)
                    } else {
                        (Some((n - 1) as usize), false)
                    },
                    None => (None, false),
                };
                let single = match mode {
                    DeliveryMode::SingleShot => true,
                    DeliveryMode::Streaming => false,
                };
                let state = if single || last {
                    RequestState::Completed
                } else {
                    RequestState::Delivering
                };
                let updated = Channel { mode, remaining, state, queue, code, text };
                proof {
                    assert(messages_of(updated.queue@) =~= messages_of(queued).push(message@));
                    assert(updated@ == channel@.deliver(message@));
                    lemma_table_insert(self.channels@, request_id, updated);
                    assert(before.remove(request_id).insert(request_id, updated) =~= before.insert(
                        request_id,
                        updated,
                    ));
                    lemma_table_insert(before, request_id, updated);
                }
                self.channels.insert(request_id, updated);
                Ok(())
            },
            None => Err(Error::ProtocolInvariantViolation { request_id }),
        }
    }

    /// Takes the completion sentinel of a streaming request: the request is
    /// complete, and what is queued stays to be pulled.
    ///
    /// A sentinel for an identifier that is not registered, whose request
    /// has ended, or whose request is a single-shot one changes nothing and
    /// is reported as `ProtocolInvariantViolation`.
    pub fn complete(&mut self, request_id: i32) -> (outcome: Result<(), Error>)
        ensures
            final(self)@ == after_complete(old(self)@, request_id),
            match outcome {
                Ok(_) => accepts_sentinel(old(self)@, request_id),
                Err(e) => !accepts_sentinel(old(self)@, request_id) && e@
                    == (ErrorView::ProtocolInvariantViolation { request_id: request_id as int }),
            },
    {
        let open = match self.channels.get(&request_id) {
            Some(channel) => !channel.state.terminal() && match channel.mode {
                DeliveryMode::Streaming => true,
                DeliveryMode::SingleShot => false,
            },
            None => false,
        };
        if !open {
            return Err(Error::ProtocolInvariantViolation { request_id });
        }
        let ghost before = self.channels@;
        match self.channels.remove(&request_id) {
            Some(channel) => {
                let Channel { mode, remaining, state: _, queue, code, text } = channel;
                let updated = Channel {
                    mode,
                    remaining,
                    state: RequestState::Completed,
                    queue,
                    code,
                    text,
                };
                proof {
                    assert(updated@ == channel@.complete());
                    assert(before.remove(request_id).insert(request_id, updated) =~= before.insert(
                        request_id,
                        updated,
                    ));
                    lemma_table_insert(before, request_id, updated);
                }
                self.channels.insert(request_id, updated);
                Ok(())
            },
            None => Err(Error::ProtocolInvariantViolation { request_id }),
        }
    }

    /// Takes an error of the gateway for a request: the request has failed,
    /// and the error is pulled after what is queued.
    ///
    /// An error for an identifier that is not registered, or whose request
    /// has ended, changes nothing and is reported as
    /// `ProtocolInvariantViolation`.
    pub fn fail(&mut self, request_id: i32, code: i32, text: String) -> (outcome: Result<
        (),
        Error,
    >)
        ensures
            final(self)@ == after_fail(old(self)@, request_id, code as int, text@),
            match outcome {
                Ok(_) => accepts(old(self)@, request_id),
                Err(e) => !accepts(old(self)@, request_id) && e@
                    == (ErrorView::ProtocolInvariantViolation { request_id: request_id as int }),
            },
    {
        let open = match self.channels.get(&request_id) {
            Some(channel) => !channel.state.terminal(),
            None => false,
        };
        if !open {
            return Err(Error::ProtocolInvariantViolation { request_id });
        }
        let ghost before = self.channels@;
        match self.channels.remove(&request_id) {
            Some(channel) => {
                let Channel { mode, remaining, state: _, queue, code: _, text: _ } = channel;
                let updated = Channel {
                    mode,
                    remaining,
                    state: RequestState::Errored,
                    queue,
                    code,
                    text,
                };
                proof {
                    assert(updated@ == channel@.fail(code as int, text@));
                    assert(before.remove(request_id).insert(request_id, updated) =~= before.insert(
                        request_id,
                        updated,
                    ));
                    lemma_table_insert(before, request_id, updated);
                }
                self.channels.insert(request_id, updated);
                Ok(())
            },
            None => Err(Error::ProtocolInvariantViolation { request_id }),
        }
    }

    /// Gives a request up: its registration is removed, with all that was
    /// queued for it, whether or not the gateway ever answers.
    ///
    /// Returns the state in which the request ends, or nothing where the
    /// identifier was not registered.
    pub fn cancel(&mut self, request_id: i32) -> (state: Option<RequestState>)
        ensures
            final(self)@ == after_cancel(old(self)@, request_id),
            !final(self)@.contains_key(request_id),
            state == (if old(self)@.contains_key(request_id) {
                Some(cancelled_state(old(self)@[request_id].state))
            } else {
                None
            }),
    {
        proof {
            lemma_table_remove(self.channels@, request_id);
        }
        match self.channels.remove(&request_id) {
            Some(channel) => if channel.state.terminal() {
                Some(channel.state)
            } else {
                Some(RequestState::Cancelled)
            },
            None => None,
        }
    }

    /// Pulls the next message of a request.
    ///
    /// Messages come out in the order in which they were dispatched. When
    /// none is queued, a request that is still open says `Wait`; one that
    /// has ended says so, with the error of the gateway if there was one,
    /// and is registered no longer. An identifier that is not registered
    /// gives `End`.
    pub fn pull(&mut self, request_id: i32) -> (next: Pull<ResponsePacket>)
        ensures
            final(self)@ == after_pull(old(self)@, request_id),
            next@ == pulled(old(self)@, request_id),
    {
        let ghost before = self.channels@;
        match self.channels.remove(&request_id) {
            None => {
                assert(self.channels@ =~= before);
                Pull::End
            },
            Some(channel) => {
                let Channel { mode, remaining, state, mut queue, code, text } = channel;
                let ghost queued = queue@;
                match queue.pop_front() {
                    Some(message) => {
                        let updated = Channel { mode, remaining, state, queue, code, text };
                        proof {
                            assert(messages_of(updated.queue@) =~= messages_of(queued).skip(1));
                            assert(updated@ == channel@.drop_oldest());
                            assert(before.remove(request_id).insert(request_id, updated)
                                =~= before.insert(request_id, updated));
                            lemma_table_insert(before, request_id, updated);
                        }
                        self.channels.insert(request_id, updated);
                        Pull::Item(message)
                    },
                    None => {
                        if !state.terminal() {
                            let restored = Channel { mode, remaining, state, queue, code, text };
                            proof {
                                assert(restored.queue@ =~= queued);
                                assert(restored@ == channel@);
                                assert(before.remove(request_id).insert(request_id, restored)
                                    =~= before.insert(request_id, restored));
                                lemma_table_insert(before, request_id, restored);
                                assert(table_of(before).insert(request_id, channel@) =~= table_of(
                                    before,
                                ));
                            }
                            self.channels.insert(request_id, restored);
                            Pull::Wait
                        } else {
                            proof {
                                lemma_table_remove(before, request_id);
                            }
                            match state {
                                RequestState::Errored => Pull::Failed(
                                    Error::GatewayError { code, text },
                                ),
                                _ => Pull::End,
                            }
                        }
                    },
                }
            },
        }
    }
}

/// The table after a run of messages has been dispatched to one request,
/// oldest first.
pub open spec fn after_dispatch_all(
    table: Table,
    request_id: i32,
    messages: Seq<ResponseView>,
) -> Table
    decreases messages.len(),
{
    if messages.len() == 0 {
        table
    } else {
        after_dispatch(
            after_dispatch_all(table, request_id, messages.drop_last()),
            request_id,
            messages.last(),
        )
    }
}

/// The table after `count` pulls from one request.
pub open spec fn after_pulls(table: Table, request_id: i32, count: nat) -> Table
    decreases count,
{
    if count == 0 {
        table
    } else {
        after_pull(after_pulls(table, request_id, (count - 1) as nat), request_id)
    }
}

/// No transition leaves a terminal state: once a request has ended, no
/// message, sentinel or error of the gateway changes its registration or
/// any other.
pub proof fn lemma_ended_requests_stay_ended(
    table: Table,
    request_id: i32,
    message: ResponseView,
    code: int,
    text: Seq<char>,
)
    requires
        table.contains_key(request_id),
        table[request_id].state.is_terminal(),
    ensures
        after_dispatch(table, request_id, message) == table,
        after_complete(table, request_id) == table,
        after_fail(table, request_id, code, text) == table,
{
}

/// The states follow one another as the life of a request allows: a message
/// leaves a single-shot request complete and a streaming request delivering
/// or complete; a sentinel leaves it complete; an error leaves it failed.
/// Registrations of other requests are untouched.
pub proof fn lemma_transitions(
    table: Table,
    request_id: i32,
    message: ResponseView,
    code: int,
    text: Seq<char>,
    other: i32,
)
    requires
        accepts(table, request_id),
        other != request_id,
    ensures
        ({
            let next = after_dispatch(table, request_id, message)[request_id].state;
            if table[request_id].mode is SingleShot {
                next is Completed
            } else {
                next is Delivering || next is Completed
            }
        }),
        accepts_sentinel(table, request_id) ==> after_complete(
            table,
            request_id,
        )[request_id].state is Completed,
        after_fail(table, request_id, code, text)[request_id].state is Errored,
        after_dispatch(table, request_id, message).contains_key(other) == table.contains_key(other),
        table.contains_key(other) ==> {
            &&& after_dispatch(table, request_id, message)[other] == table[other]
            &&& after_complete(table, request_id)[other] == table[other]
            &&& after_fail(table, request_id, code, text)[other] == table[other]
            &&& after_pull(table, request_id)[other] == table[other]
            &&& after_cancel(table, request_id)[other] == table[other]
        },
{
}

/// Two single-shot requests in flight at once, answered in the reverse of
/// the order in which they were registered, each get the reply that was
/// sent to their own identifier, and after it the end.
pub proof fn lemma_replies_reach_their_own_request(
    table: Table,
    first: i32,
    second: i32,
    reply_to_first: ResponseView,
    reply_to_second: ResponseView,
)
    requires
        first != second,
        !table.contains_key(first),
        !table.contains_key(second),
    ensures
        ({
            let registered = after_register(
                after_register(table, first, DeliveryMode::SingleShot, None),
                second,
                DeliveryMode::SingleShot,
                None,
            );
            let answered = after_dispatch(
                after_dispatch(registered, second, reply_to_second),
                first,
                reply_to_first,
            );
            &&& pulled(answered, first) == PullView::Item(reply_to_first)
            &&& pulled(answered, second) == PullView::Item(reply_to_second)
            &&& pulled(after_pull(answered, first), first) == PullView::<ResponseView>::End
            &&& pulled(after_pull(answered, second), second) == PullView::<ResponseView>::End
            &&& pulled(after_pull(answered, first), second) == PullView::Item(reply_to_second)
        }),
{
    let one = after_register(table, first, DeliveryMode::SingleShot, None);
    let registered = after_register(one, second, DeliveryMode::SingleShot, None);
    let fresh = ChannelView::fresh(DeliveryMode::SingleShot, None);
    assert(registered[first] == fresh);
    assert(registered[second] == fresh);
    let half = after_dispatch(registered, second, reply_to_second);
    assert(half[second] == fresh.deliver(reply_to_second));
    assert(half[first] == fresh);
    let answered = after_dispatch(half, first, reply_to_first);
    assert(answered[first] == fresh.deliver(reply_to_first));
    assert(answered[second] == fresh.deliver(reply_to_second));
    assert(fresh.deliver(reply_to_first).queue =~= seq![reply_to_first]);
    assert(fresh.deliver(reply_to_second).queue =~= seq![reply_to_second]);
    let taken = after_pull(answered, first);
    assert(taken[first].queue =~= Seq::<ResponseView>::empty());
    assert(taken[second] == answered[second]);
    let other = after_pull(answered, second);
    assert(other[second].queue =~= Seq::<ResponseView>::empty());
}

/// A streaming request without a count limit that has been fed a run of
/// messages holds exactly that run in its queue, and is still open.
pub proof fn lemma_stream_fed(table: Table, request_id: i32, messages: Seq<ResponseView>)
    requires
        !table.contains_key(request_id),
    ensures
        ({
            let fed = after_dispatch_all(
                after_register(table, request_id, DeliveryMode::Streaming, None),
                request_id,
                messages,
            );
            &&& fed.contains_key(request_id)
            &&& fed[request_id].queue == messages
            &&& fed[request_id].mode is Streaming
            &&& fed[request_id].remaining is None
            &&& !fed[request_id].state.is_terminal()
        }),
    decreases messages.len(),
{
    let registered = after_register(table, request_id, DeliveryMode::Streaming, None);
    if messages.len() == 0 {
        assert(registered[request_id].queue =~= messages);
    } else {
        lemma_stream_fed(table, request_id, messages.drop_last());
        let before = after_dispatch_all(registered, request_id, messages.drop_last());
        let fed = after_dispatch(before, request_id, messages.last());
        assert(fed[request_id].queue =~= messages);
    }
}

/// Pulling `count` of the messages queued for a request removes the oldest
/// `count` of them from its queue and changes nothing else of its
/// registration.
pub proof fn lemma_stream_drained(table: Table, request_id: i32, count: nat)
    requires
        table.contains_key(request_id),
        count <= table[request_id].queue.len(),
    ensures
        ({
            let drained = after_pulls(table, request_id, count);
            &&& drained.contains_key(request_id)
            &&& drained[request_id] == (ChannelView {
                queue: table[request_id].queue.skip(count as int),
                ..table[request_id]
            })
        }),
    decreases count,
{
    if count == 0 {
        assert(table[request_id].queue.skip(0) =~= table[request_id].queue);
    } else {
        lemma_stream_drained(table, request_id, (count - 1) as nat);
        let queue = table[request_id].queue;
        assert(queue.skip(count - 1).skip(1) =~= queue.skip(count as int));
    }
}

/// A streaming request that is fed a run of messages and then its
/// completion sentinel yields exactly those messages, in their order, and
/// then the end, after which it is registered no longer. Given up after
/// fewer pulls, it is registered no longer either, and nothing further is
/// dispatched to it.
pub proof fn lemma_stream_yields_what_it_was_fed(
    table: Table,
    request_id: i32,
    messages: Seq<ResponseView>,
    count: nat,
    late: ResponseView,
)
    requires
        !table.contains_key(request_id),
        count <= messages.len(),
    ensures
        ({
            let fed = after_complete(
                after_dispatch_all(
                    after_register(table, request_id, DeliveryMode::Streaming, None),
                    request_id,
                    messages,
                ),
                request_id,
            );
            let drained = after_pulls(fed, request_id, count);
            let dropped = after_cancel(drained, request_id);
            &&& count < messages.len() ==> pulled(drained, request_id) == PullView::Item(
                messages[count as int],
            )
            &&& count == messages.len() ==> {
                &&& pulled(drained, request_id) == PullView::<ResponseView>::End
                &&& !after_pull(drained, request_id).contains_key(request_id)
            }
            &&& !dropped.contains_key(request_id)
            &&& !accepts(dropped, request_id)
            &&& after_dispatch(dropped, request_id, late) == dropped
        }),
{
    let registered = after_register(table, request_id, DeliveryMode::Streaming, None);
    lemma_stream_fed(table, request_id, messages);
    let fed = after_complete(after_dispatch_all(registered, request_id, messages), request_id);
    assert(fed[request_id].queue == messages);
    lemma_stream_drained(fed, request_id, count);
}

} // verus!
