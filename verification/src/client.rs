//! The transport that carries the messages.

use vstd::prelude::*;
use crate::errors::{Error, ErrorView};
pub use crate::messages::{DELIMITER, RequestPacket, ResponsePacket, ResponseView};

verus! {

/// The transport, as far as a request needs it.
///
/// An implementation negotiates a protocol version, hands out request
/// identifiers, and sends a request and waits for its reply.
pub trait Client {
    /// The protocol version negotiated with the gateway.
    spec fn server_version(&self) -> int;

    /// The identifier that the next request gets.
    spec fn upcoming_request_id(&self) -> int;

    /// The messages sent so far, oldest first.
    spec fn sent(&self) -> Seq<Seq<Seq<char>>>;

    /// What came back for the message sent last: the reply as it arrived, or
    /// the error of the transport.
    spec fn last_outcome(&self) -> Result<ResponseView, ErrorView>;

    /// Checks that the gateway offers a feature that needs the protocol
    /// version `version`; `message` names the feature in the error.
    fn check_server_version(&self, version: i32, message: &str) -> (outcome: Result<(), Error>)
        ensures
            match outcome {
                Ok(_) => version <= self.server_version(),
                Err(e) => self.server_version() < version && e@
                    == (ErrorView::UnsupportedFeature {
                    required: version as int,
                    negotiated: self.server_version(),
                    feature: message@,
                }),
            },
    ;

    /// Hands out the identifier of the next request. Identifiers grow by one
    /// until the largest is reached, and never fall.
    fn next_request_id(&mut self) -> (request_id: i32)
        ensures
            request_id == old(self).upcoming_request_id(),
            request_id < i32::MAX ==> final(self).upcoming_request_id() == request_id + 1,
            final(self).upcoming_request_id() >= request_id,
            final(self).server_version() == old(self).server_version(),
            final(self).sent() == old(self).sent(),
            final(self).last_outcome() == old(self).last_outcome(),
    ;

    /// Sends a message and waits for the reply to it.
    fn send_message(&mut self, request_id: i32, packet: RequestPacket) -> (reply: Result<
        ResponsePacket,
        Error,
    >)
        ensures
            final(self).sent() == old(self).sent().push(packet@),
            final(self).server_version() == old(self).server_version(),
            final(self).upcoming_request_id() == old(self).upcoming_request_id(),
            final(self).last_outcome() == outcome_of(reply),
    ;
}

/// The mathematical value of what a transport gives back.
pub open spec fn outcome_of(reply: Result<ResponsePacket, Error>) -> Result<
    ResponseView,
    ErrorView,
> {
    match reply {
        Ok(response) => Ok(response@),
        Err(e) => Err(e@),
    }
}

/// The messages that a sequence of packets holds.
pub open spec fn messages_of(packets: Seq<RequestPacket>) -> Seq<Seq<Seq<char>>> {
    Seq::new(packets.len(), |i: int| packets[i]@)
}

/// A transport for tests: it records what is sent and answers from a list of
/// prepared replies.
#[derive(Debug)]
pub struct ClientStub {
    /// The messages sent so far, oldest first.
    pub request_packets: Vec<RequestPacket>,
    /// The replies still to be given, the next one first.
    pub response_packets: std::collections::VecDeque<ResponsePacket>,
    /// The identifier that the next request gets.
    pub next_request_id: i32,
    /// The protocol version that the stub claims to have negotiated.
    pub server_version: i32,
    /// A copy of the reply given last.
    pub last_reply: Option<ResponsePacket>,
}

impl ClientStub {
    /// A stub that claims the given protocol version, with nothing sent, no
    /// reply prepared, and identifiers starting at 0.
    pub fn new(server_version: i32) -> (stub: ClientStub)
        ensures
            stub.server_version == server_version,
            stub.next_request_id == 0,
            stub.request_packets@.len() == 0,
            stub.response_packets@.len() == 0,
            stub.last_reply is None,
    {
        ClientStub {
            request_packets: Vec::new(),
            response_packets: std::collections::VecDeque::new(),
            next_request_id: 0,
            server_version,
            last_reply: None,
        }
    }
}

impl Default for ClientStub {
    /// A stub whose protocol version offers every request of this library.
    fn default() -> (stub: ClientStub)
        ensures
            stub.server_version == crate::server_versions::REQ_HEAD_TIMESTAMP,
            stub.next_request_id == 0,
            stub.request_packets@.len() == 0,
            stub.response_packets@.len() == 0,
            stub.last_reply is None,
    {
        ClientStub::new(crate::server_versions::REQ_HEAD_TIMESTAMP)
    }
}

impl Client for ClientStub {
    open spec fn server_version(&self) -> int {
        self.server_version as int
    }

    open spec fn upcoming_request_id(&self) -> int {
        self.next_request_id as int
    }

    open spec fn sent(&self) -> Seq<Seq<Seq<char>>> {
        messages_of(self.request_packets@)
    }

    open spec fn last_outcome(&self) -> Result<ResponseView, ErrorView> {
        match self.last_reply {
            Some(response) => Ok(response@),
            None => Ok(ResponseView { position: 0, unread: Seq::empty() }),
        }
    }

    fn check_server_version(&self, version: i32, message: &str) -> (outcome: Result<(), Error>) {
        crate::server_versions::check_version(self.server_version, version, message)
    }

    fn next_request_id(&mut self) -> (request_id: i32) {
        let request_id = self.next_request_id;
        if request_id < i32::MAX {
            self.next_request_id = request_id + 1;
        }
        request_id
    }

    /// Records the message and gives the next prepared reply. When none is
    /// left, the reply is a message without fields.
    fn send_message(&mut self, request_id: i32, packet: RequestPacket) -> (reply: Result<
        ResponsePacket,
        Error,
    >)
        ensures
            final(self).request_packets@ == old(self).request_packets@.push(packet),
            match reply {
                Ok(response) => if old(self).response_packets@.len() > 0 {
                    &&& response@ == old(self).response_packets@[0]@
                    &&& final(self).response_packets@ == old(self).response_packets@.skip(1)
                } else {
                    &&& response@ == (ResponseView { position: 0, unread: Seq::empty() })
                    &&& final(self).response_packets@ == old(self).response_packets@
                },
                Err(_) => false,
            },
    {
        let ghost before = self.request_packets@;
        self.request_packets.push(packet);
        assert(messages_of(self.request_packets@) =~= messages_of(before).push(packet@));
        let response = match self.response_packets.pop_front() {
            Some(response) => {
                assert(self.response_packets@ =~= old(self).response_packets@.skip(1));
                response
            },
            None => {
                let response = ResponsePacket::from_fields(Vec::new());
                assert(response@.unread =~= Seq::<Seq<char>>::empty());
                response
            },
        };
        self.last_reply = Some(response.clone());
        Ok(response)
    }
}

} // verus!
