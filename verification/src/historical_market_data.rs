//! Historical market data: the earliest available timestamp, bars and ticks.

use std::fmt::Debug;

use vstd::prelude::*;
use crate::client::Client;
use crate::messages::{
    RequestPacket, ResponsePacket, ResponseView, contract_fields, decimal_field, int_field,
    lemma_read_ahead, timestamp_field,
};
use crate::correlator::{Correlator, DeliveryMode, Pull, after_cancel, after_register};
use crate::domain::{Contract, ContractView, Decimal, TickAttribBidAsk, Timestamp};
use crate::streams::{Element, Step, discard, next_element, stream_step};
use crate::errors::{Error, ErrorView};
use crate::fields::{bool_token, int_token};
use crate::server_versions;

verus! {

/// The code that opens a head-timestamp request.
pub const HEAD_TIMESTAMP_REQUEST: i32 = 12;

/// What the error says when the gateway is too old for head-timestamp
/// requests.
pub open spec fn head_timestamp_feature() -> Seq<char> {
    "It does not support head time stamp requests."@
}

/// The directive that closes a head-timestamp request and fixes how the
/// reply writes its date.
pub open spec fn date_format_directive() -> Seq<char> {
    "format_date"@
}

/// The fields of a head-timestamp request, in wire order: the request code,
/// the request identifier, the contract, the regular-trading-hours flag, the
/// kind of data, and the date-format directive.
pub open spec fn head_timestamp_request(
    request_id: int,
    contract: ContractView,
    what_to_show: Seq<char>,
    use_rth: bool,
) -> Seq<Seq<char>> {
    seq![int_token(HEAD_TIMESTAMP_REQUEST as int), int_token(request_id)] + contract_fields(
        contract,
    ) + seq![bool_token(use_rth), what_to_show, date_format_directive()]
}

/// What a head-timestamp reply holds: the request identifier, which is read
/// and dropped, and the timestamp, and nothing after it.
pub open spec fn head_timestamp_reply(message: ResponseView) -> Result<int, ErrorView> {
    let request_id = message.field(0, |t: Seq<char>| int_field(t));
    let timestamp = message.field(1, |t: Seq<char>| timestamp_field(t));
    if request_id is Err {
        Err(request_id->Err_0)
    } else if timestamp is Err {
        Err(timestamp->Err_0)
    } else if message.unread.len() > 2 {
        Err(ErrorView::TrailingFields { count: message.unread.len() - 2 })
    } else {
        Ok(timestamp->Ok_0)
    }
}

/// What a head-timestamp request comes to, given what the transport gave
/// back: its error, or the reply decoded.
pub open spec fn head_timestamp_outcome(outcome: Result<ResponseView, ErrorView>) -> Result<
    int,
    ErrorView,
> {
    match outcome {
        Ok(message) => head_timestamp_reply(message),
        Err(e) => Err(e),
    }
}

/// Encodes the head timestamp request
pub fn encode_head_timestamp(
    request_id: i32,
    contract: &Contract,
    what_to_show: &str,
    use_rth: bool,
) -> (request: Result<RequestPacket, Error>)
    ensures
        request matches Ok(packet) && packet@ == head_timestamp_request(
            request_id as int,
            contract@,
            what_to_show@,
            use_rth,
        ),
{
    let mut packet = RequestPacket::default();

    packet.add_int(HEAD_TIMESTAMP_REQUEST);
    packet.add_int(request_id);
    packet.add_contract(contract);
    packet.add_bool(use_rth);
    packet.add_str(what_to_show);
    packet.add_str("format_date");

    assert(packet@ =~= head_timestamp_request(
        request_id as int,
        contract@,
        what_to_show@,
        use_rth,
    ));
    Ok(packet)
}

/// Decodes the reply to a head-timestamp request.
///
/// The request identifier is read and dropped. A reply that ends early, a
/// field that is not of its type and fields after the timestamp are all
/// errors.
pub fn decode_head_timestamp(packet: &mut ResponsePacket) -> (timestamp: Result<
    Timestamp,
    Error,
>)
    ensures
        match timestamp {
            Ok(t) => {
                &&& head_timestamp_reply(old(packet)@) == Ok::<int, ErrorView>(t@)
                &&& final(packet)@ == old(packet)@.skip_fields(2)
                &&& final(packet)@.unread.len() == 0
            },
            Err(e) => {
                &&& head_timestamp_reply(old(packet)@) == Err::<int, ErrorView>(e@)
                &&& old(packet)@.leads_to(final(packet)@)
            },
        },
{
    let ghost start = packet@;
    proof {
        lemma_read_ahead(start, 0);
        assert(start.unread.skip(0) =~= start.unread);
    }
    let _request_id = packet.next_int()?;
    proof {
        lemma_read_ahead(start, 1);
    }
    let head_timestamp = packet.next_date_time()?;
    proof {
        lemma_read_ahead(start, 2);
    }
    packet.finish()?;

    Ok(head_timestamp)
}

/// Returns the timestamp of earliest available historical data for a contract and data type.
///
/// A gateway whose protocol version is below
/// [`server_versions::REQ_HEAD_TIMESTAMP`] is not asked: the answer is
/// `UnsupportedFeature` and nothing is sent. Otherwise one request is sent,
/// under the next request identifier, and the reply is decoded by
/// [`decode_head_timestamp`]; an error of the transport is handed on.
pub fn head_timestamp<C: Client + Debug>(
    client: &mut C,
    contract: &Contract,
    what_to_show: &str,
    use_rth: bool,
) -> (timestamp: Result<Timestamp, Error>)
    ensures
        final(client).server_version() == old(client).server_version(),
        old(client).server_version() < server_versions::REQ_HEAD_TIMESTAMP ==> {
            &&& timestamp matches Err(e) && e@ == (ErrorView::UnsupportedFeature {
                required: server_versions::REQ_HEAD_TIMESTAMP as int,
                negotiated: old(client).server_version(),
                feature: head_timestamp_feature(),
            })
            &&& final(client).sent() == old(client).sent()
            &&& final(client).upcoming_request_id() == old(client).upcoming_request_id()
        },
        old(client).server_version() >= server_versions::REQ_HEAD_TIMESTAMP ==> {
            &&& final(client).sent() == old(client).sent().push(
                head_timestamp_request(
                    old(client).upcoming_request_id(),
                    contract@,
                    what_to_show@,
                    use_rth,
                ),
            )
            &&& final(client).upcoming_request_id() >= old(client).upcoming_request_id()
            &&& old(client).upcoming_request_id() < i32::MAX ==> {
                final(client).upcoming_request_id() == old(client).upcoming_request_id() + 1
            }
            &&& match timestamp {
                Ok(t) => head_timestamp_outcome(final(client).last_outcome()) == Ok::<
                    int,
                    ErrorView,
                >(t@),
                Err(e) => head_timestamp_outcome(final(client).last_outcome()) == Err::<
                    int,
                    ErrorView,
                >(e@),
            }
        },
{
    client.check_server_version(
        server_versions::REQ_HEAD_TIMESTAMP,
        "It does not support head time stamp requests.",
    )?;

    let request_id = client.next_request_id();
    let request = encode_head_timestamp(request_id, contract, what_to_show, use_rth)?;

    let mut response = client.send_message(request_id, request)?;

    decode_head_timestamp(&mut response)
}

impl Element for Timestamp {
    open spec fn decoded(message: ResponseView) -> Result<int, ErrorView> {
        head_timestamp_reply(message)
    }

    fn decode(packet: &mut ResponsePacket) -> (element: Result<Self, Error>) {
        decode_head_timestamp(packet)
    }
}

/// Opens a head-timestamp request without waiting for its reply: checks the
/// negotiated protocol version, registers the request with the correlator as
/// a single-shot one, and builds the message to send.
///
/// Below [`server_versions::REQ_HEAD_TIMESTAMP`] the answer is
/// `UnsupportedFeature`; for an identifier that is registered already it is
/// `ProtocolInvariantViolation`. Either way nothing is registered.
pub fn open_head_timestamp(
    correlator: &mut Correlator,
    negotiated_version: i32,
    request_id: i32,
    contract: &Contract,
    what_to_show: &str,
    use_rth: bool,
) -> (request: Result<RequestPacket, Error>)
    ensures
        match request {
            Ok(packet) => {
                &&& server_versions::can_use(
                    server_versions::REQ_HEAD_TIMESTAMP as int,
                    negotiated_version as int,
                )
                &&& !old(correlator)@.contains_key(request_id)
                &&& packet@ == head_timestamp_request(
                    request_id as int,
                    contract@,
                    what_to_show@,
                    use_rth,
                )
                &&& final(correlator)@ == after_register(
                    old(correlator)@,
                    request_id,
                    DeliveryMode::SingleShot,
                    None,
                )
            },
            Err(e) => {
                &&& final(correlator)@ == old(correlator)@
                &&& if !server_versions::can_use(
                    server_versions::REQ_HEAD_TIMESTAMP as int,
                    negotiated_version as int,
                ) {
                    e@ == (ErrorView::UnsupportedFeature {
                        required: server_versions::REQ_HEAD_TIMESTAMP as int,
                        negotiated: negotiated_version as int,
                        feature: head_timestamp_feature(),
                    })
                } else {
                    &&& old(correlator)@.contains_key(request_id)
                    &&& e@ == (ErrorView::ProtocolInvariantViolation {
                        request_id: request_id as int,
                    })
                }
            },
        },
{
    server_versions::check_version(
        negotiated_version,
        server_versions::REQ_HEAD_TIMESTAMP,
        "It does not support head time stamp requests.",
    )?;
    correlator.register_single(request_id)?;
    encode_head_timestamp(request_id, contract, what_to_show, use_rth)
}

/// Pulls the answer to a head-timestamp request that was opened with
/// [`open_head_timestamp`].
///
/// `Wait` says that the reply has not arrived. `Item` holds the timestamp of
/// the reply that was dispatched to this request; `Failed` the error of the
/// gateway, or of the decoder where the reply does not decode, after which
/// the request is registered no longer.
pub fn poll_head_timestamp(correlator: &mut Correlator, request_id: i32) -> (answer: Pull<
    Timestamp,
>)
    ensures
        answer@ == stream_step::<Timestamp>(Some(request_id), old(correlator)@).next,
        final(correlator)@ == stream_step::<Timestamp>(Some(request_id), old(correlator)@).table,
{
    let mut binding = Some(request_id);
    next_element::<Timestamp>(&mut binding, correlator)
}

/// One trade of the past.
#[derive(Debug, PartialEq, Eq)]
pub struct HistoricalTick {
    pub time: i32,
    pub price: Decimal,
    pub size: i32,
}

/// The mathematical value of a [`HistoricalTick`].
pub struct HistoricalTickView {
    pub time: int,
    pub price: Seq<char>,
    pub size: int,
}

impl View for HistoricalTick {
    type V = HistoricalTickView;

    open spec fn view(&self) -> HistoricalTickView {
        HistoricalTickView { time: self.time as int, price: self.price@, size: self.size as int }
    }
}

/// One quote of the past: the best bid and the best ask.
#[derive(Debug, PartialEq, Eq)]
pub struct HistoricalTickBidAsk {
    pub time: i32,
    pub tick_attrib_bid_ask: TickAttribBidAsk,
    pub price_bid: Decimal,
    pub price_ask: Decimal,
    pub size_bid: i32,
    pub size_ask: i32,
}

/// The mathematical value of a [`HistoricalTickBidAsk`].
pub struct HistoricalTickBidAskView {
    pub time: int,
    pub tick_attrib_bid_ask: int,
    pub price_bid: Seq<char>,
    pub price_ask: Seq<char>,
    pub size_bid: int,
    pub size_ask: int,
}

impl View for HistoricalTickBidAsk {
    type V = HistoricalTickBidAskView;

    open spec fn view(&self) -> HistoricalTickBidAskView {
        HistoricalTickBidAskView {
            time: self.time as int,
            tick_attrib_bid_ask: self.tick_attrib_bid_ask.mask as int,
            price_bid: self.price_bid@,
            price_ask: self.price_ask@,
            size_bid: self.size_bid as int,
            size_ask: self.size_ask as int,
        }
    }
}

/// The last trade at a moment of the past.
#[derive(Debug, PartialEq, Eq)]
pub struct HistoricalTickLast {
    pub time: i32,
    pub price: Decimal,
    pub size: i32,
}

impl View for HistoricalTickLast {
    type V = HistoricalTickView;

    open spec fn view(&self) -> HistoricalTickView {
        HistoricalTickView { time: self.time as int, price: self.price@, size: self.size as int }
    }
}

/// One bar: open, high, low and close of an interval, with its volume, its
/// volume-weighted average price and the number of its trades.
#[derive(Debug, PartialEq, Eq)]
pub struct Bar {
    pub time: Timestamp,
    pub open: Decimal,
    pub high: Decimal,
    pub low: Decimal,
    pub close: Decimal,
    pub volume: Decimal,
    pub wap: Decimal,
    pub count: i32,
}

/// The mathematical value of a [`Bar`].
pub struct BarView {
    pub time: int,
    pub open: Seq<char>,
    pub high: Seq<char>,
    pub low: Seq<char>,
    pub close: Seq<char>,
    pub volume: Seq<char>,
    pub wap: Seq<char>,
    pub count: int,
}

impl View for Bar {
    type V = BarView;

    open spec fn view(&self) -> BarView {
        BarView {
            time: self.time@,
            open: self.open@,
            high: self.high@,
            low: self.low@,
            close: self.close@,
            volume: self.volume@,
            wap: self.wap@,
            count: self.count as int,
        }
    }
}

/// What a trade message holds: time, price and size, and nothing after them.
pub open spec fn tick_message(message: ResponseView) -> Result<HistoricalTickView, ErrorView> {
    let time = message.field(0, |t: Seq<char>| int_field(t));
    let price = message.field(1, |t: Seq<char>| decimal_field(t));
    let size = message.field(2, |t: Seq<char>| int_field(t));
    if time is Err {
        Err(time->Err_0)
    } else if price is Err {
        Err(price->Err_0)
    } else if size is Err {
        Err(size->Err_0)
    } else if message.unread.len() > 3 {
        Err(ErrorView::TrailingFields { count: message.unread.len() - 3 })
    } else {
        Ok(HistoricalTickView { time: time->Ok_0, price: price->Ok_0, size: size->Ok_0 })
    }
}

/// What a bid/ask message holds: time, qualifiers, bid price, ask price, bid
/// size and ask size, and nothing after them.
pub open spec fn bid_ask_message(message: ResponseView) -> Result<
    HistoricalTickBidAskView,
    ErrorView,
> {
    let time = message.field(0, |t: Seq<char>| int_field(t));
    let mask = message.field(1, |t: Seq<char>| int_field(t));
    let price_bid = message.field(2, |t: Seq<char>| decimal_field(t));
    let price_ask = message.field(3, |t: Seq<char>| decimal_field(t));
    let size_bid = message.field(4, |t: Seq<char>| int_field(t));
    let size_ask = message.field(5, |t: Seq<char>| int_field(t));
    if time is Err {
        Err(time->Err_0)
    } else if mask is Err {
        Err(mask->Err_0)
    } else if price_bid is Err {
        Err(price_bid->Err_0)
    } else if price_ask is Err {
        Err(price_ask->Err_0)
    } else if size_bid is Err {
        Err(size_bid->Err_0)
    } else if size_ask is Err {
        Err(size_ask->Err_0)
    } else if message.unread.len() > 6 {
        Err(ErrorView::TrailingFields { count: message.unread.len() - 6 })
    } else {
        Ok(
            HistoricalTickBidAskView {
                time: time->Ok_0,
                tick_attrib_bid_ask: mask->Ok_0,
                price_bid: price_bid->Ok_0,
                price_ask: price_ask->Ok_0,
                size_bid: size_bid->Ok_0,
                size_ask: size_ask->Ok_0,
            },
        )
    }
}

/// What a bar message holds: open time, open, high, low, close, volume,
/// weighted-average price and trade count, and nothing after them.
pub open spec fn bar_message(message: ResponseView) -> Result<BarView, ErrorView> {
    let time = message.field(0, |t: Seq<char>| timestamp_field(t));
    let open = message.field(1, |t: Seq<char>| decimal_field(t));
    let high = message.field(2, |t: Seq<char>| decimal_field(t));
    let low = message.field(3, |t: Seq<char>| decimal_field(t));
    let close = message.field(4, |t: Seq<char>| decimal_field(t));
    let volume = message.field(5, |t: Seq<char>| decimal_field(t));
    let wap = message.field(6, |t: Seq<char>| decimal_field(t));
    let count = message.field(7, |t: Seq<char>| int_field(t));
    if time is Err {
        Err(time->Err_0)
    } else if open is Err {
        Err(open->Err_0)
    } else if high is Err {
        Err(high->Err_0)
    } else if low is Err {
        Err(low->Err_0)
    } else if close is Err {
        Err(close->Err_0)
    } else if volume is Err {
        Err(volume->Err_0)
    } else if wap is Err {
        Err(wap->Err_0)
    } else if count is Err {
        Err(count->Err_0)
    } else if message.unread.len() > 8 {
        Err(ErrorView::TrailingFields { count: message.unread.len() - 8 })
    } else {
        Ok(
            BarView {
                time: time->Ok_0,
                open: open->Ok_0,
                high: high->Ok_0,
                low: low->Ok_0,
                close: close->Ok_0,
                volume: volume->Ok_0,
                wap: wap->Ok_0,
                count: count->Ok_0,
            },
        )
    }
}

impl Element for HistoricalTick {
    open spec fn decoded(message: ResponseView) -> Result<HistoricalTickView, ErrorView> {
        tick_message(message)
    }

    fn decode(packet: &mut ResponsePacket) -> (element: Result<Self, Error>) {
        let ghost start = packet@;
        proof {
            lemma_read_ahead(start, 0);
            assert(start.unread.skip(0) =~= start.unread);
        }
        let time = packet.next_int()?;
        proof {
            lemma_read_ahead(start, 1);
        }
        let price = packet.next_decimal()?;
        proof {
            lemma_read_ahead(start, 2);
        }
        let size = packet.next_int()?;
        proof {
            lemma_read_ahead(start, 3);
        }
        packet.finish()?;
        Ok(HistoricalTick { time, price, size })
    }
}

impl Element for HistoricalTickLast {
    open spec fn decoded(message: ResponseView) -> Result<HistoricalTickView, ErrorView> {
        tick_message(message)
    }

    fn decode(packet: &mut ResponsePacket) -> (element: Result<Self, Error>) {
        let ghost start = packet@;
        proof {
            lemma_read_ahead(start, 0);
            assert(start.unread.skip(0) =~= start.unread);
        }
        let time = packet.next_int()?;
        proof {
            lemma_read_ahead(start, 1);
        }
        let price = packet.next_decimal()?;
        proof {
            lemma_read_ahead(start, 2);
        }
        let size = packet.next_int()?;
        proof {
            lemma_read_ahead(start, 3);
        }
        packet.finish()?;
        Ok(HistoricalTickLast { time, price, size })
    }
}

impl Element for HistoricalTickBidAsk {
    open spec fn decoded(message: ResponseView) -> Result<HistoricalTickBidAskView, ErrorView> {
        bid_ask_message(message)
    }

    fn decode(packet: &mut ResponsePacket) -> (element: Result<Self, Error>) {
        let ghost start = packet@;
        proof {
            lemma_read_ahead(start, 0);
            assert(start.unread.skip(0) =~= start.unread);
        }
        let time = packet.next_int()?;
        proof {
            lemma_read_ahead(start, 1);
        }
        let mask = packet.next_int()?;
        proof {
            lemma_read_ahead(start, 2);
        }
        let price_bid = packet.next_decimal()?;
        proof {
            lemma_read_ahead(start, 3);
        }
        let price_ask = packet.next_decimal()?;
        proof {
            lemma_read_ahead(start, 4);
        }
        let size_bid = packet.next_int()?;
        proof {
            lemma_read_ahead(start, 5);
        }
        let size_ask = packet.next_int()?;
        proof {
            lemma_read_ahead(start, 6);
        }
        packet.finish()?;
        Ok(
            HistoricalTickBidAsk {
                time,
                tick_attrib_bid_ask: TickAttribBidAsk { mask },
                price_bid,
                price_ask,
                size_bid,
                size_ask,
            },
        )
    }
}

impl Element for Bar {
    open spec fn decoded(message: ResponseView) -> Result<BarView, ErrorView> {
        bar_message(message)
    }

    fn decode(packet: &mut ResponsePacket) -> (element: Result<Self, Error>) {
        let ghost start = packet@;
        proof {
            lemma_read_ahead(start, 0);
            assert(start.unread.skip(0) =~= start.unread);
        }
        let time = packet.next_date_time()?;
        proof {
            lemma_read_ahead(start, 1);
        }
        let open = packet.next_decimal()?;
        proof {
            lemma_read_ahead(start, 2);
        }
        let high = packet.next_decimal()?;
        proof {
            lemma_read_ahead(start, 3);
        }
        let low = packet.next_decimal()?;
        proof {
            lemma_read_ahead(start, 4);
        }
        let close = packet.next_decimal()?;
        proof {
            lemma_read_ahead(start, 5);
        }
        let volume = packet.next_decimal()?;
        proof {
            lemma_read_ahead(start, 6);
        }
        let wap = packet.next_decimal()?;
        proof {
            lemma_read_ahead(start, 7);
        }
        let count = packet.next_int()?;
        proof {
            lemma_read_ahead(start, 8);
        }
        packet.finish()?;
        Ok(Bar { time, open, high, low, close, volume, wap, count })
    }
}

/// A stream of trades: the elements that the messages of one streaming
/// request hold, in the order in which the gateway sent them.
#[derive(Debug, PartialEq, Eq)]
pub struct HistoricalTickIterator {
    /// The request that feeds the stream; none once the stream has ended.
    pub request_id: Option<i32>,
}

impl Default for HistoricalTickIterator {
    fn default() -> (stream: HistoricalTickIterator)
        ensures
            stream.request_id is None,
    {
        HistoricalTickIterator::new()
    }
}

impl HistoricalTickIterator {
    /// A stream that no request feeds: it has ended, with no elements.
    pub fn new() -> (stream: HistoricalTickIterator)
        ensures
            stream.request_id is None,
    {
        HistoricalTickIterator { request_id: None }
    }

    /// The stream that the given request feeds.
    pub fn for_request(request_id: i32) -> (stream: HistoricalTickIterator)
        ensures
            stream.request_id == Some(request_id),
    {
        HistoricalTickIterator { request_id: Some(request_id) }
    }

    /// Pulls the next element.
    ///
    /// `Wait` says that nothing has arrived yet. After `End` or `Failed` the
    /// stream has ended for good and its request is registered no longer.
    pub fn next(&mut self, correlator: &mut Correlator) -> (next: Pull<HistoricalTick>)
        ensures
            stream_step::<HistoricalTick>(old(self).request_id, old(correlator)@) == (Step {
                next: next@,
                binding: final(self).request_id,
                table: final(correlator)@,
            }),
    {
        next_element::<HistoricalTick>(&mut self.request_id, correlator)
    }

    /// Gives the stream up before its end: its request is registered no
    /// longer, so that nothing further is dispatched to it.
    pub fn cancel(&mut self, correlator: &mut Correlator)
        ensures
            final(self).request_id is None,
            final(correlator)@ == (match old(self).request_id {
                Some(request_id) => after_cancel(old(correlator)@, request_id),
                None => old(correlator)@,
            }),
    {
        discard(&mut self.request_id, correlator)
    }
}

/// A stream of quotes: the elements that the messages of one streaming
/// request hold, in the order in which the gateway sent them.
#[derive(Debug, PartialEq, Eq)]
pub struct HistoricalTickBidAskIterator {
    /// The request that feeds the stream; none once the stream has ended.
    pub request_id: Option<i32>,
}

impl Default for HistoricalTickBidAskIterator {
    fn default() -> (stream: HistoricalTickBidAskIterator)
        ensures
            stream.request_id is None,
    {
        HistoricalTickBidAskIterator::new()
    }
}

impl HistoricalTickBidAskIterator {
    /// A stream that no request feeds: it has ended, with no elements.
    pub fn new() -> (stream: HistoricalTickBidAskIterator)
        ensures
            stream.request_id is None,
    {
        HistoricalTickBidAskIterator { request_id: None }
    }

    /// The stream that the given request feeds.
    pub fn for_request(request_id: i32) -> (stream: HistoricalTickBidAskIterator)
        ensures
            stream.request_id == Some(request_id),
    {
        HistoricalTickBidAskIterator { request_id: Some(request_id) }
    }

    /// Pulls the next element.
    ///
    /// `Wait` says that nothing has arrived yet. After `End` or `Failed` the
    /// stream has ended for good and its request is registered no longer.
    pub fn next(&mut self, correlator: &mut Correlator) -> (next: Pull<HistoricalTickBidAsk>)
        ensures
            stream_step::<HistoricalTickBidAsk>(old(self).request_id, old(correlator)@) == (Step {
                next: next@,
                binding: final(self).request_id,
                table: final(correlator)@,
            }),
    {
        next_element::<HistoricalTickBidAsk>(&mut self.request_id, correlator)
    }

    /// Gives the stream up before its end: its request is registered no
    /// longer, so that nothing further is dispatched to it.
    pub fn cancel(&mut self, correlator: &mut Correlator)
        ensures
            final(self).request_id is None,
            final(correlator)@ == (match old(self).request_id {
                Some(request_id) => after_cancel(old(correlator)@, request_id),
                None => old(correlator)@,
            }),
    {
        discard(&mut self.request_id, correlator)
    }
}

/// A stream of last trades: the elements that the messages of one streaming
/// request hold, in the order in which the gateway sent them.
#[derive(Debug, PartialEq, Eq)]
pub struct HistoricalTickLastIterator {
    /// The request that feeds the stream; none once the stream has ended.
    pub request_id: Option<i32>,
}

impl Default for HistoricalTickLastIterator {
    fn default() -> (stream: HistoricalTickLastIterator)
        ensures
            stream.request_id is None,
    {
        HistoricalTickLastIterator::new()
    }
}

impl HistoricalTickLastIterator {
    /// A stream that no request feeds: it has ended, with no elements.
    pub fn new() -> (stream: HistoricalTickLastIterator)
        ensures
            stream.request_id is None,
    {
        HistoricalTickLastIterator { request_id: None }
    }

    /// The stream that the given request feeds.
    pub fn for_request(request_id: i32) -> (stream: HistoricalTickLastIterator)
        ensures
            stream.request_id == Some(request_id),
    {
        HistoricalTickLastIterator { request_id: Some(request_id) }
    }

    /// Pulls the next element.
    ///
    /// `Wait` says that nothing has arrived yet. After `End` or `Failed` the
    /// stream has ended for good and its request is registered no longer.
    pub fn next(&mut self, correlator: &mut Correlator) -> (next: Pull<HistoricalTickLast>)
        ensures
            stream_step::<HistoricalTickLast>(old(self).request_id, old(correlator)@) == (Step {
                next: next@,
                binding: final(self).request_id,
                table: final(correlator)@,
            }),
    {
        next_element::<HistoricalTickLast>(&mut self.request_id, correlator)
    }

    /// Gives the stream up before its end: its request is registered no
    /// longer, so that nothing further is dispatched to it.
    pub fn cancel(&mut self, correlator: &mut Correlator)
        ensures
            final(self).request_id is None,
            final(correlator)@ == (match old(self).request_id {
                Some(request_id) => after_cancel(old(correlator)@, request_id),
                None => old(correlator)@,
            }),
    {
        discard(&mut self.request_id, correlator)
    }
}

/// A stream of bars: the elements that the messages of one streaming
/// request hold, in the order in which the gateway sent them.
#[derive(Debug, PartialEq, Eq)]
pub struct BarIterator {
    /// The request that feeds the stream; none once the stream has ended.
    pub request_id: Option<i32>,
}

impl Default for BarIterator {
    fn default() -> (stream: BarIterator)
        ensures
            stream.request_id is None,
    {
        BarIterator::new()
    }
}

impl BarIterator {
    /// A stream that no request feeds: it has ended, with no elements.
    pub fn new() -> (stream: BarIterator)
        ensures
            stream.request_id is None,
    {
        BarIterator { request_id: None }
    }

    /// The stream that the given request feeds.
    pub fn for_request(request_id: i32) -> (stream: BarIterator)
        ensures
            stream.request_id == Some(request_id),
    {
        BarIterator { request_id: Some(request_id) }
    }

    /// Pulls the next element.
    ///
    /// `Wait` says that nothing has arrived yet. After `End` or `Failed` the
    /// stream has ended for good and its request is registered no longer.
    pub fn next(&mut self, correlator: &mut Correlator) -> (next: Pull<Bar>)
        ensures
            stream_step::<Bar>(old(self).request_id, old(correlator)@) == (Step {
                next: next@,
                binding: final(self).request_id,
                table: final(correlator)@,
            }),
    {
        next_element::<Bar>(&mut self.request_id, correlator)
    }

    /// Gives the stream up before its end: its request is registered no
    /// longer, so that nothing further is dispatched to it.
    pub fn cancel(&mut self, correlator: &mut Correlator)
        ensures
            final(self).request_id is None,
            final(correlator)@ == (match old(self).request_id {
                Some(request_id) => after_cancel(old(correlator)@, request_id),
                None => old(correlator)@,
            }),
    {
        discard(&mut self.request_id, correlator)
    }
}

/// One bucket of a price histogram. Its fields are not defined yet.
#[derive(Debug, Default, PartialEq, Eq)]
pub struct HistogramData {}

/// A stream of histogram buckets. No request feeds it yet.
#[derive(Debug, Default, PartialEq, Eq)]
pub struct HistogramDataIterator {}

/// The trading schedule of a contract. Its fields are not defined yet.
#[derive(Debug, Default, PartialEq, Eq)]
pub struct HistoricalSchedule {}

/// Returns data histogram of specified contract
///
/// The query is not available: the answer is `NotImplemented`, and nothing
/// is sent.
#[allow(unused_variables)]
pub fn histogram_data<C: Client + Debug>(client: &C, contract: &Contract, use_rth: bool, period: &str) -> (
    histogram: Result<HistogramDataIterator, Error>
)
    ensures
        histogram matches Err(e) && e@ == ErrorView::NotImplemented,
{
    Err(Error::NotImplemented)
}

/// Returns the bars of a contract over the time that ends at `end` and lasts
/// `duration`.
///
/// The query is not available: the answer is `NotImplemented`, and nothing
/// is sent.
#[allow(unused_variables)]
pub fn historical_data<C: Client + Debug>(
    client: &C,
    contract: &Contract,
    end: &Timestamp,
    duration: &str,
    bar_size: &str,
    what_to_show: &str,
    use_rth: bool,
    keep_up_to_date: bool,
) -> (bars: Result<BarIterator, Error>)
    ensures
        bars matches Err(e) && e@ == ErrorView::NotImplemented,
{
    Err(Error::NotImplemented)
}

/// Returns the trading schedule of a contract.
///
/// The query is not available: the answer is `NotImplemented`, and nothing
/// is sent.
#[allow(unused_variables)]
pub fn historical_schedule<C: Client + Debug>(
    client: &C,
    contract: &Contract,
    use_rth: bool,
    period: &str,
) -> (schedule: Result<HistogramDataIterator, Error>)
    ensures
        schedule matches Err(e) && e@ == ErrorView::NotImplemented,
{
    Err(Error::NotImplemented)
}

/// Returns the trades of a contract between two points in time.
///
/// The query is not available: the answer is `NotImplemented`, and nothing
/// is sent.
#[allow(unused_variables)]
pub fn historical_ticks<C: Client + Debug>(
    client: &C,
    contract: &Contract,
    start_date: Option<Timestamp>,
    end_date: Option<Timestamp>,
    number_of_ticks: i32,
    use_rth: i32,
    ignore_size: bool,
) -> (ticks: Result<HistoricalTickIterator, Error>)
    ensures
        ticks matches Err(e) && e@ == ErrorView::NotImplemented,
{
    Err(Error::NotImplemented)
}

/// Returns the quotes of a contract between two points in time.
///
/// The query is not available: the answer is `NotImplemented`, and nothing
/// is sent.
#[allow(unused_variables)]
pub fn historical_ticks_bid_ask<C: Client + Debug>(
    client: &C,
    contract: &Contract,
    start_date: Option<Timestamp>,
    end_date: Option<Timestamp>,
    number_of_ticks: i32,
    use_rth: i32,
    ignore_size: bool,
) -> (ticks: Result<HistoricalTickBidAskIterator, Error>)
    ensures
        ticks matches Err(e) && e@ == ErrorView::NotImplemented,
{
    Err(Error::NotImplemented)
}

/// Returns the last trades of a contract between two points in time.
///
/// The query is not available: the answer is `NotImplemented`, and nothing
/// is sent.
#[allow(unused_variables)]
pub fn historical_ticks_last<C: Client + Debug>(
    client: &C,
    contract: &Contract,
    start_date: Option<Timestamp>,
    end_date: Option<Timestamp>,
    number_of_ticks: i32,
    use_rth: i32,
    ignore_size: bool,
) -> (ticks: Result<HistoricalTickLastIterator, Error>)
    ensures
        ticks matches Err(e) && e@ == ErrorView::NotImplemented,
{
    Err(Error::NotImplemented)
}

} // verus!
