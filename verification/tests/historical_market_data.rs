use std::collections::VecDeque;

use ibapi::client::{Client, ClientStub, RequestPacket, ResponsePacket};
use ibapi::contracts;
use ibapi::correlator::{Correlator, Pull};
use ibapi::domain::{Contract, Decimal, Timestamp};
use ibapi::errors::Error;
use ibapi::historical_market_data::{
    decode_head_timestamp, encode_head_timestamp, head_timestamp, historical_schedule,
    historical_ticks, historical_ticks_bid_ask, historical_ticks_last, BarIterator,
    HistogramData, HistogramDataIterator, HistoricalSchedule, HistoricalTickBidAskIterator,
    HistoricalTickIterator, HistoricalTickLastIterator, HEAD_TIMESTAMP_REQUEST,
};
use ibapi::server_versions;

fn fields_of(packet: &RequestPacket) -> Vec<String> {
    (0..packet.len()).map(|i| packet.field(i).to_string()).collect()
}

#[test]
fn test_head_timestamp() {
    let mut client = ClientStub::default();
    client.response_packets = VecDeque::from([ResponsePacket::from("10\x0000\x00cc")]);

    let contract = contracts::stock("MSFT");
    let what_to_show = "trades";
    let use_rth = true;

    let _result = head_timestamp(&mut client, &contract, what_to_show, use_rth);

    assert_eq!(client.request_packets.len(), 1);
}

#[test]
fn histogram_data() {
    let result = 2 + 2;
    assert_eq!(result, 4);
}

#[test]
fn historical_data() {
    let result = 2 + 2;
    assert_eq!(result, 4);
}

#[test]
fn head_timestamp_reply_with_trailing_field_is_an_error() {
    let mut client = ClientStub::default();
    client.response_packets = VecDeque::from([ResponsePacket::from("10\x0000\x00cc")]);
    let contract = contracts::stock("MSFT");

    let result = head_timestamp(&mut client, &contract, "trades", true);

    assert_eq!(result, Err(Error::TrailingFields { count: 1 }));
}

#[test]
fn head_timestamp_end_to_end() {
    let mut client = ClientStub::default();
    client.response_packets = VecDeque::from([ResponsePacket::from("0\x001546300800\x00")]);
    let contract = contracts::stock("MSFT");

    let result = head_timestamp(&mut client, &contract, "trades", true);

    assert_eq!(client.request_packets.len(), 1);
    assert_eq!(result, Ok(Timestamp::from_unix_seconds(1_546_300_800).unwrap()));
    assert_eq!(result.unwrap().unix_seconds(), 1_546_300_800);
    assert_eq!(client.response_packets.len(), 0);
    let reply = client.last_reply.clone().unwrap();
    assert_eq!(reply.position(), 0);
    assert_eq!(reply.remaining(), 2);
    assert_eq!(
        fields_of(&client.request_packets[0]),
        vec![
            "12", "0", "0", "MSFT", "STK", "", "0", "", "", "SMART", "", "USD", "", "", "0", "1",
            "trades", "format_date",
        ]
    );
}

#[test]
fn head_timestamp_uses_the_next_request_id() {
    let mut client = ClientStub::default();
    client.next_request_id = 41;
    client.response_packets = VecDeque::from([
        ResponsePacket::from("41\x0010\x00"),
        ResponsePacket::from("42\x0020\x00"),
    ]);
    let contract = contracts::stock("MSFT");

    let first = head_timestamp(&mut client, &contract, "trades", true);
    let second = head_timestamp(&mut client, &contract, "bid", false);

    assert_eq!(first.unwrap().unix_seconds(), 10);
    assert_eq!(second.unwrap().unix_seconds(), 20);
    assert_eq!(client.request_packets[0].field(1), "41");
    assert_eq!(client.request_packets[1].field(1), "42");
    assert_eq!(client.request_packets[1].field(15), "0");
    assert_eq!(client.request_packets[1].field(16), "bid");
    assert_eq!(client.next_request_id, 43);
}

#[test]
fn head_timestamp_below_the_minimum_version_sends_nothing() {
    let mut client = ClientStub::new(server_versions::REQ_HEAD_TIMESTAMP - 1);
    client.response_packets = VecDeque::from([ResponsePacket::from("0\x001546300800\x00")]);
    let contract = contracts::stock("MSFT");

    let result = head_timestamp(&mut client, &contract, "trades", true);

    assert_eq!(
        result,
        Err(Error::UnsupportedFeature {
            required: server_versions::REQ_HEAD_TIMESTAMP,
            negotiated: server_versions::REQ_HEAD_TIMESTAMP - 1,
            feature: "It does not support head time stamp requests.".to_string(),
        })
    );
    assert_eq!(client.request_packets.len(), 0);
    assert_eq!(client.response_packets.len(), 1);
    assert_eq!(client.next_request_id, 0);
}

#[test]
fn head_timestamp_at_the_minimum_version_is_sent() {
    let mut client = ClientStub::new(server_versions::REQ_HEAD_TIMESTAMP);
    client.response_packets = VecDeque::from([ResponsePacket::from("0\x005\x00")]);
    let contract = contracts::stock("MSFT");

    let result = head_timestamp(&mut client, &contract, "trades", true);

    assert_eq!(result.unwrap().unix_seconds(), 5);
    assert_eq!(client.request_packets.len(), 1);
}

#[test]
fn head_timestamp_without_a_reply_ends_early() {
    let mut client = ClientStub::default();
    let contract = contracts::stock("MSFT");

    let result = head_timestamp(&mut client, &contract, "trades", true);

    assert_eq!(result, Err(Error::UnexpectedEndOfMessage));
    assert_eq!(client.request_packets.len(), 1);
}

#[test]
fn encode_head_timestamp_field_order() {
    let contract = Contract {
        contract_id: 272093,
        symbol: "MSFT".to_string(),
        security_type: "OPT".to_string(),
        last_trade_date_or_contract_month: "202412".to_string(),
        strike: Decimal::parse("412.5").unwrap(),
        right: "C".to_string(),
        multiplier: "100".to_string(),
        exchange: "SMART".to_string(),
        primary_exchange: "NASDAQ".to_string(),
        currency: "USD".to_string(),
        local_symbol: "MSFT  241220C00412500".to_string(),
        trading_class: "MSFT".to_string(),
        include_expired: true,
    };

    let packet = encode_head_timestamp(-7, &contract, "midpoint", false).unwrap();

    assert_eq!(
        fields_of(&packet),
        vec![
            "12",
            "-7",
            "272093",
            "MSFT",
            "OPT",
            "202412",
            "412.5",
            "C",
            "100",
            "SMART",
            "NASDAQ",
            "USD",
            "MSFT  241220C00412500",
            "MSFT",
            "1",
            "0",
            "midpoint",
            "format_date",
        ]
    );
    assert_eq!(HEAD_TIMESTAMP_REQUEST, 12);
    assert_eq!(
        packet.encode(),
        "12\0-7\0272093\0MSFT\0OPT\0202412\0412.5\0C\0100\0SMART\0NASDAQ\0USD\0MSFT  241220C00412500\0MSFT\x001\x000\0midpoint\0format_date\0"
    );
}

#[test]
fn decode_head_timestamp_drops_the_request_id() {
    let mut packet = ResponsePacket::from("0\x001546300800\x00");

    let result = decode_head_timestamp(&mut packet);

    assert_eq!(result.unwrap().unix_seconds(), 1_546_300_800);
    assert_eq!(packet.remaining(), 0);
    assert_eq!(packet.position(), 2);
}

#[test]
fn decode_head_timestamp_errors() {
    let mut empty = ResponsePacket::from("");
    assert_eq!(decode_head_timestamp(&mut empty), Err(Error::UnexpectedEndOfMessage));

    let mut bad_id = ResponsePacket::from("x\x001546300800\x00");
    assert_eq!(decode_head_timestamp(&mut bad_id), Err(Error::MalformedField { index: 0 }));

    let mut short = ResponsePacket::from("0\x00");
    assert_eq!(decode_head_timestamp(&mut short), Err(Error::UnexpectedEndOfMessage));
    assert_eq!(short.position(), 1);

    let mut bad_time = ResponsePacket::from("0\x0020190101\x2000:00:00\x00");
    assert_eq!(decode_head_timestamp(&mut bad_time), Err(Error::MalformedField { index: 1 }));

    let mut late = ResponsePacket::from("0\x00253402300800\x00");
    assert_eq!(decode_head_timestamp(&mut late), Err(Error::MalformedField { index: 1 }));

    let mut long = ResponsePacket::from("0\x001\x002\x003\x00");
    assert_eq!(decode_head_timestamp(&mut long), Err(Error::TrailingFields { count: 2 }));
}

#[test]
fn other_queries_are_not_available() {
    let client = ClientStub::default();
    let contract = contracts::stock("MSFT");
    let end = Timestamp::from_unix_seconds(0).unwrap();

    assert_eq!(
        ibapi::historical_market_data::histogram_data(&client, &contract, true, "1 W"),
        Err(Error::NotImplemented)
    );
    assert_eq!(
        ibapi::historical_market_data::historical_data(
            &client, &contract, &end, "1 D", "1 hour", "trades", true, false
        ),
        Err(Error::NotImplemented)
    );
    assert_eq!(historical_schedule(&client, &contract, true, "1 W"), Err(Error::NotImplemented));
    assert_eq!(
        historical_ticks(&client, &contract, Some(end), None, 10, 1, false),
        Err(Error::NotImplemented)
    );
    assert_eq!(
        historical_ticks_bid_ask(&client, &contract, None, Some(end), 10, 1, false),
        Err(Error::NotImplemented)
    );
    assert_eq!(
        historical_ticks_last(&client, &contract, None, None, 10, 1, true),
        Err(Error::NotImplemented)
    );
    assert_eq!(client.request_packets.len(), 0);
}

#[test]
fn new_tick_iterator_has_no_elements() {
    let mut correlator = Correlator::new();
    let mut ticks = HistoricalTickIterator::new();

    assert_eq!(ticks.request_id, None);
    assert_eq!(ticks.next(&mut correlator), Pull::End);
    assert_eq!(ticks.next(&mut correlator), Pull::End);
    assert_eq!(HistoricalTickIterator::default(), HistoricalTickIterator::new());
}

#[test]
fn new_streams_are_bound_to_no_request() {
    assert_eq!(BarIterator::new().request_id, None);
    assert_eq!(HistoricalTickBidAskIterator::new().request_id, None);
    assert_eq!(HistoricalTickLastIterator::new().request_id, None);
    assert_eq!(BarIterator::for_request(9).request_id, Some(9));
    assert_eq!(HistogramData::default(), HistogramData {});
    assert_eq!(HistogramDataIterator::default(), HistogramDataIterator {});
    assert_eq!(HistoricalSchedule::default(), HistoricalSchedule {});
}

#[test]
fn stub_hands_out_growing_request_ids() {
    let mut client = ClientStub::default();

    assert_eq!(client.next_request_id(), 0);
    assert_eq!(client.next_request_id(), 1);
    assert_eq!(client.next_request_id(), 2);

    client.next_request_id = i32::MAX;
    assert_eq!(client.next_request_id(), i32::MAX);
    assert_eq!(client.next_request_id(), i32::MAX);
}

#[test]
fn stub_checks_the_server_version() {
    let client = ClientStub::new(100);

    assert_eq!(client.check_server_version(100, "bars"), Ok(()));
    assert_eq!(client.check_server_version(99, "bars"), Ok(()));
    assert_eq!(
        client.check_server_version(101, "bars"),
        Err(Error::UnsupportedFeature { required: 101, negotiated: 100, feature: "bars".to_string() })
    );
}

#[test]
fn stub_answers_in_the_order_prepared() {
    let mut client = ClientStub::default();
    client.response_packets =
        VecDeque::from([ResponsePacket::from("a\0"), ResponsePacket::from("b\0")]);
    let mut request = RequestPacket::new();
    request.add_int(5);

    let mut first = client.send_message(1, request.clone()).unwrap();
    let mut second = client.send_message(2, request.clone()).unwrap();
    let third = client.send_message(3, request).unwrap();

    assert_eq!(first.next_string(), Ok("a".to_string()));
    assert_eq!(second.next_string(), Ok("b".to_string()));
    assert_eq!(third.remaining(), 0);
    assert_eq!(client.request_packets.len(), 3);
}

#[test]
fn concurrent_head_timestamps_resolve_to_their_own_replies() {
    let mut correlator = Correlator::new();
    let msft = contracts::stock("MSFT");
    let aapl = contracts::stock("AAPL");

    let first = ibapi::historical_market_data::open_head_timestamp(
        &mut correlator, 103, 1, &msft, "trades", true,
    )
    .unwrap();
    let second = ibapi::historical_market_data::open_head_timestamp(
        &mut correlator, 103, 2, &aapl, "trades", true,
    )
    .unwrap();
    assert_eq!(first.field(1), "1");
    assert_eq!(first.field(3), "MSFT");
    assert_eq!(second.field(1), "2");
    assert_eq!(second.field(3), "AAPL");
    assert_eq!(ibapi::historical_market_data::poll_head_timestamp(&mut correlator, 1), Pull::Wait);

    correlator.dispatch(2, ResponsePacket::from("2\x00200\x00")).unwrap();
    correlator.dispatch(1, ResponsePacket::from("1\x00100\x00")).unwrap();

    assert_eq!(
        ibapi::historical_market_data::poll_head_timestamp(&mut correlator, 1),
        Pull::Item(Timestamp::from_unix_seconds(100).unwrap())
    );
    assert_eq!(
        ibapi::historical_market_data::poll_head_timestamp(&mut correlator, 2),
        Pull::Item(Timestamp::from_unix_seconds(200).unwrap())
    );
    assert_eq!(ibapi::historical_market_data::poll_head_timestamp(&mut correlator, 1), Pull::End);
    assert!(!correlator.is_registered(1));
}

#[test]
fn open_head_timestamp_refusals_register_nothing() {
    let mut correlator = Correlator::new();
    let contract = contracts::stock("MSFT");

    assert_eq!(
        ibapi::historical_market_data::open_head_timestamp(
            &mut correlator, 102, 1, &contract, "trades", true,
        ),
        Err(Error::UnsupportedFeature {
            required: 103,
            negotiated: 102,
            feature: "It does not support head time stamp requests.".to_string(),
        })
    );
    assert!(!correlator.is_registered(1));

    correlator.register_stream(1, None).unwrap();
    assert_eq!(
        ibapi::historical_market_data::open_head_timestamp(
            &mut correlator, 103, 1, &contract, "trades", true,
        ),
        Err(Error::ProtocolInvariantViolation { request_id: 1 })
    );
    assert_eq!(correlator.queued(1), 0);
}

#[test]
fn poll_head_timestamp_failures() {
    let mut correlator = Correlator::new();
    let contract = contracts::stock("MSFT");
    for id in [1, 2] {
        ibapi::historical_market_data::open_head_timestamp(
            &mut correlator, 103, id, &contract, "trades", true,
        )
        .unwrap();
    }
    correlator.fail(1, 162, "no data".to_string()).unwrap();
    correlator.dispatch(2, ResponsePacket::from("2\x00soon\x00")).unwrap();

    assert_eq!(
        ibapi::historical_market_data::poll_head_timestamp(&mut correlator, 1),
        Pull::Failed(Error::GatewayError { code: 162, text: "no data".to_string() })
    );
    assert_eq!(
        ibapi::historical_market_data::poll_head_timestamp(&mut correlator, 2),
        Pull::Failed(Error::MalformedField { index: 1 })
    );
    assert!(!correlator.is_registered(1));
    assert!(!correlator.is_registered(2));
}
