use ibapi::client::ResponsePacket;
use ibapi::correlator::{Correlator, DeliveryMode, Pull, RequestState};
use ibapi::domain::{Decimal, TickAttribBidAsk, Timestamp};
use ibapi::errors::Error;
use ibapi::historical_market_data::{
    Bar, BarIterator, HistoricalTick, HistoricalTickBidAsk, HistoricalTickBidAskIterator,
    HistoricalTickIterator, HistoricalTickLast, HistoricalTickLastIterator,
};
use ibapi::streams::Element;

fn violation(request_id: i32) -> Result<(), Error> {
    Err(Error::ProtocolInvariantViolation { request_id })
}

fn decimal(text: &str) -> Decimal {
    Decimal::parse(text).unwrap()
}

fn bar_message(i: i64) -> ResponsePacket {
    ResponsePacket::from(&format!("{}\x00{}.5\x00{}.75\x00{}.25\x00{}.5\x001000\x00{}.4\x00{}\x00", 60 * i, i, i, i, i, i, i))
}

fn bar(i: i64) -> Bar {
    Bar {
        time: Timestamp::from_unix_seconds(60 * i).unwrap(),
        open: decimal(&format!("{}.5", i)),
        high: decimal(&format!("{}.75", i)),
        low: decimal(&format!("{}.25", i)),
        close: decimal(&format!("{}.5", i)),
        volume: decimal("1000"),
        wap: decimal(&format!("{}.4", i)),
        count: i as i32,
    }
}

#[test]
fn replies_in_reverse_order_reach_their_own_request() {
    let mut correlator = Correlator::new();
    assert_eq!(correlator.register_single(1), Ok(()));
    assert_eq!(correlator.register_single(2), Ok(()));

    assert_eq!(correlator.dispatch(2, ResponsePacket::from("2\x00200\x00")), Ok(()));
    assert_eq!(correlator.dispatch(1, ResponsePacket::from("1\x00100\x00")), Ok(()));

    assert_eq!(correlator.pull(1), Pull::Item(ResponsePacket::from("1\x00100\x00")));
    assert_eq!(correlator.pull(2), Pull::Item(ResponsePacket::from("2\x00200\x00")));
    assert_eq!(correlator.pull(1), Pull::End);
    assert_eq!(correlator.pull(2), Pull::End);
    assert!(!correlator.is_registered(1));
    assert!(!correlator.is_registered(2));
}

#[test]
fn single_shot_takes_exactly_one_message() {
    let mut correlator = Correlator::new();
    correlator.register_single(7).unwrap();
    assert_eq!(correlator.state(7), Some(RequestState::Pending));
    assert_eq!(correlator.pull(7), Pull::Wait);

    assert_eq!(correlator.dispatch(7, ResponsePacket::from("a\0")), Ok(()));
    assert_eq!(correlator.state(7), Some(RequestState::Completed));
    assert_eq!(correlator.queued(7), 1);

    assert_eq!(correlator.dispatch(7, ResponsePacket::from("b\0")), violation(7));
    assert_eq!(correlator.queued(7), 1);
    assert_eq!(correlator.pull(7), Pull::Item(ResponsePacket::from("a\0")));
    assert_eq!(correlator.pull(7), Pull::End);
    assert_eq!(correlator.state(7), None);
}

#[test]
fn unregistered_requests_are_violations() {
    let mut correlator = Correlator::new();

    assert_eq!(correlator.dispatch(3, ResponsePacket::from("a\0")), violation(3));
    assert_eq!(correlator.complete(3), violation(3));
    assert_eq!(correlator.fail(3, 162, "no data".to_string()), violation(3));
    assert_eq!(correlator.cancel(3), None);
    assert_eq!(correlator.pull(3), Pull::End);
    assert_eq!(correlator.state(3), None);
    assert_eq!(correlator.queued(3), 0);
    assert!(!correlator.is_registered(3));
}

#[test]
fn request_ids_are_registered_once() {
    let mut correlator = Correlator::new();

    assert_eq!(correlator.register_single(4), Ok(()));
    assert_eq!(correlator.register_single(4), violation(4));
    assert_eq!(correlator.register_stream(4, None), violation(4));
    assert_eq!(correlator.register_stream(5, None), Ok(()));
    assert_eq!(correlator.register_single(5), violation(5));
    assert!(correlator.is_registered(4));
    assert!(correlator.is_registered(5));
}

#[test]
fn stream_yields_what_it_was_fed_then_ends() {
    for n in [0usize, 1, 2, 5] {
        let mut correlator = Correlator::new();
        correlator.register_stream(9, None).unwrap();
        for i in 0..n {
            assert_eq!(correlator.dispatch(9, ResponsePacket::from(&format!("{}\0", i))), Ok(()));
            assert_eq!(correlator.state(9), Some(RequestState::Delivering));
        }
        assert_eq!(correlator.complete(9), Ok(()));
        assert_eq!(correlator.state(9), Some(RequestState::Completed));
        assert_eq!(correlator.queued(9), n);

        for i in 0..n {
            assert_eq!(correlator.pull(9), Pull::Item(ResponsePacket::from(&format!("{}\0", i))));
        }
        assert!(correlator.is_registered(9));
        assert_eq!(correlator.pull(9), Pull::End);
        assert!(!correlator.is_registered(9));
        assert_eq!(correlator.pull(9), Pull::End);
    }
}

#[test]
fn stream_waits_while_it_is_open() {
    let mut correlator = Correlator::new();
    correlator.register_stream(9, None).unwrap();

    assert_eq!(correlator.pull(9), Pull::Wait);
    correlator.dispatch(9, ResponsePacket::from("a\0")).unwrap();
    assert_eq!(correlator.pull(9), Pull::Item(ResponsePacket::from("a\0")));
    assert_eq!(correlator.pull(9), Pull::Wait);
    assert_eq!(correlator.state(9), Some(RequestState::Delivering));
    correlator.complete(9).unwrap();
    assert_eq!(correlator.pull(9), Pull::End);
}

#[test]
fn stream_with_a_count_limit_completes_by_itself() {
    let mut correlator = Correlator::new();
    correlator.register_stream(9, Some(2)).unwrap();

    assert_eq!(correlator.dispatch(9, ResponsePacket::from("a\0")), Ok(()));
    assert_eq!(correlator.state(9), Some(RequestState::Delivering));
    assert_eq!(correlator.dispatch(9, ResponsePacket::from("b\0")), Ok(()));
    assert_eq!(correlator.state(9), Some(RequestState::Completed));
    assert_eq!(correlator.dispatch(9, ResponsePacket::from("c\0")), violation(9));
    assert_eq!(correlator.complete(9), violation(9));

    assert_eq!(correlator.pull(9), Pull::Item(ResponsePacket::from("a\0")));
    assert_eq!(correlator.pull(9), Pull::Item(ResponsePacket::from("b\0")));
    assert_eq!(correlator.pull(9), Pull::End);
}

#[test]
fn stream_with_a_limit_of_zero_is_complete_at_once() {
    let mut correlator = Correlator::new();
    correlator.register_stream(9, Some(0)).unwrap();

    assert_eq!(correlator.state(9), Some(RequestState::Completed));
    assert_eq!(correlator.dispatch(9, ResponsePacket::from("a\0")), violation(9));
    assert_eq!(correlator.pull(9), Pull::End);
    assert!(!correlator.is_registered(9));
}

#[test]
fn sentinel_is_for_streams_only() {
    let mut correlator = Correlator::new();
    correlator.register_single(1).unwrap();

    assert_eq!(correlator.complete(1), violation(1));
    assert_eq!(correlator.state(1), Some(RequestState::Pending));
}

#[test]
fn gateway_error_ends_the_request() {
    let mut correlator = Correlator::new();
    correlator.register_stream(9, None).unwrap();
    correlator.dispatch(9, ResponsePacket::from("a\0")).unwrap();

    assert_eq!(correlator.fail(9, 162, "no data".to_string()), Ok(()));
    assert_eq!(correlator.state(9), Some(RequestState::Errored));
    assert_eq!(correlator.dispatch(9, ResponsePacket::from("b\0")), violation(9));
    assert_eq!(correlator.complete(9), violation(9));
    assert_eq!(correlator.fail(9, 1, "again".to_string()), violation(9));

    assert_eq!(correlator.pull(9), Pull::Item(ResponsePacket::from("a\0")));
    assert_eq!(
        correlator.pull(9),
        Pull::Failed(Error::GatewayError { code: 162, text: "no data".to_string() })
    );
    assert!(!correlator.is_registered(9));
    assert_eq!(correlator.pull(9), Pull::End);
}

#[test]
fn gateway_error_fails_a_single_shot_request() {
    let mut correlator = Correlator::new();
    correlator.register_single(1).unwrap();

    assert_eq!(correlator.fail(1, 200, "no security".to_string()), Ok(()));
    assert_eq!(
        correlator.pull(1),
        Pull::Failed(Error::GatewayError { code: 200, text: "no security".to_string() })
    );
    assert_eq!(correlator.state(1), None);
}

#[test]
fn cancel_removes_the_registration() {
    let mut correlator = Correlator::new();
    correlator.register_stream(9, None).unwrap();
    correlator.register_single(1).unwrap();
    correlator.dispatch(9, ResponsePacket::from("a\0")).unwrap();
    correlator.dispatch(9, ResponsePacket::from("b\0")).unwrap();
    assert_eq!(correlator.pull(9), Pull::Item(ResponsePacket::from("a\0")));

    assert_eq!(correlator.cancel(9), Some(RequestState::Cancelled));

    assert!(!correlator.is_registered(9));
    assert_eq!(correlator.dispatch(9, ResponsePacket::from("c\0")), violation(9));
    assert_eq!(correlator.pull(9), Pull::End);
    assert_eq!(correlator.cancel(9), None);
    assert_eq!(correlator.state(1), Some(RequestState::Pending));
    assert_eq!(correlator.cancel(1), Some(RequestState::Cancelled));
}

#[test]
fn cancel_after_the_end_reports_how_it_ended() {
    let mut correlator = Correlator::new();
    correlator.register_single(1).unwrap();
    correlator.register_single(2).unwrap();
    correlator.dispatch(1, ResponsePacket::from("a\0")).unwrap();
    correlator.fail(2, 1, "x".to_string()).unwrap();

    assert_eq!(correlator.cancel(1), Some(RequestState::Completed));
    assert_eq!(correlator.cancel(2), Some(RequestState::Errored));
}

#[test]
fn request_states() {
    assert!(!RequestState::Pending.terminal());
    assert!(!RequestState::Delivering.terminal());
    assert!(RequestState::Completed.terminal());
    assert!(RequestState::Errored.terminal());
    assert!(RequestState::Cancelled.terminal());
    assert_ne!(DeliveryMode::SingleShot, DeliveryMode::Streaming);
}

#[test]
fn bar_stream_yields_its_bars_then_ends() {
    for n in [0i64, 1, 3] {
        let mut correlator = Correlator::new();
        correlator.register_stream(5, None).unwrap();
        let mut bars = BarIterator::for_request(5);
        for i in 0..n {
            correlator.dispatch(5, bar_message(i)).unwrap();
        }
        correlator.complete(5).unwrap();

        for i in 0..n {
            assert_eq!(bars.next(&mut correlator), Pull::Item(bar(i)));
            assert_eq!(bars.request_id, Some(5));
        }
        assert_eq!(bars.next(&mut correlator), Pull::End);
        assert_eq!(bars.request_id, None);
        assert!(!correlator.is_registered(5));
        assert_eq!(bars.next(&mut correlator), Pull::End);
    }
}

#[test]
fn dropping_a_bar_stream_deregisters_its_request() {
    let mut correlator = Correlator::new();
    correlator.register_stream(5, None).unwrap();
    let mut bars = BarIterator::for_request(5);
    for i in 0..4 {
        correlator.dispatch(5, bar_message(i)).unwrap();
    }
    assert_eq!(bars.next(&mut correlator), Pull::Item(bar(0)));
    assert_eq!(bars.next(&mut correlator), Pull::Item(bar(1)));

    bars.cancel(&mut correlator);

    assert_eq!(bars.request_id, None);
    assert!(!correlator.is_registered(5));
    assert_eq!(correlator.dispatch(5, bar_message(4)), violation(5));
    assert_eq!(correlator.complete(5), violation(5));
    assert_eq!(bars.next(&mut correlator), Pull::End);
    bars.cancel(&mut correlator);
    assert_eq!(bars.request_id, None);
}

#[test]
fn bar_stream_waits_and_fails() {
    let mut correlator = Correlator::new();
    correlator.register_stream(5, None).unwrap();
    let mut bars = BarIterator::for_request(5);

    assert_eq!(bars.next(&mut correlator), Pull::Wait);
    assert_eq!(bars.request_id, Some(5));
    correlator.dispatch(5, bar_message(1)).unwrap();
    correlator.fail(5, 162, "pacing violation".to_string()).unwrap();

    assert_eq!(bars.next(&mut correlator), Pull::Item(bar(1)));
    assert_eq!(
        bars.next(&mut correlator),
        Pull::Failed(Error::GatewayError { code: 162, text: "pacing violation".to_string() })
    );
    assert_eq!(bars.request_id, None);
    assert_eq!(bars.next(&mut correlator), Pull::End);
}

#[test]
fn malformed_bar_ends_the_stream() {
    let mut correlator = Correlator::new();
    correlator.register_stream(5, None).unwrap();
    let mut bars = BarIterator::for_request(5);
    correlator.dispatch(5, ResponsePacket::from("60\x001.5\x00high\x001\x001\x001\x001\x001\x00")).unwrap();
    correlator.dispatch(5, bar_message(2)).unwrap();

    assert_eq!(bars.next(&mut correlator), Pull::Failed(Error::MalformedField { index: 2 }));
    assert_eq!(bars.request_id, None);
    assert!(!correlator.is_registered(5));
    assert_eq!(correlator.dispatch(5, bar_message(3)), violation(5));
    assert_eq!(bars.next(&mut correlator), Pull::End);
}

#[test]
fn bar_fields_in_order() {
    let mut packet = ResponsePacket::from("1546300800\x00100.5\x00101\x0099.75\x00100\x002500\x00100.2\x0042\x00");

    let bar = Bar::decode(&mut packet).unwrap();

    assert_eq!(bar.time.unix_seconds(), 1_546_300_800);
    assert_eq!(bar.open.as_str(), "100.5");
    assert_eq!(bar.high.as_str(), "101");
    assert_eq!(bar.low.as_str(), "99.75");
    assert_eq!(bar.close.as_str(), "100");
    assert_eq!(bar.volume.as_str(), "2500");
    assert_eq!(bar.wap.as_str(), "100.2");
    assert_eq!(bar.count, 42);
    assert_eq!(packet.remaining(), 0);
}

#[test]
fn bar_decode_errors() {
    let good = ["60", "1", "2", "3", "4", "5", "6", "7"];
    for bad in 0..8 {
        let mut fields: Vec<String> = good.iter().map(|f| f.to_string()).collect();
        fields[bad] = "?".to_string();
        let mut packet = ResponsePacket::from_fields(fields);
        assert_eq!(Bar::decode(&mut packet), Err(Error::MalformedField { index: bad }));
    }
    for len in 0..8 {
        let fields: Vec<String> = good[..len].iter().map(|f| f.to_string()).collect();
        let mut packet = ResponsePacket::from_fields(fields);
        assert_eq!(Bar::decode(&mut packet), Err(Error::UnexpectedEndOfMessage));
    }
    let mut long = ResponsePacket::from("60\x001\x002\x003\x004\x005\x006\x007\x008\x009\x00");
    assert_eq!(Bar::decode(&mut long), Err(Error::TrailingFields { count: 2 }));
}

#[test]
fn tick_fields_in_order() {
    let mut packet = ResponsePacket::from("1546300800\x00100.5\x0025\x00");
    assert_eq!(
        HistoricalTick::decode(&mut packet),
        Ok(HistoricalTick { time: 1_546_300_800, price: decimal("100.5"), size: 25 })
    );

    let mut packet = ResponsePacket::from("1546300800\x00100.5\x0025\x00");
    assert_eq!(
        HistoricalTickLast::decode(&mut packet),
        Ok(HistoricalTickLast { time: 1_546_300_800, price: decimal("100.5"), size: 25 })
    );

    let mut packet = ResponsePacket::from("1546300800\x003\x0099.5\x00100.5\x0010\x0020\x00");
    assert_eq!(
        HistoricalTickBidAsk::decode(&mut packet),
        Ok(HistoricalTickBidAsk {
            time: 1_546_300_800,
            tick_attrib_bid_ask: TickAttribBidAsk { mask: 3 },
            price_bid: decimal("99.5"),
            price_ask: decimal("100.5"),
            size_bid: 10,
            size_ask: 20,
        })
    );
}

#[test]
fn tick_decode_errors() {
    let mut packet = ResponsePacket::from("1\x00x\x003\x00");
    assert_eq!(HistoricalTick::decode(&mut packet), Err(Error::MalformedField { index: 1 }));
    let mut packet = ResponsePacket::from("1\x002\x00");
    assert_eq!(HistoricalTickLast::decode(&mut packet), Err(Error::UnexpectedEndOfMessage));
    let mut packet = ResponsePacket::from("1\x002\x003\x004\x00");
    assert_eq!(HistoricalTick::decode(&mut packet), Err(Error::TrailingFields { count: 1 }));
    let mut packet = ResponsePacket::from("1\x002\x003\x004\x005\x00x\x00");
    assert_eq!(HistoricalTickBidAsk::decode(&mut packet), Err(Error::MalformedField { index: 5 }));
    let mut packet = ResponsePacket::from("1\x002.5\x003\x004\x005\x006\x00");
    assert_eq!(HistoricalTickBidAsk::decode(&mut packet), Err(Error::MalformedField { index: 1 }));
}

#[test]
fn tick_streams_yield_their_ticks() {
    let mut correlator = Correlator::new();
    correlator.register_stream(1, None).unwrap();
    correlator.register_stream(2, None).unwrap();
    correlator.register_stream(3, Some(1)).unwrap();
    let mut trades = HistoricalTickIterator::for_request(1);
    let mut quotes = HistoricalTickBidAskIterator::for_request(2);
    let mut lasts = HistoricalTickLastIterator::for_request(3);

    correlator.dispatch(3, ResponsePacket::from("30\x003.5\x003\x00")).unwrap();
    correlator.dispatch(2, ResponsePacket::from("20\x000\x001.5\x002.5\x002\x004\x00")).unwrap();
    correlator.dispatch(1, ResponsePacket::from("10\x001.5\x001\x00")).unwrap();
    correlator.dispatch(1, ResponsePacket::from("11\x001.6\x002\x00")).unwrap();
    correlator.complete(1).unwrap();

    assert_eq!(
        trades.next(&mut correlator),
        Pull::Item(HistoricalTick { time: 10, price: decimal("1.5"), size: 1 })
    );
    assert_eq!(
        quotes.next(&mut correlator),
        Pull::Item(HistoricalTickBidAsk {
            time: 20,
            tick_attrib_bid_ask: TickAttribBidAsk { mask: 0 },
            price_bid: decimal("1.5"),
            price_ask: decimal("2.5"),
            size_bid: 2,
            size_ask: 4,
        })
    );
    assert_eq!(
        lasts.next(&mut correlator),
        Pull::Item(HistoricalTickLast { time: 30, price: decimal("3.5"), size: 3 })
    );
    assert_eq!(
        trades.next(&mut correlator),
        Pull::Item(HistoricalTick { time: 11, price: decimal("1.6"), size: 2 })
    );
    assert_eq!(trades.next(&mut correlator), Pull::End);
    assert_eq!(quotes.next(&mut correlator), Pull::Wait);
    assert_eq!(lasts.next(&mut correlator), Pull::End);
    quotes.cancel(&mut correlator);
    lasts.cancel(&mut correlator);
    trades.cancel(&mut correlator);
    assert!(!correlator.is_registered(1));
    assert!(!correlator.is_registered(2));
    assert!(!correlator.is_registered(3));
}
