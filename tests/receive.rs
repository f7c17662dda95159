use simple::aggregator::Aggregator;
use simple::model::{AveragePrice, CryptoData, Data, PRICE_UNITS_PER_WHOLE};
use simple::stream::{ClientOutcome, ClientWindow, Inbound, Step};

fn trade(price: u64) -> Data {
    Data {
        trade_time_ms: 1700000000000,
        timestamp: "2023-11-14T22:13:20.000Z".to_string(),
        symbol: "BTCUSD".to_string(),
        side: "Buy".to_string(),
        size: 1,
        price,
        tick_direction: "PlusTick".to_string(),
        trade_id: "t-1".to_string(),
        cross_seq: 1,
        is_block_trade: "false".to_string(),
    }
}

fn batch(prices: &[u64]) -> CryptoData {
    CryptoData {
        topic: "trade.BTCUSD".to_string(),
        data: prices.iter().map(|p| trade(*p)).collect(),
    }
}

fn whole(v: u64) -> u64 {
    v * PRICE_UNITS_PER_WHOLE
}

#[test]
fn empty_window_gives_no_data() {
    let w = ClientWindow::new(0, 1000);
    assert_eq!(w.outcome(), ClientOutcome::NoData);
}

#[test]
fn empty_batches_still_give_no_data() {
    let mut w = ClientWindow::new(0, 1000);
    w.handle(Inbound::Batch(batch(&[])));
    w.handle(Inbound::Idle);
    assert_eq!(w.outcome(), ClientOutcome::NoData);
    let f = w.into_final_data();
    assert_eq!(f.data.len(), 1);
    assert!(f.average.is_empty());
}

#[test]
fn average_is_weighted_by_events_not_batches() {
    let mut w = ClientWindow::new(0, 1000);
    w.handle(Inbound::Batch(batch(&[10, 10, 10])));
    w.handle(Inbound::Batch(batch(&[50])));
    // per-batch averages 10 and 50 would give 30; over events it is 80 / 4
    assert_eq!(w.outcome(), ClientOutcome::Average(AveragePrice { average_price: 20 }));
}

#[test]
fn malformed_messages_do_not_stop_the_loop() {
    let mut w = ClientWindow::new(500, 2000);
    for _ in 0..5 {
        w.handle(Inbound::Malformed);
        assert_eq!(w.next_step(600), Step::Receive { timeout_ms: 1900 });
    }
    w.handle(Inbound::Batch(batch(&[whole(10)])));
    w.handle(Inbound::Batch(batch(&[whole(20)])));
    w.handle(Inbound::Batch(batch(&[whole(30)])));
    assert_eq!(w.outcome(), ClientOutcome::Average(AveragePrice { average_price: whole(20) }));
}

#[test]
fn single_client_end_to_end() {
    let mut w = ClientWindow::new(0, 2000);
    assert_eq!(w.next_step(0), Step::Receive { timeout_ms: 2000 });
    w.handle(Inbound::Batch(batch(&[whole(100), whole(200)])));
    assert_eq!(w.next_step(1200), Step::Receive { timeout_ms: 800 });
    w.handle(Inbound::Batch(batch(&[whole(300)])));
    assert_eq!(w.next_step(2000), Step::Finish);
    let outcome = w.outcome();
    assert_eq!(outcome, ClientOutcome::Average(AveragePrice { average_price: whole(200) }));
    let mut agg = Aggregator::new();
    agg.record_outcome(&outcome);
    assert_eq!(agg.final_average(), whole(200));
    let f = w.into_final_data();
    assert_eq!(f.data.len(), 2);
    assert_eq!(f.average, vec![AveragePrice { average_price: whole(200) }]);
}

#[test]
fn window_is_measured_from_own_start() {
    let early = ClientWindow::new(1000, 3000);
    let late = ClientWindow::new(2000, 3000);
    assert_eq!(early.next_step(4000), Step::Finish);
    assert_eq!(late.next_step(4000), Step::Receive { timeout_ms: 1000 });
    assert!(!early.is_open(4000));
    assert!(late.is_open(4999));
    assert!(!late.is_open(5000));
}

#[test]
fn before_start_the_whole_window_is_left() {
    let w = ClientWindow::new(1000, 3000);
    assert_eq!(w.next_step(10), Step::Receive { timeout_ms: 3000 });
}

#[test]
fn zero_window_finishes_at_once() {
    let w = ClientWindow::new(1000, 0);
    assert_eq!(w.next_step(1000), Step::Finish);
    assert!(!w.is_open(0));
}

#[test]
fn record_batch_accepts_large_prices() {
    let mut w = ClientWindow::new(0, 10);
    assert!(w.record_batch(batch(&[u64::MAX, u64::MAX])));
    assert!(w.record_batch(batch(&[u64::MAX - 3])));
    assert_eq!(w.outcome(), ClientOutcome::Average(AveragePrice { average_price: u64::MAX - 1 }));
}

#[test]
fn average_rounds_down_to_a_price_unit() {
    let mut w = ClientWindow::new(0, 10);
    w.handle(Inbound::Batch(batch(&[1, 2])));
    assert_eq!(w.outcome(), ClientOutcome::Average(AveragePrice { average_price: 1 }));
}
