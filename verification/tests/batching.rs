use market_feed::batch::{
    next_flush_step, BatchAccumulator, BatchPolicy, Flush, FlushStep, MAX_FLUSH_RETRIES,
};
use market_feed::market::{
    fan_out, AggregateTradeEvent, BinanceData, LiquidationEvent, LiquidationOrder,
};
use market_feed::order_book::OrderBook;

fn trade(id: u64, price: &str) -> AggregateTradeEvent {
    AggregateTradeEvent {
        e: "aggTrade".to_string(),
        E: 1000 + id,
        s: "BTCUSDT".to_string(),
        a: id,
        p: price.to_string(),
        q: "0.5".to_string(),
        f: id * 2,
        l: id * 2 + 1,
        T: 999 + id,
        m: id % 2 == 0,
    }
}

fn liquidation(time: u64) -> LiquidationEvent {
    LiquidationEvent {
        e: "forceOrder".to_string(),
        E: time,
        o: LiquidationOrder {
            s: "BTCUSDT".to_string(),
            S: "SELL".to_string(),
            o: "LIMIT".to_string(),
            f: "IOC".to_string(),
            q: "0.014".to_string(),
            p: "9910".to_string(),
            ap: "9910".to_string(),
            X: "FILLED".to_string(),
            l: "0.014".to_string(),
            z: "0.014".to_string(),
            T: time + 1,
        },
    }
}

fn book(last_update_id: u64) -> OrderBook {
    let mut book = OrderBook::new();
    book.last_update_id = last_update_id;
    book.bids.set_level(&"1".to_string(), &"2".to_string());
    book
}

#[test]
fn batch_size_follows_the_high_water_mark() {
    let policy = BatchPolicy::standard();
    assert_eq!(policy.capacity(), 9999);
    assert_eq!(policy.select_batch_size(0), 100);
    assert_eq!(policy.select_batch_size(1000), 100);
    assert_eq!(policy.select_batch_size(1001), 500);
    assert_eq!(policy.select_batch_size(9999), 500);
    assert_eq!(policy.select_batch_size(usize::MAX), 500);
}

#[test]
fn liquidations_flush_at_a_fraction_of_the_batch_size() {
    let policy = BatchPolicy::standard();
    assert_eq!(policy.select_liquidation_batch_size(0), 10);
    assert_eq!(policy.select_liquidation_batch_size(1000), 10);
    assert_eq!(policy.select_liquidation_batch_size(1001), 50);
    let odd = BatchPolicy::new(10, 5, 25, 7, 3).unwrap();
    assert_eq!(odd.select_liquidation_batch_size(5), 2);
    assert_eq!(odd.select_liquidation_batch_size(6), 8);
}

#[test]
fn occupancy_is_capacity_less_free_slots() {
    let policy = BatchPolicy::standard();
    assert_eq!(policy.occupancy(9999), 0);
    assert_eq!(policy.occupancy(8998), 1001);
    assert_eq!(policy.occupancy(0), 9999);
    assert_eq!(policy.occupancy(10_000), 0);
    assert_eq!(policy.select_batch_size(policy.occupancy(8998)), 500);
    assert_eq!(policy.select_batch_size(policy.occupancy(8999)), 100);
}

#[test]
fn senseless_policies_are_refused() {
    assert!(BatchPolicy::new(10, 5, 4, 2, 0).is_none());
    assert!(BatchPolicy::new(10, 5, 2, 4, 1).is_none());
    assert!(BatchPolicy::new(10, 5, 4, 4, 1).is_some());
    assert!(BatchPolicy::new(0, 0, 0, 0, 1).is_some());
}

#[test]
fn trades_are_flushed_when_the_batch_is_full() {
    let policy = BatchPolicy::new(100, 10, 5, 3, 1).unwrap();
    let mut acc = BatchAccumulator::new(policy);
    assert!(acc.push(BinanceData::AggTrade(trade(1, "10")), 0).is_none());
    assert!(acc.push(BinanceData::AggTrade(trade(2, "11")), 0).is_none());
    assert_eq!(acc.buffered_by_kind(), (0, 2, 0));
    match acc.push(BinanceData::AggTrade(trade(3, "12")), 0) {
        Some(Flush::Trades(batch)) => {
            assert_eq!(batch.len(), 3);
            assert_eq!(batch[0].a, 1);
            assert_eq!(batch[1].a, 2);
            assert_eq!(batch[2].a, 3);
            assert_eq!(batch[2].p, "12");
        }
        other => panic!("{:?}", other),
    }
    assert_eq!(acc.buffered_by_kind(), (0, 0, 0));
}

#[test]
fn a_long_backlog_lets_the_batch_grow() {
    let policy = BatchPolicy::new(100, 10, 5, 3, 1).unwrap();
    let mut acc = BatchAccumulator::new(policy);
    for id in 1..=4 {
        assert!(acc.push(BinanceData::AggTrade(trade(id, "10")), 11).is_none());
    }
    assert_eq!(acc.buffered_by_kind(), (0, 4, 0));
    match acc.push(BinanceData::AggTrade(trade(5, "10")), 11) {
        Some(Flush::Trades(batch)) => assert_eq!(batch.len(), 5),
        other => panic!("{:?}", other),
    }
}

#[test]
fn a_shrinking_backlog_flushes_what_has_gathered() {
    let policy = BatchPolicy::new(100, 10, 5, 3, 1).unwrap();
    let mut acc = BatchAccumulator::new(policy);
    for id in 1..=3 {
        assert!(acc.push(BinanceData::AggTrade(trade(id, "10")), 50).is_none());
    }
    match acc.push(BinanceData::AggTrade(trade(4, "10")), 10) {
        Some(Flush::Trades(batch)) => assert_eq!(batch.len(), 4),
        other => panic!("{:?}", other),
    }
}

#[test]
fn each_kind_has_its_own_buffer() {
    let policy = BatchPolicy::new(100, 10, 50, 4, 2).unwrap();
    let mut acc = BatchAccumulator::new(policy);
    assert!(acc.push(BinanceData::AggTrade(trade(1, "10")), 0).is_none());
    assert!(acc.push(BinanceData::OrderBook(book(7)), 0).is_none());
    assert!(acc.push(BinanceData::Liquidation(liquidation(5)), 0).is_none());
    assert_eq!(acc.buffered_by_kind(), (1, 1, 1));
    match acc.push(BinanceData::Liquidation(liquidation(6)), 0) {
        Some(Flush::Liquidations(batch)) => {
            assert_eq!(batch.len(), 2);
            assert_eq!(batch[0].E, 5);
            assert_eq!(batch[1].E, 6);
            assert_eq!(batch[1].o.T, 7);
        }
        other => panic!("{:?}", other),
    }
    assert_eq!(acc.buffered_by_kind(), (1, 1, 0));
    assert!(acc.push(BinanceData::OrderBook(book(8)), 0).is_none());
    assert!(acc.push(BinanceData::OrderBook(book(9)), 0).is_none());
    match acc.push(BinanceData::OrderBook(book(10)), 0) {
        Some(Flush::OrderBooks(batch)) => {
            assert_eq!(batch.len(), 4);
            assert_eq!(batch[0].last_update_id, 7);
            assert_eq!(batch[3].last_update_id, 10);
            assert_eq!(batch[3].bids.get("1"), Some("2".to_string()));
        }
        other => panic!("{:?}", other),
    }
    assert_eq!(acc.buffered_by_kind(), (0, 1, 0));
}

#[test]
fn a_threshold_of_zero_flushes_every_event() {
    let policy = BatchPolicy::new(100, 10, 5, 5, 10).unwrap();
    let mut acc = BatchAccumulator::new(policy);
    match acc.push(BinanceData::Liquidation(liquidation(5)), 0) {
        Some(Flush::Liquidations(batch)) => assert_eq!(batch.len(), 1),
        other => panic!("{:?}", other),
    }
}

#[test]
fn drain_hands_back_what_waits() {
    let mut acc = BatchAccumulator::new(BatchPolicy::standard());
    acc.push(BinanceData::AggTrade(trade(1, "10")), 0);
    acc.push(BinanceData::AggTrade(trade(2, "10")), 0);
    acc.push(BinanceData::OrderBook(book(7)), 0);
    let (books, trades, liquidations) = acc.drain();
    assert_eq!(books.len(), 1);
    assert_eq!(books[0].last_update_id, 7);
    assert_eq!(trades.len(), 2);
    assert_eq!(trades[1].a, 2);
    assert!(liquidations.is_empty());
    assert_eq!(acc.buffered_by_kind(), (0, 0, 0));
}

#[test]
fn a_refused_batch_is_retried_once_and_then_dropped() {
    assert_eq!(MAX_FLUSH_RETRIES, 1);
    assert_eq!(next_flush_step(true, 0), FlushStep::Done);
    assert_eq!(next_flush_step(true, 1), FlushStep::Done);
    assert_eq!(next_flush_step(false, 0), FlushStep::Retry);
    assert_eq!(next_flush_step(false, 1), FlushStep::Drop);
    assert_eq!(next_flush_step(false, u64::MAX), FlushStep::Drop);
}

#[test]
fn every_consumer_gets_its_own_copy() {
    let event = BinanceData::AggTrade(trade(4, "10.5"));
    let copies = fan_out(&event, 3);
    assert_eq!(copies.len(), 3);
    for copy in copies.iter() {
        match copy {
            BinanceData::AggTrade(t) => {
                assert_eq!(t.a, 4);
                assert_eq!(t.p, "10.5");
                assert_eq!(t.q, "0.5");
                assert_eq!(t.E, 1004);
                assert_eq!(t.f, 8);
                assert_eq!(t.l, 9);
                assert_eq!(t.T, 1003);
                assert!(t.m);
                assert_eq!(t.s, "BTCUSDT");
                assert_eq!(t.e, "aggTrade");
            }
            other => panic!("{:?}", other),
        }
    }
    assert!(fan_out(&event, 0).is_empty());
    match BinanceData::OrderBook(book(3)).duplicate() {
        BinanceData::OrderBook(b) => {
            assert_eq!(b.last_update_id, 3);
            assert_eq!(b.bids.get("1"), Some("2".to_string()));
        }
        other => panic!("{:?}", other),
    }
    match BinanceData::Liquidation(liquidation(9)).duplicate() {
        BinanceData::Liquidation(l) => {
            assert_eq!(l.E, 9);
            assert_eq!(l.e, "forceOrder");
            assert_eq!(l.o.s, "BTCUSDT");
            assert_eq!(l.o.S, "SELL");
            assert_eq!(l.o.o, "LIMIT");
            assert_eq!(l.o.f, "IOC");
            assert_eq!(l.o.q, "0.014");
            assert_eq!(l.o.p, "9910");
            assert_eq!(l.o.ap, "9910");
            assert_eq!(l.o.X, "FILLED");
            assert_eq!(l.o.l, "0.014");
            assert_eq!(l.o.z, "0.014");
            assert_eq!(l.o.T, 10);
        }
        other => panic!("{:?}", other),
    }
}
