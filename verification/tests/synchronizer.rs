use market_feed::events::{DepthDiff, Snapshot};
use market_feed::levels::PriceLevel;
use market_feed::order_book::SyncError;
use market_feed::sync::{SyncAction, SyncOutcome, SyncPhase, Synchronizer};

fn level(price: &str, quantity: &str) -> PriceLevel {
    PriceLevel { price: price.to_string(), quantity: quantity.to_string() }
}

fn diff(first: u64, last: u64, previous: Option<u64>, price: &str, quantity: &str) -> DepthDiff {
    DepthDiff {
        first_update_id: first,
        final_update_id: last,
        previous_final_update_id: previous,
        bids: vec![level(price, quantity)],
        asks: vec![],
        event_time: last,
    }
}

fn snapshot(last_update_id: u64) -> Snapshot {
    Snapshot {
        last_update_id,
        bids: vec![level("10.00", "5")],
        asks: vec![level("10.10", "3")],
        fetch_time: 1,
    }
}

#[test]
fn new_synchronizer_awaits_a_snapshot() {
    let sync = Synchronizer::new(3);
    assert_eq!(sync.phase(), SyncPhase::AwaitingSnapshot);
    assert_eq!(sync.pending_len(), 0);
    assert_eq!(sync.resyncs(), 0);
    assert!(sync.book().bids.is_empty());
}

#[test]
fn diffs_before_the_snapshot_are_kept() {
    let mut sync = Synchronizer::new(3);
    assert!(matches!(sync.offer(diff(90, 95, Some(89), "1", "1")), SyncAction::Buffered));
    assert!(matches!(sync.offer(diff(96, 101, Some(95), "2", "2")), SyncAction::Buffered));
    assert_eq!(sync.pending_len(), 2);
    assert_eq!(sync.phase(), SyncPhase::AwaitingSnapshot);
    assert!(sync.book().bids.is_empty());
}

#[test]
fn catch_up_drops_stale_diffs_and_applies_the_rest_in_order() {
    let mut sync = Synchronizer::new(3);
    sync.offer(diff(90, 95, None, "9.00", "1"));
    sync.offer(diff(96, 100, None, "9.01", "1"));
    sync.offer(diff(101, 103, None, "9.99", "2"));
    sync.offer(diff(104, 104, None, "9.99", "7"));
    let caught = sync.seed(&snapshot(100));
    assert_eq!(caught.outcome, SyncOutcome::Live);
    assert_eq!(caught.updates.len(), 2);
    assert_eq!(caught.updates[0].last_update_id, 103);
    assert_eq!(caught.updates[0].bids.get("9.99"), Some("2".to_string()));
    assert_eq!(caught.updates[1].last_update_id, 104);
    assert_eq!(caught.updates[1].bids.get("9.99"), Some("7".to_string()));
    assert_eq!(sync.phase(), SyncPhase::Live);
    assert_eq!(sync.pending_len(), 0);
    let book = sync.book();
    assert_eq!(book.last_update_id, 104);
    assert_eq!(book.bids.len(), 2);
    assert_eq!(book.bids.get("10.00"), Some("5".to_string()));
    assert_eq!(book.bids.get("9.99"), Some("7".to_string()));
    assert_eq!(book.bids.get("9.00"), None);
    assert_eq!(book.bids.get("9.01"), None);
    assert_eq!(book.asks.get("10.10"), Some("3".to_string()));
}

#[test]
fn snapshot_without_kept_diffs_goes_live_at_once() {
    let mut sync = Synchronizer::new(0);
    let caught = sync.seed(&snapshot(100));
    assert_eq!(caught.outcome, SyncOutcome::Live);
    assert!(caught.updates.is_empty());
    assert_eq!(sync.phase(), SyncPhase::Live);
    assert_eq!(sync.book().last_update_id, 100);
}

#[test]
fn live_diffs_are_published_ignored_or_refused() {
    let mut sync = Synchronizer::new(3);
    sync.seed(&snapshot(100));
    match sync.offer(diff(101, 105, Some(100), "9.99", "2")) {
        SyncAction::Publish(book) => {
            assert_eq!(book.last_update_id, 105);
            assert_eq!(book.bids.get("9.99"), Some("2".to_string()));
        }
        other => panic!("{:?}", other),
    }
    assert!(matches!(sync.offer(diff(101, 105, Some(100), "9.99", "9")), SyncAction::Ignored));
    assert_eq!(sync.book().bids.get("9.99"), Some("2".to_string()));
    assert!(matches!(sync.offer(diff(109, 110, Some(108), "9.98", "4")), SyncAction::Resync));
    assert_eq!(sync.phase(), SyncPhase::AwaitingSnapshot);
    assert_eq!(sync.resyncs(), 1);
    assert_eq!(sync.pending_len(), 1);
    assert_eq!(sync.book().bids.get("9.98"), None);
    assert_eq!(sync.book().last_update_id, 105);
}

#[test]
fn apply_reports_stale_and_gap() {
    let mut sync = Synchronizer::new(3);
    sync.seed(&snapshot(100));
    let applied = sync.apply(&diff(101, 105, Some(100), "9.99", "2"));
    assert_eq!(applied.unwrap().last_update_id, 105);
    assert_eq!(
        sync.apply(&diff(101, 105, Some(100), "9.99", "2")).err(),
        Some(SyncError::Stale)
    );
    assert_eq!(sync.phase(), SyncPhase::Live);
    assert_eq!(
        sync.apply(&diff(109, 110, Some(108), "9.98", "4")).err(),
        Some(SyncError::Gap)
    );
    assert_eq!(sync.phase(), SyncPhase::AwaitingSnapshot);
    assert_eq!(sync.pending_len(), 1);
}

#[test]
fn gap_during_catch_up_keeps_the_rest_for_the_next_snapshot() {
    let mut sync = Synchronizer::new(3);
    sync.offer(diff(99, 100, Some(98), "1", "1"));
    sync.offer(diff(101, 102, Some(100), "2", "2"));
    sync.offer(diff(105, 106, Some(104), "3", "3"));
    sync.offer(diff(107, 108, Some(106), "4", "4"));
    let caught = sync.seed(&snapshot(100));
    assert_eq!(caught.outcome, SyncOutcome::Resync);
    assert_eq!(caught.updates.len(), 1);
    assert_eq!(caught.updates[0].last_update_id, 102);
    assert_eq!(sync.phase(), SyncPhase::AwaitingSnapshot);
    assert_eq!(sync.pending_len(), 2);
    assert_eq!(sync.resyncs(), 1);
    let again = sync.seed(&snapshot(104));
    assert_eq!(again.outcome, SyncOutcome::Live);
    assert_eq!(again.updates.len(), 2);
    assert_eq!(again.updates[1].last_update_id, 108);
    assert_eq!(sync.resyncs(), 0);
    assert_eq!(sync.pending_len(), 0);
    let book = sync.book();
    assert_eq!(book.bids.get("3"), Some("3".to_string()));
    assert_eq!(book.bids.get("4"), Some("4".to_string()));
    assert_eq!(book.bids.get("2"), None);
}

#[test]
fn gaps_beyond_the_ceiling_are_fatal() {
    let mut sync = Synchronizer::new(1);
    sync.seed(&snapshot(100));
    assert!(matches!(sync.offer(diff(109, 110, Some(108), "1", "1")), SyncAction::Resync));
    assert_eq!(sync.resyncs(), 1);
    let caught = sync.seed(&snapshot(100));
    assert_eq!(caught.outcome, SyncOutcome::Fatal);
    assert!(caught.updates.is_empty());
    assert_eq!(sync.phase(), SyncPhase::Failed);
    assert!(matches!(sync.offer(diff(101, 102, Some(100), "1", "1")), SyncAction::Fatal));
    let ignored = sync.seed(&snapshot(200));
    assert_eq!(ignored.outcome, SyncOutcome::Fatal);
    assert_eq!(sync.phase(), SyncPhase::Failed);
    assert_eq!(sync.book().last_update_id, 100);
}

#[test]
fn with_no_retry_the_first_gap_is_fatal() {
    let mut sync = Synchronizer::new(0);
    sync.seed(&snapshot(100));
    assert!(matches!(sync.offer(diff(109, 110, Some(108), "1", "1")), SyncAction::Fatal));
    assert_eq!(sync.phase(), SyncPhase::Failed);
    assert_eq!(sync.resyncs(), 0);
}

#[test]
fn a_clean_catch_up_resets_the_count_of_gaps() {
    let mut sync = Synchronizer::new(1);
    sync.seed(&snapshot(100));
    assert!(matches!(sync.offer(diff(109, 110, Some(108), "1", "1")), SyncAction::Resync));
    let caught = sync.seed(&snapshot(108));
    assert_eq!(caught.outcome, SyncOutcome::Live);
    assert_eq!(caught.updates.len(), 1);
    assert_eq!(sync.resyncs(), 0);
    assert!(matches!(sync.offer(diff(115, 116, Some(114), "1", "1")), SyncAction::Resync));
    assert_eq!(sync.phase(), SyncPhase::AwaitingSnapshot);
}

#[test]
fn the_first_kept_diff_may_span_the_snapshot() {
    let mut sync = Synchronizer::new(3);
    sync.offer(diff(90, 97, Some(89), "1", "1"));
    sync.offer(diff(98, 105, Some(97), "2", "2"));
    sync.offer(diff(106, 110, Some(105), "3", "3"));
    let caught = sync.seed(&snapshot(100));
    assert_eq!(caught.outcome, SyncOutcome::Live);
    assert_eq!(caught.updates.len(), 2);
    assert_eq!(caught.updates[0].last_update_id, 105);
    assert_eq!(caught.updates[0].bids.get("2"), Some("2".to_string()));
    assert_eq!(caught.updates[0].bids.get("3"), None);
    assert_eq!(caught.updates[1].last_update_id, 110);
    assert_eq!(sync.phase(), SyncPhase::Live);
    let book = sync.book();
    assert_eq!(book.bids.get("1"), None);
    assert_eq!(book.bids.get("2"), Some("2".to_string()));
    assert_eq!(book.bids.get("3"), Some("3".to_string()));
    assert_eq!(book.last_update_id, 110);
}

#[test]
fn only_the_first_kept_diff_applied_may_span() {
    let mut sync = Synchronizer::new(3);
    sync.offer(diff(98, 105, Some(97), "2", "2"));
    sync.offer(diff(104, 110, Some(103), "3", "3"));
    let caught = sync.seed(&snapshot(100));
    assert_eq!(caught.outcome, SyncOutcome::Resync);
    assert_eq!(caught.updates.len(), 1);
    assert_eq!(caught.updates[0].last_update_id, 105);
    assert_eq!(sync.pending_len(), 1);
    assert_eq!(sync.book().bids.get("3"), None);
}

#[test]
fn a_kept_diff_that_neither_spans_nor_follows_the_snapshot_is_a_gap() {
    let mut sync = Synchronizer::new(3);
    sync.offer(diff(101, 105, Some(99), "2", "2"));
    let caught = sync.seed(&snapshot(100));
    assert_eq!(caught.outcome, SyncOutcome::Resync);
    assert!(caught.updates.is_empty());
    assert_eq!(sync.pending_len(), 1);
    assert_eq!(sync.book().last_update_id, 100);
    assert_eq!(sync.book().bids.get("2"), None);
}

#[test]
fn a_kept_diff_that_names_the_snapshot_is_applied_wherever_it_starts() {
    let mut sync = Synchronizer::new(3);
    sync.offer(diff(105, 110, Some(100), "2", "2"));
    sync.offer(diff(111, 112, Some(110), "3", "3"));
    let caught = sync.seed(&snapshot(100));
    assert_eq!(caught.outcome, SyncOutcome::Live);
    assert_eq!(caught.updates.len(), 2);
    assert_eq!(caught.updates[0].last_update_id, 110);
    assert_eq!(caught.updates[1].last_update_id, 112);
}

#[test]
fn old_kept_diffs_are_dropped_wherever_they_stand() {
    let mut sync = Synchronizer::new(3);
    sync.offer(diff(80, 85, Some(79), "a", "1"));
    sync.offer(diff(101, 105, None, "b", "2"));
    sync.offer(diff(90, 95, Some(89), "c", "3"));
    sync.offer(diff(99, 100, Some(98), "d", "4"));
    sync.offer(diff(106, 110, Some(105), "e", "5"));
    let caught = sync.seed(&snapshot(100));
    assert_eq!(caught.outcome, SyncOutcome::Live);
    assert_eq!(caught.updates.len(), 2);
    assert_eq!(caught.updates[0].last_update_id, 105);
    assert_eq!(caught.updates[1].last_update_id, 110);
    let book = sync.book();
    assert_eq!(book.bids.len(), 3);
    assert_eq!(book.bids.get("b"), Some("2".to_string()));
    assert_eq!(book.bids.get("e"), Some("5".to_string()));
    assert_eq!(book.bids.get("10.00"), Some("5".to_string()));
}

#[test]
fn a_live_diff_with_a_wrong_predecessor_is_a_gap_even_where_it_spans_the_book() {
    let mut sync = Synchronizer::new(3);
    sync.seed(&snapshot(100));
    assert!(matches!(sync.offer(diff(98, 105, Some(97), "2", "2")), SyncAction::Resync));
    assert_eq!(sync.phase(), SyncPhase::AwaitingSnapshot);
    assert_eq!(sync.pending_len(), 1);
    assert_eq!(sync.book().last_update_id, 100);
    assert_eq!(sync.book().bids.get("2"), None);
    assert!(matches!(sync.offer(diff(106, 110, Some(105), "3", "3")), SyncAction::Buffered));
    let caught = sync.seed(&snapshot(103));
    assert_eq!(caught.outcome, SyncOutcome::Live);
    assert_eq!(caught.updates.len(), 2);
    assert_eq!(sync.book().last_update_id, 110);
    assert_eq!(sync.book().bids.get("2"), Some("2".to_string()));
}

#[test]
fn a_live_diff_that_names_the_last_update_is_published_wherever_it_starts() {
    let mut sync = Synchronizer::new(3);
    sync.seed(&snapshot(100));
    match sync.offer(diff(105, 110, Some(100), "2", "2")) {
        SyncAction::Publish(book) => {
            assert_eq!(book.last_update_id, 110);
            assert_eq!(book.bids.get("2"), Some("2".to_string()));
        }
        other => panic!("{:?}", other),
    }
    assert_eq!(sync.phase(), SyncPhase::Live);
}
