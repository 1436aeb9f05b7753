//! The batch accumulator of the storage writer.
//!
//! Events are grouped by kind and handed to storage in batches. The size of
//! a batch follows the backlog of the inbound channel: a long backlog calls
//! for large batches, a short one for small batches.

use vstd::prelude::*;
use crate::market::{
    AggregateTradeEvent, BinanceData, LiquidationEvent, LiquidationSpec, MarketEventSpec, TradeSpec,
};
use crate::order_book::{BookSpec, OrderBook};
use crate::sync::book_seq;

verus! {

/// How often a batch that storage refused is handed over again before it is
/// dropped.
pub const MAX_FLUSH_RETRIES: u64 = 1;

/// Thresholds that steer the size of a storage batch, as a mathematical
/// value.
pub struct PolicySpec {
    pub capacity: usize,
    pub high_water: usize,
    pub large_batch: usize,
    pub small_batch: usize,
    pub liquidation_divisor: usize,
}

/// Whether thresholds make sense: the large batch is no smaller than the
/// small one, and the divisor is not zero.
pub open spec fn policy_is_valid(policy: PolicySpec) -> bool {
    policy.small_batch <= policy.large_batch && policy.liquidation_divisor > 0
}

/// The backlog of a channel of which `available` slots are free.
pub open spec fn occupancy_of(policy: PolicySpec, available: usize) -> usize {
    if available <= policy.capacity {
        (policy.capacity - available) as usize
    } else {
        0
    }
}

/// The batch size that a backlog of `occupancy` events calls for: the large
/// one above the high-water mark, the small one at or below it.
pub open spec fn batch_size_for(policy: PolicySpec, occupancy: usize) -> usize {
    if occupancy > policy.high_water {
        policy.large_batch
    } else {
        policy.small_batch
    }
}

/// The batch size for liquidations, which are rare: a fraction of the batch
/// size of the other kinds.
pub open spec fn liquidation_batch_size_for(policy: PolicySpec, occupancy: usize) -> usize {
    (batch_size_for(policy, occupancy) / policy.liquidation_divisor) as usize
}

/// Thresholds that steer the size of a storage batch.
#[derive(Clone, Copy, Debug)]
pub struct BatchPolicy {
    capacity: usize,
    high_water: usize,
    large_batch: usize,
    small_batch: usize,
    liquidation_divisor: usize,
}

impl View for BatchPolicy {
    type V = PolicySpec;

    closed spec fn view(&self) -> PolicySpec {
        PolicySpec {
            capacity: self.capacity,
            high_water: self.high_water,
            large_batch: self.large_batch,
            small_batch: self.small_batch,
            liquidation_divisor: self.liquidation_divisor,
        }
    }
}

impl BatchPolicy {
    #[verifier::type_invariant]
    spec fn inv(&self) -> bool {
        policy_is_valid(self@)
    }

    /// Thresholds for a channel of `capacity` events. Above a backlog of
    /// `high_water` events batches hold `large_batch` events, otherwise
    /// `small_batch`; liquidations flush at the batch size divided by
    /// `liquidation_divisor`. Thresholds that make no sense are refused.
    pub fn new(
        capacity: usize,
        high_water: usize,
        large_batch: usize,
        small_batch: usize,
        liquidation_divisor: usize,
    ) -> (policy: Option<BatchPolicy>)
        ensures
            match policy {
                Some(p) => p@ == (PolicySpec {
                    capacity,
                    high_water,
                    large_batch,
                    small_batch,
                    liquidation_divisor,
                }) && policy_is_valid(p@),
                None => !policy_is_valid(
                    PolicySpec {
                        capacity,
                        high_water,
                        large_batch,
                        small_batch,
                        liquidation_divisor,
                    },
                ),
            },
    {
        if small_batch <= large_batch && liquidation_divisor > 0 {
            Some(
                BatchPolicy { capacity, high_water, large_batch, small_batch, liquidation_divisor },
            )
        } else {
            None
        }
    }

    /// The thresholds of the standard pipeline: a channel of 9999 events, a
    /// high-water mark of 1000, batches of 500 or 100, liquidations at a
    /// tenth.
    pub fn standard() -> (policy: BatchPolicy)
        ensures
            policy@ == (PolicySpec {
                capacity: 9999,
                high_water: 1000,
                large_batch: 500,
                small_batch: 100,
                liquidation_divisor: 10,
            }),
    {
        BatchPolicy {
            capacity: 9999,
            high_water: 1000,
            large_batch: 500,
            small_batch: 100,
            liquidation_divisor: 10,
        }
    }

    /// The number of events the channel can hold.
    pub fn capacity(&self) -> (capacity: usize)
        ensures
            capacity == self@.capacity,
    {
        self.capacity
    }

    /// The backlog of the channel when `available` of its slots are free.
    pub fn occupancy(&self, available: usize) -> (occupancy: usize)
        ensures
            occupancy == occupancy_of(self@, available),
    {
        if available <= self.capacity {
            self.capacity - available
        } else {
            0
        }
    }

    /// Picks the batch size from the backlog of the channel: the large one
    /// above the high-water mark, the small one at or below it.
    pub fn select_batch_size(&self, occupancy: usize) -> (size: usize)
        ensures
            size == batch_size_for(self@, occupancy),
            policy_is_valid(self@),
            occupancy > self@.high_water ==> size == self@.large_batch,
            occupancy <= self@.high_water ==> size == self@.small_batch,
            self@.small_batch <= size <= self@.large_batch,
    {
        proof {
            use_type_invariant(self);
        }
        if occupancy > self.high_water {
            self.large_batch
        } else {
            self.small_batch
        }
    }

    /// Picks the batch size for liquidations from the backlog of the
    /// channel.
    pub fn select_liquidation_batch_size(&self, occupancy: usize) -> (size: usize)
        ensures
            size == liquidation_batch_size_for(self@, occupancy),
            size <= batch_size_for(self@, occupancy),
    {
        proof {
            use_type_invariant(self);
        }
        let size = self.select_batch_size(occupancy) / self.liquidation_divisor;
        proof {
            let whole = batch_size_for(self@, occupancy) as int;
            let divisor = self@.liquidation_divisor as int;
            assert(whole / divisor <= whole) by (nonlinear_arith)
                requires
                    whole >= 0,
                    divisor > 0,
            ;
        }
        size
    }
}

/// The trades of a sequence, each as a mathematical value.
pub open spec fn trade_seq(trades: Seq<AggregateTradeEvent>) -> Seq<TradeSpec> {
    Seq::new(trades.len(), |i: int| trades[i]@)
}

/// The liquidations of a sequence, each as a mathematical value.
pub open spec fn liquidation_seq(liquidations: Seq<LiquidationEvent>) -> Seq<LiquidationSpec> {
    Seq::new(liquidations.len(), |i: int| liquidations[i]@)
}

/// The buffers of an accumulator as a mathematical value.
pub struct AccumulatorSpec {
    pub policy: PolicySpec,
    pub books: Seq<BookSpec>,
    pub trades: Seq<TradeSpec>,
    pub liquidations: Seq<LiquidationSpec>,
}

/// A batch for storage as a mathematical value.
pub enum FlushSpec {
    OrderBooks(Seq<BookSpec>),
    Trades(Seq<TradeSpec>),
    Liquidations(Seq<LiquidationSpec>),
}

/// A batch of one kind, ready for storage, in arrival order.
#[derive(Debug)]
pub enum Flush {
    OrderBooks(Vec<OrderBook>),
    Trades(Vec<AggregateTradeEvent>),
    Liquidations(Vec<LiquidationEvent>),
}

/// Whether every book of a list is well formed.
pub open spec fn books_wf(books: Seq<OrderBook>) -> bool {
    forall|i: int| 0 <= i < books.len() ==> (#[trigger] books[i]).wf()
}

impl Flush {
    /// Whether every book of the batch is well formed; other batches always
    /// are.
    pub open spec fn wf(&self) -> bool {
        match self {
            Flush::OrderBooks(books) => books_wf(books@),
            _ => true,
        }
    }
}

impl View for Flush {
    type V = FlushSpec;

    open spec fn view(&self) -> FlushSpec {
        match self {
            Flush::OrderBooks(books) => FlushSpec::OrderBooks(book_seq(books@)),
            Flush::Trades(trades) => FlushSpec::Trades(trade_seq(trades@)),
            Flush::Liquidations(liquidations) => FlushSpec::Liquidations(
                liquidation_seq(liquidations@),
            ),
        }
    }
}

/// The buffers after an event arrived while the backlog was `occupancy`:
/// the event joins the buffer of its kind, and the buffer is emptied if it
/// has reached the batch size of its kind.
pub open spec fn after_push(
    acc: AccumulatorSpec,
    event: MarketEventSpec,
    occupancy: usize,
) -> AccumulatorSpec {
    match event {
        MarketEventSpec::OrderBook(book) => {
            if acc.books.len() + 1 >= batch_size_for(acc.policy, occupancy) {
                AccumulatorSpec { books: Seq::empty(), ..acc }
            } else {
                AccumulatorSpec { books: acc.books.push(book), ..acc }
            }
        },
        MarketEventSpec::AggTrade(trade) => {
            if acc.trades.len() + 1 >= batch_size_for(acc.policy, occupancy) {
                AccumulatorSpec { trades: Seq::empty(), ..acc }
            } else {
                AccumulatorSpec { trades: acc.trades.push(trade), ..acc }
            }
        },
        MarketEventSpec::Liquidation(liquidation) => {
            if acc.liquidations.len() + 1 >= liquidation_batch_size_for(acc.policy, occupancy) {
                AccumulatorSpec { liquidations: Seq::empty(), ..acc }
            } else {
                AccumulatorSpec { liquidations: acc.liquidations.push(liquidation), ..acc }
            }
        },
    }
}

/// The batch that an event releases when it arrives while the backlog is
/// `occupancy`: the whole buffer of its kind with the event at its end, if
/// that reaches the batch size of the kind.
pub open spec fn flush_on_push(
    acc: AccumulatorSpec,
    event: MarketEventSpec,
    occupancy: usize,
) -> Option<FlushSpec> {
    match event {
        MarketEventSpec::OrderBook(book) => {
            if acc.books.len() + 1 >= batch_size_for(acc.policy, occupancy) {
                Some(FlushSpec::OrderBooks(acc.books.push(book)))
            } else {
                None
            }
        },
        MarketEventSpec::AggTrade(trade) => {
            if acc.trades.len() + 1 >= batch_size_for(acc.policy, occupancy) {
                Some(FlushSpec::Trades(acc.trades.push(trade)))
            } else {
                None
            }
        },
        MarketEventSpec::Liquidation(liquidation) => {
            if acc.liquidations.len() + 1 >= liquidation_batch_size_for(acc.policy, occupancy) {
                Some(FlushSpec::Liquidations(acc.liquidations.push(liquidation)))
            } else {
                None
            }
        },
    }
}

/// Groups events by kind until a batch is full.
#[derive(Debug)]
pub struct BatchAccumulator {
    policy: BatchPolicy,
    books: Vec<OrderBook>,
    trades: Vec<AggregateTradeEvent>,
    liquidations: Vec<LiquidationEvent>,
}

impl View for BatchAccumulator {
    type V = AccumulatorSpec;

    closed spec fn view(&self) -> AccumulatorSpec {
        AccumulatorSpec {
            policy: self.policy@,
            books: book_seq(self.books@),
            trades: trade_seq(self.trades@),
            liquidations: liquidation_seq(self.liquidations@),
        }
    }
}

impl BatchAccumulator {
    /// Whether every book that waits is well formed. Every constructor gives
    /// such an accumulator and every method keeps it so.
    pub closed spec fn wf(&self) -> bool {
        books_wf(self.books@)
    }

    /// An accumulator with empty buffers.
    pub fn new(policy: BatchPolicy) -> (acc: BatchAccumulator)
        ensures
            acc.wf(),
            acc@ == (AccumulatorSpec {
                policy: policy@,
                books: Seq::empty(),
                trades: Seq::empty(),
                liquidations: Seq::empty(),
            }),
    {
        let acc = BatchAccumulator {
            policy,
            books: Vec::new(),
            trades: Vec::new(),
            liquidations: Vec::new(),
        };
        proof {
            assert(acc@.books =~= Seq::empty());
            assert(acc@.trades =~= Seq::empty());
            assert(acc@.liquidations =~= Seq::empty());
        }
        acc
    }

    /// The number of events that wait in each buffer: books, trades,
    /// liquidations.
    pub fn buffered_by_kind(&self) -> (counts: (usize, usize, usize))
        ensures
            counts.0 == self@.books.len(),
            counts.1 == self@.trades.len(),
            counts.2 == self@.liquidations.len(),
    {
        (self.books.len(), self.trades.len(), self.liquidations.len())
    }

    /// Takes an event that arrived while the backlog of the channel was
    /// `occupancy`. The event joins the buffer of its kind; if the buffer
    /// has then reached the batch size, it is handed back whole, in arrival
    /// order, and starts empty again.
    pub fn push(&mut self, event: BinanceData, occupancy: usize) -> (flush: Option<Flush>)
        requires
            old(self).wf(),
            event.wf(),
        ensures
            final(self).wf(),
            flush matches Some(batch) ==> batch.wf(),
            final(self)@ == after_push(old(self)@, event@, occupancy),
            match flush {
                Some(batch) => flush_on_push(old(self)@, event@, occupancy) == Some(batch@),
                None => flush_on_push(old(self)@, event@, occupancy) is None,
            },
    {
        let batch_size = self.policy.select_batch_size(occupancy);
        let liquidation_size = self.policy.select_liquidation_batch_size(occupancy);
        match event {
            BinanceData::OrderBook(book) => {
                let ghost held = book_seq(self.books@);
                self.books.push(book);
                proof {
                    assert(book_seq(self.books@) =~= held.push(book@));
                }
                if self.books.len() >= batch_size {
                    let mut batch: Vec<OrderBook> = Vec::new();
                    core::mem::swap(&mut self.books, &mut batch);
                    proof {
                        assert(book_seq(self.books@) =~= Seq::empty());
                    }
                    Some(Flush::OrderBooks(batch))
                } else {
                    None
                }
            },
            BinanceData::AggTrade(trade) => {
                let ghost held = trade_seq(self.trades@);
                self.trades.push(trade);
                proof {
                    assert(trade_seq(self.trades@) =~= held.push(trade@));
                }
                if self.trades.len() >= batch_size {
                    let mut batch: Vec<AggregateTradeEvent> = Vec::new();
                    core::mem::swap(&mut self.trades, &mut batch);
                    proof {
                        assert(trade_seq(self.trades@) =~= Seq::empty());
                    }
                    Some(Flush::Trades(batch))
                } else {
                    None
                }
            },
            BinanceData::Liquidation(liquidation) => {
                let ghost held = liquidation_seq(self.liquidations@);
                self.liquidations.push(liquidation);
                proof {
                    assert(liquidation_seq(self.liquidations@) =~= held.push(liquidation@));
                }
                if self.liquidations.len() >= liquidation_size {
                    let mut batch: Vec<LiquidationEvent> = Vec::new();
                    core::mem::swap(&mut self.liquidations, &mut batch);
                    proof {
                        assert(liquidation_seq(self.liquidations@) =~= Seq::empty());
                    }
                    Some(Flush::Liquidations(batch))
                } else {
                    None
                }
            },
        }
    }

    /// Empties the buffers, as before a shutdown: the books that wait, then
    /// the trades, then the liquidations.
    pub fn drain(&mut self) -> (rest: (Vec<OrderBook>, Vec<AggregateTradeEvent>, Vec<LiquidationEvent>))
        requires
            old(self).wf(),
        ensures
            final(self).wf(),
            books_wf(rest.0@),
            final(self)@ == (AccumulatorSpec {
                policy: old(self)@.policy,
                books: Seq::empty(),
                trades: Seq::empty(),
                liquidations: Seq::empty(),
            }),
            book_seq(rest.0@) == old(self)@.books,
            trade_seq(rest.1@) == old(self)@.trades,
            liquidation_seq(rest.2@) == old(self)@.liquidations,
    {
        let mut books: Vec<OrderBook> = Vec::new();
        let mut trades: Vec<AggregateTradeEvent> = Vec::new();
        let mut liquidations: Vec<LiquidationEvent> = Vec::new();
        core::mem::swap(&mut self.books, &mut books);
        core::mem::swap(&mut self.trades, &mut trades);
        core::mem::swap(&mut self.liquidations, &mut liquidations);
        proof {
            assert(book_seq(self.books@) =~= Seq::empty());
            assert(trade_seq(self.trades@) =~= Seq::empty());
            assert(liquidation_seq(self.liquidations@) =~= Seq::empty());
        }
        (books, trades, liquidations)
    }
}

/// What the writer does with a batch after storage has answered.
#[derive(Clone, Copy, Debug, PartialEq, Eq, Structural)]
pub enum FlushStep {
    /// Storage took the batch.
    Done,
    /// Storage refused the batch: hand it over once more.
    Retry,
    /// Storage refused the batch again: report it and drop it.
    Drop,
}

/// What follows an answer of storage to a batch that was already refused
/// `failures` times before: a refused batch is handed over again while the
/// retries last, and dropped after that.
pub open spec fn step_after_flush(accepted: bool, failures: u64) -> FlushStep {
    if accepted {
        FlushStep::Done
    } else if failures < MAX_FLUSH_RETRIES {
        FlushStep::Retry
    } else {
        FlushStep::Drop
    }
}

/// Decides what to do with a batch after storage has answered. `failures`
/// counts the refusals of this batch before this answer.
pub fn next_flush_step(accepted: bool, failures: u64) -> (step: FlushStep)
    ensures
        step == step_after_flush(accepted, failures),
{
    if accepted {
        FlushStep::Done
    } else if failures < MAX_FLUSH_RETRIES {
        FlushStep::Retry
    } else {
        FlushStep::Drop
    }
}

} // verus!
