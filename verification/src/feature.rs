//! The feature calculator: an imbalance of the book is measured around the
//! price of the last trade, so nothing is measured before a trade has been
//! seen.

use vstd::prelude::*;
use crate::imbalance::{imbalance_of, measure_imbalance, Imbalance};
use crate::levels::LevelSpec;
use crate::market::{BinanceData, MarketEventSpec};
use crate::order_book::{BookSpec, OrderBook};

verus! {

/// The price of the last trade after an event, given the price before it.
pub open spec fn price_after(price: Option<Seq<char>>, event: MarketEventSpec) -> Option<
    Seq<char>,
> {
    match event {
        MarketEventSpec::AggTrade(trade) => Some(trade.p),
        _ => price,
    }
}

/// The price of the last trade after a run of events, if the run holds a
/// trade.
pub open spec fn price_after_all(events: Seq<MarketEventSpec>) -> Option<Seq<char>>
    decreases events.len(),
{
    if events.len() == 0 {
        None
    } else {
        price_after(price_after_all(events.drop_last()), events.last())
    }
}

/// What the calculator does with an event, as a mathematical value.
pub enum FeatureStepSpec {
    PriceUpdated,
    Skipped,
    Compute { price: Seq<char>, book: BookSpec },
    Unrelated,
}

/// What the calculator does with an event, given the price of the last
/// trade before it: a trade updates the price, a book is measured around
/// the price if there is one and skipped if there is none, and any other
/// event is passed over.
pub open spec fn step_for(price: Option<Seq<char>>, event: MarketEventSpec) -> FeatureStepSpec {
    match event {
        MarketEventSpec::AggTrade(_) => FeatureStepSpec::PriceUpdated,
        MarketEventSpec::OrderBook(book) => match price {
            Some(p) => FeatureStepSpec::Compute { price: p, book },
            None => FeatureStepSpec::Skipped,
        },
        MarketEventSpec::Liquidation(_) => FeatureStepSpec::Unrelated,
    }
}

/// What the calculator does with an event.
#[derive(Debug)]
pub enum FeatureStep {
    /// A trade: its price is now the reference.
    PriceUpdated,
    /// A book before any trade: nothing to measure it against.
    Skipped,
    /// A book after a trade: measure the imbalance around this price.
    Compute { price: String, book: OrderBook },
    /// An event that the calculator does not use.
    Unrelated,
}

impl View for FeatureStep {
    type V = FeatureStepSpec;

    open spec fn view(&self) -> FeatureStepSpec {
        match self {
            FeatureStep::PriceUpdated => FeatureStepSpec::PriceUpdated,
            FeatureStep::Skipped => FeatureStepSpec::Skipped,
            FeatureStep::Compute { price, book } => FeatureStepSpec::Compute {
                price: price@,
                book: book@,
            },
            FeatureStep::Unrelated => FeatureStepSpec::Unrelated,
        }
    }
}

/// Remembers the price of the last trade.
#[derive(Debug)]
pub struct FeatureCalculator {
    last_trade_price: Option<String>,
}

impl View for FeatureCalculator {
    type V = Option<Seq<char>>;

    closed spec fn view(&self) -> Option<Seq<char>> {
        match self.last_trade_price {
            Some(price) => Some(price@),
            None => None,
        }
    }
}

impl FeatureCalculator {
    /// A calculator that has seen no trade.
    pub fn new() -> (calculator: FeatureCalculator)
        ensures
            calculator@ is None,
    {
        FeatureCalculator { last_trade_price: None }
    }

    /// The price of the last trade, if one was seen.
    pub fn last_trade_price(&self) -> (price: Option<String>)
        ensures
            match price {
                Some(p) => self@ == Some(p@),
                None => self@ is None,
            },
    {
        match &self.last_trade_price {
            Some(price) => Some(price.clone()),
            None => None,
        }
    }

    /// Takes an event. A trade sets the reference price. A book is handed
    /// back with the reference price for measuring, or skipped while no
    /// trade has been seen.
    pub fn on_event(&mut self, event: BinanceData) -> (step: FeatureStep)
        ensures
            final(self)@ == price_after(old(self)@, event@),
            step@ == step_for(old(self)@, event@),
            step is Compute ==> old(self)@ is Some,
            step matches FeatureStep::Compute { book, .. } ==> event == BinanceData::OrderBook(
                book,
            ),
            old(self)@ is None && event is OrderBook ==> step is Skipped,
    {
        match event {
            BinanceData::AggTrade(trade) => {
                self.last_trade_price = Some(trade.p);
                FeatureStep::PriceUpdated
            },
            BinanceData::OrderBook(book) => {
                match &self.last_trade_price {
                    Some(price) => FeatureStep::Compute { price: price.clone(), book },
                    None => FeatureStep::Skipped,
                }
            },
            BinanceData::Liquidation(_) => FeatureStep::Unrelated,
        }
    }
}

/// The narrow distance from the last trade price at which a book is
/// measured, in basis points: five in a hundred.
pub const NARROW_THRESHOLD: u64 = 500;

/// The wide distance from the last trade price at which a book is measured,
/// in basis points: ten in a hundred.
pub const WIDE_THRESHOLD: u64 = 1_000;

/// One measurement of a book, ready for storage.
#[derive(Clone, Copy, Debug, PartialEq, Eq, Structural)]
pub struct FeatureRow {
    /// Time of the book that was measured.
    pub time: u64,
    /// Distance from the last trade price, in basis points.
    pub threshold: u64,
    /// Volumes bid and asked within that distance.
    pub imbalance: Imbalance,
}

/// The measurements of a book around a reference price: one at the narrow
/// distance, then one at the wide distance. Nothing where the reference
/// price, a price or a quantity is no decimal.
pub open spec fn feature_rows_of(
    bids: Seq<LevelSpec>,
    asks: Seq<LevelSpec>,
    reference: Seq<char>,
    time: u64,
) -> Option<Seq<FeatureRow>> {
    match (
        imbalance_of(bids, asks, reference, NARROW_THRESHOLD),
        imbalance_of(bids, asks, reference, WIDE_THRESHOLD),
    ) {
        (Some(narrow), Some(wide)) => Some(
            seq![
                FeatureRow { time, threshold: NARROW_THRESHOLD, imbalance: narrow },
                FeatureRow { time, threshold: WIDE_THRESHOLD, imbalance: wide },
            ],
        ),
        _ => None,
    }
}

/// Measures a book around a reference price: the imbalance at the narrow
/// distance, then the imbalance at the wide distance, each with the time of
/// the book.
pub fn feature_rows(book: &OrderBook, reference: &str) -> (rows: Option<Vec<FeatureRow>>)
    requires
        book.wf(),
    ensures
        match rows {
            Some(list) => feature_rows_of(
                book.bids.listing(),
                book.asks.listing(),
                reference@,
                book.time,
            ) == Some(list@),
            None => feature_rows_of(
                book.bids.listing(),
                book.asks.listing(),
                reference@,
                book.time,
            ) is None,
        },
{
    let bids = book.bids.levels();
    let asks = book.asks.levels();
    let narrow = match measure_imbalance(&bids, &asks, reference, NARROW_THRESHOLD) {
        Some(imbalance) => imbalance,
        None => {
            return None;
        },
    };
    let wide = match measure_imbalance(&bids, &asks, reference, WIDE_THRESHOLD) {
        Some(imbalance) => imbalance,
        None => {
            return None;
        },
    };
    let mut rows: Vec<FeatureRow> = Vec::new();
    rows.push(FeatureRow { time: book.time, threshold: NARROW_THRESHOLD, imbalance: narrow });
    rows.push(FeatureRow { time: book.time, threshold: WIDE_THRESHOLD, imbalance: wide });
    proof {
        assert(rows@ =~= seq![
            FeatureRow { time: book.time, threshold: NARROW_THRESHOLD, imbalance: narrow },
            FeatureRow { time: book.time, threshold: WIDE_THRESHOLD, imbalance: wide },
        ]);
    }
    Some(rows)
}

/// Whether a run of events holds a trade.
pub open spec fn holds_trade(events: Seq<MarketEventSpec>) -> bool {
    exists|i: int| 0 <= i < events.len() && (#[trigger] events[i]) is AggTrade
}

/// A reference price exists exactly when a trade has been seen: until then
/// every book is skipped, and from then on every book is measured.
pub proof fn lemma_no_feature_before_first_trade(
    events: Seq<MarketEventSpec>,
    next: MarketEventSpec,
)
    ensures
        price_after_all(events) is Some <==> holds_trade(events),
        next is OrderBook && !holds_trade(events) ==> step_for(price_after_all(events), next)
            is Skipped,
        next is OrderBook && holds_trade(events) ==> step_for(price_after_all(events), next)
            is Compute,
        step_for(price_after_all(events), next) is Compute ==> holds_trade(events),
    decreases events.len(),
{
    if events.len() > 0 {
        let front = events.drop_last();
        lemma_no_feature_before_first_trade(front, next);
        if holds_trade(events) {
            let i = choose|i: int| 0 <= i < events.len() && (#[trigger] events[i]) is AggTrade;
            if i < front.len() {
                assert(front[i] is AggTrade);
            }
        }
        if holds_trade(front) {
            let i = choose|i: int| 0 <= i < front.len() && (#[trigger] front[i]) is AggTrade;
            assert(events[i] is AggTrade);
        }
        if events.last() is AggTrade {
            assert(events[events.len() - 1] is AggTrade);
        }
    }
}

} // verus!
