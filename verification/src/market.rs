//! Trades, liquidations and the tagged event that travels through the
//! pipeline.

use vstd::prelude::*;
use crate::order_book::{BookSpec, OrderBook};

verus! {

/// An aggregated trade as a mathematical value.
#[allow(non_snake_case)]
pub struct TradeSpec {
    pub e: Seq<char>,
    pub E: u64,
    pub s: Seq<char>,
    pub a: u64,
    pub p: Seq<char>,
    pub q: Seq<char>,
    pub f: u64,
    pub l: u64,
    pub T: u64,
    pub m: bool,
}

/// An aggregated trade of the stream, with the field names of the wire
/// format.
#[allow(non_snake_case)]
#[derive(Debug)]
pub struct AggregateTradeEvent {
    /// Event type.
    pub e: String,
    /// Event time.
    pub E: u64,
    /// Symbol.
    pub s: String,
    /// Aggregate trade identifier.
    pub a: u64,
    /// Price.
    pub p: String,
    /// Quantity.
    pub q: String,
    /// First trade identifier.
    pub f: u64,
    /// Last trade identifier.
    pub l: u64,
    /// Trade time.
    pub T: u64,
    /// Whether the buyer is the market maker, that is the taker sells.
    pub m: bool,
}

impl View for AggregateTradeEvent {
    type V = TradeSpec;

    open spec fn view(&self) -> TradeSpec {
        TradeSpec {
            e: self.e@,
            E: self.E,
            s: self.s@,
            a: self.a,
            p: self.p@,
            q: self.q@,
            f: self.f,
            l: self.l,
            T: self.T,
            m: self.m,
        }
    }
}

impl AggregateTradeEvent {
    /// A copy of this trade.
    pub fn duplicate(&self) -> (copy: AggregateTradeEvent)
        ensures
            copy@ == self@,
    {
        AggregateTradeEvent {
            e: self.e.clone(),
            E: self.E,
            s: self.s.clone(),
            a: self.a,
            p: self.p.clone(),
            q: self.q.clone(),
            f: self.f,
            l: self.l,
            T: self.T,
            m: self.m,
        }
    }
}

/// An aggregated trade together with the name of the stream that carried
/// it.
#[derive(Debug)]
pub struct BinanceWebsocketAggTrade {
    pub stream: String,
    pub data: AggregateTradeEvent,
}

/// A forced order as a mathematical value.
#[allow(non_snake_case)]
pub struct LiquidationOrderSpec {
    pub s: Seq<char>,
    pub S: Seq<char>,
    pub o: Seq<char>,
    pub f: Seq<char>,
    pub q: Seq<char>,
    pub p: Seq<char>,
    pub ap: Seq<char>,
    pub X: Seq<char>,
    pub l: Seq<char>,
    pub z: Seq<char>,
    pub T: u64,
}

/// A liquidation as a mathematical value.
#[allow(non_snake_case)]
pub struct LiquidationSpec {
    pub e: Seq<char>,
    pub E: u64,
    pub o: LiquidationOrderSpec,
}

/// The forced order of a liquidation, with the field names of the wire
/// format.
#[allow(non_snake_case)]
#[derive(Debug)]
pub struct LiquidationOrder {
    /// Symbol.
    pub s: String,
    /// Side.
    pub S: String,
    /// Order type.
    pub o: String,
    /// Time in force.
    pub f: String,
    /// Quantity.
    pub q: String,
    /// Price.
    pub p: String,
    /// Average price.
    pub ap: String,
    /// Order status.
    pub X: String,
    /// Quantity of the last fill.
    pub l: String,
    /// Quantity filled so far.
    pub z: String,
    /// Transaction time.
    pub T: u64,
}

impl View for LiquidationOrder {
    type V = LiquidationOrderSpec;

    open spec fn view(&self) -> LiquidationOrderSpec {
        LiquidationOrderSpec {
            s: self.s@,
            S: self.S@,
            o: self.o@,
            f: self.f@,
            q: self.q@,
            p: self.p@,
            ap: self.ap@,
            X: self.X@,
            l: self.l@,
            z: self.z@,
            T: self.T,
        }
    }
}

/// A liquidation of the stream, with the field names of the wire format.
#[allow(non_snake_case)]
#[derive(Debug)]
pub struct LiquidationEvent {
    /// Event type.
    pub e: String,
    /// Event time.
    pub E: u64,
    /// The forced order.
    pub o: LiquidationOrder,
}

impl View for LiquidationEvent {
    type V = LiquidationSpec;

    open spec fn view(&self) -> LiquidationSpec {
        LiquidationSpec { e: self.e@, E: self.E, o: self.o@ }
    }
}

impl LiquidationEvent {
    /// A copy of this liquidation.
    pub fn duplicate(&self) -> (copy: LiquidationEvent)
        ensures
            copy@ == self@,
    {
        LiquidationEvent {
            e: self.e.clone(),
            E: self.E,
            o: LiquidationOrder {
                s: self.o.s.clone(),
                S: self.o.S.clone(),
                o: self.o.o.clone(),
                f: self.o.f.clone(),
                q: self.o.q.clone(),
                p: self.o.p.clone(),
                ap: self.o.ap.clone(),
                X: self.o.X.clone(),
                l: self.o.l.clone(),
                z: self.o.z.clone(),
                T: self.o.T,
            },
        }
    }
}

/// A liquidation together with the name of the stream that carried it.
#[derive(Debug)]
pub struct BinanceWebsocketLiquidation {
    pub stream: String,
    pub data: LiquidationEvent,
}

/// A market event as a mathematical value.
pub enum MarketEventSpec {
    OrderBook(BookSpec),
    Liquidation(LiquidationSpec),
    AggTrade(TradeSpec),
}

/// The unit that travels through the pipeline: a book after an update, a
/// liquidation or a trade.
#[derive(Debug)]
pub enum BinanceData {
    OrderBook(OrderBook),
    Liquidation(LiquidationEvent),
    AggTrade(AggregateTradeEvent),
}

impl View for BinanceData {
    type V = MarketEventSpec;

    open spec fn view(&self) -> MarketEventSpec {
        match self {
            BinanceData::OrderBook(book) => MarketEventSpec::OrderBook(book@),
            BinanceData::Liquidation(liquidation) => MarketEventSpec::Liquidation(liquidation@),
            BinanceData::AggTrade(trade) => MarketEventSpec::AggTrade(trade@),
        }
    }
}

impl BinanceData {
    /// Whether the book of an order-book event is well formed; other events
    /// always are.
    pub open spec fn wf(&self) -> bool {
        match self {
            BinanceData::OrderBook(book) => book.wf(),
            _ => true,
        }
    }

    /// A copy of this event, for one more consumer.
    pub fn duplicate(&self) -> (copy: BinanceData)
        requires
            self.wf(),
        ensures
            copy.wf(),
            copy@ == self@,
    {
        match self {
            BinanceData::OrderBook(book) => BinanceData::OrderBook(book.duplicate()),
            BinanceData::Liquidation(liquidation) => BinanceData::Liquidation(
                liquidation.duplicate(),
            ),
            BinanceData::AggTrade(trade) => BinanceData::AggTrade(trade.duplicate()),
        }
    }
}

/// The copies of one event that a router hands to its consumers: one for
/// each, all equal to the event.
pub fn fan_out(event: &BinanceData, consumers: usize) -> (copies: Vec<BinanceData>)
    requires
        event.wf(),
    ensures
        copies@.len() == consumers,
        forall|i: int|
            0 <= i < consumers ==> (#[trigger] copies@[i]).wf() && copies@[i]@ == event@,
{
    let mut copies: Vec<BinanceData> = Vec::new();
    let mut i: usize = 0;
    while i < consumers
        invariant
            i <= consumers,
            event.wf(),
            copies@.len() == i,
            forall|k: int| 0 <= k < i ==> (#[trigger] copies@[k]).wf() && copies@[k]@ == event@,
        decreases consumers - i,
    {
        copies.push(event.duplicate());
        i += 1;
    }
    copies
}

} // verus!
