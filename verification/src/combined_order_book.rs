//! A book that takes the depth streams of several exchanges.

use vstd::prelude::*;
use crate::events::DepthEvent;
use crate::levels::{apply_levels, has_no_empty_level, pair_seq, SideSpec};
use crate::side::BookSide;

verus! {

/// A combined book as a mathematical value.
pub struct CombinedBookSpec {
    pub bids: SideSpec,
    pub asks: SideSpec,
    pub time: u64,
}

/// The levels of one symbol across exchanges.
#[derive(Debug)]
pub struct CombinedOrderBook {
    /// Price to quantity, buying side.
    pub bids: BookSide,
    /// Price to quantity, selling side.
    pub asks: BookSide,
    /// Time of the event that last changed the book.
    pub time: u64,
}

impl View for CombinedOrderBook {
    type V = CombinedBookSpec;

    open spec fn view(&self) -> CombinedBookSpec {
        CombinedBookSpec { bids: self.bids@, asks: self.asks@, time: self.time }
    }
}

impl CombinedOrderBook {
    /// Whether both sides are well formed.
    pub open spec fn wf(&self) -> bool {
        self.bids.wf() && self.asks.wf()
    }

    /// The book that holds nothing.
    pub fn new() -> (book: CombinedOrderBook)
        ensures
            book.wf(),
            book@ == (CombinedBookSpec { bids: Map::empty(), asks: Map::empty(), time: 0 }),
    {
        CombinedOrderBook { bids: BookSide::new(), asks: BookSide::new(), time: 0u64 }
    }

    /// A copy of this book, for a consumer to keep.
    pub fn duplicate(&self) -> (copy: CombinedOrderBook)
        requires
            self.wf(),
        ensures
            copy.wf(),
            copy@ == self@,
    {
        CombinedOrderBook {
            bids: self.bids.duplicate(),
            asks: self.asks.duplicate(),
            time: self.time,
        }
    }

    /// Applies the level changes of a Binance depth event, bids first, then
    /// asks, and takes over its time.
    pub fn update_binance(&mut self, event: &DepthEvent)
        requires
            old(self).wf(),
        ensures
            final(self).wf(),
            final(self)@ == (CombinedBookSpec {
                bids: apply_levels(old(self)@.bids, pair_seq(event.b@)),
                asks: apply_levels(old(self)@.asks, pair_seq(event.a@)),
                time: event.E,
            }),
            has_no_empty_level(final(self)@.bids),
            has_no_empty_level(final(self)@.asks),
    {
        self.time = event.E;
        self.bids.apply_pairs(&event.b);
        self.asks.apply_pairs(&event.a);
    }

    /// The Bitget feed carries no change for the combined book: it is left
    /// as it is.
    pub fn update_bitget(&mut self)
        ensures
            *final(self) == *old(self),
    {
    }

    /// The OKX feed carries no change for the combined book: it is left as
    /// it is.
    pub fn update_okx(&mut self)
        ensures
            *final(self) == *old(self),
    {
    }
}

} // verus!
