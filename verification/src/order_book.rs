//! The order book of one symbol and the rule by which a diff changes it.

use vstd::prelude::*;
use crate::events::{DepthDiff, DepthEvent, DiffSpec, Snapshot, SnapshotSpec};
use crate::levels::{apply_levels, has_no_empty_level, pair_seq, SideSpec};
use crate::side::BookSide;

verus! {

/// An order book as a mathematical value.
pub struct BookSpec {
    pub bids: SideSpec,
    pub asks: SideSpec,
    pub last_update_id: u64,
    pub time: u64,
}

/// Why a diff was not applied.
#[derive(Clone, Copy, Debug, PartialEq, Eq, Structural)]
pub enum SyncError {
    /// The book already holds everything the diff carries.
    Stale,
    /// Updates between the book's last one and the diff are missing.
    Gap,
}

/// The book that holds nothing.
pub open spec fn empty_book() -> BookSpec {
    BookSpec { bids: Map::empty(), asks: Map::empty(), last_update_id: 0, time: 0 }
}

/// The book that a snapshot stands for. A level with a quantity of zero
/// adds nothing, and of two levels with one price the later stays.
pub open spec fn seed_book(snapshot: SnapshotSpec) -> BookSpec {
    BookSpec {
        bids: apply_levels(Map::empty(), snapshot.bids),
        asks: apply_levels(Map::empty(), snapshot.asks),
        last_update_id: snapshot.last_update_id,
        time: snapshot.fetch_time,
    }
}

/// Whether a book whose last update is `last` already holds a diff.
pub open spec fn is_stale(last: u64, diff: DiffSpec) -> bool {
    diff.final_update_id <= last
}

/// Whether updates are missing between `last` and a diff. Where the diff
/// names its predecessor, that name must be `last`; where it does not, its
/// first identifier must not lie beyond the one after `last`.
pub open spec fn is_gap(last: u64, diff: DiffSpec) -> bool {
    match diff.previous_final_update_id {
        Some(previous) => previous != last,
        None => diff.first_update_id > last + 1,
    }
}

/// The reason for which a book whose last update is `last` refuses a diff,
/// if it does.
pub open spec fn refusal(last: u64, diff: DiffSpec) -> Option<SyncError> {
    if is_stale(last, diff) {
        Some(SyncError::Stale)
    } else if is_gap(last, diff) {
        Some(SyncError::Gap)
    } else {
        None
    }
}

/// A book after the level changes of a diff, whatever the identifiers.
pub open spec fn apply_diff(book: BookSpec, diff: DiffSpec) -> BookSpec {
    BookSpec {
        bids: apply_levels(book.bids, diff.bids),
        asks: apply_levels(book.asks, diff.asks),
        last_update_id: diff.final_update_id,
        time: diff.event_time,
    }
}

/// A book after a diff was offered to it: unchanged where the diff is
/// refused.
pub open spec fn offer_diff(book: BookSpec, diff: DiffSpec) -> BookSpec {
    if refusal(book.last_update_id, diff) is Some {
        book
    } else {
        apply_diff(book, diff)
    }
}

/// Whether no level of a book carries a quantity of zero.
pub open spec fn book_is_live(book: BookSpec) -> bool {
    has_no_empty_level(book.bids) && has_no_empty_level(book.asks)
}

/// The order book of one symbol.
#[derive(Debug)]
pub struct OrderBook {
    /// Price to quantity, buying side.
    pub bids: BookSide,
    /// Price to quantity, selling side.
    pub asks: BookSide,
    /// Time of the event that last changed the book.
    pub time: u64,
    /// Identifier of the update that last changed the book.
    pub last_update_id: u64,
}

impl View for OrderBook {
    type V = BookSpec;

    open spec fn view(&self) -> BookSpec {
        BookSpec {
            bids: self.bids@,
            asks: self.asks@,
            last_update_id: self.last_update_id,
            time: self.time,
        }
    }
}

impl OrderBook {
    /// Whether both sides are well formed.
    pub open spec fn wf(&self) -> bool {
        self.bids.wf() && self.asks.wf()
    }

    /// The book that holds nothing.
    pub fn new() -> (book: OrderBook)
        ensures
            book.wf(),
            book@ == empty_book(),
    {
        OrderBook { bids: BookSide::new(), asks: BookSide::new(), time: 0u64, last_update_id: 0u64 }
    }

    /// A copy of this book, for a consumer to keep.
    pub fn duplicate(&self) -> (copy: OrderBook)
        requires
            self.wf(),
        ensures
            copy.wf(),
            copy@ == self@,
            copy.bids.listing() == self.bids.listing(),
            copy.asks.listing() == self.asks.listing(),
    {
        OrderBook {
            bids: self.bids.duplicate(),
            asks: self.asks.duplicate(),
            time: self.time,
            last_update_id: self.last_update_id,
        }
    }

    /// Applies the level changes of an event without looking at its
    /// identifiers: bids first, then asks.
    pub fn update(&mut self, event: &DepthEvent)
        requires
            old(self).wf(),
        ensures
            final(self).wf(),
            final(self)@ == (BookSpec {
                bids: apply_levels(old(self)@.bids, pair_seq(event.b@)),
                asks: apply_levels(old(self)@.asks, pair_seq(event.a@)),
                last_update_id: event.u,
                time: event.E,
            }),
            book_is_live(final(self)@),
    {
        self.time = event.E;
        self.last_update_id = event.u;
        self.bids.apply_pairs(&event.b);
        self.asks.apply_pairs(&event.a);
    }

    /// Replaces the book by what a snapshot holds.
    pub fn seed(&mut self, snapshot: &Snapshot)
        ensures
            final(self).wf(),
            final(self)@ == seed_book(snapshot@),
            book_is_live(final(self)@),
    {
        self.bids.clear();
        self.asks.clear();
        self.bids.apply(&snapshot.bids);
        self.asks.apply(&snapshot.asks);
        self.last_update_id = snapshot.last_update_id;
        self.time = snapshot.fetch_time;
    }

    /// Offers a diff to the book. A stale diff and one behind a gap are
    /// refused and leave the book as it is; any other is applied, and a copy
    /// of the book after it is handed back.
    pub fn apply(&mut self, diff: &DepthDiff) -> (result: Result<OrderBook, SyncError>)
        requires
            old(self).wf(),
        ensures
            final(self).wf(),
            final(self)@ == offer_diff(old(self)@, diff@),
            match result {
                Ok(copy) => {
                    &&& refusal(old(self)@.last_update_id, diff@) is None
                    &&& copy.wf()
                    &&& copy@ == apply_diff(old(self)@, diff@)
                    &&& book_is_live(copy@)
                },
                Err(error) => refusal(old(self)@.last_update_id, diff@) == Some(error),
            },
    {
        if diff.final_update_id <= self.last_update_id {
            return Err(SyncError::Stale);
        }
        let gap = match diff.previous_final_update_id {
            Some(previous) => previous != self.last_update_id,
            None => diff.first_update_id > 0 && diff.first_update_id - 1 > self.last_update_id,
        };
        if gap {
            return Err(SyncError::Gap);
        }
        self.bids.apply(&diff.bids);
        self.asks.apply(&diff.asks);
        self.last_update_id = diff.final_update_id;
        self.time = diff.event_time;
        Ok(self.duplicate())
    }
}

} // verus!
