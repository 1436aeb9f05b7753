//! The messages of the exchange's depth stream and depth endpoint, and the
//! diff and snapshot that the synchroniser works on.

use vstd::prelude::*;
use crate::levels::{level_seq, pair_seq, LevelSpec, PriceLevel};
use crate::side::copy_levels;

verus! {

/// One incremental change of a book, as a mathematical value.
pub struct DiffSpec {
    pub first_update_id: u64,
    pub final_update_id: u64,
    pub previous_final_update_id: Option<u64>,
    pub bids: Seq<LevelSpec>,
    pub asks: Seq<LevelSpec>,
    pub event_time: u64,
}

/// A full book at one point in time, as a mathematical value.
pub struct SnapshotSpec {
    pub last_update_id: u64,
    pub bids: Seq<LevelSpec>,
    pub asks: Seq<LevelSpec>,
    pub fetch_time: u64,
}

/// One incremental change of a book: the levels that changed between two
/// update identifiers.
#[derive(Debug)]
pub struct DepthDiff {
    pub first_update_id: u64,
    pub final_update_id: u64,
    /// The final identifier of the diff before this one, where the exchange
    /// sends it.
    pub previous_final_update_id: Option<u64>,
    pub bids: Vec<PriceLevel>,
    pub asks: Vec<PriceLevel>,
    pub event_time: u64,
}

impl View for DepthDiff {
    type V = DiffSpec;

    open spec fn view(&self) -> DiffSpec {
        DiffSpec {
            first_update_id: self.first_update_id,
            final_update_id: self.final_update_id,
            previous_final_update_id: self.previous_final_update_id,
            bids: level_seq(self.bids@),
            asks: level_seq(self.asks@),
            event_time: self.event_time,
        }
    }
}

impl DepthDiff {
    /// A copy of this diff.
    pub fn duplicate(&self) -> (copy: DepthDiff)
        ensures
            copy@ == self@,
    {
        DepthDiff {
            first_update_id: self.first_update_id,
            final_update_id: self.final_update_id,
            previous_final_update_id: self.previous_final_update_id,
            bids: copy_levels(&self.bids),
            asks: copy_levels(&self.asks),
            event_time: self.event_time,
        }
    }
}

/// The diffs of a sequence, each as a mathematical value.
pub open spec fn diff_seq(diffs: Seq<DepthDiff>) -> Seq<DiffSpec> {
    Seq::new(diffs.len(), |i: int| diffs[i]@)
}

/// A full book at one point in time, with the identifier of the last update
/// that it holds.
#[derive(Debug)]
pub struct Snapshot {
    pub last_update_id: u64,
    pub bids: Vec<PriceLevel>,
    pub asks: Vec<PriceLevel>,
    pub fetch_time: u64,
}

impl View for Snapshot {
    type V = SnapshotSpec;

    open spec fn view(&self) -> SnapshotSpec {
        SnapshotSpec {
            last_update_id: self.last_update_id,
            bids: level_seq(self.bids@),
            asks: level_seq(self.asks@),
            fetch_time: self.fetch_time,
        }
    }
}

/// Turns a list of price and quantity pairs into levels, in the same order.
pub fn levels_from_pairs(pairs: &Vec<(String, String)>) -> (levels: Vec<PriceLevel>)
    ensures
        level_seq(levels@) == pair_seq(pairs@),
{
    let mut levels: Vec<PriceLevel> = Vec::new();
    let mut i: usize = 0;
    while i < pairs.len()
        invariant
            i <= pairs@.len(),
            levels@.len() == i,
            forall|k: int|
                0 <= k < i ==> (#[trigger] levels@[k])@ == (pairs@[k].0@, pairs@[k].1@),
        decreases pairs@.len() - i,
    {
        let level = PriceLevel { price: pairs[i].0.clone(), quantity: pairs[i].1.clone() };
        levels.push(level);
        i += 1;
    }
    assert(level_seq(levels@) =~= pair_seq(pairs@));
    levels
}

/// A depth event of the stream, with the field names of the wire format.
#[allow(non_snake_case)]
#[derive(Debug)]
pub struct DepthEvent {
    /// Event type.
    pub e: String,
    /// Event time.
    pub E: u64,
    /// Transaction time.
    pub T: u64,
    /// Symbol.
    pub s: String,
    /// First update identifier in the event.
    pub U: u64,
    /// Final update identifier in the event.
    pub u: u64,
    /// Final update identifier of the event before this one.
    pub pu: u64,
    /// Bids that changed.
    pub b: Vec<(String, String)>,
    /// Asks that changed.
    pub a: Vec<(String, String)>,
}

impl DepthEvent {
    /// The diff that this event carries. The exchange names the event before
    /// it, so the diff does too.
    pub fn to_diff(&self) -> (diff: DepthDiff)
        ensures
            diff@ == (DiffSpec {
                first_update_id: self.U,
                final_update_id: self.u,
                previous_final_update_id: Some(self.pu),
                bids: pair_seq(self.b@),
                asks: pair_seq(self.a@),
                event_time: self.E,
            }),
    {
        DepthDiff {
            first_update_id: self.U,
            final_update_id: self.u,
            previous_final_update_id: Some(self.pu),
            bids: levels_from_pairs(&self.b),
            asks: levels_from_pairs(&self.a),
            event_time: self.E,
        }
    }
}

/// A depth event together with the name of the stream that carried it.
#[derive(Debug)]
pub struct BinanceWebsocketDiffBook {
    pub stream: String,
    pub data: DepthEvent,
}

/// The answer of the depth endpoint, with the field names of the wire
/// format.
#[allow(non_snake_case)]
#[derive(Debug)]
pub struct DepthSnapShot {
    pub lastUpdateId: u64,
    /// Message output time.
    pub E: u64,
    /// Transaction time.
    pub T: u64,
    pub bids: Vec<(String, String)>,
    pub asks: Vec<(String, String)>,
}

impl DepthSnapShot {
    /// The snapshot that this answer carries.
    pub fn to_snapshot(&self) -> (snapshot: Snapshot)
        ensures
            snapshot@ == (SnapshotSpec {
                last_update_id: self.lastUpdateId,
                bids: pair_seq(self.bids@),
                asks: pair_seq(self.asks@),
                fetch_time: self.E,
            }),
    {
        Snapshot {
            last_update_id: self.lastUpdateId,
            bids: levels_from_pairs(&self.bids),
            asks: levels_from_pairs(&self.asks),
            fetch_time: self.E,
        }
    }
}

} // verus!
