//! The synchroniser of one symbol's order book.
//!
//! The depth stream and the snapshot request run side by side, so diffs may
//! arrive before the snapshot does. The synchroniser keeps them, seeds the
//! book from the snapshot, replays what it kept and then applies diffs as
//! they come. A gap makes the book useless: the synchroniser asks for a new
//! snapshot, a bounded number of times.

use vstd::prelude::*;
use crate::events::{diff_seq, DepthDiff, DiffSpec, Snapshot, SnapshotSpec};
use crate::order_book::{
    apply_diff, book_is_live, empty_book, refusal, seed_book, BookSpec, OrderBook, SyncError,
};

verus! {

/// Where a synchroniser stands.
#[derive(Clone, Copy, Debug, PartialEq, Eq, Structural)]
pub enum SyncPhase {
    /// No usable book: diffs are kept until a snapshot arrives.
    AwaitingSnapshot,
    /// The book is seeded and caught up: diffs are applied as they come.
    Live,
    /// Too many gaps in a row: the depth pipeline of this symbol has ended.
    Failed,
}

/// A synchroniser as a mathematical value.
pub struct SyncSpec {
    pub book: BookSpec,
    pub phase: SyncPhase,
    /// Diffs kept for the next snapshot, in arrival order.
    pub pending: Seq<DiffSpec>,
    /// Gaps met since the book was last caught up.
    pub resyncs: u64,
    /// Gaps in a row that are answered by a new snapshot.
    pub retry_ceiling: u64,
}

/// What replaying kept diffs against a book gives.
pub struct ReplaySpec {
    /// The book after the diffs that were consumed.
    pub book: BookSpec,
    /// The book after each diff that was applied, in order.
    pub applied: Seq<BookSpec>,
    /// How many diffs were consumed: all of them, or those before the gap.
    pub consumed: nat,
    /// Whether a gap stopped the replay.
    pub gap: bool,
}

/// Whether a diff spans an update: it starts at or before it and ends beyond
/// it.
pub open spec fn spans(last: u64, diff: DiffSpec) -> bool {
    diff.first_update_id <= last && last < diff.final_update_id
}

/// The reason for which the replay of kept diffs refuses a diff, if it
/// does. The rule is that of the book, with one addition. The stream is
/// subscribed before the snapshot is taken, so the diff that was under way
/// at that moment starts before the snapshot's update, ends beyond it, and
/// names the diff before it, not the snapshot. The snapshot holds a part of
/// its changes, and all of them give the book after it. So the first diff
/// that a replay applies may span the book's last update, whatever
/// predecessor it names; `first` says that no kept diff was applied yet.
pub open spec fn replay_refusal(last: u64, first: bool, diff: DiffSpec) -> Option<SyncError> {
    if first && spans(last, diff) {
        None
    } else {
        refusal(last, diff)
    }
}

/// Replays kept diffs against a seeded book in arrival order: a stale diff
/// is dropped, a diff behind a gap stops the replay, any other is applied.
pub open spec fn replay(book: BookSpec, diffs: Seq<DiffSpec>) -> ReplaySpec
    decreases diffs.len(),
{
    if diffs.len() == 0 {
        ReplaySpec { book, applied: Seq::empty(), consumed: 0, gap: false }
    } else {
        let before = replay(book, diffs.drop_last());
        if before.gap {
            before
        } else {
            match replay_refusal(
                before.book.last_update_id,
                before.applied.len() == 0,
                diffs.last(),
            ) {
                Some(SyncError::Stale) => ReplaySpec { consumed: before.consumed + 1, ..before },
                Some(SyncError::Gap) => ReplaySpec { gap: true, ..before },
                None => {
                    let next = apply_diff(before.book, diffs.last());
                    ReplaySpec {
                        book: next,
                        applied: before.applied.push(next),
                        consumed: before.consumed + 1,
                        gap: false,
                    }
                },
            }
        }
    }
}

/// The phase that follows a gap: a new snapshot while the ceiling allows
/// one, the end after that.
pub open spec fn phase_after_gap(resyncs: u64, retry_ceiling: u64) -> SyncPhase {
    if resyncs < retry_ceiling {
        SyncPhase::AwaitingSnapshot
    } else {
        SyncPhase::Failed
    }
}

/// The count of gaps after one more.
pub open spec fn resyncs_after_gap(resyncs: u64, retry_ceiling: u64) -> u64 {
    if resyncs < retry_ceiling {
        (resyncs + 1) as u64
    } else {
        resyncs
    }
}

/// A synchroniser after a gap at a diff: the diff is kept behind what was
/// kept before.
pub open spec fn after_gap(sync: SyncSpec, kept: Seq<DiffSpec>) -> SyncSpec {
    SyncSpec {
        phase: phase_after_gap(sync.resyncs, sync.retry_ceiling),
        resyncs: resyncs_after_gap(sync.resyncs, sync.retry_ceiling),
        pending: kept,
        ..sync
    }
}

/// A synchroniser after a diff arrived.
pub open spec fn after_diff(sync: SyncSpec, diff: DiffSpec) -> SyncSpec {
    match sync.phase {
        SyncPhase::Failed => sync,
        SyncPhase::AwaitingSnapshot => SyncSpec { pending: sync.pending.push(diff), ..sync },
        SyncPhase::Live => match refusal(sync.book.last_update_id, diff) {
            Some(SyncError::Stale) => sync,
            Some(SyncError::Gap) => after_gap(sync, sync.pending.push(diff)),
            None => SyncSpec { book: apply_diff(sync.book, diff), ..sync },
        },
    }
}

/// A synchroniser after a snapshot arrived: the book is seeded from it and
/// the kept diffs are replayed.
pub open spec fn after_snapshot(sync: SyncSpec, snapshot: SnapshotSpec) -> SyncSpec {
    if sync.phase == SyncPhase::Failed {
        sync
    } else {
        let outcome = replay(seed_book(snapshot), sync.pending);
        if outcome.gap {
            after_gap(
                SyncSpec { book: outcome.book, ..sync },
                sync.pending.skip(outcome.consumed as int),
            )
        } else {
            SyncSpec {
                book: outcome.book,
                phase: SyncPhase::Live,
                pending: Seq::empty(),
                resyncs: 0,
                retry_ceiling: sync.retry_ceiling,
            }
        }
    }
}

/// The books of a sequence, each as a mathematical value.
pub open spec fn book_seq(books: Seq<OrderBook>) -> Seq<BookSpec> {
    Seq::new(books.len(), |i: int| books[i]@)
}

/// What the owner of a synchroniser does after a diff.
#[derive(Debug)]
pub enum SyncAction {
    /// The diff was kept for the next snapshot.
    Buffered,
    /// The diff was applied: publish this copy of the book.
    Publish(OrderBook),
    /// The diff was stale and dropped.
    Ignored,
    /// A gap: fetch a new snapshot and hand it over.
    Resync,
    /// The synchroniser has failed: end the depth pipeline of this symbol.
    Fatal,
}

/// What the owner of a synchroniser does after a snapshot.
#[derive(Clone, Copy, Debug, PartialEq, Eq, Structural)]
pub enum SyncOutcome {
    /// Caught up: stream diffs as they come.
    Live,
    /// A gap during the replay: fetch a new snapshot and hand it over.
    Resync,
    /// The synchroniser has failed: end the depth pipeline of this symbol.
    Fatal,
}

/// The books to publish after a snapshot, and what to do next.
#[derive(Debug)]
pub struct CatchUp {
    /// A copy of the book after each kept diff that was applied, in order.
    pub updates: Vec<OrderBook>,
    pub outcome: SyncOutcome,
}

/// What follows a gap, by the phase that the gap led to.
pub open spec fn outcome_of(phase: SyncPhase) -> SyncOutcome {
    match phase {
        SyncPhase::Live => SyncOutcome::Live,
        SyncPhase::AwaitingSnapshot => SyncOutcome::Resync,
        SyncPhase::Failed => SyncOutcome::Fatal,
    }
}

/// Applies the level changes of a diff and takes over its identifier and its
/// time, without looking at what the book held.
fn apply_changes(book: &mut OrderBook, diff: &DepthDiff) -> (copy: OrderBook)
    requires
        old(book).wf(),
    ensures
        final(book).wf(),
        final(book)@ == apply_diff(old(book)@, diff@),
        book_is_live(final(book)@),
        copy.wf(),
        copy@ == final(book)@,
{
    book.bids.apply(&diff.bids);
    book.asks.apply(&diff.asks);
    book.last_update_id = diff.final_update_id;
    book.time = diff.event_time;
    book.duplicate()
}

/// The owner of one symbol's order book.
#[derive(Debug)]
pub struct Synchronizer {
    book: OrderBook,
    phase: SyncPhase,
    pending: Vec<DepthDiff>,
    resyncs: u64,
    retry_ceiling: u64,
}

impl View for Synchronizer {
    type V = SyncSpec;

    closed spec fn view(&self) -> SyncSpec {
        SyncSpec {
            book: self.book@,
            phase: self.phase,
            pending: diff_seq(self.pending@),
            resyncs: self.resyncs,
            retry_ceiling: self.retry_ceiling,
        }
    }
}

impl Synchronizer {
    /// Whether this synchroniser is well formed. Every constructor gives
    /// such a synchroniser and every method keeps it so.
    pub closed spec fn wf(&self) -> bool {
        &&& self.book.wf()
        &&& book_is_live(self.book@)
        &&& self.resyncs <= self.retry_ceiling
        &&& self.phase == SyncPhase::Live ==> self.pending@.len() == 0
    }

    /// What holds of every well-formed synchroniser: no level of the book
    /// carries a quantity of zero, the count of gaps is within the
    /// ceiling, and a live synchroniser keeps no diff.
    pub proof fn lemma_wf(&self)
        requires
            self.wf(),
        ensures
            book_is_live(self@.book),
            self@.resyncs <= self@.retry_ceiling,
            self@.phase == SyncPhase::Live ==> self@.pending.len() == 0,
    {
    }

    /// A synchroniser that waits for its first snapshot. After
    /// `retry_ceiling` gaps in a row one more gap is fatal.
    pub fn new(retry_ceiling: u64) -> (sync: Synchronizer)
        ensures
            sync.wf(),
            sync@ == (SyncSpec {
                book: empty_book(),
                phase: SyncPhase::AwaitingSnapshot,
                pending: Seq::empty(),
                resyncs: 0,
                retry_ceiling,
            }),
    {
        let sync = Synchronizer {
            book: OrderBook::new(),
            phase: SyncPhase::AwaitingSnapshot,
            pending: Vec::new(),
            resyncs: 0u64,
            retry_ceiling,
        };
        assert(sync@.pending =~= Seq::empty());
        sync
    }

    /// Where this synchroniser stands.
    pub fn phase(&self) -> (phase: SyncPhase)
        ensures
            phase == self@.phase,
    {
        self.phase
    }

    /// The number of diffs kept for the next snapshot.
    pub fn pending_len(&self) -> (count: usize)
        ensures
            count == self@.pending.len(),
    {
        self.pending.len()
    }

    /// Gaps met since the book was last caught up.
    pub fn resyncs(&self) -> (count: u64)
        ensures
            count == self@.resyncs,
    {
        self.resyncs
    }

    /// A copy of the book as it stands.
    pub fn book(&self) -> (copy: OrderBook)
        requires
            self.wf(),
        ensures
            copy.wf(),
            copy@ == self@.book,
    {
        self.book.duplicate()
    }

    fn note_gap(&mut self)
        requires
            old(self).resyncs <= old(self).retry_ceiling,
        ensures
            final(self).book == old(self).book,
            final(self).pending == old(self).pending,
            final(self).retry_ceiling == old(self).retry_ceiling,
            final(self).phase == phase_after_gap(old(self).resyncs, old(self).retry_ceiling),
            final(self).resyncs == resyncs_after_gap(old(self).resyncs, old(self).retry_ceiling),
            final(self).resyncs <= final(self).retry_ceiling,
            final(self).phase != SyncPhase::Live,
    {
        if self.resyncs < self.retry_ceiling {
            self.resyncs = self.resyncs + 1;
            self.phase = SyncPhase::AwaitingSnapshot;
        } else {
            self.phase = SyncPhase::Failed;
        }
    }

    /// Applies a diff to the live book. A stale diff is refused and changes
    /// nothing. A diff behind a gap is refused, kept for the next snapshot,
    /// and ends the live phase. Any other diff is applied, and a copy of the
    /// book after it is handed back.
    pub fn apply(&mut self, diff: &DepthDiff) -> (result: Result<OrderBook, SyncError>)
        requires
            old(self).wf(),
            old(self)@.phase == SyncPhase::Live,
        ensures
            final(self).wf(),
            final(self)@ == after_diff(old(self)@, diff@),
            match result {
                Ok(copy) => {
                    &&& refusal(old(self)@.book.last_update_id, diff@) is None
                    &&& copy.wf()
                    &&& copy@ == apply_diff(old(self)@.book, diff@)
                    &&& book_is_live(copy@)
                },
                Err(error) => refusal(old(self)@.book.last_update_id, diff@) == Some(error),
            },
    {
        let result = self.book.apply(diff);
        match result {
            Ok(copy) => Ok(copy),
            Err(SyncError::Stale) => Err(SyncError::Stale),
            Err(SyncError::Gap) => {
                self.pending.push(diff.duplicate());
                self.note_gap();
                proof {
                    assert(self@.pending =~= old(self)@.pending.push(diff@));
                }
                Err(SyncError::Gap)
            },
        }
    }

    /// Takes a diff from the stream, whatever the phase: kept while a
    /// snapshot is awaited, applied while live, dropped after a failure.
    pub fn offer(&mut self, diff: DepthDiff) -> (action: SyncAction)
        requires
            old(self).wf(),
        ensures
            final(self).wf(),
            final(self)@ == after_diff(old(self)@, diff@),
            match action {
                SyncAction::Buffered => old(self)@.phase == SyncPhase::AwaitingSnapshot,
                SyncAction::Publish(copy) => {
                    &&& old(self)@.phase == SyncPhase::Live
                    &&& refusal(old(self)@.book.last_update_id, diff@) is None
                    &&& copy.wf()
                    &&& copy@ == final(self)@.book
                },
                SyncAction::Ignored => {
                    &&& old(self)@.phase == SyncPhase::Live
                    &&& refusal(old(self)@.book.last_update_id, diff@) == Some(SyncError::Stale)
                },
                SyncAction::Resync => {
                    &&& old(self)@.phase == SyncPhase::Live
                    &&& refusal(old(self)@.book.last_update_id, diff@) == Some(SyncError::Gap)
                    &&& final(self)@.phase == SyncPhase::AwaitingSnapshot
                },
                SyncAction::Fatal => {
                    ||| old(self)@.phase == SyncPhase::Failed
                    ||| {
                        &&& old(self)@.phase == SyncPhase::Live
                        &&& refusal(old(self)@.book.last_update_id, diff@) == Some(SyncError::Gap)
                        &&& final(self)@.phase == SyncPhase::Failed
                    }
                },
            },
    {
        match self.phase {
            SyncPhase::Failed => SyncAction::Fatal,
            SyncPhase::AwaitingSnapshot => {
                let ghost kept = diff@;
                self.pending.push(diff);
                proof {
                    assert(self@.pending =~= old(self)@.pending.push(kept));
                }
                SyncAction::Buffered
            },
            SyncPhase::Live => {
                match self.apply(&diff) {
                    Ok(copy) => SyncAction::Publish(copy),
                    Err(SyncError::Stale) => SyncAction::Ignored,
                    Err(SyncError::Gap) => {
                        match self.phase {
                            SyncPhase::Failed => SyncAction::Fatal,
                            _ => SyncAction::Resync,
                        }
                    },
                }
            },
        }
    }

    /// Takes a snapshot: seeds the book from it and replays the kept diffs
    /// in arrival order. Stale ones are dropped and the others applied, each
    /// giving a copy of the book to publish. The first one applied may span
    /// the snapshot; every other must follow the update before it. A gap
    /// stops the replay: the diff behind it and those after it stay kept for
    /// the next snapshot. After a failure the snapshot is ignored.
    pub fn seed(&mut self, snapshot: &Snapshot) -> (caught: CatchUp)
        requires
            old(self).wf(),
        ensures
            final(self).wf(),
            final(self)@ == after_snapshot(old(self)@, snapshot@),
            caught.outcome == outcome_of(final(self)@.phase),
            old(self)@.phase == SyncPhase::Failed ==> caught.updates@.len() == 0,
            old(self)@.phase != SyncPhase::Failed ==> book_seq(caught.updates@) == replay(
                seed_book(snapshot@),
                old(self)@.pending,
            ).applied,
            forall|i: int| 0 <= i < caught.updates@.len() ==> (#[trigger] caught.updates@[i]).wf(),
    {
        let mut updates: Vec<OrderBook> = Vec::new();
        if self.phase == SyncPhase::Failed {
            return CatchUp { updates, outcome: SyncOutcome::Fatal };
        }
        self.book.seed(snapshot);
        let mut kept: Vec<DepthDiff> = Vec::new();
        core::mem::swap(&mut self.pending, &mut kept);
        let ghost all = diff_seq(kept@);
        let ghost start = seed_book(snapshot@);
        let mut i: usize = 0;
        let mut gap = false;
        proof {
            assert(all =~= old(self)@.pending);
            assert(all.subrange(0, 0) =~= Seq::<DiffSpec>::empty());
            assert(book_seq(updates@) =~= Seq::<BookSpec>::empty());
        }
        while i < kept.len() && !gap
            invariant
                i <= kept@.len(),
                all == diff_seq(kept@),
                self.book.wf(),
                book_is_live(self.book@),
                self.pending@.len() == 0,
                self.phase == old(self).phase,
                self.resyncs == old(self).resyncs,
                self.retry_ceiling == old(self).retry_ceiling,
                forall|k: int| 0 <= k < updates@.len() ==> (#[trigger] updates@[k]).wf(),
                replay(start, all.subrange(0, i as int + if gap { 1int } else { 0int }))
                    == (ReplaySpec {
                    book: self.book@,
                    applied: book_seq(updates@),
                    consumed: i as nat,
                    gap,
                }),
                gap ==> i < kept@.len(),
            decreases kept@.len() - i + if gap { 0int } else { 1int },
        {
            let ghost prefix = all.subrange(0, i as int);
            let ghost next = all.subrange(0, i + 1);
            proof {
                assert(next.drop_last() =~= prefix);
                assert(next.last() == kept@[i as int]@);
            }
            let ghost shown = book_seq(updates@);
            let spanning = updates.len() == 0 && kept[i].first_update_id
                <= self.book.last_update_id && self.book.last_update_id
                < kept[i].final_update_id;
            let offered = if spanning {
                Ok(apply_changes(&mut self.book, &kept[i]))
            } else {
                self.book.apply(&kept[i])
            };
            match offered {
                Ok(copy) => {
                    updates.push(copy);
                    proof {
                        assert(book_seq(updates@) =~= shown.push(copy@));
                    }
                    i += 1;
                },
                Err(SyncError::Stale) => {
                    i += 1;
                },
                Err(SyncError::Gap) => {
                    gap = true;
                },
            }
        }
        if gap {
            let rest = kept.split_off(i);
            self.pending = rest;
            self.note_gap();
            proof {
                lemma_replay_stops_at_gap(start, all, i as int);
                assert(self@.pending =~= old(self)@.pending.skip(i as int));
            }
        } else {
            self.phase = SyncPhase::Live;
            self.resyncs = 0;
            proof {
                assert(all.subrange(0, i as int) =~= all);
                assert(self@.pending =~= Seq::<DiffSpec>::empty());
            }
        }
        let outcome = match self.phase {
            SyncPhase::Live => SyncOutcome::Live,
            SyncPhase::AwaitingSnapshot => SyncOutcome::Resync,
            SyncPhase::Failed => SyncOutcome::Fatal,
        };
        CatchUp { updates, outcome }
    }
}

/// Once a gap has stopped a replay, diffs behind it change nothing.
pub proof fn lemma_replay_stops_at_gap(book: BookSpec, diffs: Seq<DiffSpec>, at: int)
    requires
        0 <= at < diffs.len(),
        replay(book, diffs.subrange(0, at + 1)).gap,
    ensures
        replay(book, diffs) == replay(book, diffs.subrange(0, at + 1)),
    decreases diffs.len(),
{
    if at + 1 == diffs.len() {
        assert(diffs.subrange(0, at + 1) =~= diffs);
    } else {
        let front = diffs.drop_last();
        assert(front.subrange(0, at + 1) =~= diffs.subrange(0, at + 1));
        lemma_replay_stops_at_gap(book, front, at);
    }
}

} // verus!
