//! What holds of a book across many diffs: replaying a continuous chain is
//! folding its level changes, a replayed diff changes nothing, and a gap
//! never reaches the book.

use vstd::prelude::*;
use crate::events::{DiffSpec, SnapshotSpec};
use crate::levels::{apply_levels, lemma_apply_levels_concat, LevelSpec};
use crate::order_book::{
    apply_diff, is_gap, is_stale, offer_diff, refusal, seed_book, BookSpec, SyncError,
};
use crate::sync::{replay, replay_refusal, spans, ReplaySpec};

verus! {

/// The bid changes of a run of diffs, one diff after the other.
pub open spec fn all_bids(diffs: Seq<DiffSpec>) -> Seq<LevelSpec>
    decreases diffs.len(),
{
    if diffs.len() == 0 {
        Seq::empty()
    } else {
        all_bids(diffs.drop_last()) + diffs.last().bids
    }
}

/// The ask changes of a run of diffs, one diff after the other.
pub open spec fn all_asks(diffs: Seq<DiffSpec>) -> Seq<LevelSpec>
    decreases diffs.len(),
{
    if diffs.len() == 0 {
        Seq::empty()
    } else {
        all_asks(diffs.drop_last()) + diffs.last().asks
    }
}

/// The identifier of the last update after a run of diffs that were all
/// applied to a book whose last update was `last`.
pub open spec fn last_id_after(last: u64, diffs: Seq<DiffSpec>) -> u64 {
    if diffs.len() == 0 {
        last
    } else {
        diffs.last().final_update_id
    }
}

/// The event time after a run of diffs that were all applied to a book whose
/// time was `time`.
pub open spec fn time_after(time: u64, diffs: Seq<DiffSpec>) -> u64 {
    if diffs.len() == 0 {
        time
    } else {
        diffs.last().event_time
    }
}

/// Whether a run of diffs continues a book whose last update is `last`
/// without overlap and without gap: each diff ends beyond the one before
/// it and follows it directly.
pub open spec fn chain_is_continuous(last: u64, diffs: Seq<DiffSpec>) -> bool
    decreases diffs.len(),
{
    diffs.len() == 0 || {
        let front = diffs.drop_last();
        &&& chain_is_continuous(last, front)
        &&& !is_stale(last_id_after(last, front), diffs.last())
        &&& !is_gap(last_id_after(last, front), diffs.last())
    }
}

/// Whether a run of kept diffs continues a snapshot whose update is `last`:
/// the first diff spans the snapshot or follows it, and each later diff
/// follows the one before it.
pub open spec fn chain_follows_snapshot(last: u64, diffs: Seq<DiffSpec>) -> bool
    decreases diffs.len(),
{
    diffs.len() == 0 || {
        let front = diffs.drop_last();
        &&& chain_follows_snapshot(last, front)
        &&& replay_refusal(last_id_after(last, front), front.len() == 0, diffs.last()) is None
    }
}

/// A run that is continuous by the book's own rule continues a snapshot too.
pub proof fn lemma_continuous_chain_follows_snapshot(last: u64, diffs: Seq<DiffSpec>)
    requires
        chain_is_continuous(last, diffs),
    ensures
        chain_follows_snapshot(last, diffs),
    decreases diffs.len(),
{
    if diffs.len() > 0 {
        lemma_continuous_chain_follows_snapshot(last, diffs.drop_last());
    }
}

/// A book after a run of diffs was offered to it one by one.
pub open spec fn offer_all(book: BookSpec, diffs: Seq<DiffSpec>) -> BookSpec
    decreases diffs.len(),
{
    if diffs.len() == 0 {
        book
    } else {
        offer_diff(offer_all(book, diffs.drop_last()), diffs.last())
    }
}

/// Offering a continuous chain of diffs to a book one by one applies each of
/// them, and the book that results is the book obtained by folding all
/// their level changes over it in order.
pub proof fn lemma_offering_a_chain_is_fold(book: BookSpec, diffs: Seq<DiffSpec>)
    requires
        chain_is_continuous(book.last_update_id, diffs),
    ensures
        offer_all(book, diffs) == (BookSpec {
            bids: apply_levels(book.bids, all_bids(diffs)),
            asks: apply_levels(book.asks, all_asks(diffs)),
            last_update_id: last_id_after(book.last_update_id, diffs),
            time: time_after(book.time, diffs),
        }),
    decreases diffs.len(),
{
    if diffs.len() == 0 {
        assert(apply_levels(book.bids, all_bids(diffs)) == book.bids);
        assert(apply_levels(book.asks, all_asks(diffs)) == book.asks);
    } else {
        let front = diffs.drop_last();
        lemma_offering_a_chain_is_fold(book, front);
        assert(refusal(offer_all(book, front).last_update_id, diffs.last()) is None);
        lemma_apply_levels_concat(book.bids, all_bids(front), diffs.last().bids);
        lemma_apply_levels_concat(book.asks, all_asks(front), diffs.last().asks);
    }
}

/// The update identifiers of a continuous chain increase strictly.
pub proof fn lemma_chain_ids_increase(last: u64, diffs: Seq<DiffSpec>)
    requires
        chain_is_continuous(last, diffs),
    ensures
        forall|i: int| 0 <= i < diffs.len() ==> last < (#[trigger] diffs[i]).final_update_id,
        forall|i: int, j: int|
            0 <= i < j < diffs.len() ==> (#[trigger] diffs[i]).final_update_id < (
            #[trigger] diffs[j]).final_update_id,
    decreases diffs.len(),
{
    if diffs.len() > 0 {
        let front = diffs.drop_last();
        lemma_chain_ids_increase(last, front);
        assert(forall|i: int| 0 <= i < front.len() ==> front[i] == diffs[i]);
        assert forall|i: int| 0 <= i < diffs.len() implies last < (
        #[trigger] diffs[i]).final_update_id by {
            if i < front.len() {
                assert(front[i] == diffs[i]);
            } else if front.len() > 0 {
                assert(front[front.len() - 1] == diffs[front.len() - 1]);
            }
        }
        assert forall|i: int, j: int| 0 <= i < j < diffs.len() implies (
        #[trigger] diffs[i]).final_update_id < (#[trigger] diffs[j]).final_update_id by {
            assert(front[i] == diffs[i]);
            if j < front.len() {
                assert(front[j] == diffs[j]);
            } else if i < front.len() - 1 {
                assert(front[front.len() - 1] == diffs[front.len() - 1]);
            }
        }
    }
}

/// Replaying a run of kept diffs that continues the snapshot applies each
/// of them, and the book that results is the book obtained by folding all
/// their level changes over it in order: a later change to a price wins,
/// and a quantity of zero deletes the price. The book published for a diff
/// is the book right after that diff.
pub proof fn lemma_replay_of_chain_is_fold(book: BookSpec, diffs: Seq<DiffSpec>)
    requires
        chain_follows_snapshot(book.last_update_id, diffs),
    ensures
        forall|k: int|
            0 <= k < diffs.len() ==> (#[trigger] replay(book, diffs).applied[k]) == replay(
                book,
                diffs.subrange(0, k + 1),
            ).book,
        !replay(book, diffs).gap,
        replay(book, diffs).consumed == diffs.len(),
        replay(book, diffs).applied.len() == diffs.len(),
        replay(book, diffs).book == (BookSpec {
            bids: apply_levels(book.bids, all_bids(diffs)),
            asks: apply_levels(book.asks, all_asks(diffs)),
            last_update_id: last_id_after(book.last_update_id, diffs),
            time: time_after(book.time, diffs),
        }),
        diffs.len() > 0 ==> replay(book, diffs).applied.last() == replay(book, diffs).book,
    decreases diffs.len(),
{
    if diffs.len() == 0 {
        assert(apply_levels(book.bids, all_bids(diffs)) == book.bids);
        assert(apply_levels(book.asks, all_asks(diffs)) == book.asks);
    } else {
        let front = diffs.drop_last();
        lemma_replay_of_chain_is_fold(book, front);
        let before = replay(book, front);
        assert(before.book.last_update_id == last_id_after(book.last_update_id, front));
        assert(replay_refusal(before.book.last_update_id, before.applied.len() == 0, diffs.last())
            is None);
        lemma_apply_levels_concat(book.bids, all_bids(front), diffs.last().bids);
        lemma_apply_levels_concat(book.asks, all_asks(front), diffs.last().asks);
        assert forall|k: int| 0 <= k < diffs.len() implies (#[trigger] replay(
            book,
            diffs,
        ).applied[k]) == replay(book, diffs.subrange(0, k + 1)).book by {
            if k < front.len() {
                assert(front.subrange(0, k + 1) =~= diffs.subrange(0, k + 1));
                assert(replay(book, diffs).applied[k] == before.applied[k]);
            } else {
                assert(diffs.subrange(0, k + 1) =~= diffs);
            }
        }
    }
}

/// The same for a book seeded from a snapshot: after a run of kept diffs
/// that continues the snapshot the book holds the snapshot's levels with all
/// changes folded in.
pub proof fn lemma_seeded_replay_is_fold(snapshot: SnapshotSpec, diffs: Seq<DiffSpec>)
    requires
        chain_follows_snapshot(snapshot.last_update_id, diffs),
    ensures
        replay(seed_book(snapshot), diffs).book.bids == apply_levels(
            Map::empty(),
            snapshot.bids + all_bids(diffs),
        ),
        replay(seed_book(snapshot), diffs).book.asks == apply_levels(
            Map::empty(),
            snapshot.asks + all_asks(diffs),
        ),
        replay(seed_book(snapshot), diffs).book.last_update_id == last_id_after(
            snapshot.last_update_id,
            diffs,
        ),
{
    lemma_replay_of_chain_is_fold(seed_book(snapshot), diffs);
    lemma_apply_levels_concat(Map::empty(), snapshot.bids, all_bids(diffs));
    lemma_apply_levels_concat(Map::empty(), snapshot.asks, all_asks(diffs));
}

/// A diff that ends at or before the book's last update is refused as
/// stale and leaves the book as it is.
pub proof fn lemma_stale_diff_changes_nothing(book: BookSpec, diff: DiffSpec)
    requires
        diff.final_update_id <= book.last_update_id,
    ensures
        refusal(book.last_update_id, diff) == Some(SyncError::Stale),
        offer_diff(book, diff) == book,
{
}

/// Offering a diff a second time changes nothing: once applied it is stale,
/// and once refused it is refused again.
pub proof fn lemma_offer_is_idempotent(book: BookSpec, diff: DiffSpec)
    ensures
        offer_diff(offer_diff(book, diff), diff) == offer_diff(book, diff),
{
}

/// A diff that is not stale and does not follow the book's last update is
/// refused as a gap and leaves the book as it is.
pub proof fn lemma_gap_leaves_book(book: BookSpec, diff: DiffSpec)
    requires
        !is_stale(book.last_update_id, diff),
        is_gap(book.last_update_id, diff),
    ensures
        refusal(book.last_update_id, diff) == Some(SyncError::Gap),
        offer_diff(book, diff) == book,
{
}

/// The book changes exactly where no refusal is given: a refused diff
/// never reaches it.
pub proof fn lemma_refused_diff_leaves_book(book: BookSpec, diff: DiffSpec)
    ensures
        refusal(book.last_update_id, diff) is Some ==> offer_diff(book, diff) == book,
        refusal(book.last_update_id, diff) is None ==> offer_diff(book, diff) == apply_diff(
            book,
            diff,
        ),
{
}

/// The books that a replay publishes come in the order of their updates:
/// each carries a later update than the one before it and than the book
/// that the replay started from, and none is later than the book that the
/// replay ends with.
pub proof fn lemma_published_ids_increase(book: BookSpec, diffs: Seq<DiffSpec>)
    ensures
        book.last_update_id <= replay(book, diffs).book.last_update_id,
        forall|i: int|
            0 <= i < replay(book, diffs).applied.len() ==> {
                &&& book.last_update_id < (#[trigger] replay(
                    book,
                    diffs,
                ).applied[i]).last_update_id
                &&& replay(book, diffs).applied[i].last_update_id <= replay(
                    book,
                    diffs,
                ).book.last_update_id
            },
        forall|i: int, j: int|
            0 <= i < j < replay(book, diffs).applied.len() ==> (#[trigger] replay(
                book,
                diffs,
            ).applied[i]).last_update_id < (#[trigger] replay(book, diffs).applied[j]).last_update_id,
    decreases diffs.len(),
{
    if diffs.len() > 0 {
        let front = diffs.drop_last();
        lemma_published_ids_increase(book, front);
        let before = replay(book, front);
        let after = replay(book, diffs);
        if !before.gap && refusal(before.book.last_update_id, diffs.last()) is None {
            let next = apply_diff(before.book, diffs.last());
            assert(after.applied == before.applied.push(next));
            assert(before.book.last_update_id < next.last_update_id);
            assert forall|i: int| 0 <= i < after.applied.len() implies {
                &&& book.last_update_id < (#[trigger] after.applied[i]).last_update_id
                &&& after.applied[i].last_update_id <= after.book.last_update_id
            } by {
                if i < before.applied.len() {
                    assert(after.applied[i] == before.applied[i]);
                }
            }
            assert forall|i: int, j: int| 0 <= i < j < after.applied.len() implies (
            #[trigger] after.applied[i]).last_update_id < (
            #[trigger] after.applied[j]).last_update_id by {
                assert(after.applied[i] == before.applied[i]);
                if j < before.applied.len() {
                    assert(after.applied[j] == before.applied[j]);
                }
            }
        }
    }
}

/// A kept diff that ends at or before the update that the replay started
/// from is dropped wherever it stands among the kept diffs: it changes
/// neither the book nor what is published.
pub proof fn lemma_replay_drops_old_diff(book: BookSpec, diffs: Seq<DiffSpec>, at: int)
    requires
        0 <= at < diffs.len(),
        diffs[at].final_update_id <= book.last_update_id,
    ensures
        replay(book, diffs.subrange(0, at + 1)).book == replay(book, diffs.subrange(0, at)).book,
        replay(book, diffs.subrange(0, at + 1)).applied == replay(
            book,
            diffs.subrange(0, at),
        ).applied,
        replay(book, diffs.subrange(0, at + 1)).gap == replay(book, diffs.subrange(0, at)).gap,
{
    let shorter = diffs.subrange(0, at);
    let longer = diffs.subrange(0, at + 1);
    assert(longer.drop_last() =~= shorter);
    assert(longer.last() == diffs[at]);
    lemma_published_ids_increase(book, shorter);
}

/// Kept diffs that end at or before the book's last update are all dropped
/// by a replay: none is applied, none is a gap, and the book stays as it is.
pub proof fn lemma_replay_drops_stale(book: BookSpec, diffs: Seq<DiffSpec>)
    requires
        forall|i: int| 0 <= i < diffs.len() ==> (#[trigger] diffs[i]).final_update_id
            <= book.last_update_id,
    ensures
        replay(book, diffs) == (ReplaySpec {
            book,
            applied: Seq::empty(),
            consumed: diffs.len(),
            gap: false,
        }),
    decreases diffs.len(),
{
    if diffs.len() > 0 {
        let front = diffs.drop_last();
        assert(forall|i: int| 0 <= i < front.len() ==> front[i] == diffs[i]);
        lemma_replay_drops_stale(book, front);
        assert(diffs.last() == diffs[diffs.len() - 1]);
    }
}

/// The kept diffs that end beyond an update, in arrival order.
pub open spec fn newer_than(last: u64, diffs: Seq<DiffSpec>) -> Seq<DiffSpec>
    decreases diffs.len(),
{
    if diffs.len() == 0 {
        Seq::empty()
    } else if diffs.last().final_update_id <= last {
        newer_than(last, diffs.drop_last())
    } else {
        newer_than(last, diffs.drop_last()).push(diffs.last())
    }
}

/// A replay passes over the kept diffs that end at or before the update it
/// started from, wherever they stand: the book, what is published and
/// whether a gap was met are those of the replay of the other diffs alone.
pub proof fn lemma_replay_passes_over_old_diffs(book: BookSpec, diffs: Seq<DiffSpec>)
    ensures
        replay(book, diffs).book == replay(book, newer_than(book.last_update_id, diffs)).book,
        replay(book, diffs).applied == replay(
            book,
            newer_than(book.last_update_id, diffs),
        ).applied,
        replay(book, diffs).gap == replay(book, newer_than(book.last_update_id, diffs)).gap,
    decreases diffs.len(),
{
    if diffs.len() > 0 {
        let front = diffs.drop_last();
        lemma_replay_passes_over_old_diffs(book, front);
        lemma_published_ids_increase(book, front);
        let newer = newer_than(book.last_update_id, front);
        if diffs.last().final_update_id > book.last_update_id {
            let longer = newer.push(diffs.last());
            assert(longer.drop_last() =~= newer);
            assert(longer.last() == diffs.last());
        }
    }
}

/// The first kept diff that a replay applies may span the snapshot: it is
/// applied whatever predecessor it names.
pub proof fn lemma_replay_applies_diff_across_snapshot(snapshot: SnapshotSpec, diff: DiffSpec)
    requires
        spans(snapshot.last_update_id, diff),
    ensures
        replay(seed_book(snapshot), seq![diff]) == (ReplaySpec {
            book: apply_diff(seed_book(snapshot), diff),
            applied: seq![apply_diff(seed_book(snapshot), diff)],
            consumed: 1,
            gap: false,
        }),
{
    let one = seq![diff];
    assert(one.drop_last() =~= Seq::<DiffSpec>::empty());
    assert(one.last() == diff);
    assert(replay(seed_book(snapshot), one.drop_last()).applied.len() == 0);
    assert(Seq::<BookSpec>::empty().push(apply_diff(seed_book(snapshot), diff)) =~= seq![
        apply_diff(seed_book(snapshot), diff),
    ]);
}

/// Catching up after a snapshot, with the kept diffs in any order of
/// arrival: those that end at or before the snapshot's update are dropped,
/// and where the others continue the snapshot each of them is applied once,
/// in arrival order, with one published book for each, the book right after
/// it.
pub proof fn lemma_catch_up_applies_the_newer_diffs(snapshot: SnapshotSpec, kept: Seq<DiffSpec>)
    requires
        chain_follows_snapshot(
            snapshot.last_update_id,
            newer_than(snapshot.last_update_id, kept),
        ),
    ensures
        !replay(seed_book(snapshot), kept).gap,
        replay(seed_book(snapshot), kept).applied.len() == newer_than(
            snapshot.last_update_id,
            kept,
        ).len(),
        forall|k: int|
            0 <= k < newer_than(snapshot.last_update_id, kept).len() ==> (#[trigger] replay(
                seed_book(snapshot),
                kept,
            ).applied[k]) == replay(
                seed_book(snapshot),
                newer_than(snapshot.last_update_id, kept).subrange(0, k + 1),
            ).book,
        replay(seed_book(snapshot), kept).book.bids == apply_levels(
            Map::empty(),
            snapshot.bids + all_bids(newer_than(snapshot.last_update_id, kept)),
        ),
        replay(seed_book(snapshot), kept).book.asks == apply_levels(
            Map::empty(),
            snapshot.asks + all_asks(newer_than(snapshot.last_update_id, kept)),
        ),
        replay(seed_book(snapshot), kept).book.last_update_id == last_id_after(
            snapshot.last_update_id,
            newer_than(snapshot.last_update_id, kept),
        ),
{
    let seeded = seed_book(snapshot);
    let newer = newer_than(snapshot.last_update_id, kept);
    lemma_replay_passes_over_old_diffs(seeded, kept);
    lemma_replay_of_chain_is_fold(seeded, newer);
    lemma_seeded_replay_is_fold(snapshot, newer);
}

} // verus!
