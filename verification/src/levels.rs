//! Price levels and one side of an order book.
//!
//! A side maps a price to the quantity resting at it. Prices and quantities
//! are the decimal texts that the exchange sends; a level whose quantity is
//! zero stands for the removal of its price.

use vstd::prelude::*;
use crate::decimal::is_zero_decimal;

verus! {

/// A price level as a pair of texts: the price, then the quantity.
pub type LevelSpec = (Seq<char>, Seq<char>);

/// One side of a book as a mathematical map from price to quantity.
pub type SideSpec = Map<Seq<char>, Seq<char>>;

/// One price with the quantity resting at it.
#[derive(Debug)]
pub struct PriceLevel {
    pub price: String,
    pub quantity: String,
}

impl View for PriceLevel {
    type V = LevelSpec;

    open spec fn view(&self) -> LevelSpec {
        (self.price@, self.quantity@)
    }
}

/// The levels of a sequence, each as a pair of texts.
pub open spec fn level_seq(levels: Seq<PriceLevel>) -> Seq<LevelSpec> {
    Seq::new(levels.len(), |i: int| levels[i]@)
}

/// The pairs of a sequence, each as a pair of texts.
pub open spec fn pair_seq(pairs: Seq<(String, String)>) -> Seq<LevelSpec> {
    Seq::new(pairs.len(), |i: int| (pairs[i].0@, pairs[i].1@))
}

/// Whether a quantity asks for the removal of its price: it does where it
/// is zero, however the zero is spelled (`0`, `0.0`, `0.000`).
pub open spec fn is_removal(quantity: Seq<char>) -> bool {
    is_zero_decimal(quantity)
}

/// A side after one level change: a removal deletes the price, any other
/// quantity replaces what was there.
pub open spec fn apply_level(side: SideSpec, price: Seq<char>, quantity: Seq<char>) -> SideSpec {
    if is_removal(quantity) {
        side.remove(price)
    } else {
        side.insert(price, quantity)
    }
}

/// A side after a run of level changes, taken from first to last.
pub open spec fn apply_levels(side: SideSpec, changes: Seq<LevelSpec>) -> SideSpec
    decreases changes.len(),
{
    if changes.len() == 0 {
        side
    } else {
        let before = apply_levels(side, changes.drop_last());
        apply_level(before, changes.last().0, changes.last().1)
    }
}

/// Whether no price of a side carries a quantity of zero.
pub open spec fn has_no_empty_level(side: SideSpec) -> bool {
    forall|price: Seq<char>| #[trigger] side.contains_key(price) ==> !is_removal(side[price])
}

/// A level change never leaves a quantity of zero behind.
pub proof fn lemma_apply_level_keeps_levels_live(
    side: SideSpec,
    price: Seq<char>,
    quantity: Seq<char>,
)
    requires
        has_no_empty_level(side),
    ensures
        has_no_empty_level(apply_level(side, price, quantity)),
{
}

/// A run of level changes never leaves a quantity of zero behind.
pub proof fn lemma_apply_levels_keeps_levels_live(side: SideSpec, changes: Seq<LevelSpec>)
    requires
        has_no_empty_level(side),
    ensures
        has_no_empty_level(apply_levels(side, changes)),
    decreases changes.len(),
{
    if changes.len() > 0 {
        lemma_apply_levels_keeps_levels_live(side, changes.drop_last());
        lemma_apply_level_keeps_levels_live(
            apply_levels(side, changes.drop_last()),
            changes.last().0,
            changes.last().1,
        );
    }
}

/// Applying two runs one after the other is applying their concatenation.
pub proof fn lemma_apply_levels_concat(side: SideSpec, first: Seq<LevelSpec>, second: Seq<LevelSpec>)
    ensures
        apply_levels(apply_levels(side, first), second) == apply_levels(side, first + second),
    decreases second.len(),
{
    if second.len() == 0 {
        assert(first + second =~= first);
    } else {
        lemma_apply_levels_concat(side, first, second.drop_last());
        assert((first + second).drop_last() =~= first + second.drop_last());
        assert((first + second).last() == second.last());
    }
}

/// After a run of changes a price holds what the last change naming it set;
/// a price that no change names holds what it held before.
pub proof fn lemma_apply_levels_last_write_wins(
    side: SideSpec,
    changes: Seq<LevelSpec>,
    price: Seq<char>,
)
    ensures
        (forall|i: int| 0 <= i < changes.len() ==> changes[i].0 != price) ==> {
            &&& apply_levels(side, changes).contains_key(price) == side.contains_key(price)
            &&& side.contains_key(price) ==> apply_levels(side, changes)[price] == side[price]
        },
        forall|i: int|
            0 <= i < changes.len() && changes[i].0 == price && (forall|j: int|
                i < j < changes.len() ==> changes[j].0 != price) ==> {
                &&& apply_levels(side, changes).contains_key(price) == !is_removal(changes[i].1)
                &&& !is_removal(changes[i].1) ==> apply_levels(side, changes)[price]
                    == changes[i].1
            },
    decreases changes.len(),
{
    if changes.len() > 0 {
        let front = changes.drop_last();
        lemma_apply_levels_last_write_wins(side, front, price);
        assert forall|i: int|
            0 <= i < changes.len() && changes[i].0 == price && (forall|j: int|
                i < j < changes.len() ==> changes[j].0 != price) implies {
            &&& apply_levels(side, changes).contains_key(price) == !is_removal(changes[i].1)
            &&& !is_removal(changes[i].1) ==> apply_levels(side, changes)[price] == changes[i].1
        } by {
            if i < changes.len() - 1 {
                assert(changes.last().0 != price);
                assert(front[i] == changes[i]);
                assert(forall|j: int| i < j < front.len() ==> front[j] == changes[j]);
            }
        }
        if forall|i: int| 0 <= i < changes.len() ==> changes[i].0 != price {
            assert(changes.last().0 != price);
            assert(forall|i: int| 0 <= i < front.len() ==> front[i] == changes[i]);
        }
    }
}

} // verus!
