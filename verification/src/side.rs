//! One side of an order book, held as a list of levels with distinct prices.

use vstd::prelude::*;
use crate::decimal::spells_zero;
use crate::levels::{
    apply_level, apply_levels, has_no_empty_level, is_removal, level_seq, pair_seq, LevelSpec,
    PriceLevel, SideSpec,
};

verus! {

/// Whether each price of a list of levels occurs once.
pub open spec fn prices_distinct(levels: Seq<PriceLevel>) -> bool {
    forall|i: int, j: int|
        0 <= i < j < levels.len() ==> (#[trigger] levels[i]).price@ != (#[trigger] levels[j]).price@
}

/// Whether no level of a list carries a quantity of zero.
pub open spec fn quantities_live(levels: Seq<PriceLevel>) -> bool {
    forall|i: int| 0 <= i < levels.len() ==> !is_removal((#[trigger] levels[i]).quantity@)
}

/// Whether a list of levels names a price.
pub open spec fn names_price(levels: Seq<PriceLevel>, price: Seq<char>) -> bool {
    exists|i: int| 0 <= i < levels.len() && (#[trigger] levels[i]).price@ == price
}

/// A position of a list of levels at which a price stands.
pub open spec fn position_of(levels: Seq<PriceLevel>, price: Seq<char>) -> int {
    choose|i: int| 0 <= i < levels.len() && (#[trigger] levels[i]).price@ == price
}

/// The map from price to quantity that a list of levels stands for.
pub open spec fn side_of(levels: Seq<PriceLevel>) -> SideSpec {
    Map::new(
        |price: Seq<char>| names_price(levels, price),
        |price: Seq<char>| levels[position_of(levels, price)].quantity@,
    )
}

/// With distinct prices, each level of the list is an entry of the map.
pub proof fn lemma_side_of_entries(levels: Seq<PriceLevel>)
    requires
        prices_distinct(levels),
    ensures
        forall|i: int|
            0 <= i < levels.len() ==> {
                &&& side_of(levels).contains_key((#[trigger] levels[i]).price@)
                &&& side_of(levels)[levels[i].price@] == levels[i].quantity@
            },
        forall|price: Seq<char>| #[trigger]
            side_of(levels).contains_key(price) ==> {
                &&& 0 <= position_of(levels, price) < levels.len()
                &&& levels[position_of(levels, price)].price@ == price
            },
{
    assert forall|i: int| 0 <= i < levels.len() implies {
        &&& side_of(levels).contains_key((#[trigger] levels[i]).price@)
        &&& side_of(levels)[levels[i].price@] == levels[i].quantity@
    } by {
        let price = levels[i].price@;
        assert(names_price(levels, price));
        let k = position_of(levels, price);
        assert(0 <= k < levels.len() && levels[k].price@ == price);
        if k < i {
            assert(levels[k].price@ != levels[i].price@);
        } else if i < k {
            assert(levels[i].price@ != levels[k].price@);
        }
    }
}

/// One side of an order book: each price once, none with the removal
/// quantity.
#[derive(Debug)]
pub struct BookSide {
    levels: Vec<PriceLevel>,
}

impl View for BookSide {
    type V = SideSpec;

    closed spec fn view(&self) -> SideSpec {
        side_of(self.levels@)
    }
}

/// Whether a quantity asks for the removal of its price: whether it is
/// zero, however the zero is spelled.
pub fn quantity_is_removal(quantity: &String) -> (removal: bool)
    ensures
        removal == is_removal(quantity@),
{
    spells_zero(quantity.as_str())
}

/// A copy of a level.
pub fn copy_level(level: &PriceLevel) -> (copy: PriceLevel)
    ensures
        copy@ == level@,
{
    PriceLevel { price: level.price.clone(), quantity: level.quantity.clone() }
}

/// A copy of a list of levels.
pub fn copy_levels(levels: &Vec<PriceLevel>) -> (copy: Vec<PriceLevel>)
    ensures
        level_seq(copy@) == level_seq(levels@),
        copy@.len() == levels@.len(),
        forall|i: int| 0 <= i < levels@.len() ==> (#[trigger] copy@[i])@ == levels@[i]@,
{
    let mut copy: Vec<PriceLevel> = Vec::new();
    let mut i: usize = 0;
    while i < levels.len()
        invariant
            i <= levels@.len(),
            copy@.len() == i,
            forall|k: int| 0 <= k < i ==> (#[trigger] copy@[k])@ == levels@[k]@,
        decreases levels@.len() - i,
    {
        copy.push(copy_level(&levels[i]));
        i += 1;
    }
    assert(level_seq(copy@) =~= level_seq(levels@));
    copy
}

impl BookSide {
    /// Whether this side is well formed: each price once, none with a
    /// quantity of zero. Every constructor gives such a side and every
    /// method keeps it so.
    pub closed spec fn wf(&self) -> bool {
        prices_distinct(self.levels@) && quantities_live(self.levels@)
    }

    /// The levels of this side in the order in which `levels` hands them
    /// out. The map says what the side holds; the order serves where levels
    /// are added up one by one.
    pub closed spec fn listing(&self) -> Seq<LevelSpec> {
        level_seq(self.levels@)
    }

    /// A side without levels.
    pub fn new() -> (side: BookSide)
        ensures
            side.wf(),
            side@ == Map::<Seq<char>, Seq<char>>::empty(),
    {
        let side = BookSide { levels: Vec::new() };
        assert(side@ =~= Map::<Seq<char>, Seq<char>>::empty());
        side
    }

    /// The number of prices on this side.
    pub fn len(&self) -> (count: usize)
        requires
            self.wf(),
        ensures
            self@.dom().finite(),
            count == self@.dom().len(),
            has_no_empty_level(self@),
    {
        proof {
            lemma_side_of_size(self.levels@);
            lemma_side_of_live(self.levels@);
        }
        self.levels.len()
    }

    /// Whether this side has no price.
    pub fn is_empty(&self) -> (empty: bool)
        requires
            self.wf(),
        ensures
            empty == (self@ == Map::<Seq<char>, Seq<char>>::empty()),
    {
        proof {
            lemma_side_of_entries(self.levels@);
            if self.levels@.len() == 0 {
                assert(self@ =~= Map::<Seq<char>, Seq<char>>::empty());
            } else {
                assert(self@.contains_key(self.levels@[0].price@));
            }
        }
        self.levels.len() == 0
    }

    fn find(&self, price: &String) -> (found: Option<usize>)
        ensures
            match found {
                Some(i) => i < self.levels@.len() && self.levels@[i as int].price@ == price@,
                None => !names_price(self.levels@, price@),
            },
    {
        let mut i: usize = 0;
        while i < self.levels.len()
            invariant
                i <= self.levels@.len(),
                forall|k: int| 0 <= k < i ==> (#[trigger] self.levels@[k]).price@ != price@,
            decreases self.levels@.len() - i,
        {
            if self.levels[i].price == *price {
                return Some(i);
            }
            i += 1;
        }
        None
    }

    /// The quantity resting at a price, if the side holds the price.
    pub fn get(&self, price: &str) -> (quantity: Option<String>)
        requires
            self.wf(),
        ensures
            match quantity {
                Some(q) => self@.contains_key(price@) && q@ == self@[price@] && !is_removal(q@),
                None => !self@.contains_key(price@),
            },
    {
        let key = price.to_owned();
        proof {
            lemma_side_of_entries(self.levels@);
            lemma_side_of_live(self.levels@);
        }
        match self.find(&key) {
            Some(i) => Some(self.levels[i].quantity.clone()),
            None => None,
        }
    }

    /// Whether the side holds a price.
    pub fn contains(&self, price: &str) -> (held: bool)
        requires
            self.wf(),
        ensures
            held == self@.contains_key(price@),
    {
        let key = price.to_owned();
        proof {
            lemma_side_of_entries(self.levels@);
        }
        self.find(&key).is_some()
    }

    /// The levels of this side, each price once, in no particular order.
    pub fn levels(&self) -> (list: Vec<PriceLevel>)
        requires
            self.wf(),
        ensures
            prices_distinct(list@),
            quantities_live(list@),
            side_of(list@) == self@,
            level_seq(list@) == self.listing(),
    {
        let list = copy_levels(&self.levels);
        proof {
            lemma_side_of_same_levels(list@, self.levels@);
        }
        list
    }

    /// A copy of this side.
    pub fn duplicate(&self) -> (copy: BookSide)
        requires
            self.wf(),
        ensures
            copy.wf(),
            copy@ == self@,
            copy.listing() == self.listing(),
    {
        let list = copy_levels(&self.levels);
        proof {
            lemma_side_of_same_levels(list@, self.levels@);
        }
        BookSide { levels: list }
    }

    /// Removes every level.
    pub fn clear(&mut self)
        ensures
            final(self).wf(),
            final(self)@ == Map::<Seq<char>, Seq<char>>::empty(),
    {
        self.levels = Vec::new();
        assert(self@ =~= Map::<Seq<char>, Seq<char>>::empty());
    }

    /// Applies one level change: a quantity of zero deletes the price, any
    /// other quantity is stored under it.
    pub fn set_level(&mut self, price: &String, quantity: &String)
        requires
            old(self).wf(),
        ensures
            final(self).wf(),
            final(self)@ == apply_level(old(self)@, price@, quantity@),
            has_no_empty_level(final(self)@),
    {
        proof {
            lemma_side_of_entries(self.levels@);
        }
        let ghost before = self.levels@;
        let found = self.find(price);
        let removal = quantity_is_removal(quantity);
        match found {
            Some(i) => {
                if removal {
                    self.levels.remove(i);
                    proof {
                        lemma_side_after_remove(before, i as int);
                    }
                } else {
                    let level = PriceLevel { price: price.clone(), quantity: quantity.clone() };
                    self.levels[i] = level;
                    proof {
                        lemma_side_after_replace(before, i as int, self.levels@[i as int]);
                    }
                }
            },
            None => {
                if removal {
                    assert(side_of(before).remove(price@) =~= side_of(before));
                } else {
                    let level = PriceLevel { price: price.clone(), quantity: quantity.clone() };
                    self.levels.push(level);
                    proof {
                        lemma_side_after_push(before, self.levels@[before.len() as int]);
                    }
                }
            },
        }
        proof {
            lemma_side_of_live(self.levels@);
        }
    }

    /// Applies a run of price and quantity pairs, from first to last.
    pub fn apply_pairs(&mut self, changes: &Vec<(String, String)>)
        requires
            old(self).wf(),
        ensures
            final(self).wf(),
            final(self)@ == apply_levels(old(self)@, pair_seq(changes@)),
            has_no_empty_level(final(self)@),
    {
        let ghost all = pair_seq(changes@);
        let mut i: usize = 0;
        proof {
            lemma_side_of_live(self.levels@);
            assert(all.subrange(0, 0) =~= Seq::<LevelSpec>::empty());
        }
        while i < changes.len()
            invariant
                i <= changes@.len(),
                all == pair_seq(changes@),
                self.wf(),
                self@ == apply_levels(old(self)@, all.subrange(0, i as int)),
                has_no_empty_level(self@),
            decreases changes@.len() - i,
        {
            self.set_level(&changes[i].0, &changes[i].1);
            proof {
                let next = all.subrange(0, i + 1);
                assert(next.drop_last() =~= all.subrange(0, i as int));
                assert(next.last() == (changes@[i as int].0@, changes@[i as int].1@));
            }
            i += 1;
        }
        proof {
            assert(all.subrange(0, i as int) =~= all);
        }
    }

    /// Applies a run of level changes, from first to last.
    pub fn apply(&mut self, changes: &Vec<PriceLevel>)
        requires
            old(self).wf(),
        ensures
            final(self).wf(),
            final(self)@ == apply_levels(old(self)@, level_seq(changes@)),
            has_no_empty_level(final(self)@),
    {
        let ghost all = level_seq(changes@);
        let mut i: usize = 0;
        proof {
            lemma_side_of_live(self.levels@);
            assert(all.subrange(0, 0) =~= Seq::<LevelSpec>::empty());
        }
        while i < changes.len()
            invariant
                i <= changes@.len(),
                all == level_seq(changes@),
                self.wf(),
                self@ == apply_levels(old(self)@, all.subrange(0, i as int)),
                has_no_empty_level(self@),
            decreases changes@.len() - i,
        {
            self.set_level(&changes[i].price, &changes[i].quantity);
            proof {
                let next = all.subrange(0, i + 1);
                assert(next.drop_last() =~= all.subrange(0, i as int));
                assert(next.last() == changes@[i as int]@);
            }
            i += 1;
        }
        proof {
            assert(all.subrange(0, i as int) =~= all);
        }
    }
}

/// Two lists with the same levels stand for the same map.
pub proof fn lemma_side_of_same_levels(first: Seq<PriceLevel>, second: Seq<PriceLevel>)
    requires
        first.len() == second.len(),
        forall|i: int| 0 <= i < first.len() ==> (#[trigger] first[i])@ == second[i]@,
        prices_distinct(second),
    ensures
        prices_distinct(first),
        quantities_live(second) ==> quantities_live(first),
        side_of(first) == side_of(second),
{
    assert forall|i: int, j: int| 0 <= i < j < first.len() implies (#[trigger] first[i]).price@ != (
    #[trigger] first[j]).price@ by {
        assert(first[i]@ == second[i]@);
        assert(first[j]@ == second[j]@);
        assert(second[i].price@ != second[j].price@);
    }
    if quantities_live(second) {
        assert forall|i: int| 0 <= i < first.len() implies !is_removal(
            (#[trigger] first[i]).quantity@,
        ) by {
            assert(first[i]@ == second[i]@);
            assert(!is_removal(second[i].quantity@));
        }
    }
    lemma_side_of_entries(first);
    lemma_side_of_entries(second);
    assert forall|price: Seq<char>| side_of(first).contains_key(price) implies side_of(
        second,
    ).contains_key(price) && side_of(first)[price] == side_of(second)[price] by {
        let k = position_of(first, price);
        assert(first[k]@ == second[k]@);
        assert(side_of(second).contains_key(second[k].price@));
    }
    assert forall|price: Seq<char>| side_of(second).contains_key(price) implies side_of(
        first,
    ).contains_key(price) by {
        let k = position_of(second, price);
        assert(first[k]@ == second[k]@);
        assert(side_of(first).contains_key(first[k].price@));
    }
    assert(side_of(first) =~= side_of(second));
}

/// With live quantities in the list, no entry of the map is a removal.
pub proof fn lemma_side_of_live(levels: Seq<PriceLevel>)
    requires
        prices_distinct(levels),
        quantities_live(levels),
    ensures
        has_no_empty_level(side_of(levels)),
{
    lemma_side_of_entries(levels);
    assert forall|price: Seq<char>| #[trigger]
        side_of(levels).contains_key(price) implies !is_removal(side_of(levels)[price]) by {
        let k = position_of(levels, price);
        assert(side_of(levels)[levels[k].price@] == levels[k].quantity@);
    }
}

/// With distinct prices, the map has as many entries as the list has levels.
pub proof fn lemma_side_of_size(levels: Seq<PriceLevel>)
    requires
        prices_distinct(levels),
    ensures
        side_of(levels).dom().finite(),
        side_of(levels).dom().len() == levels.len(),
    decreases levels.len(),
{
    if levels.len() == 0 {
        assert(side_of(levels).dom() =~= Set::<Seq<char>>::empty());
    } else {
        let front = levels.drop_last();
        let last = levels.last();
        assert(prices_distinct(front)) by {
            assert forall|i: int, j: int| 0 <= i < j < front.len() implies (#[trigger] front[i]).price@
                != (#[trigger] front[j]).price@ by {
                assert(front[i] == levels[i]);
                assert(front[j] == levels[j]);
            }
        }
        lemma_side_of_size(front);
        lemma_side_of_entries(front);
        lemma_side_of_entries(levels);
        assert(!side_of(front).contains_key(last.price@)) by {
            if side_of(front).contains_key(last.price@) {
                let k = position_of(front, last.price@);
                assert(front[k] == levels[k]);
                assert(levels[k].price@ != levels[levels.len() - 1].price@);
            }
        }
        assert(side_of(levels).dom() =~= side_of(front).dom().insert(last.price@)) by {
            assert forall|price: Seq<char>|
                side_of(levels).dom().contains(price) implies side_of(front).dom().insert(
                last.price@,
            ).contains(price) by {
                let k = position_of(levels, price);
                if k < front.len() {
                    assert(front[k] == levels[k]);
                    assert(side_of(front).contains_key(front[k].price@));
                }
            }
            assert forall|price: Seq<char>|
                side_of(front).dom().insert(last.price@).contains(price) implies side_of(
                levels,
            ).dom().contains(price) by {
                if price == last.price@ {
                    assert(side_of(levels).contains_key(levels[levels.len() - 1].price@));
                } else {
                    let k = position_of(front, price);
                    assert(front[k] == levels[k]);
                    assert(side_of(levels).contains_key(levels[k].price@));
                }
            }
        }
    }
}

/// Taking a level out of the list removes its price from the map.
pub proof fn lemma_side_after_remove(levels: Seq<PriceLevel>, at: int)
    requires
        prices_distinct(levels),
        0 <= at < levels.len(),
    ensures
        prices_distinct(levels.remove(at)),
        quantities_live(levels) ==> quantities_live(levels.remove(at)),
        side_of(levels.remove(at)) == side_of(levels).remove(levels[at].price@),
{
    let rest = levels.remove(at);
    assert forall|i: int| 0 <= i < rest.len() implies #[trigger] rest[i] == levels[if i < at {
        i
    } else {
        i + 1
    }] by {}
    assert forall|i: int, j: int| 0 <= i < j < rest.len() implies (#[trigger] rest[i]).price@ != (
    #[trigger] rest[j]).price@ by {
        let a = if i < at { i } else { i + 1 };
        let b = if j < at { j } else { j + 1 };
        assert(rest[i] == levels[a]);
        assert(rest[j] == levels[b]);
        assert(levels[a].price@ != levels[b].price@);
    }
    if quantities_live(levels) {
        assert forall|i: int| 0 <= i < rest.len() implies !is_removal(
            (#[trigger] rest[i]).quantity@,
        ) by {
            let a = if i < at { i } else { i + 1 };
            assert(rest[i] == levels[a]);
            assert(!is_removal(levels[a].quantity@));
        }
    }
    lemma_side_of_entries(levels);
    lemma_side_of_entries(rest);
    let target = side_of(levels).remove(levels[at].price@);
    assert forall|price: Seq<char>| side_of(rest).contains_key(price) implies target.contains_key(
        price,
    ) && side_of(rest)[price] == target[price] by {
        let k = position_of(rest, price);
        let a = if k < at { k } else { k + 1 };
        assert(rest[k] == levels[a]);
        assert(side_of(levels).contains_key(levels[a].price@));
        if a < at {
            assert(levels[a].price@ != levels[at].price@);
        } else {
            assert(levels[at].price@ != levels[a].price@);
        }
    }
    assert forall|price: Seq<char>| target.contains_key(price) implies side_of(rest).contains_key(
        price,
    ) by {
        let a = position_of(levels, price);
        assert(a != at);
        let k = if a < at { a } else { a - 1 };
        assert(rest[k] == levels[a]);
        assert(side_of(rest).contains_key(rest[k].price@));
    }
    assert(side_of(rest) =~= target);
}

/// Replacing a level by one of the same price stores the new quantity.
pub proof fn lemma_side_after_replace(levels: Seq<PriceLevel>, at: int, level: PriceLevel)
    requires
        prices_distinct(levels),
        0 <= at < levels.len(),
        level.price@ == levels[at].price@,
    ensures
        prices_distinct(levels.update(at, level)),
        quantities_live(levels) && !is_removal(level.quantity@) ==> quantities_live(
            levels.update(at, level),
        ),
        side_of(levels.update(at, level)) == side_of(levels).insert(level.price@, level.quantity@),
{
    let next = levels.update(at, level);
    assert forall|i: int, j: int| 0 <= i < j < next.len() implies (#[trigger] next[i]).price@ != (
    #[trigger] next[j]).price@ by {
        assert(next[i].price@ == levels[i].price@);
        assert(next[j].price@ == levels[j].price@);
        assert(levels[i].price@ != levels[j].price@);
    }
    if quantities_live(levels) && !is_removal(level.quantity@) {
        assert forall|i: int| 0 <= i < next.len() implies !is_removal(
            (#[trigger] next[i]).quantity@,
        ) by {
            if i != at {
                assert(next[i] == levels[i]);
                assert(!is_removal(levels[i].quantity@));
            }
        }
    }
    lemma_side_of_entries(levels);
    lemma_side_of_entries(next);
    let target = side_of(levels).insert(level.price@, level.quantity@);
    assert forall|price: Seq<char>| side_of(next).contains_key(price) implies target.contains_key(
        price,
    ) && side_of(next)[price] == target[price] by {
        let k = position_of(next, price);
        assert(side_of(next)[next[k].price@] == next[k].quantity@);
        if k != at {
            assert(next[k] == levels[k]);
            assert(side_of(levels).contains_key(levels[k].price@));
            assert(side_of(levels)[levels[k].price@] == levels[k].quantity@);
            if k < at {
                assert(levels[k].price@ != levels[at].price@);
            } else {
                assert(levels[at].price@ != levels[k].price@);
            }
        }
    }
    assert forall|price: Seq<char>| target.contains_key(price) implies side_of(next).contains_key(
        price,
    ) by {
        if price == level.price@ {
            assert(side_of(next).contains_key(next[at].price@));
        } else {
            let k = position_of(levels, price);
            assert(next[k] == levels[k]);
            assert(side_of(next).contains_key(next[k].price@));
        }
    }
    assert(side_of(next) =~= target);
}

/// Appending a level with a new price stores its quantity.
pub proof fn lemma_side_after_push(levels: Seq<PriceLevel>, level: PriceLevel)
    requires
        prices_distinct(levels),
        !names_price(levels, level.price@),
    ensures
        prices_distinct(levels.push(level)),
        quantities_live(levels) && !is_removal(level.quantity@) ==> quantities_live(
            levels.push(level),
        ),
        side_of(levels.push(level)) == side_of(levels).insert(level.price@, level.quantity@),
{
    let next = levels.push(level);
    assert forall|i: int, j: int| 0 <= i < j < next.len() implies (#[trigger] next[i]).price@ != (
    #[trigger] next[j]).price@ by {
        assert(next[i] == levels[i]);
        if j < levels.len() {
            assert(next[j] == levels[j]);
            assert(levels[i].price@ != levels[j].price@);
        } else {
            assert(levels[i].price@ != level.price@);
        }
    }
    if quantities_live(levels) && !is_removal(level.quantity@) {
        assert forall|i: int| 0 <= i < next.len() implies !is_removal(
            (#[trigger] next[i]).quantity@,
        ) by {
            if i < levels.len() {
                assert(next[i] == levels[i]);
                assert(!is_removal(levels[i].quantity@));
            }
        }
    }
    lemma_side_of_entries(levels);
    lemma_side_of_entries(next);
    let target = side_of(levels).insert(level.price@, level.quantity@);
    assert forall|price: Seq<char>| side_of(next).contains_key(price) implies target.contains_key(
        price,
    ) && side_of(next)[price] == target[price] by {
        let k = position_of(next, price);
        assert(side_of(next)[next[k].price@] == next[k].quantity@);
        if k < levels.len() {
            assert(next[k] == levels[k]);
            assert(side_of(levels).contains_key(levels[k].price@));
            assert(side_of(levels)[levels[k].price@] == levels[k].quantity@);
            assert(levels[k].price@ != level.price@);
        }
    }
    assert forall|price: Seq<char>| target.contains_key(price) implies side_of(next).contains_key(
        price,
    ) by {
        if price == level.price@ {
            assert(side_of(next).contains_key(next[levels.len() as int].price@));
        } else {
            let k = position_of(levels, price);
            assert(next[k] == levels[k]);
            assert(side_of(next).contains_key(next[k].price@));
        }
    }
    assert(side_of(next) =~= target);
}

} // verus!
