//! The imbalance of a book around a reference price: the volume bid within
//! a distance of the price against the volume asked within it.

use vstd::prelude::*;
use crate::decimal::{parse_decimal, parsed_units};
use crate::levels::{level_seq, LevelSpec, PriceLevel};

verus! {

/// The number of basis points in the whole.
pub const BASIS_POINTS: u64 = 10_000;

/// The distance between two prices.
pub open spec fn distance(price: nat, reference: nat) -> nat {
    if price >= reference {
        (price - reference) as nat
    } else {
        (reference - price) as nat
    }
}

/// Whether a price lies within `threshold` basis points of a reference
/// price, both in units: whether its distance from the reference price is
/// at most that share of the reference price.
pub open spec fn within_window(price: nat, reference: nat, threshold: nat) -> bool {
    distance(price, reference) * BASIS_POINTS <= reference * threshold
}

/// The sum of the quantities, in units, of the levels whose price lies
/// within the window. Nothing where a price or a quantity is no decimal.
pub open spec fn volume_within(levels: Seq<LevelSpec>, reference: nat, threshold: nat) -> Option<
    nat,
>
    decreases levels.len(),
{
    if levels.len() == 0 {
        Some(0)
    } else {
        match (
            volume_within(levels.drop_last(), reference, threshold),
            parsed_units(levels.last().0),
            parsed_units(levels.last().1),
        ) {
            (Some(volume), Some(price), Some(quantity)) => Some(
                if within_window(price as nat, reference, threshold) {
                    volume + (quantity as nat)
                } else {
                    volume
                },
            ),
            _ => None,
        }
    }
}

/// The volumes on both sides of a book within a window, in units of one
/// hundred-millionth.
#[derive(Clone, Copy, Debug, PartialEq, Eq, Structural)]
pub struct Imbalance {
    /// Volume bid within the window.
    pub bid_volume: u128,
    /// Volume asked within the window.
    pub ask_volume: u128,
}

/// The net signed volume of an imbalance: what is bid less what is asked.
pub open spec fn net_volume(imbalance: Imbalance) -> int {
    imbalance.bid_volume - imbalance.ask_volume
}

impl Imbalance {
    /// The net volume as a sign and a size: whether more is asked than bid,
    /// and by how much the two differ.
    pub fn net(&self) -> (net: (bool, u128))
        ensures
            net.0 == (net_volume(*self) < 0),
            net.1 == if net.0 {
                -net_volume(*self)
            } else {
                net_volume(*self)
            },
    {
        if self.bid_volume < self.ask_volume {
            (true, self.ask_volume - self.bid_volume)
        } else {
            (false, self.bid_volume - self.ask_volume)
        }
    }
}

/// Whether a price lies within `threshold` basis points of a reference
/// price, both in units.
pub fn price_in_window(price: u64, reference: u64, threshold: u64) -> (inside: bool)
    ensures
        inside == within_window(price as nat, reference as nat, threshold as nat),
{
    let apart: u64 = if price >= reference {
        price - reference
    } else {
        reference - price
    };
    proof {
        assert(0 <= apart * 10_000 <= 0xffff_ffff_ffff_ffff * 10_000) by (nonlinear_arith)
            requires
                0 <= apart <= 0xffff_ffff_ffff_ffff,
        ;
        assert(0 <= reference * threshold <= 0xffff_ffff_ffff_ffff * 0xffff_ffff_ffff_ffff)
            by (nonlinear_arith)
            requires
                0 <= reference <= 0xffff_ffff_ffff_ffff,
                0 <= threshold <= 0xffff_ffff_ffff_ffff,
        ;
    }
    let scaled: u128 = (apart as u128) * (BASIS_POINTS as u128);
    let reach: u128 = (reference as u128) * (threshold as u128);
    scaled <= reach
}

/// Adds up the quantities of the levels whose price lies within `threshold`
/// basis points of a reference price. Nothing where a price or a quantity
/// is no decimal.
pub fn sum_within(levels: &Vec<PriceLevel>, reference: u64, threshold: u64) -> (volume: Option<
    u128,
>)
    ensures
        match volume {
            Some(v) => volume_within(level_seq(levels@), reference as nat, threshold as nat)
                == Some(v as nat),
            None => volume_within(level_seq(levels@), reference as nat, threshold as nat) is None,
        },
{
    let ghost all = level_seq(levels@);
    let mut total: u128 = 0;
    let mut i: usize = 0;
    proof {
        assert(all.subrange(0, 0) =~= Seq::<LevelSpec>::empty());
    }
    while i < levels.len()
        invariant
            i <= levels@.len(),
            all == level_seq(levels@),
            volume_within(all.subrange(0, i as int), reference as nat, threshold as nat) == Some(
                total as nat,
            ),
            total <= i * u64::MAX,
        decreases levels@.len() - i,
    {
        let ghost next = all.subrange(0, i + 1);
        proof {
            assert(next.drop_last() =~= all.subrange(0, i as int));
            assert(next.last() == levels@[i as int]@);
        }
        let price = parse_decimal(levels[i].price.as_str());
        let quantity = parse_decimal(levels[i].quantity.as_str());
        match (price, quantity) {
            (Some(p), Some(q)) => {
                proof {
                    assert((i + 1) * u64::MAX == i * u64::MAX + u64::MAX) by (nonlinear_arith);
                    assert((i + 1) * u64::MAX <= u128::MAX) by (nonlinear_arith)
                        requires
                            i + 1 <= usize::MAX,
                            usize::MAX <= u64::MAX,
                    ;
                }
                if price_in_window(p, reference, threshold) {
                    total = total + (q as u128);
                }
                i += 1;
            },
            _ => {
                proof {
                    lemma_volume_stays_unknown(all, i + 1, reference as nat, threshold as nat);
                }
                return None;
            },
        }
    }
    proof {
        assert(all.subrange(0, i as int) =~= all);
    }
    Some(total)
}

/// Once a level could not be read, no longer run of levels has a volume.
pub proof fn lemma_volume_stays_unknown(
    levels: Seq<LevelSpec>,
    upto: int,
    reference: nat,
    threshold: nat,
)
    requires
        0 <= upto <= levels.len(),
        volume_within(levels.subrange(0, upto), reference, threshold) is None,
    ensures
        volume_within(levels, reference, threshold) is None,
    decreases levels.len(),
{
    if upto == levels.len() {
        assert(levels.subrange(0, upto) =~= levels);
    } else {
        let front = levels.drop_last();
        assert(front.subrange(0, upto) =~= levels.subrange(0, upto));
        lemma_volume_stays_unknown(front, upto, reference, threshold);
    }
}

/// The imbalance of bids and asks within `threshold` basis points of a
/// reference price, as a mathematical value. Nothing where the reference
/// price, a price or a quantity is no decimal, or where a volume is beyond
/// what the machine can hold.
pub open spec fn imbalance_of(
    bids: Seq<LevelSpec>,
    asks: Seq<LevelSpec>,
    reference: Seq<char>,
    threshold: u64,
) -> Option<Imbalance> {
    match parsed_units(reference) {
        None => None,
        Some(price) => match (
            volume_within(bids, price as nat, threshold as nat),
            volume_within(asks, price as nat, threshold as nat),
        ) {
            (Some(bid), Some(ask)) => if bid <= u128::MAX && ask <= u128::MAX {
                Some(Imbalance { bid_volume: bid as u128, ask_volume: ask as u128 })
            } else {
                None
            },
            _ => None,
        },
    }
}

/// Measures the imbalance of bids and asks within `threshold` basis points
/// of a reference price: the quantities bid at prices within the window
/// against the quantities asked within it. A text that is no decimal gives
/// nothing.
pub fn measure_imbalance(
    bids: &Vec<PriceLevel>,
    asks: &Vec<PriceLevel>,
    reference: &str,
    threshold: u64,
) -> (imbalance: Option<Imbalance>)
    ensures
        imbalance == imbalance_of(level_seq(bids@), level_seq(asks@), reference@, threshold),
{
    let price = match parse_decimal(reference) {
        Some(price) => price,
        None => {
            return None;
        },
    };
    let bid_volume = match sum_within(bids, price, threshold) {
        Some(volume) => volume,
        None => {
            return None;
        },
    };
    let ask_volume = match sum_within(asks, price, threshold) {
        Some(volume) => volume,
        None => {
            return None;
        },
    };
    Some(Imbalance { bid_volume, ask_volume })
}

} // verus!
