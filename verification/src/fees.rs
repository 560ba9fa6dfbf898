//! Fee material: per-unit fees looked up by price tier, and flat per-event fees.

use vstd::prelude::*;

verus! {

/// One tier of a fee schedule: unit prices from `min_price_in_cents` upwards
/// (until the next tier starts) carry `fee_in_cents` per unit.
#[derive(Clone, Copy, Debug, PartialEq, Eq, Structural)]
pub struct FeeScheduleRange {
    pub id: u128,
    pub min_price_in_cents: u32,
    pub fee_in_cents: u32,
}

/// An ordered set of price breakpoints, each with its per-unit fee.
#[derive(Debug)]
pub struct FeeSchedule {
    pub id: u128,
    pub ranges: Vec<FeeScheduleRange>,
    /// Free units carry no per-unit fee while this threshold is above zero.
    pub minimum_fee_threshold_in_cents: u32,
}

/// The breakpoints are strictly increasing.
pub open spec fn breakpoints_sorted(ranges: Seq<FeeScheduleRange>) -> bool {
    forall|i: int, j: int|
        0 <= i < j < ranges.len() ==> ranges[i].min_price_in_cents < ranges[j].min_price_in_cents
}

/// `i` is the tier of `price`: the greatest breakpoint not above the price,
/// or the lowest tier when the price lies below every breakpoint.
pub open spec fn is_floor_match(ranges: Seq<FeeScheduleRange>, price: u32, i: int) -> bool {
    &&& 0 <= i < ranges.len()
    &&& if price < ranges[0].min_price_in_cents {
        i == 0
    } else {
        &&& ranges[i].min_price_in_cents <= price
        &&& (i + 1 < ranges.len() ==> price < ranges[i + 1].min_price_in_cents)
    }
}

/// The tier of `price` in a sorted, non-empty list of tiers.
pub open spec fn floor_range(ranges: Seq<FeeScheduleRange>, price: u32) -> FeeScheduleRange {
    ranges[choose|i: int| is_floor_match(ranges, price, i)]
}

/// Whether units sold at `unit_price` carry a per-unit fee at all: never for
/// box-office sales, and not for free units below the minimum-fee threshold.
pub open spec fn per_unit_fee_applies(threshold: u32, unit_price: u32, box_office: bool) -> bool {
    !box_office && !(unit_price == 0 && unit_price < threshold)
}

/// The flat fee of an event: the event's own fee where it has one, else the
/// organization's; none when neither side has one.
pub open spec fn spec_event_fee(event_fee: Option<u32>, organization_fee: Option<u32>) -> Option<
    u32,
> {
    match event_fee {
        Some(fee) => Some(fee),
        None => organization_fee,
    }
}

/// A sorted list of tiers has exactly one tier for each price.
pub proof fn lemma_floor_match_unique(ranges: Seq<FeeScheduleRange>, price: u32, i: int, j: int)
    requires
        breakpoints_sorted(ranges),
        is_floor_match(ranges, price, i),
        is_floor_match(ranges, price, j),
    ensures
        i == j,
{
    if price >= ranges[0].min_price_in_cents {
        if i < j {
            assert(ranges[i + 1].min_price_in_cents <= ranges[j].min_price_in_cents);
        } else if j < i {
            assert(ranges[j + 1].min_price_in_cents <= ranges[i].min_price_in_cents);
        }
    }
}

impl FeeSchedule {
    /// At least one tier, breakpoints strictly increasing.
    pub open spec fn wf(&self) -> bool {
        &&& self.ranges@.len() > 0
        &&& breakpoints_sorted(self.ranges@)
    }

    /// Builds a schedule from its tiers; `None` when there is no tier or the
    /// breakpoints are not strictly increasing.
    pub fn new(id: u128, ranges: Vec<FeeScheduleRange>, minimum_fee_threshold_in_cents: u32) -> (r:
        Option<FeeSchedule>)
        ensures
            r.is_some() <==> (ranges@.len() > 0 && breakpoints_sorted(ranges@)),
            r matches Some(s) ==> s.wf() && s.id == id && s.ranges@ == ranges@
                && s.minimum_fee_threshold_in_cents == minimum_fee_threshold_in_cents,
    {
        if ranges.len() == 0 {
            return None;
        }
        let mut k: usize = 1;
        while k < ranges.len()
            invariant
                1 <= k <= ranges.len(),
                forall|i: int, j: int|
                    0 <= i < j < k ==> ranges@[i].min_price_in_cents
                        < ranges@[j].min_price_in_cents,
            decreases ranges.len() - k,
        {
            if ranges[k - 1].min_price_in_cents >= ranges[k].min_price_in_cents {
                return None;
            }
            assert forall|i: int, j: int| 0 <= i < j < k + 1 implies ranges@[i].min_price_in_cents
                < ranges@[j].min_price_in_cents by {
                if j == k && i < k - 1 {
                    assert(ranges@[i].min_price_in_cents < ranges@[k - 1].min_price_in_cents);
                }
            }
            k += 1;
        }
        Some(FeeSchedule { id, ranges, minimum_fee_threshold_in_cents })
    }

    /// The tier that applies to a unit price, found by binary search over the
    /// sorted breakpoints.
    pub fn range_for(&self, price_in_cents: u32) -> (r: FeeScheduleRange)
        requires
            self.wf(),
        ensures
            r == floor_range(self.ranges@, price_in_cents),
            exists|i: int| is_floor_match(self.ranges@, price_in_cents, i) && r == self.ranges@[i],
    {
        let mut lo: usize = 0;
        let mut hi: usize = self.ranges.len();
        // Tiers before `lo + 1` start at or below the price (or `lo` is 0);
        // tiers from `hi` on start above it.
        while lo + 1 < hi
            invariant
                0 <= lo < hi <= self.ranges.len(),
                breakpoints_sorted(self.ranges@),
                lo > 0 ==> self.ranges@[lo as int].min_price_in_cents <= price_in_cents,
                hi < self.ranges.len() ==> price_in_cents
                    < self.ranges@[hi as int].min_price_in_cents,
            decreases hi - lo,
        {
            let mid = lo + (hi - lo) / 2;
            if self.ranges[mid].min_price_in_cents <= price_in_cents {
                lo = mid;
            } else {
                hi = mid;
            }
        }
        proof {
            let ranges = self.ranges@;
            let i = lo as int;
            if price_in_cents >= ranges[0].min_price_in_cents && lo == 0 {
                assert(ranges[0].min_price_in_cents <= price_in_cents);
            }
            if price_in_cents < ranges[0].min_price_in_cents && lo > 0 {
                assert(ranges[0].min_price_in_cents < ranges[i].min_price_in_cents);
            }
            assert(is_floor_match(ranges, price_in_cents, i));
            let chosen = choose|k: int| is_floor_match(ranges, price_in_cents, k);
            lemma_floor_match_unique(ranges, price_in_cents, i, chosen);
        }
        self.ranges[lo]
    }

    /// The per-unit fee tier for units sold at `unit_price`, or `None` where
    /// per-unit fees are suppressed.
    pub fn per_unit_fee(&self, unit_price_in_cents: u32, box_office: bool) -> (r: Option<
        FeeScheduleRange,
    >)
        requires
            self.wf(),
        ensures
            r == spec_per_unit_fee(*self, unit_price_in_cents, box_office),
    {
        if box_office || (unit_price_in_cents == 0 && self.minimum_fee_threshold_in_cents > 0) {
            None
        } else {
            Some(self.range_for(unit_price_in_cents))
        }
    }
}

/// The per-unit fee tier for units sold at `unit_price`, where one applies.
pub open spec fn spec_per_unit_fee(schedule: FeeSchedule, unit_price: u32, box_office: bool)
    -> Option<FeeScheduleRange> {
    if per_unit_fee_applies(schedule.minimum_fee_threshold_in_cents, unit_price, box_office) {
        Some(floor_range(schedule.ranges@, unit_price))
    } else {
        None
    }
}

/// The flat fee charged once per event on an order: the event's own fee
/// overrides the organization's; absent on both sides there is none.
pub fn event_fee_for(event_fee_in_cents: Option<u32>, organization_fee_in_cents: Option<u32>) -> (r:
    Option<u32>)
    ensures
        r == spec_event_fee(event_fee_in_cents, organization_fee_in_cents),
{
    match event_fee_in_cents {
        Some(fee) => Some(fee),
        None => organization_fee_in_cents,
    }
}

} // verus!
