//! Codes and holds: whether one can be redeemed now, and what it grants.

use crate::enums::{CodeTypes, HoldTypes};
use crate::errors::{EngineError, ValidationError};
use vstd::prelude::*;

verus! {

/// What the validator finds of a code or hold.
#[derive(Clone, Copy, Debug, PartialEq, Eq, Structural)]
pub enum Outcome {
    /// Redeemable; the cents that it takes off the unit price.
    Valid(u32),
    Expired,
    NotYetActive,
    QuantityExhausted,
    NotApplicable,
}

/// What the validator reads of a code or hold.
#[derive(Clone, Copy, Debug, PartialEq, Eq)]
pub struct RedemptionTerms {
    /// First moment of validity; unbounded when absent.
    pub start: Option<i64>,
    /// Last moment of validity; unbounded when absent.
    pub end: Option<i64>,
    /// Quantity that can still be claimed; unbounded when absent.
    pub remaining: Option<u32>,
    pub discount_in_cents: Option<u32>,
}

/// `start <= at <= end`, an absent bound being no bound.
pub open spec fn within_window(start: Option<i64>, end: Option<i64>, at: i64) -> bool {
    &&& (start matches Some(s) ==> s <= at)
    &&& (end matches Some(e) ==> at <= e)
}

/// The validator's verdict. Applicability is judged first, then the window,
/// then the quantity.
pub open spec fn spec_validate(applicable: bool, terms: RedemptionTerms, quantity: u32, at: i64)
    -> Outcome {
    if !applicable {
        Outcome::NotApplicable
    } else if terms.start is Some && at < terms.start->0 {
        Outcome::NotYetActive
    } else if terms.end is Some && terms.end->0 < at {
        Outcome::Expired
    } else if terms.remaining is Some && terms.remaining->0 < quantity {
        Outcome::QuantityExhausted
    } else {
        Outcome::Valid(
            match terms.discount_in_cents {
                Some(d) => d,
                None => 0,
            },
        )
    }
}

/// Judges a code or hold by its terms.
pub fn validate(applicable: bool, terms: RedemptionTerms, quantity: u32, at_time: i64) -> (r:
    Outcome)
    ensures
        r == spec_validate(applicable, terms, quantity, at_time),
        r is Valid ==> within_window(terms.start, terms.end, at_time),
{
    if !applicable {
        return Outcome::NotApplicable;
    }
    match terms.start {
        Some(start) => {
            if at_time < start {
                return Outcome::NotYetActive;
            }
        },
        None => {},
    }
    match terms.end {
        Some(end) => {
            if end < at_time {
                return Outcome::Expired;
            }
        },
        None => {},
    }
    match terms.remaining {
        Some(remaining) => {
            if remaining < quantity {
                return Outcome::QuantityExhausted;
            }
        },
        None => {},
    }
    match terms.discount_in_cents {
        Some(d) => Outcome::Valid(d),
        None => Outcome::Valid(0),
    }
}

/// Whether the window of a code or hold contains `at`.
pub fn in_window(start: Option<i64>, end: Option<i64>, at: i64) -> (r: bool)
    ensures
        r == within_window(start, end, at),
{
    let after_start = match start {
        Some(s) => s <= at,
        None => true,
    };
    let before_end = match end {
        Some(e) => at <= e,
        None => true,
    };
    after_start && before_end
}

/// A promotional redemption token with a usage limit and a validity window.
#[derive(Debug)]
pub struct Code {
    pub id: u128,
    pub event_id: u128,
    pub redemption_code: String,
    pub code_type: CodeTypes,
    pub discount_in_cents: Option<u32>,
    pub start_date: Option<i64>,
    pub end_date: Option<i64>,
    /// How often the code may be used; unlimited when absent.
    pub max_uses: Option<u32>,
    /// How often it has been used.
    pub uses: u32,
    /// The ticket types that the code covers.
    pub ticket_type_ids: Vec<u128>,
}

impl Code {
    /// Uses left: the limit less the uses so far, never below zero.
    pub open spec fn spec_remaining(&self) -> Option<u32> {
        match self.max_uses {
            Some(max) => Some(
                if max >= self.uses {
                    (max - self.uses) as u32
                } else {
                    0u32
                },
            ),
            None => None,
        }
    }

    pub open spec fn spec_terms(&self) -> RedemptionTerms {
        RedemptionTerms {
            start: self.start_date,
            end: self.end_date,
            remaining: self.spec_remaining(),
            discount_in_cents: self.discount_in_cents,
        }
    }

    pub open spec fn spec_covers(&self, ticket_type_id: u128) -> bool {
        self.ticket_type_ids@.contains(ticket_type_id)
    }

    /// What the validator reads of this code.
    pub fn terms(&self) -> (r: RedemptionTerms)
        ensures
            r == self.spec_terms(),
    {
        let remaining = match self.max_uses {
            Some(max) => Some(
                if max >= self.uses {
                    max - self.uses
                } else {
                    0
                },
            ),
            None => None,
        };
        RedemptionTerms {
            start: self.start_date,
            end: self.end_date,
            remaining,
            discount_in_cents: self.discount_in_cents,
        }
    }

    /// Whether the code covers the ticket type.
    pub fn covers(&self, ticket_type_id: u128) -> (r: bool)
        ensures
            r == self.spec_covers(ticket_type_id),
    {
        let mut i: usize = 0;
        while i < self.ticket_type_ids.len()
            invariant
                0 <= i <= self.ticket_type_ids.len(),
                forall|j: int| 0 <= j < i ==> self.ticket_type_ids@[j] != ticket_type_id,
            decreases self.ticket_type_ids.len() - i,
        {
            if self.ticket_type_ids[i] == ticket_type_id {
                return true;
            }
            i += 1;
        }
        false
    }

    /// Whether the code can be redeemed for `quantity` tickets of the ticket
    /// type at `at_time`.
    pub fn validate(&self, ticket_type_id: u128, quantity: u32, at_time: i64) -> (r: Outcome)
        ensures
            r == spec_validate(
                self.spec_covers(ticket_type_id),
                self.spec_terms(),
                quantity,
                at_time,
            ),
    {
        validate(self.covers(ticket_type_id), self.terms(), quantity, at_time)
    }
}

/// A named portion of a comp hold, given out to somebody.
#[derive(Debug)]
pub struct Comp {
    pub id: u128,
    pub name: String,
    pub quantity: u32,
}

/// The quantities of the first `upto` comps, added up.
pub open spec fn comps_total(comps: Seq<Comp>, upto: int) -> nat
    decreases upto,
{
    if upto <= 0 {
        0
    } else {
        comps_total(comps, upto - 1) + comps[upto - 1].quantity as nat
    }
}

pub proof fn lemma_comps_total_monotonic(comps: Seq<Comp>, i: int, j: int)
    requires
        i <= j,
    ensures
        comps_total(comps, i) <= comps_total(comps, j),
    decreases j - i,
{
    if i < j {
        lemma_comps_total_monotonic(comps, i, j - 1);
    }
}

/// Adding a comp at the end adds its quantity to the total.
pub proof fn lemma_comps_total_push(comps: Seq<Comp>, comp: Comp, upto: int)
    requires
        0 <= upto <= comps.len(),
    ensures
        comps_total(comps.push(comp), upto) == comps_total(comps, upto),
        upto == comps.len() ==> comps_total(comps.push(comp), upto + 1) == comps_total(comps, upto)
            + comp.quantity,
    decreases upto,
{
    if upto > 0 {
        lemma_comps_total_push(comps, comp, upto - 1);
    }
}

/// An inventory carve-out made by an organizer, with its own redemption code
/// and capacity.
#[derive(Debug)]
pub struct Hold {
    pub id: u128,
    pub name: String,
    pub event_id: u128,
    pub redemption_code: String,
    pub discount_in_cents: Option<u32>,
    pub end_at: Option<i64>,
    pub max_per_order: Option<u32>,
    pub hold_type: HoldTypes,
    pub ticket_type_id: u128,
    /// The capacity of the hold.
    pub quantity: u32,
    /// Tickets of the hold that orders have taken.
    pub allocated: u32,
    pub comps: Vec<Comp>,
}

/// The changes that an update makes to a hold; an absent field stays.
#[derive(Debug)]
pub struct UpdateHoldAttributes {
    pub name: Option<String>,
    pub hold_type: Option<HoldTypes>,
    pub discount_in_cents: Option<u32>,
    pub end_at: Option<Option<i64>>,
    pub max_per_order: Option<Option<u32>>,
}

impl Hold {
    /// The comps of a comp hold never add up to more than its capacity.
    pub open spec fn wf(&self) -> bool {
        self.spec_comps_sum() <= self.quantity
    }

    /// Whether a hold of the given type may carry these comps at this capacity.
    pub open spec fn comps_fit(hold_type: HoldTypes, comps: Seq<Comp>, quantity: u32) -> bool {
        hold_type == HoldTypes::Comp ==> comps_total(comps, comps.len() as int) <= quantity
    }

    /// The quantity given out as comps: counted for a comp hold only.
    pub open spec fn spec_comps_sum(&self) -> nat {
        if self.hold_type == HoldTypes::Comp {
            comps_total(self.comps@, self.comps@.len() as int)
        } else {
            0
        }
    }

    /// Capacity less comps and allocations, never below zero.
    pub open spec fn spec_remaining(&self) -> u32 {
        let used = self.spec_comps_sum() + self.allocated;
        if self.quantity >= used {
            (self.quantity - used) as u32
        } else {
            0u32
        }
    }

    pub open spec fn spec_terms(&self) -> RedemptionTerms {
        RedemptionTerms {
            start: None,
            end: self.end_at,
            remaining: Some(self.spec_remaining()),
            discount_in_cents: self.discount_in_cents,
        }
    }

    /// A discount hold states its discount.
    pub open spec fn discount_stated(hold_type: HoldTypes, discount_in_cents: Option<u32>) -> bool {
        hold_type == HoldTypes::Discount ==> discount_in_cents is Some
    }

    /// A new hold without capacity or comps. A discount hold without a
    /// discount is refused.
    pub fn create(
        id: u128,
        name: String,
        event_id: u128,
        ticket_type_id: u128,
        redemption_code: String,
        discount_in_cents: Option<u32>,
        end_at: Option<i64>,
        max_per_order: Option<u32>,
        hold_type: HoldTypes,
    ) -> (r: Result<Hold, EngineError>)
        ensures
            r is Ok <==> Self::discount_stated(hold_type, discount_in_cents),
            r matches Err(e) ==> e == EngineError::Validation(ValidationError::DiscountRequired),
            r matches Ok(h) ==> h.wf() && h.id == id && h.name == name && h.event_id == event_id
                && h.ticket_type_id == ticket_type_id && h.redemption_code == redemption_code
                && h.discount_in_cents == discount_in_cents && h.end_at == end_at
                && h.max_per_order == max_per_order && h.hold_type == hold_type && h.quantity == 0
                && h.allocated == 0 && h.comps@.len() == 0,
    {
        let missing = match hold_type {
            HoldTypes::Discount => discount_in_cents.is_none(),
            HoldTypes::Comp => false,
        };
        if missing {
            return Err(EngineError::Validation(ValidationError::DiscountRequired));
        }
        Ok(
            Hold {
                id,
                name,
                event_id,
                redemption_code,
                discount_in_cents,
                end_at,
                max_per_order,
                hold_type,
                ticket_type_id,
                quantity: 0,
                allocated: 0,
                comps: Vec::new(),
            },
        )
    }

    /// Applies the stated changes. A hold that would be a discount hold
    /// without a discount, or a comp hold with more comps than capacity, is
    /// refused and stays as it was.
    pub fn update(&mut self, attributes: UpdateHoldAttributes) -> (r: Result<(), EngineError>)
        ensures
            r is Ok <==> Self::discount_stated(
                spec_patched(old(self).hold_type, attributes.hold_type),
                spec_patched_discount(old(self).discount_in_cents, attributes.discount_in_cents),
            ) && Self::comps_fit(
                spec_patched(old(self).hold_type, attributes.hold_type),
                old(self).comps@,
                old(self).quantity,
            ),
            r is Err ==> *final(self) == *old(self),
            r matches Err(e) ==> e == EngineError::Validation(
                if spec_patched(old(self).hold_type, attributes.hold_type) == HoldTypes::Discount {
                    ValidationError::DiscountRequired
                } else {
                    ValidationError::AssignedCompCountGreaterThanQuantity
                },
            ),
            r is Ok ==> {
                &&& final(self).wf()
                &&& final(self).name == spec_patched(old(self).name, attributes.name)
                &&& final(self).hold_type == spec_patched(old(self).hold_type, attributes.hold_type)
                &&& final(self).discount_in_cents == spec_patched_discount(
                    old(self).discount_in_cents,
                    attributes.discount_in_cents,
                )
                &&& final(self).end_at == spec_patched(old(self).end_at, attributes.end_at)
                &&& final(self).max_per_order == spec_patched(
                    old(self).max_per_order,
                    attributes.max_per_order,
                )
                &&& final(self).id == old(self).id
                &&& final(self).event_id == old(self).event_id
                &&& final(self).ticket_type_id == old(self).ticket_type_id
                &&& final(self).redemption_code == old(self).redemption_code
                &&& final(self).quantity == old(self).quantity
                &&& final(self).allocated == old(self).allocated
                &&& final(self).comps == old(self).comps
            },
    {
        let hold_type = match attributes.hold_type {
            Some(t) => t,
            None => self.hold_type,
        };
        let discount = match attributes.discount_in_cents {
            Some(d) => Some(d),
            None => self.discount_in_cents,
        };
        let missing = match hold_type {
            HoldTypes::Discount => discount.is_none(),
            HoldTypes::Comp => false,
        };
        if missing {
            return Err(EngineError::Validation(ValidationError::DiscountRequired));
        }
        let overfull = match hold_type {
            HoldTypes::Comp => self.comps_total_wide() > self.quantity as u128,
            HoldTypes::Discount => false,
        };
        if overfull {
            return Err(
                EngineError::Validation(ValidationError::AssignedCompCountGreaterThanQuantity),
            );
        }
        self.hold_type = hold_type;
        self.discount_in_cents = discount;
        match attributes.name {
            Some(name) => {
                self.name = name;
            },
            None => {},
        }
        match attributes.end_at {
            Some(end_at) => {
                self.end_at = end_at;
            },
            None => {},
        }
        match attributes.max_per_order {
            Some(max) => {
                self.max_per_order = max;
            },
            None => {},
        }
        Ok(())
    }

    /// The quantities of all comps added up, whatever the hold's type.
    fn comps_total_wide(&self) -> (sum: u128)
        ensures
            sum == comps_total(self.comps@, self.comps@.len() as int),
    {
        let mut sum: u128 = 0;
        let mut i: usize = 0;
        while i < self.comps.len()
            invariant
                0 <= i <= self.comps.len(),
                sum == comps_total(self.comps@, i as int),
                sum <= i * 0x1_0000_0000,
            decreases self.comps.len() - i,
        {
            sum = sum + self.comps[i].quantity as u128;
            i += 1;
        }
        sum
    }

    /// The quantity given out as comps: the sum over the comps of a comp
    /// hold, zero for any other hold.
    pub fn comps_sum(&self) -> (sum: u32)
        requires
            self.wf(),
        ensures
            sum == self.spec_comps_sum(),
    {
        match self.hold_type {
            HoldTypes::Comp => {},
            HoldTypes::Discount => {
                return 0;
            },
        }
        let mut sum: u32 = 0;
        let mut i: usize = 0;
        while i < self.comps.len()
            invariant
                0 <= i <= self.comps.len(),
                sum == comps_total(self.comps@, i as int),
                comps_total(self.comps@, self.comps@.len() as int) <= u32::MAX,
            decreases self.comps.len() - i,
        {
            proof {
                lemma_comps_total_monotonic(self.comps@, i + 1, self.comps@.len() as int);
            }
            sum = sum + self.comps[i].quantity;
            i += 1;
        }
        sum
    }

    /// The comps of a comp hold; any other hold has none to show.
    pub fn comps(&self) -> (r: Result<&Vec<Comp>, EngineError>)
        ensures
            r is Ok <==> self.hold_type == HoldTypes::Comp,
            r matches Ok(comps) ==> comps@ == self.comps@,
            r matches Err(e) ==> e == EngineError::NotFound,
    {
        match self.hold_type {
            HoldTypes::Comp => Ok(&self.comps),
            HoldTypes::Discount => Err(EngineError::NotFound),
        }
    }

    /// The capacity of the hold.
    pub fn quantity(&self) -> (q: u32)
        ensures
            q == self.quantity,
    {
        self.quantity
    }

    /// Sets the capacity. A capacity below the comps already assigned is
    /// refused and the hold stays as it was.
    pub fn set_quantity(&mut self, quantity: u32) -> (r: Result<(), EngineError>)
        requires
            old(self).wf(),
        ensures
            r is Ok <==> old(self).spec_comps_sum() <= quantity,
            r matches Err(e) ==> e == EngineError::Validation(
                ValidationError::AssignedCompCountGreaterThanQuantity,
            ) && *final(self) == *old(self),
            r is Ok ==> *final(self) == (Hold { quantity, ..*old(self) }),
            final(self).wf(),
    {
        if self.comps_sum() > quantity {
            return Err(
                EngineError::Validation(ValidationError::AssignedCompCountGreaterThanQuantity),
            );
        }
        self.quantity = quantity;
        Ok(())
    }

    /// Assigns a comp from a comp hold. One that would take the comps above
    /// the capacity is refused, and so is any comp on another kind of hold;
    /// the hold then stays as it was.
    pub fn add_comp(&mut self, comp: Comp) -> (r: Result<(), EngineError>)
        requires
            old(self).wf(),
        ensures
            r is Ok <==> old(self).hold_type == HoldTypes::Comp && comps_total(
                old(self).comps@,
                old(self).comps@.len() as int,
            ) + comp.quantity <= old(self).quantity,
            r is Err ==> *final(self) == *old(self),
            r matches Err(e) ==> e == if old(self).hold_type == HoldTypes::Comp {
                EngineError::Validation(ValidationError::AssignedCompCountGreaterThanQuantity)
            } else {
                EngineError::InvalidStateTransition
            },
            r is Ok ==> final(self).wf() && final(self).comps@ == old(self).comps@.push(comp)
                && final(self).quantity == old(self).quantity && final(self).hold_type == old(
                self,
            ).hold_type && final(self).allocated == old(self).allocated,
    {
        match self.hold_type {
            HoldTypes::Comp => {},
            HoldTypes::Discount => {
                return Err(EngineError::InvalidStateTransition);
            },
        }
        let total = self.comps_sum();
        if comp.quantity > self.quantity - total {
            return Err(
                EngineError::Validation(ValidationError::AssignedCompCountGreaterThanQuantity),
            );
        }
        proof {
            lemma_comps_total_push(self.comps@, comp, self.comps@.len() as int);
        }
        self.comps.push(comp);
        Ok(())
    }

    /// What the validator reads of this hold.
    pub fn terms(&self) -> (r: RedemptionTerms)
        requires
            self.wf(),
        ensures
            r == self.spec_terms(),
    {
        let comped = self.comps_sum();
        let used: u64 = comped as u64 + self.allocated as u64;
        let remaining: u32 = if self.quantity as u64 >= used {
            (self.quantity as u64 - used) as u32
        } else {
            0
        };
        RedemptionTerms {
            start: None,
            end: self.end_at,
            remaining: Some(remaining),
            discount_in_cents: self.discount_in_cents,
        }
    }

    /// Whether the hold can be redeemed for `quantity` tickets of the ticket
    /// type at `at_time`.
    pub fn validate(&self, ticket_type_id: u128, quantity: u32, at_time: i64) -> (r: Outcome)
        requires
            self.wf(),
        ensures
            r == spec_validate(
                self.ticket_type_id == ticket_type_id,
                self.spec_terms(),
                quantity,
                at_time,
            ),
    {
        validate(self.ticket_type_id == ticket_type_id, self.terms(), quantity, at_time)
    }
}

/// A field after an update that may leave it alone.
pub open spec fn spec_patched<T>(current: T, change: Option<T>) -> T {
    match change {
        Some(value) => value,
        None => current,
    }
}

/// A discount after an update that may leave it alone.
pub open spec fn spec_patched_discount(current: Option<u32>, change: Option<u32>) -> Option<u32> {
    match change {
        Some(value) => Some(value),
        None => current,
    }
}

} // verus!
