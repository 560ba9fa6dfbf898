//! The pricing resolver: which tier of a ticket type sells now, and at what
//! unit price.

use crate::errors::{EngineError, ValidationError};
use crate::search::{first_match, is_first_match, lemma_first_match_is, lemma_first_match_none};
use vstd::prelude::*;

verus! {

/// One pricing tier of a ticket type.
#[derive(Clone, Copy, Debug, PartialEq, Eq)]
pub struct TicketPricing {
    pub id: u128,
    pub price_in_cents: u32,
    /// First second at which the tier sells.
    pub start_date: i64,
    /// Last second at which the tier sells.
    pub end_date: i64,
    /// A box-office tier sells in person only, whatever the date.
    pub is_box_office_only: bool,
}

/// A purchasable category of admission for an event.
#[derive(Debug)]
pub struct TicketType {
    pub id: u128,
    pub event_id: u128,
    /// Quantities are sold in multiples of this.
    pub increment: u32,
    pub pricing: Vec<TicketPricing>,
}

/// Whether a tier serves a sale: a box-office sale takes a box-office tier
/// unconditionally, any other sale a standard tier whose window holds `now`.
pub open spec fn tier_sellable(p: TicketPricing, box_office: bool, now: i64) -> bool {
    if box_office {
        p.is_box_office_only
    } else {
        !p.is_box_office_only && p.start_date <= now <= p.end_date
    }
}

/// The tiers that serve a sale, as a predicate.
pub open spec fn sellable_tiers(box_office: bool, now: i64) -> spec_fn(TicketPricing) -> bool {
    |p: TicketPricing| tier_sellable(p, box_office, now)
}

/// The quantity is a multiple of the increment.
pub open spec fn increment_allows(increment: u32, quantity: u32) -> bool {
    increment > 0 && quantity % increment == 0
}

/// A price less a discount, floored at zero.
pub open spec fn discounted(price: u32, discount: u32) -> u32 {
    if price >= discount {
        (price - discount) as u32
    } else {
        0u32
    }
}

/// The unit price and the tier that the resolver answers: the first sellable
/// tier of the ticket type; a discount comes off a standard tier only.
pub open spec fn spec_resolve(
    pricing: Seq<TicketPricing>,
    increment: u32,
    quantity: u32,
    discount_in_cents: u32,
    box_office: bool,
    now: i64,
) -> Result<(u32, u128), EngineError> {
    if !increment_allows(increment, quantity) {
        Err(EngineError::Validation(ValidationError::QuantityInvalidIncrement))
    } else {
        match first_match(pricing, sellable_tiers(box_office, now)) {
            None => Err(EngineError::Validation(ValidationError::NoActivePricing)),
            Some(i) => Ok(
                (
                    if box_office {
                        pricing[i].price_in_cents
                    } else {
                        discounted(pricing[i].price_in_cents, discount_in_cents)
                    },
                    pricing[i].id,
                ),
            ),
        }
    }
}

impl TicketType {
    /// Resolves the unit price for `quantity` tickets. `discount_in_cents` is
    /// what a valid code or hold takes off; zero without one.
    pub fn resolve(&self, quantity: u32, discount_in_cents: u32, box_office: bool, now: i64) -> (r:
        Result<(u32, u128), EngineError>)
        ensures
            r == spec_resolve(
                self.pricing@,
                self.increment,
                quantity,
                discount_in_cents,
                box_office,
                now,
            ),
    {
        if self.increment == 0 || quantity % self.increment != 0 {
            return Err(EngineError::Validation(ValidationError::QuantityInvalidIncrement));
        }
        let ghost sellable = sellable_tiers(box_office, now);
        let mut i: usize = 0;
        while i < self.pricing.len()
            invariant
                0 <= i <= self.pricing.len(),
                sellable == sellable_tiers(box_office, now),
                increment_allows(self.increment, quantity),
                forall|j: int| 0 <= j < i ==> !sellable(#[trigger] self.pricing@[j]),
            decreases self.pricing.len() - i,
        {
            let p = self.pricing[i];
            let hit = if box_office {
                p.is_box_office_only
            } else {
                !p.is_box_office_only && p.start_date <= now && now <= p.end_date
            };
            if hit {
                proof {
                    assert(is_first_match(self.pricing@, sellable, i as int));
                    lemma_first_match_is(self.pricing@, sellable, i as int);
                }
                let price = if box_office {
                    p.price_in_cents
                } else if p.price_in_cents >= discount_in_cents {
                    p.price_in_cents - discount_in_cents
                } else {
                    0
                };
                return Ok((price, p.id));
            }
            i += 1;
        }
        proof {
            lemma_first_match_none(self.pricing@, sellable);
        }
        Err(EngineError::Validation(ValidationError::NoActivePricing))
    }
}

} // verus!
