//! What the engine reads and never writes: organizations, events, ticket
//! types, codes and holds; and how one requested line is resolved against it.

use crate::codes::{spec_validate, Code, Hold, Outcome};
use crate::errors::{EngineError, ValidationError};
use crate::fees::{spec_event_fee, spec_per_unit_fee, FeeSchedule, FeeScheduleRange};
use crate::pricing::{spec_resolve, TicketType};
use crate::search::{first_match, is_first_match, lemma_first_match_is, lemma_first_match_none};
use vstd::prelude::*;

verus! {

/// An organization with its fee schedule and its flat fee per event.
#[derive(Debug)]
pub struct Organization {
    pub id: u128,
    pub event_fee_in_cents: Option<u32>,
    pub fee_schedule: FeeSchedule,
}

/// An event; its own flat fee overrides the organization's.
#[derive(Clone, Copy, Debug, PartialEq, Eq)]
pub struct Event {
    pub id: u128,
    pub organization_id: u128,
    pub fee_in_cents: Option<u32>,
}

#[derive(Debug)]
pub struct Catalog {
    pub organizations: Vec<Organization>,
    pub events: Vec<Event>,
    pub ticket_types: Vec<TicketType>,
    pub codes: Vec<Code>,
    pub holds: Vec<Hold>,
}

/// One line of a request: so many tickets of a type, with or without a
/// redemption code. Quantity zero removes the line.
#[derive(Debug)]
pub struct UpdateOrderItem {
    pub ticket_type_id: u128,
    pub quantity: u32,
    pub redemption_code: Option<String>,
}

/// A code or hold in the catalog, by position.
#[derive(Clone, Copy, Debug, PartialEq, Eq)]
pub enum Redemption {
    Code(usize),
    Hold(usize),
}

/// A request line resolved against the catalog: whom it is for, and at what
/// price and fee.
#[derive(Clone, Copy, Debug, PartialEq, Eq)]
pub struct ResolvedLine {
    pub ticket_type_id: u128,
    pub event_id: u128,
    pub code_id: Option<u128>,
    pub hold_id: Option<u128>,
    pub quantity: u32,
    pub unit_price_in_cents: u32,
    /// The pricing tier; none on a line that only removes.
    pub ticket_pricing_id: Option<u128>,
    /// The per-unit fee tier, where a per-unit fee applies.
    pub fee: Option<FeeScheduleRange>,
}

pub open spec fn organization_with_id(id: u128) -> spec_fn(Organization) -> bool {
    |o: Organization| o.id == id
}

pub open spec fn event_with_id(id: u128) -> spec_fn(Event) -> bool {
    |e: Event| e.id == id
}

pub open spec fn ticket_type_with_id(id: u128) -> spec_fn(TicketType) -> bool {
    |t: TicketType| t.id == id
}

pub open spec fn code_with_id(id: u128) -> spec_fn(Code) -> bool {
    |c: Code| c.id == id
}

pub open spec fn hold_with_id(id: u128) -> spec_fn(Hold) -> bool {
    |h: Hold| h.id == id
}

pub open spec fn code_with_text(text: Seq<char>) -> spec_fn(Code) -> bool {
    |c: Code| c.redemption_code@ == text
}

pub open spec fn hold_with_text(text: Seq<char>) -> spec_fn(Hold) -> bool {
    |h: Hold| h.redemption_code@ == text
}

/// A search answered `r` where the first match is `m`.
pub open spec fn found_as(r: Option<usize>, m: Option<int>) -> bool {
    match r {
        Some(i) => m == Some(i as int),
        None => m is None,
    }
}

/// The code or hold that a redemption code names: a hold where one has the
/// text, else a code.
pub open spec fn spec_find_redemption(catalog: Catalog, text: Seq<char>) -> Option<Redemption> {
    match first_match(catalog.holds@, hold_with_text(text)) {
        Some(i) => Some(Redemption::Hold(i as usize)),
        None => match first_match(catalog.codes@, code_with_text(text)) {
            Some(i) => Some(Redemption::Code(i as usize)),
            None => None,
        },
    }
}

/// The validator's verdict on a catalog entry.
pub open spec fn spec_redemption_outcome(
    catalog: Catalog,
    redemption: Redemption,
    ticket_type_id: u128,
    quantity: u32,
    now: i64,
) -> Outcome {
    match redemption {
        Redemption::Code(i) => spec_validate(
            catalog.codes@[i as int].spec_covers(ticket_type_id),
            catalog.codes@[i as int].spec_terms(),
            quantity,
            now,
        ),
        Redemption::Hold(i) => spec_validate(
            catalog.holds@[i as int].ticket_type_id == ticket_type_id,
            catalog.holds@[i as int].spec_terms(),
            quantity,
            now,
        ),
    }
}

/// The failure that a verdict other than `Valid` stands for.
pub open spec fn spec_outcome_error(redemption: Redemption, outcome: Outcome) -> EngineError {
    EngineError::Validation(
        match outcome {
            Outcome::NotApplicable => ValidationError::RedemptionCodeNotApplicable,
            Outcome::QuantityExhausted => ValidationError::RedemptionQuantityExhausted,
            _ => match redemption {
                Redemption::Code(_) => ValidationError::CodeNotValidForCurrentDatetime,
                Redemption::Hold(_) => ValidationError::HoldNotValidForCurrentDatetime,
            },
        },
    )
}

/// The flat fee of the event with the id; none where the event or its
/// organization is unknown.
pub open spec fn spec_event_fee_for(catalog: Catalog, event_id: u128) -> Option<u32> {
    match first_match(catalog.events@, event_with_id(event_id)) {
        None => None,
        Some(e) => match first_match(
            catalog.organizations@,
            organization_with_id(catalog.events@[e].organization_id),
        ) {
            None => None,
            Some(o) => spec_event_fee(
                catalog.events@[e].fee_in_cents,
                catalog.organizations@[o].event_fee_in_cents,
            ),
        },
    }
}

/// How a request line resolves. The ticket type, its event and organization
/// are looked up first, then the redemption code. A line that only removes
/// needs no more. Any other line has its code or hold validated, its price
/// resolved and its per-unit fee found, in that order; the first failure is
/// the answer.
pub open spec fn spec_resolve_line(
    catalog: Catalog,
    ticket_type_id: u128,
    quantity: u32,
    redemption_code: Option<Seq<char>>,
    box_office: bool,
    now: i64,
) -> Result<ResolvedLine, EngineError> {
    match first_match(catalog.ticket_types@, ticket_type_with_id(ticket_type_id)) {
        None => Err(EngineError::NotFound),
        Some(t) => match first_match(
            catalog.events@,
            event_with_id(catalog.ticket_types@[t].event_id),
        ) {
            None => Err(EngineError::NotFound),
            Some(e) => match first_match(
                catalog.organizations@,
                organization_with_id(catalog.events@[e].organization_id),
            ) {
                None => Err(EngineError::NotFound),
                Some(o) => {
                    let found = match redemption_code {
                        None => None,
                        Some(text) => spec_find_redemption(catalog, text),
                    };
                    if redemption_code is Some && found is None {
                        Err(EngineError::Validation(ValidationError::RedemptionCodeUnknown))
                    } else {
                        spec_resolve_found(
                            catalog,
                            t,
                            o,
                            found,
                            quantity,
                            box_office,
                            now,
                        )
                    }
                },
            },
        },
    }
}

/// The line that only carries the key: what a removal resolves to.
pub open spec fn spec_removal_line(catalog: Catalog, t: int, found: Option<Redemption>)
    -> ResolvedLine {
    ResolvedLine {
        ticket_type_id: catalog.ticket_types@[t].id,
        event_id: catalog.ticket_types@[t].event_id,
        code_id: match found {
            Some(Redemption::Code(i)) => Some(catalog.codes@[i as int].id),
            _ => None,
        },
        hold_id: match found {
            Some(Redemption::Hold(i)) => Some(catalog.holds@[i as int].id),
            _ => None,
        },
        quantity: 0,
        unit_price_in_cents: 0,
        ticket_pricing_id: None,
        fee: None,
    }
}

/// How a line resolves once its ticket type (at `t`), organization (at `o`)
/// and code or hold are found.
pub open spec fn spec_resolve_found(
    catalog: Catalog,
    t: int,
    o: int,
    found: Option<Redemption>,
    quantity: u32,
    box_office: bool,
    now: i64,
) -> Result<ResolvedLine, EngineError> {
    let key = spec_removal_line(catalog, t, found);
    let ticket_type = catalog.ticket_types@[t];
    let outcome = match found {
        None => Outcome::Valid(0),
        Some(r) => spec_redemption_outcome(catalog, r, ticket_type.id, quantity, now),
    };
    if quantity == 0 {
        Ok(key)
    } else {
        match outcome {
            Outcome::Valid(discount) => match spec_resolve(
                ticket_type.pricing@,
                ticket_type.increment,
                quantity,
                discount,
                box_office,
                now,
            ) {
                Err(e) => Err(e),
                Ok((price, pricing_id)) => Ok(
                    ResolvedLine {
                        quantity,
                        unit_price_in_cents: price,
                        ticket_pricing_id: Some(pricing_id),
                        fee: spec_per_unit_fee(
                            catalog.organizations@[o].fee_schedule,
                            price,
                            box_office,
                        ),
                        ..key
                    },
                ),
            },
            _ => Err(spec_outcome_error(found->0, outcome)),
        }
    }
}

impl Catalog {
    /// Every fee schedule and every hold is well formed.
    pub open spec fn wf(&self) -> bool {
        &&& forall|i: int|
            0 <= i < self.organizations@.len() ==> (#[trigger] self.organizations@[i]).fee_schedule.wf()
        &&& forall|i: int| 0 <= i < self.holds@.len() ==> (#[trigger] self.holds@[i]).wf()
    }

    /// The position of the organization with the id.
    pub fn find_organization(&self, id: u128) -> (r: Option<usize>)
        ensures
            found_as(r, first_match(self.organizations@, organization_with_id(id))),
            r matches Some(i) ==> i < self.organizations@.len() && self.organizations@[i as int].id
                == id,
    {
        let ghost p = organization_with_id(id);
        let mut i: usize = 0;
        while i < self.organizations.len()
            invariant
                0 <= i <= self.organizations.len(),
                p == organization_with_id(id),
                forall|j: int| 0 <= j < i ==> !p(#[trigger] self.organizations@[j]),
            decreases self.organizations.len() - i,
        {
            if self.organizations[i].id == id {
                proof {
                    assert(is_first_match(self.organizations@, p, i as int));
                    lemma_first_match_is(self.organizations@, p, i as int);
                }
                return Some(i);
            }
            i += 1;
        }
        proof {
            lemma_first_match_none(self.organizations@, p);
        }
        None
    }

    /// The position of the event with the id.
    pub fn find_event(&self, id: u128) -> (r: Option<usize>)
        ensures
            found_as(r, first_match(self.events@, event_with_id(id))),
            r matches Some(i) ==> i < self.events@.len() && self.events@[i as int].id == id,
    {
        let ghost p = event_with_id(id);
        let mut i: usize = 0;
        while i < self.events.len()
            invariant
                0 <= i <= self.events.len(),
                p == event_with_id(id),
                forall|j: int| 0 <= j < i ==> !p(#[trigger] self.events@[j]),
            decreases self.events.len() - i,
        {
            if self.events[i].id == id {
                proof {
                    assert(is_first_match(self.events@, p, i as int));
                    lemma_first_match_is(self.events@, p, i as int);
                }
                return Some(i);
            }
            i += 1;
        }
        proof {
            lemma_first_match_none(self.events@, p);
        }
        None
    }

    /// The position of the ticket type with the id.
    pub fn find_ticket_type(&self, id: u128) -> (r: Option<usize>)
        ensures
            found_as(r, first_match(self.ticket_types@, ticket_type_with_id(id))),
            r matches Some(i) ==> i < self.ticket_types@.len() && self.ticket_types@[i as int].id
                == id,
    {
        let ghost p = ticket_type_with_id(id);
        let mut i: usize = 0;
        while i < self.ticket_types.len()
            invariant
                0 <= i <= self.ticket_types.len(),
                p == ticket_type_with_id(id),
                forall|j: int| 0 <= j < i ==> !p(#[trigger] self.ticket_types@[j]),
            decreases self.ticket_types.len() - i,
        {
            if self.ticket_types[i].id == id {
                proof {
                    assert(is_first_match(self.ticket_types@, p, i as int));
                    lemma_first_match_is(self.ticket_types@, p, i as int);
                }
                return Some(i);
            }
            i += 1;
        }
        proof {
            lemma_first_match_none(self.ticket_types@, p);
        }
        None
    }

    /// The position of the code with the id.
    pub fn find_code(&self, id: u128) -> (r: Option<usize>)
        ensures
            found_as(r, first_match(self.codes@, code_with_id(id))),
            r matches Some(i) ==> i < self.codes@.len() && self.codes@[i as int].id == id,
    {
        let ghost p = code_with_id(id);
        let mut i: usize = 0;
        while i < self.codes.len()
            invariant
                0 <= i <= self.codes.len(),
                p == code_with_id(id),
                forall|j: int| 0 <= j < i ==> !p(#[trigger] self.codes@[j]),
            decreases self.codes.len() - i,
        {
            if self.codes[i].id == id {
                proof {
                    assert(is_first_match(self.codes@, p, i as int));
                    lemma_first_match_is(self.codes@, p, i as int);
                }
                return Some(i);
            }
            i += 1;
        }
        proof {
            lemma_first_match_none(self.codes@, p);
        }
        None
    }

    /// The position of the hold with the id.
    pub fn find_hold(&self, id: u128) -> (r: Option<usize>)
        ensures
            found_as(r, first_match(self.holds@, hold_with_id(id))),
            r matches Some(i) ==> i < self.holds@.len() && self.holds@[i as int].id == id,
    {
        let ghost p = hold_with_id(id);
        let mut i: usize = 0;
        while i < self.holds.len()
            invariant
                0 <= i <= self.holds.len(),
                p == hold_with_id(id),
                forall|j: int| 0 <= j < i ==> !p(#[trigger] self.holds@[j]),
            decreases self.holds.len() - i,
        {
            if self.holds[i].id == id {
                proof {
                    assert(is_first_match(self.holds@, p, i as int));
                    lemma_first_match_is(self.holds@, p, i as int);
                }
                return Some(i);
            }
            i += 1;
        }
        proof {
            lemma_first_match_none(self.holds@, p);
        }
        None
    }

    /// The code or hold that a redemption code names.
    pub fn find_redemption(&self, redemption_code: &String) -> (r: Option<Redemption>)
        ensures
            r == spec_find_redemption(*self, redemption_code@),
            r matches Some(Redemption::Code(i)) ==> i < self.codes@.len(),
            r matches Some(Redemption::Hold(i)) ==> i < self.holds@.len(),
    {
        let ghost ph = hold_with_text(redemption_code@);
        let mut i: usize = 0;
        while i < self.holds.len()
            invariant
                0 <= i <= self.holds.len(),
                ph == hold_with_text(redemption_code@),
                forall|j: int| 0 <= j < i ==> !ph(#[trigger] self.holds@[j]),
            decreases self.holds.len() - i,
        {
            if self.holds[i].redemption_code == *redemption_code {
                proof {
                    assert(is_first_match(self.holds@, ph, i as int));
                    lemma_first_match_is(self.holds@, ph, i as int);
                }
                return Some(Redemption::Hold(i));
            }
            i += 1;
        }
        proof {
            lemma_first_match_none(self.holds@, ph);
        }
        let ghost pc = code_with_text(redemption_code@);
        let mut k: usize = 0;
        while k < self.codes.len()
            invariant
                0 <= k <= self.codes.len(),
                pc == code_with_text(redemption_code@),
                first_match(self.holds@, hold_with_text(redemption_code@)) is None,
                forall|j: int| 0 <= j < k ==> !pc(#[trigger] self.codes@[j]),
            decreases self.codes.len() - k,
        {
            if self.codes[k].redemption_code == *redemption_code {
                proof {
                    assert(is_first_match(self.codes@, pc, k as int));
                    lemma_first_match_is(self.codes@, pc, k as int);
                }
                return Some(Redemption::Code(k));
            }
            k += 1;
        }
        proof {
            lemma_first_match_none(self.codes@, pc);
        }
        None
    }

    /// The flat fee of the event with the id; none where the event or its
    /// organization is unknown, or neither states a fee.
    pub fn event_fee_for(&self, event_id: u128) -> (r: Option<u32>)
        ensures
            r == spec_event_fee_for(*self, event_id),
    {
        match self.find_event(event_id) {
            None => None,
            Some(e) => match self.find_organization(self.events[e].organization_id) {
                None => None,
                Some(o) => match self.events[e].fee_in_cents {
                    Some(fee) => Some(fee),
                    None => self.organizations[o].event_fee_in_cents,
                },
            },
        }
    }

    /// Resolves one request line against the catalog.
    pub fn resolve_line(&self, line: &UpdateOrderItem, box_office: bool, now: i64) -> (r: Result<
        ResolvedLine,
        EngineError,
    >)
        requires
            self.wf(),
        ensures
            r == spec_resolve_line(
                *self,
                line.ticket_type_id,
                line.quantity,
                spec_text(line.redemption_code),
                box_office,
                now,
            ),
    {
        let t = match self.find_ticket_type(line.ticket_type_id) {
            Some(t) => t,
            None => {
                return Err(EngineError::NotFound);
            },
        };
        let ticket_type = &self.ticket_types[t];
        let e = match self.find_event(ticket_type.event_id) {
            Some(e) => e,
            None => {
                return Err(EngineError::NotFound);
            },
        };
        let o = match self.find_organization(self.events[e].organization_id) {
            Some(o) => o,
            None => {
                return Err(EngineError::NotFound);
            },
        };
        let found = match &line.redemption_code {
            None => None,
            Some(text) => match self.find_redemption(text) {
                Some(r) => Some(r),
                None => {
                    return Err(
                        EngineError::Validation(ValidationError::RedemptionCodeUnknown),
                    );
                },
            },
        };
        let code_id = match found {
            Some(Redemption::Code(i)) => Some(self.codes[i].id),
            _ => None,
        };
        let hold_id = match found {
            Some(Redemption::Hold(i)) => Some(self.holds[i].id),
            _ => None,
        };
        if line.quantity == 0 {
            return Ok(
                ResolvedLine {
                    ticket_type_id: ticket_type.id,
                    event_id: ticket_type.event_id,
                    code_id,
                    hold_id,
                    quantity: 0,
                    unit_price_in_cents: 0,
                    ticket_pricing_id: None,
                    fee: None,
                },
            );
        }
        let outcome = match found {
            None => Outcome::Valid(0),
            Some(Redemption::Code(i)) => self.codes[i].validate(
                ticket_type.id,
                line.quantity,
                now,
            ),
            Some(Redemption::Hold(i)) => self.holds[i].validate(
                ticket_type.id,
                line.quantity,
                now,
            ),
        };
        let discount = match outcome {
            Outcome::Valid(d) => d,
            Outcome::NotApplicable => {
                return Err(
                    EngineError::Validation(ValidationError::RedemptionCodeNotApplicable),
                );
            },
            Outcome::QuantityExhausted => {
                return Err(
                    EngineError::Validation(ValidationError::RedemptionQuantityExhausted),
                );
            },
            _ => {
                return match found {
                    Some(Redemption::Hold(_)) => Err(
                        EngineError::Validation(ValidationError::HoldNotValidForCurrentDatetime),
                    ),
                    _ => Err(
                        EngineError::Validation(ValidationError::CodeNotValidForCurrentDatetime),
                    ),
                };
            },
        };
        let (price, pricing_id) = match ticket_type.resolve(
            line.quantity,
            discount,
            box_office,
            now,
        ) {
            Ok(resolved) => resolved,
            Err(e) => {
                return Err(e);
            },
        };
        let fee = self.organizations[o].fee_schedule.per_unit_fee(price, box_office);
        Ok(
            ResolvedLine {
                ticket_type_id: ticket_type.id,
                event_id: ticket_type.event_id,
                code_id,
                hold_id,
                quantity: line.quantity,
                unit_price_in_cents: price,
                ticket_pricing_id: Some(pricing_id),
                fee,
            },
        )
    }
}

/// The text of an optional string.
pub open spec fn spec_text(s: Option<String>) -> Option<Seq<char>> {
    match s {
        Some(text) => Some(text@),
        None => None,
    }
}

} // verus!
