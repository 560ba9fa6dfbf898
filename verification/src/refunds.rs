//! Refunding tickets and event fees of a paid order.

use crate::cart::{fee_of_event};
use crate::enums::OrderStatus;
use crate::errors::EngineError;
use crate::inventory::{
    linked, same_instances, spec_find_instance, unlinked, InventoryLedger, TicketInstance,
};
use crate::orders::{
    distinct_lines, lemma_same_item_ids, line_pair, one_fee_per_event, same_item_ids,
    fees_total, lemma_fees_total_update, lemma_lines_total_update,
    lemma_order_total, line_amount, lines_total, EventFeeLine, Order, TicketLine,
};
use crate::search::{first_match, is_first_match, lemma_first_match_is, lemma_first_match_none};
use crate::vecs::copy_vec;
use vstd::prelude::*;

verus! {

/// One unit to refund: a ticket of a tickets item, named by its instance, or
/// (without an instance) the event fee item.
#[derive(Clone, Copy, Debug, PartialEq, Eq)]
pub struct RefundItem {
    pub order_item_id: u128,
    pub ticket_instance_id: Option<u128>,
}

/// The order and the ledger in the course of a refund, with the cents
/// refunded so far.
pub struct RefundState {
    pub lines: Seq<TicketLine>,
    pub event_fees: Seq<EventFeeLine>,
    pub instances: Seq<TicketInstance>,
    pub refunded_cents: nat,
}

pub open spec fn line_with_id(id: u128) -> spec_fn(TicketLine) -> bool {
    |l: TicketLine| l.id == id
}

pub open spec fn fee_with_id(id: u128) -> spec_fn(EventFeeLine) -> bool {
    |f: EventFeeLine| f.id == id
}

/// No ticket of the event is left that was not refunded.
pub open spec fn event_tickets_refunded(lines: Seq<TicketLine>, event_id: u128) -> bool {
    forall|i: int|
        0 <= i < lines.len() && (#[trigger] lines[i]).event_id == event_id
            ==> lines[i].refunded_quantity >= lines[i].quantity
}

/// The line with one more ticket refunded.
pub open spec fn refunded_once(l: TicketLine) -> TicketLine {
    TicketLine { refunded_quantity: (l.refunded_quantity + 1) as u32, ..l }
}

/// What the refund of one ticket of the line returns: its unit price and its
/// per-unit fee.
pub open spec fn unit_refund(l: TicketLine) -> nat {
    l.unit_price_in_cents as nat + match l.fee {
        Some(fee) => fee.fee_in_cents as nat,
        None => 0nat,
    }
}

/// The event fee of the event refunded, where there is one that was not.
pub open spec fn spec_refund_event_fee(fees: Seq<EventFeeLine>, event_id: u128) -> (
    Seq<EventFeeLine>,
    nat,
) {
    match first_match(fees, fee_of_event(event_id)) {
        Some(f) => if fees[f].refunded {
            (fees, 0nat)
        } else {
            (
                fees.update(f, EventFeeLine { refunded: true, ..fees[f] }),
                fees[f].unit_price_in_cents as nat,
            )
        },
        None => (fees, 0nat),
    }
}

/// The refund of one unit.
///
/// With an instance: the item must be a tickets item of the order and the
/// instance must exist, else `NotFound`; the instance must be linked to the
/// item and the item must have a ticket left to refund, else
/// `AlreadyRefunded`. The ticket and its per-unit fee are refunded and the
/// instance is unlinked. Where that was the last ticket of its event, the
/// event fee is refunded with it.
///
/// Without an instance: the item must be an event fee item of the order,
/// else `NotFound`, and not refunded yet, else `AlreadyRefunded`.
pub open spec fn spec_refund_one(s: RefundState, item: RefundItem) -> Result<
    RefundState,
    EngineError,
> {
    match item.ticket_instance_id {
        Some(instance_id) => match first_match(s.lines, line_with_id(item.order_item_id)) {
            None => Err(EngineError::NotFound),
            Some(i) => match spec_find_instance(s.instances, instance_id, s.instances.len() as int) {
                None => Err(EngineError::NotFound),
                Some(k) => if !linked(s.instances[k], item.order_item_id)
                    || s.lines[i].refunded_quantity >= s.lines[i].quantity {
                    Err(EngineError::AlreadyRefunded)
                } else {
                    let lines = s.lines.update(i, refunded_once(s.lines[i]));
                    let (fees, fee_cents) = if event_tickets_refunded(lines, s.lines[i].event_id) {
                        spec_refund_event_fee(s.event_fees, s.lines[i].event_id)
                    } else {
                        (s.event_fees, 0nat)
                    };
                    Ok(
                        RefundState {
                            lines,
                            event_fees: fees,
                            instances: s.instances.update(k, unlinked(s.instances[k])),
                            refunded_cents: s.refunded_cents + unit_refund(s.lines[i]) + fee_cents,
                        },
                    )
                },
            },
        },
        None => match first_match(s.event_fees, fee_with_id(item.order_item_id)) {
            None => Err(EngineError::NotFound),
            Some(f) => if s.event_fees[f].refunded {
                Err(EngineError::AlreadyRefunded)
            } else {
                Ok(
                    RefundState {
                        event_fees: s.event_fees.update(
                            f,
                            EventFeeLine { refunded: true, ..s.event_fees[f] },
                        ),
                        refunded_cents: s.refunded_cents
                            + s.event_fees[f].unit_price_in_cents as nat,
                        ..s
                    },
                )
            },
        },
    }
}

/// The first `upto` units refunded in order; the first failure is the
/// answer.
pub open spec fn spec_refund_all(s: RefundState, items: Seq<RefundItem>, upto: int) -> Result<
    RefundState,
    EngineError,
>
    decreases upto,
{
    if upto <= 0 {
        Ok(s)
    } else {
        match spec_refund_all(s, items, upto - 1) {
            Err(e) => Err(e),
            Ok(before) => spec_refund_one(before, items[upto - 1]),
        }
    }
}

/// What a refund does, or why it fails. Only a paid order refunds.
pub open spec fn spec_refund(
    status: OrderStatus,
    lines: Seq<TicketLine>,
    event_fees: Seq<EventFeeLine>,
    instances: Seq<TicketInstance>,
    items: Seq<RefundItem>,
) -> Result<RefundState, EngineError> {
    if status != OrderStatus::Paid {
        Err(EngineError::InvalidStateTransition)
    } else {
        spec_refund_all(
            RefundState { lines, event_fees, instances, refunded_cents: 0 },
            items,
            items.len() as int,
        )
    }
}

/// What holds of the lines of any order: no more refunded than bought, and
/// both item ids of a line exist.
pub open spec fn sound_lines(lines: Seq<TicketLine>) -> bool {
    forall|i: int|
        0 <= i < lines.len() ==> (#[trigger] lines[i]).refunded_quantity <= lines[i].quantity
            && lines[i].quantity > 0 && lines[i].id < u128::MAX
}

/// Once a prefix of the units fails to refund, every longer one fails in
/// the same way.
pub proof fn lemma_refund_all_fails(s: RefundState, items: Seq<RefundItem>, i: int, upto: int)
    requires
        i <= upto,
        spec_refund_all(s, items, i) is Err,
    ensures
        spec_refund_all(s, items, upto) == spec_refund_all(s, items, i),
    decreases upto - i,
{
    if i < upto {
        lemma_refund_all_fails(s, items, i, upto - 1);
    }
}

/// One more ticket refunded does not raise what the line adds to the total.
pub proof fn lemma_refunded_once_amount(l: TicketLine)
    requires
        l.refunded_quantity < l.quantity,
    ensures
        line_amount(refunded_once(l)) <= line_amount(l),
{
    let q = (l.quantity - l.refunded_quantity) as int;
    let p = l.unit_price_in_cents as int;
    assert(p * (q - 1) <= p * q) by (nonlinear_arith)
        requires
            p >= 0,
    ;
    if l.fee is Some {
        let f = l.fee->0.fee_in_cents as int;
        assert(f * (q - 1) <= f * q) by (nonlinear_arith)
            requires
                f >= 0,
        ;
    }
}

/// The position of the line with the id.
fn find_line_by_id(lines: &Vec<TicketLine>, id: u128) -> (found: Option<usize>)
    ensures
        match found {
            Some(i) => first_match(lines@, line_with_id(id)) == Some(i as int) && i < lines@.len(),
            None => first_match(lines@, line_with_id(id)) is None,
        },
{
    let ghost p = line_with_id(id);
    let mut i: usize = 0;
    while i < lines.len()
        invariant
            0 <= i <= lines.len(),
            p == line_with_id(id),
            forall|j: int| 0 <= j < i ==> !p(#[trigger] lines@[j]),
        decreases lines.len() - i,
    {
        if lines[i].id == id {
            proof {
                assert(is_first_match(lines@, p, i as int));
                lemma_first_match_is(lines@, p, i as int);
            }
            return Some(i);
        }
        i += 1;
    }
    proof {
        lemma_first_match_none(lines@, p);
    }
    None
}

/// The position of the event fee that a predicate on its id or event picks.
fn find_fee(fees: &Vec<EventFeeLine>, id: u128, by_event: bool) -> (found: Option<usize>)
    ensures
        match found {
            Some(i) => first_match(
                fees@,
                if by_event {
                    fee_of_event(id)
                } else {
                    fee_with_id(id)
                },
            ) == Some(i as int) && i < fees@.len(),
            None => first_match(
                fees@,
                if by_event {
                    fee_of_event(id)
                } else {
                    fee_with_id(id)
                },
            ) is None,
        },
{
    let ghost p = if by_event {
        fee_of_event(id)
    } else {
        fee_with_id(id)
    };
    let mut i: usize = 0;
    while i < fees.len()
        invariant
            0 <= i <= fees.len(),
            p == if by_event {
                fee_of_event(id)
            } else {
                fee_with_id(id)
            },
            forall|j: int| 0 <= j < i ==> !p(#[trigger] fees@[j]),
        decreases fees.len() - i,
    {
        let key = if by_event {
            fees[i].event_id
        } else {
            fees[i].id
        };
        if key == id {
            proof {
                assert(is_first_match(fees@, p, i as int));
                lemma_first_match_is(fees@, p, i as int);
            }
            return Some(i);
        }
        i += 1;
    }
    proof {
        lemma_first_match_none(fees@, p);
    }
    None
}

/// Whether no ticket of the event is left that was not refunded.
fn all_refunded(lines: &Vec<TicketLine>, event_id: u128) -> (r: bool)
    ensures
        r == event_tickets_refunded(lines@, event_id),
{
    let mut i: usize = 0;
    while i < lines.len()
        invariant
            0 <= i <= lines.len(),
            forall|j: int|
                0 <= j < i && (#[trigger] lines@[j]).event_id == event_id
                    ==> lines@[j].refunded_quantity >= lines@[j].quantity,
        decreases lines.len() - i,
    {
        if lines[i].event_id == event_id && lines[i].refunded_quantity < lines[i].quantity {
            return false;
        }
        i += 1;
    }
    true
}

/// Refunds one unit on the working copies.
fn refund_one(
    lines: &mut Vec<TicketLine>,
    fees: &mut Vec<EventFeeLine>,
    work: &mut InventoryLedger,
    item: RefundItem,
    so_far: u128,
) -> (r: Result<u128, EngineError>)
    requires
        sound_lines(old(lines)@),
        so_far <= u128::MAX - 0x4_0000_0000,
    ensures
        final(work).reservation_window_seconds == old(work).reservation_window_seconds,
        same_instances(old(work).instances@, final(work).instances@),
        match spec_refund_one(
            RefundState {
                lines: old(lines)@,
                event_fees: old(fees)@,
                instances: old(work).instances@,
                refunded_cents: so_far as nat,
            },
            item,
        ) {
            Err(e) => r == Err::<u128, EngineError>(e),
            Ok(s) => {
                &&& r matches Ok(cents) && cents == s.refunded_cents
                &&& s.refunded_cents <= so_far + 0x3_0000_0000
                &&& final(lines)@ == s.lines
                &&& final(fees)@ == s.event_fees
                &&& final(work).instances@ == s.instances
                &&& sound_lines(s.lines)
                &&& same_item_ids(old(lines)@, old(fees)@, s.lines, s.event_fees)
                &&& (distinct_lines(old(lines)@) ==> distinct_lines(s.lines))
                &&& (one_fee_per_event(old(fees)@) ==> one_fee_per_event(s.event_fees))
                &&& lines_total(s.lines, s.lines.len() as int) <= lines_total(
                    old(lines)@,
                    old(lines)@.len() as int,
                )
                &&& fees_total(s.event_fees, s.event_fees.len() as int) <= fees_total(
                    old(fees)@,
                    old(fees)@.len() as int,
                )
            },
        },
{
    match item.ticket_instance_id {
        Some(instance_id) => {
            let i = match find_line_by_id(lines, item.order_item_id) {
                Some(i) => i,
                None => {
                    return Err(EngineError::NotFound);
                },
            };
            let k = match work.find(instance_id) {
                Some(k) => k,
                None => {
                    return Err(EngineError::NotFound);
                },
            };
            let l = lines[i];
            let is_linked = match work.instances[k].order_item_id {
                Some(owner) => owner == item.order_item_id,
                None => false,
            };
            if !is_linked || l.refunded_quantity >= l.quantity {
                return Err(EngineError::AlreadyRefunded);
            }
            proof {
                lemma_refunded_once_amount(l);
                lemma_lines_total_update(lines@, i as int, refunded_once(l), lines@.len() as int);
            }
            let mut amount = so_far + l.unit_price_in_cents as u128;
            match l.fee {
                Some(fee) => {
                    amount = amount + fee.fee_in_cents as u128;
                },
                None => {},
            }
            lines.set(
                i,
                TicketLine {
                    id: l.id,
                    ticket_type_id: l.ticket_type_id,
                    event_id: l.event_id,
                    ticket_pricing_id: l.ticket_pricing_id,
                    code_id: l.code_id,
                    hold_id: l.hold_id,
                    quantity: l.quantity,
                    unit_price_in_cents: l.unit_price_in_cents,
                    refunded_quantity: l.refunded_quantity + 1,
                    fee: l.fee,
                },
            );
            work.unlink_at(k);
            proof {
                if distinct_lines(old(lines)@) {
                    assert forall|a: int, b: int| 0 <= a < b < lines@.len() implies !line_pair(
                        lines@[a],
                        lines@[b],
                    ) by {
                        assert(!line_pair(old(lines)@[a], old(lines)@[b]));
                    }
                }
            }
            if all_refunded(lines, l.event_id) {
                match find_fee(fees, l.event_id, true) {
                    Some(f) => {
                        let fee = fees[f];
                        if !fee.refunded {
                            proof {
                                lemma_fees_total_update(
                                    fees@,
                                    f as int,
                                    EventFeeLine { refunded: true, ..fee },
                                    fees@.len() as int,
                                );
                            }
                            fees.set(
                                f,
                                EventFeeLine {
                                    id: fee.id,
                                    event_id: fee.event_id,
                                    unit_price_in_cents: fee.unit_price_in_cents,
                                    refunded: true,
                                },
                            );
                            amount = amount + fee.unit_price_in_cents as u128;
                            proof {
                                if one_fee_per_event(old(fees)@) {
                                    assert forall|a: int, b: int|
                                        0 <= a < b < fees@.len() implies fees@[a].event_id
                                        != fees@[b].event_id by {
                                        assert(old(fees)@[a].event_id != old(fees)@[b].event_id);
                                    }
                                }
                            }
                        }
                    },
                    None => {},
                }
            }
            Ok(amount)
        },
        None => {
            let f = match find_fee(fees, item.order_item_id, false) {
                Some(f) => f,
                None => {
                    return Err(EngineError::NotFound);
                },
            };
            let fee = fees[f];
            if fee.refunded {
                return Err(EngineError::AlreadyRefunded);
            }
            proof {
                lemma_fees_total_update(
                    fees@,
                    f as int,
                    EventFeeLine { refunded: true, ..fee },
                    fees@.len() as int,
                );
            }
            fees.set(
                f,
                EventFeeLine {
                    id: fee.id,
                    event_id: fee.event_id,
                    unit_price_in_cents: fee.unit_price_in_cents,
                    refunded: true,
                },
            );
            proof {
                if one_fee_per_event(old(fees)@) {
                    assert forall|a: int, b: int| 0 <= a < b < fees@.len() implies fees@[a].event_id
                        != fees@[b].event_id by {
                        assert(old(fees)@[a].event_id != old(fees)@[b].event_id);
                    }
                }
            }
            Ok(so_far + fee.unit_price_in_cents as u128)
        },
    }
}

impl Order {
    /// Refunds the named units of a paid order and answers the cents
    /// refunded by this call.
    ///
    /// The refund is one transaction: on any failure the order and the
    /// ledger stay as they were.
    pub fn refund(
        &mut self,
        refund_items: &Vec<RefundItem>,
        _requester_id: u128,
        ledger: &mut InventoryLedger,
    ) -> (r: Result<u128, EngineError>)
        requires
            old(self).wf(),
        ensures
            final(self).wf(),
            same_item_ids(
                old(self).lines@,
                old(self).event_fees@,
                final(self).lines@,
                final(self).event_fees@,
            ),
            forall|next: u128| old(self).issued_before(next) ==> final(self).issued_before(next),
            forall|id: int| final(self).owns(id) ==> #[trigger] old(self).owns(id),
            final(ledger).reservation_window_seconds == old(ledger).reservation_window_seconds,
            same_instances(old(ledger).instances@, final(ledger).instances@),
            old(ledger).wf() ==> final(ledger).wf(),
            final(self).id == old(self).id,
            final(self).user_id == old(self).user_id,
            final(self).status == old(self).status,
            final(self).created_at == old(self).created_at,
            final(self).expires_at == old(self).expires_at,
            final(self).paid_at == old(self).paid_at,
            final(self).note == old(self).note,
            final(self).box_office_pricing == old(self).box_office_pricing,
            final(self).payments == old(self).payments,
            final(self).events == old(self).events,
            match spec_refund(
                old(self).status,
                old(self).lines@,
                old(self).event_fees@,
                old(ledger).instances@,
                refund_items@,
            ) {
                Err(e) => r == Err::<u128, EngineError>(e) && *final(self) == *old(self)
                    && final(ledger).instances@ == old(ledger).instances@,
                Ok(s) => {
                    &&& r matches Ok(cents) && cents == s.refunded_cents
                    &&& final(self).lines@ == s.lines
                    &&& final(self).event_fees@ == s.event_fees
                    &&& final(ledger).instances@ == s.instances
                },
            },
    {
        match self.status {
            OrderStatus::Paid => {},
            _ => {
                return Err(EngineError::InvalidStateTransition);
            },
        }
        let mut lines = copy_vec(&self.lines);
        let mut fees = copy_vec(&self.event_fees);
        let mut work = InventoryLedger {
            instances: copy_vec(&ledger.instances),
            reservation_window_seconds: ledger.reservation_window_seconds,
        };
        let ghost start = RefundState {
            lines: self.lines@,
            event_fees: self.event_fees@,
            instances: ledger.instances@,
            refunded_cents: 0,
        };
        let mut amount: u128 = 0;
        let mut i: usize = 0;
        while i < refund_items.len()
            invariant
                0 <= i <= refund_items.len(),
                *self == *old(self),
                *ledger == *old(ledger),
                self.wf(),
                self.status == OrderStatus::Paid,
                start == (RefundState {
                    lines: self.lines@,
                    event_fees: self.event_fees@,
                    instances: ledger.instances@,
                    refunded_cents: 0,
                }),
                work.reservation_window_seconds == ledger.reservation_window_seconds,
                same_instances(ledger.instances@, work.instances@),
                amount <= i * 0x3_0000_0000,
                sound_lines(lines@),
                distinct_lines(lines@),
                one_fee_per_event(fees@),
                same_item_ids(self.lines@, self.event_fees@, lines@, fees@),
                lines_total(lines@, lines@.len() as int) <= lines_total(
                    self.lines@,
                    self.lines@.len() as int,
                ),
                fees_total(fees@, fees@.len() as int) <= fees_total(
                    self.event_fees@,
                    self.event_fees@.len() as int,
                ),
                spec_refund_all(start, refund_items@, i as int) == Ok::<RefundState, EngineError>(
                    RefundState {
                        lines: lines@,
                        event_fees: fees@,
                        instances: work.instances@,
                        refunded_cents: amount as nat,
                    },
                ),
            decreases refund_items.len() - i,
        {
            match refund_one(&mut lines, &mut fees, &mut work, refund_items[i], amount) {
                Ok(next) => {
                    amount = next;
                },
                Err(e) => {
                    proof {
                        lemma_refund_all_fails(
                            start,
                            refund_items@,
                            i + 1,
                            refund_items@.len() as int,
                        );
                    }
                    return Err(e);
                },
            }
            i += 1;
        }
        proof {
            lemma_order_total(self.lines@, self.event_fees@);
            lemma_order_total(lines@, fees@);
            lemma_same_item_ids(self.lines@, self.event_fees@, lines@, fees@);
            crate::orders::lemma_same_ids_owned(self.lines@, self.event_fees@, lines@, fees@);
        }
        proof {
            if old(ledger).wf() {
                crate::inventory::lemma_same_instances_distinct(
                    old(ledger).instances@,
                    work.instances@,
                );
            }
        }
        self.lines = lines;
        self.event_fees = fees;
        ledger.instances = work.instances;
        Ok(amount)
    }
}

} // verus!
