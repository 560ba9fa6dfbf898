//! The order aggregate: its ticket lines and event fees, the line items they
//! stand for, and the order's total.
//!
//! An order stores one ticket line per (ticket type, code or hold) pair. The
//! per-unit fee of a line is part of the line, so that its item mirrors the
//! tickets by construction. The flat event fees are stored beside the lines.

use crate::enums::{DomainEventTypes, OrderItemTypes, OrderStatus};
use vstd::prelude::*;

verus! {

/// The per-unit fee of a ticket line.
#[derive(Clone, Copy, Debug, PartialEq, Eq)]
pub struct UnitFee {
    pub fee_schedule_range_id: u128,
    pub fee_in_cents: u32,
}

/// The tickets of one (ticket type, code or hold) pair on an order, with the
/// per-unit fee charged on them.
#[derive(Clone, Copy, Debug, PartialEq, Eq)]
pub struct TicketLine {
    /// The id of the tickets item; the fee item has the next id.
    pub id: u128,
    pub ticket_type_id: u128,
    pub event_id: u128,
    pub ticket_pricing_id: Option<u128>,
    pub code_id: Option<u128>,
    pub hold_id: Option<u128>,
    pub quantity: u32,
    pub unit_price_in_cents: u32,
    pub refunded_quantity: u32,
    pub fee: Option<UnitFee>,
}

/// The flat fee of one event on an order.
#[derive(Clone, Copy, Debug, PartialEq, Eq)]
pub struct EventFeeLine {
    pub id: u128,
    pub event_id: u128,
    pub unit_price_in_cents: u32,
    pub refunded: bool,
}

/// A line item as the order shows it.
#[derive(Clone, Copy, Debug, PartialEq, Eq)]
pub struct OrderItem {
    pub id: u128,
    pub item_type: OrderItemTypes,
    pub ticket_type_id: Option<u128>,
    pub event_id: u128,
    pub ticket_pricing_id: Option<u128>,
    pub fee_schedule_range_id: Option<u128>,
    /// The tickets item that a per-unit fee item belongs to.
    pub parent_id: Option<u128>,
    pub code_id: Option<u128>,
    pub hold_id: Option<u128>,
    pub quantity: u32,
    pub unit_price_in_cents: u32,
    pub refunded_quantity: u32,
}

/// A payment made towards an order.
#[derive(Debug)]
pub struct Payment {
    pub external_reference: Option<String>,
    pub payer_id: u128,
    pub amount_in_cents: u64,
}

/// The aggregate root.
#[derive(Debug)]
pub struct Order {
    pub id: u128,
    pub user_id: u128,
    pub status: OrderStatus,
    pub created_at: i64,
    pub expires_at: i64,
    pub paid_at: Option<i64>,
    pub note: Option<String>,
    pub box_office_pricing: bool,
    pub lines: Vec<TicketLine>,
    pub event_fees: Vec<EventFeeLine>,
    pub payments: Vec<Payment>,
    /// The facts reported so far, oldest first.
    pub events: Vec<DomainEventTypes>,
}

/// Hands out the ids of line items; each id is given once.
#[derive(Debug)]
pub struct IdSequence {
    pub next: u128,
}

impl IdSequence {
    pub fn new() -> (r: IdSequence)
        ensures
            r.next == 1,
    {
        IdSequence { next: 1 }
    }
}

/// Two lines are for the same (ticket type, code or hold) pair.
pub open spec fn line_pair(a: TicketLine, b: TicketLine) -> bool {
    a.ticket_type_id == b.ticket_type_id && a.code_id == b.code_id && a.hold_id == b.hold_id
}

/// No two lines are for the same pair.
pub open spec fn distinct_lines(lines: Seq<TicketLine>) -> bool {
    forall|a: int, b: int| 0 <= a < b < lines.len() ==> !line_pair(lines[a], lines[b])
}

/// No two event fees are for the same event.
pub open spec fn one_fee_per_event(fees: Seq<EventFeeLine>) -> bool {
    forall|a: int, b: int| 0 <= a < b < fees.len() ==> fees[a].event_id != fees[b].event_id
}

/// The two item ids of every line and the id of every event fee lie below
/// `next`: they were given out before.
pub open spec fn ids_below(lines: Seq<TicketLine>, fees: Seq<EventFeeLine>, next: int) -> bool {
    &&& forall|i: int| 0 <= i < lines.len() ==> (#[trigger] lines[i]).id + 1 < next
    &&& forall|i: int| 0 <= i < fees.len() ==> (#[trigger] fees[i]).id < next
}

/// No two lines share one of their two item ids.
pub open spec fn lines_apart(lines: Seq<TicketLine>) -> bool {
    forall|a: int, b: int|
        0 <= a < lines.len() && 0 <= b < lines.len() && a != b ==> (#[trigger] lines[a]).id != (
        #[trigger] lines[b]).id && lines[a].id != lines[b].id + 1
}

/// No event fee has the id of another, or one of the two item ids of a
/// line.
pub open spec fn fees_apart(lines: Seq<TicketLine>, fees: Seq<EventFeeLine>) -> bool {
    &&& forall|a: int, b: int|
        0 <= a < b < fees.len() ==> (#[trigger] fees[a]).id != (#[trigger] fees[b]).id
    &&& forall|a: int, b: int|
        0 <= a < lines.len() && 0 <= b < fees.len() ==> (#[trigger] fees[b]).id != (
        #[trigger] lines[a]).id && fees[b].id != lines[a].id + 1
}

/// No two line items share an id.
pub open spec fn item_ids_distinct(lines: Seq<TicketLine>, fees: Seq<EventFeeLine>) -> bool {
    lines_apart(lines) && fees_apart(lines, fees)
}

/// The id is one of a line item: of the tickets item or the fee item of a
/// line, or of an event fee item.
pub open spec fn owns_id(lines: Seq<TicketLine>, fees: Seq<EventFeeLine>, id: int) -> bool {
    ||| exists|i: int| 0 <= i < lines.len() && (id == (#[trigger] lines[i]).id || id == lines[i].id + 1)
    ||| exists|i: int| 0 <= i < fees.len() && id == (#[trigger] fees[i]).id
}

/// Every id of the second lines and event fees is one of the first, or
/// was given out from `first` on and before `next`.
pub open spec fn ids_taken_from(
    lines2: Seq<TicketLine>,
    fees2: Seq<EventFeeLine>,
    lines: Seq<TicketLine>,
    fees: Seq<EventFeeLine>,
    first: int,
    next: int,
) -> bool {
    forall|id: int| #[trigger]
        owns_id(lines2, fees2, id) ==> owns_id(lines, fees, id) || first <= id < next
}

/// Ids that were given out before `next` lie below it.
pub proof fn lemma_owned_ids_below(lines: Seq<TicketLine>, fees: Seq<EventFeeLine>, next: int)
    requires
        ids_below(lines, fees, next),
    ensures
        forall|id: int| #[trigger] owns_id(lines, fees, id) ==> id < next,
{
}

/// Lines and event fees under the ids of others own the same ids.
pub proof fn lemma_same_ids_owned(
    lines: Seq<TicketLine>,
    fees: Seq<EventFeeLine>,
    lines2: Seq<TicketLine>,
    fees2: Seq<EventFeeLine>,
)
    requires
        same_item_ids(lines, fees, lines2, fees2),
    ensures
        forall|id: int| owns_id(lines2, fees2, id) ==> #[trigger] owns_id(lines, fees, id),
{
    assert forall|id: int| owns_id(lines2, fees2, id) implies #[trigger] owns_id(
        lines,
        fees,
        id,
    ) by {
        if exists|i: int|
            0 <= i < lines2.len() && (id == (#[trigger] lines2[i]).id || id == lines2[i].id + 1) {
            let i = choose|i: int|
                0 <= i < lines2.len() && (id == (#[trigger] lines2[i]).id || id == lines2[i].id + 1);
            assert(lines[i].id == lines2[i].id);
        } else {
            let i = choose|i: int| 0 <= i < fees2.len() && id == (#[trigger] fees2[i]).id;
            assert(fees[i].id == fees2[i].id);
        }
    }
}

/// The second lines and event fees are the first under the same ids, each
/// in its place.
pub open spec fn same_item_ids(
    lines: Seq<TicketLine>,
    fees: Seq<EventFeeLine>,
    lines2: Seq<TicketLine>,
    fees2: Seq<EventFeeLine>,
) -> bool {
    &&& lines.len() == lines2.len()
    &&& fees.len() == fees2.len()
    &&& forall|i: int| 0 <= i < lines.len() ==> (#[trigger] lines[i]).id == lines2[i].id
    &&& forall|i: int| 0 <= i < fees.len() ==> (#[trigger] fees[i]).id == fees2[i].id
}

/// Lines and event fees under the ids of others are apart and given out as
/// those are.
pub proof fn lemma_same_item_ids(
    lines: Seq<TicketLine>,
    fees: Seq<EventFeeLine>,
    lines2: Seq<TicketLine>,
    fees2: Seq<EventFeeLine>,
)
    requires
        same_item_ids(lines, fees, lines2, fees2),
    ensures
        item_ids_distinct(lines, fees) ==> item_ids_distinct(lines2, fees2),
        forall|next: int| ids_below(lines, fees, next) ==> #[trigger] ids_below(lines2, fees2, next),
{
    if item_ids_distinct(lines, fees) {
        assert forall|a: int, b: int|
            0 <= a < lines2.len() && 0 <= b < lines2.len() && a != b implies (
        #[trigger] lines2[a]).id != (#[trigger] lines2[b]).id && lines2[a].id != lines2[b].id
            + 1 by {
            assert(lines[a].id == lines2[a].id && lines[b].id == lines2[b].id);
        }
        assert forall|a: int, b: int| 0 <= a < b < fees2.len() implies (#[trigger] fees2[a]).id != (
        #[trigger] fees2[b]).id by {
            assert(fees[a].id == fees2[a].id && fees[b].id == fees2[b].id);
        }
        assert forall|a: int, b: int| 0 <= a < lines2.len() && 0 <= b < fees2.len() implies (
        #[trigger] fees2[b]).id != (#[trigger] lines2[a]).id && fees2[b].id != lines2[a].id
            + 1 by {
            assert(lines[a].id == lines2[a].id && fees[b].id == fees2[b].id);
        }
    }
    assert forall|next: int| ids_below(lines, fees, next) implies #[trigger] ids_below(
        lines2,
        fees2,
        next,
    ) by {
        assert forall|i: int| 0 <= i < lines2.len() implies (#[trigger] lines2[i]).id + 1
            < next by {
            assert(lines[i].id == lines2[i].id);
        }
        assert forall|i: int| 0 <= i < fees2.len() implies (#[trigger] fees2[i]).id < next by {
            assert(fees[i].id == fees2[i].id);
        }
    }
}

/// The tickets item of a line.
pub open spec fn ticket_item(l: TicketLine) -> OrderItem {
    OrderItem {
        id: l.id,
        item_type: OrderItemTypes::Tickets,
        ticket_type_id: Some(l.ticket_type_id),
        event_id: l.event_id,
        ticket_pricing_id: l.ticket_pricing_id,
        fee_schedule_range_id: None,
        parent_id: None,
        code_id: l.code_id,
        hold_id: l.hold_id,
        quantity: l.quantity,
        unit_price_in_cents: l.unit_price_in_cents,
        refunded_quantity: l.refunded_quantity,
    }
}

/// The per-unit fee item of a line that carries a fee: quantity and refunded
/// quantity are those of the tickets.
pub open spec fn fee_item(l: TicketLine) -> OrderItem {
    OrderItem {
        id: (l.id + 1) as u128,
        item_type: OrderItemTypes::PerUnitFees,
        ticket_type_id: None,
        event_id: l.event_id,
        ticket_pricing_id: None,
        fee_schedule_range_id: Some(l.fee->0.fee_schedule_range_id),
        parent_id: Some(l.id),
        code_id: None,
        hold_id: None,
        quantity: l.quantity,
        unit_price_in_cents: l.fee->0.fee_in_cents,
        refunded_quantity: l.refunded_quantity,
    }
}

/// The item of an event fee: a single unit.
pub open spec fn event_fee_item(f: EventFeeLine) -> OrderItem {
    OrderItem {
        id: f.id,
        item_type: OrderItemTypes::EventFees,
        ticket_type_id: None,
        event_id: f.event_id,
        ticket_pricing_id: None,
        fee_schedule_range_id: None,
        parent_id: None,
        code_id: None,
        hold_id: None,
        quantity: 1,
        unit_price_in_cents: f.unit_price_in_cents,
        refunded_quantity: if f.refunded {
            1u32
        } else {
            0u32
        },
    }
}

/// The items of the first `upto` lines: each tickets item, followed by its
/// fee item where the line carries a fee.
pub open spec fn line_items(lines: Seq<TicketLine>, upto: int) -> Seq<OrderItem>
    decreases upto,
{
    if upto <= 0 {
        Seq::empty()
    } else {
        let before = line_items(lines, upto - 1).push(ticket_item(lines[upto - 1]));
        if lines[upto - 1].fee is Some {
            before.push(fee_item(lines[upto - 1]))
        } else {
            before
        }
    }
}

/// The items of the first `upto` event fees.
pub open spec fn event_fee_items(fees: Seq<EventFeeLine>, upto: int) -> Seq<OrderItem>
    decreases upto,
{
    if upto <= 0 {
        Seq::empty()
    } else {
        event_fee_items(fees, upto - 1).push(event_fee_item(fees[upto - 1]))
    }
}

/// All items of an order: those of its lines, then its event fees.
pub open spec fn order_items(lines: Seq<TicketLine>, fees: Seq<EventFeeLine>) -> Seq<OrderItem> {
    line_items(lines, lines.len() as int) + event_fee_items(fees, fees.len() as int)
}

/// What an item adds to the total: the unit price times the quantity that
/// was not refunded.
pub open spec fn item_amount(item: OrderItem) -> nat {
    if item.quantity >= item.refunded_quantity {
        (item.unit_price_in_cents * (item.quantity - item.refunded_quantity)) as nat
    } else {
        0
    }
}

/// The amounts of the first `upto` items, added up.
pub open spec fn items_total(items: Seq<OrderItem>, upto: int) -> nat
    decreases upto,
{
    if upto <= 0 {
        0
    } else {
        items_total(items, upto - 1) + item_amount(items[upto - 1])
    }
}

/// The amounts of the first `upto` payments, added up.
pub open spec fn payments_total(payments: Seq<Payment>, upto: int) -> nat
    decreases upto,
{
    if upto <= 0 {
        0
    } else {
        payments_total(payments, upto - 1) + payments[upto - 1].amount_in_cents as nat
    }
}

/// The status that the paid amount and the total call for.
pub open spec fn status_for(paid: nat, total: nat) -> OrderStatus {
    if paid == 0 {
        OrderStatus::Draft
    } else if paid < total {
        OrderStatus::PartiallyPaid
    } else {
        OrderStatus::Paid
    }
}

/// How often a fact occurs among the first `upto` reported.
pub open spec fn event_count(events: Seq<DomainEventTypes>, event: DomainEventTypes, upto: int) -> nat
    decreases upto,
{
    if upto <= 0 {
        0
    } else {
        event_count(events, event, upto - 1) + if events[upto - 1] == event {
            1nat
        } else {
            0nat
        }
    }
}

/// What a line adds to the total: its tickets, and its fee where it carries
/// one.
pub open spec fn line_amount(l: TicketLine) -> nat {
    item_amount(ticket_item(l)) + if l.fee is Some {
        item_amount(fee_item(l))
    } else {
        0nat
    }
}

/// The amounts of the first `upto` lines, added up.
pub open spec fn lines_total(lines: Seq<TicketLine>, upto: int) -> nat
    decreases upto,
{
    if upto <= 0 {
        0
    } else {
        lines_total(lines, upto - 1) + line_amount(lines[upto - 1])
    }
}

/// The amounts of the first `upto` event fees, added up.
pub open spec fn fees_total(fees: Seq<EventFeeLine>, upto: int) -> nat
    decreases upto,
{
    if upto <= 0 {
        0
    } else {
        fees_total(fees, upto - 1) + item_amount(event_fee_item(fees[upto - 1]))
    }
}

pub proof fn lemma_items_total_push(items: Seq<OrderItem>, item: OrderItem, upto: int)
    requires
        0 <= upto <= items.len(),
    ensures
        items_total(items.push(item), upto) == items_total(items, upto),
        upto == items.len() ==> items_total(items.push(item), upto + 1) == items_total(items, upto)
            + item_amount(item),
    decreases upto,
{
    if upto > 0 {
        lemma_items_total_push(items, item, upto - 1);
    }
    if upto == items.len() {
        let longer = items.push(item);
        assert(longer[upto] == item);
        assert(items_total(longer, upto + 1) == items_total(longer, upto) + item_amount(
            longer[upto],
        ));
    }
}

/// The total of two lists of items, one after the other, is the sum of
/// their totals.
pub proof fn lemma_items_total_concat(a: Seq<OrderItem>, b: Seq<OrderItem>, upto: int)
    requires
        0 <= upto <= b.len(),
    ensures
        items_total(a + b.subrange(0, upto), a.len() + upto) == items_total(a, a.len() as int)
            + items_total(b, upto),
    decreases upto,
{
    if upto == 0 {
        assert(a + b.subrange(0, 0) =~= a);
    } else {
        lemma_items_total_concat(a, b, upto - 1);
        let shorter = a + b.subrange(0, upto - 1);
        assert(a + b.subrange(0, upto) =~= shorter.push(b[upto - 1]));
        lemma_items_total_push(shorter, b[upto - 1], shorter.len() as int);
    }
}

/// The items of the lines add up to what the lines add up to.
pub proof fn lemma_line_items_total(lines: Seq<TicketLine>, upto: int)
    requires
        0 <= upto <= lines.len(),
    ensures
        items_total(line_items(lines, upto), line_items(lines, upto).len() as int) == lines_total(
            lines,
            upto,
        ),
    decreases upto,
{
    if upto > 0 {
        lemma_line_items_total(lines, upto - 1);
        let before = line_items(lines, upto - 1);
        let l = lines[upto - 1];
        lemma_items_total_push(before, ticket_item(l), before.len() as int);
        if l.fee is Some {
            let with_ticket = before.push(ticket_item(l));
            lemma_items_total_push(with_ticket, fee_item(l), with_ticket.len() as int);
        }
    }
}

/// The items of the event fees add up to what the event fees add up to.
pub proof fn lemma_event_fee_items_total(fees: Seq<EventFeeLine>, upto: int)
    requires
        0 <= upto <= fees.len(),
    ensures
        event_fee_items(fees, upto).len() == upto,
        items_total(event_fee_items(fees, upto), upto) == fees_total(fees, upto),
    decreases upto,
{
    if upto > 0 {
        lemma_event_fee_items_total(fees, upto - 1);
        let before = event_fee_items(fees, upto - 1);
        lemma_items_total_push(before, event_fee_item(fees[upto - 1]), before.len() as int);
    }
}

/// The total over all line items of an order is the sum over its lines and
/// its event fees.
pub proof fn lemma_order_total(lines: Seq<TicketLine>, fees: Seq<EventFeeLine>)
    ensures
        items_total(order_items(lines, fees), order_items(lines, fees).len() as int)
            == lines_total(lines, lines.len() as int) + fees_total(fees, fees.len() as int),
{
    let a = line_items(lines, lines.len() as int);
    let b = event_fee_items(fees, fees.len() as int);
    lemma_line_items_total(lines, lines.len() as int);
    lemma_event_fee_items_total(fees, fees.len() as int);
    lemma_items_total_concat(a, b, b.len() as int);
    assert(b.subrange(0, b.len() as int) =~= b);
}

/// Replacing a line by one that adds no more does not raise the total.
pub proof fn lemma_lines_total_update(lines: Seq<TicketLine>, i: int, l: TicketLine, upto: int)
    requires
        0 <= i < lines.len(),
        0 <= upto <= lines.len(),
        line_amount(l) <= line_amount(lines[i]),
    ensures
        lines_total(lines.update(i, l), upto) <= lines_total(lines, upto),
        lines_total(lines, upto) - lines_total(lines.update(i, l), upto) == if i < upto {
            line_amount(lines[i]) - line_amount(l)
        } else {
            0
        },
    decreases upto,
{
    if upto > 0 {
        lemma_lines_total_update(lines, i, l, upto - 1);
    }
}

/// Replacing an event fee by one that adds no more does not raise the total.
pub proof fn lemma_fees_total_update(fees: Seq<EventFeeLine>, i: int, f: EventFeeLine, upto: int)
    requires
        0 <= i < fees.len(),
        0 <= upto <= fees.len(),
        item_amount(event_fee_item(f)) <= item_amount(event_fee_item(fees[i])),
    ensures
        fees_total(fees.update(i, f), upto) <= fees_total(fees, upto),
        fees_total(fees, upto) - fees_total(fees.update(i, f), upto) == if i < upto {
            item_amount(event_fee_item(fees[i])) - item_amount(event_fee_item(f))
        } else {
            0
        },
    decreases upto,
{
    if upto > 0 {
        lemma_fees_total_update(fees, i, f, upto - 1);
    }
}

/// The item at `j` is no event fee item; and if it is a per-unit fee item,
/// it stands right behind a tickets item, names it as its parent, and has
/// its event, its quantity and its refunded quantity.
pub open spec fn fee_mirrors_tickets(items: Seq<OrderItem>, j: int) -> bool {
    &&& items[j].item_type != OrderItemTypes::EventFees
    &&& items[j].item_type == OrderItemTypes::PerUnitFees ==> {
        &&& j > 0
        &&& items[j - 1].item_type == OrderItemTypes::Tickets
        &&& items[j].parent_id == Some(items[j - 1].id)
        &&& items[j].event_id == items[j - 1].event_id
        &&& items[j].quantity == items[j - 1].quantity
        &&& items[j].refunded_quantity == items[j - 1].refunded_quantity
    }
}

/// Mirroring. Among the items of the lines every per-unit fee item stands
/// right behind its tickets item and has its quantity and its refunded
/// quantity.
pub proof fn law_fee_item_mirrors_tickets(lines: Seq<TicketLine>, upto: int)
    requires
        0 <= upto <= lines.len(),
    ensures
        forall|j: int|
            0 <= j < line_items(lines, upto).len() ==> #[trigger] fee_mirrors_tickets(
                line_items(lines, upto),
                j,
            ),
    decreases upto,
{
    if upto > 0 {
        law_fee_item_mirrors_tickets(lines, upto - 1);
        let before = line_items(lines, upto - 1);
        let l = lines[upto - 1];
        let with_ticket = before.push(ticket_item(l));
        let items = line_items(lines, upto);
        assert(items == if l.fee is Some {
            with_ticket.push(fee_item(l))
        } else {
            with_ticket
        });
        assert forall|j: int| 0 <= j < items.len() implies #[trigger] fee_mirrors_tickets(
            items,
            j,
        ) by {
            if j < before.len() {
                assert(fee_mirrors_tickets(before, j));
                assert(items[j] == before[j]);
                if j > 0 {
                    assert(items[j - 1] == before[j - 1]);
                }
            } else if j == before.len() {
                assert(items[j] == ticket_item(l));
            } else {
                assert(items[j] == fee_item(l));
                assert(items[j - 1] == ticket_item(l));
            }
        }
    }
}

pub proof fn lemma_item_amount_bounded(item: OrderItem)
    ensures
        item_amount(item) < 0x1_0000_0000_0000_0000,
{
    if item.quantity >= item.refunded_quantity {
        let p = item.unit_price_in_cents as int;
        let q = (item.quantity - item.refunded_quantity) as int;
        assert(p * q < 0x1_0000_0000_0000_0000) by (nonlinear_arith)
            requires
                0 <= p < 0x1_0000_0000,
                0 <= q < 0x1_0000_0000,
        ;
    }
}

impl Order {
    /// The view of the order as its line items.
    pub open spec fn spec_items(&self) -> Seq<OrderItem> {
        order_items(self.lines@, self.event_fees@)
    }

    /// The total of the order.
    pub open spec fn spec_total(&self) -> nat {
        items_total(self.spec_items(), self.spec_items().len() as int)
    }

    /// The ids of all line items of the order were given out before `next`.
    pub open spec fn issued_before(&self, next: u128) -> bool {
        ids_below(self.lines@, self.event_fees@, next as int)
    }

    /// The id is one of a line item of the order.
    pub open spec fn owns(&self, id: int) -> bool {
        owns_id(self.lines@, self.event_fees@, id)
    }

    /// The amount paid so far.
    pub open spec fn spec_paid(&self) -> nat {
        payments_total(self.payments@, self.payments@.len() as int)
    }

    /// The invariant of an order.
    ///
    /// There is one line per (ticket type, code or hold) pair and one event
    /// fee per event, and no two line items share an id. No more is refunded than was bought, and refunds occur
    /// on paid orders only. A line holds tickets (a line without any is
    /// removed) and its two item ids exist. An order that is not cancelled
    /// has the status that its paid amount and total call for, and has
    /// reported its completion once if it is paid and never otherwise.
    pub open spec fn wf(&self) -> bool {
        &&& distinct_lines(self.lines@)
        &&& one_fee_per_event(self.event_fees@)
        &&& item_ids_distinct(self.lines@, self.event_fees@)
        &&& forall|i: int|
            0 <= i < self.lines@.len() ==> {
                &&& (#[trigger] self.lines@[i]).refunded_quantity <= self.lines@[i].quantity
                &&& self.lines@[i].quantity > 0
                &&& self.lines@[i].id < u128::MAX
                &&& (self.status != OrderStatus::Paid ==> self.lines@[i].refunded_quantity == 0)
            }
        &&& forall|i: int|
            0 <= i < self.event_fees@.len() ==> (self.status != OrderStatus::Paid ==> !(
            #[trigger] self.event_fees@[i]).refunded)
        &&& self.status != OrderStatus::Cancelled ==> self.status == status_for(
            self.spec_paid(),
            self.spec_total(),
        )
        &&& event_count(self.events@, DomainEventTypes::OrderCompleted, self.events@.len() as int) == if
            self.status == OrderStatus::Paid {
            1nat
        } else {
            0nat
        }
    }

    /// The line items of the order: for each line its tickets item, then its
    /// fee item if it carries a fee; after them the event fee items.
    pub fn items(&self) -> (r: Vec<OrderItem>)
        requires
            forall|i: int| 0 <= i < self.lines@.len() ==> (#[trigger] self.lines@[i]).id < u128::MAX,
        ensures
            r@ == self.spec_items(),
    {
        let mut items: Vec<OrderItem> = Vec::new();
        let mut i: usize = 0;
        while i < self.lines.len()
            invariant
                0 <= i <= self.lines.len(),
                items@ == line_items(self.lines@, i as int),
                forall|k: int|
                    0 <= k < self.lines@.len() ==> (#[trigger] self.lines@[k]).id < u128::MAX,
            decreases self.lines.len() - i,
        {
            let l = self.lines[i];
            items.push(
                OrderItem {
                    id: l.id,
                    item_type: OrderItemTypes::Tickets,
                    ticket_type_id: Some(l.ticket_type_id),
                    event_id: l.event_id,
                    ticket_pricing_id: l.ticket_pricing_id,
                    fee_schedule_range_id: None,
                    parent_id: None,
                    code_id: l.code_id,
                    hold_id: l.hold_id,
                    quantity: l.quantity,
                    unit_price_in_cents: l.unit_price_in_cents,
                    refunded_quantity: l.refunded_quantity,
                },
            );
            match l.fee {
                Some(fee) => {
                    items.push(
                        OrderItem {
                            id: l.id + 1,
                            item_type: OrderItemTypes::PerUnitFees,
                            ticket_type_id: None,
                            event_id: l.event_id,
                            ticket_pricing_id: None,
                            fee_schedule_range_id: Some(fee.fee_schedule_range_id),
                            parent_id: Some(l.id),
                            code_id: None,
                            hold_id: None,
                            quantity: l.quantity,
                            unit_price_in_cents: fee.fee_in_cents,
                            refunded_quantity: l.refunded_quantity,
                        },
                    );
                },
                None => {},
            }
            i += 1;
        }
        let ghost from_lines = items@;
        let mut k: usize = 0;
        while k < self.event_fees.len()
            invariant
                0 <= k <= self.event_fees.len(),
                from_lines == line_items(self.lines@, self.lines@.len() as int),
                items@ == from_lines + event_fee_items(self.event_fees@, k as int),
            decreases self.event_fees.len() - k,
        {
            let f = self.event_fees[k];
            items.push(
                OrderItem {
                    id: f.id,
                    item_type: OrderItemTypes::EventFees,
                    ticket_type_id: None,
                    event_id: f.event_id,
                    ticket_pricing_id: None,
                    fee_schedule_range_id: None,
                    parent_id: None,
                    code_id: None,
                    hold_id: None,
                    quantity: 1,
                    unit_price_in_cents: f.unit_price_in_cents,
                    refunded_quantity: if f.refunded {
                        1
                    } else {
                        0
                    },
                },
            );
            assert(items@ =~= from_lines + event_fee_items(self.event_fees@, k + 1));
            k += 1;
        }
        items
    }

    /// The total of the order in cents: over all line items, the unit price
    /// times the quantity that was not refunded.
    pub fn calculate_total(&self) -> (total: u128)
        requires
            forall|i: int| 0 <= i < self.lines@.len() ==> (#[trigger] self.lines@[i]).id < u128::MAX,
        ensures
            total == self.spec_total(),
    {
        let items = self.items();
        let mut total: u128 = 0;
        let mut i: usize = 0;
        while i < items.len()
            invariant
                0 <= i <= items.len(),
                total == items_total(items@, i as int),
                total <= i * 0x1_0000_0000_0000_0000,
            decreases items.len() - i,
        {
            let item = items[i];
            proof {
                lemma_item_amount_bounded(item);
            }
            if item.quantity >= item.refunded_quantity {
                let remaining: u64 = (item.quantity - item.refunded_quantity) as u64;
                assert(item.unit_price_in_cents * remaining < 0x1_0000_0000_0000_0000)
                    by (nonlinear_arith)
                    requires
                        0 <= item.unit_price_in_cents < 0x1_0000_0000,
                        0 <= remaining < 0x1_0000_0000,
                ;
                total = total + (item.unit_price_in_cents as u64 * remaining) as u128;
            }
            i += 1;
        }
        total
    }

    /// The amount paid so far, in cents.
    pub fn paid_total(&self) -> (paid: u128)
        ensures
            paid == self.spec_paid(),
    {
        let mut paid: u128 = 0;
        let mut i: usize = 0;
        while i < self.payments.len()
            invariant
                0 <= i <= self.payments.len(),
                paid == payments_total(self.payments@, i as int),
                paid <= i * 0x1_0000_0000_0000_0000,
            decreases self.payments.len() - i,
        {
            paid = paid + self.payments[i].amount_in_cents as u128;
            i += 1;
        }
        paid
    }

    /// Whether the order holds any ticket line.
    pub fn has_items(&self) -> (r: bool)
        ensures
            r == (self.lines@.len() > 0),
    {
        self.lines.len() > 0
    }

    /// An order without items and past its expiry is abandoned, and may be
    /// removed.
    pub fn is_abandoned(&self, now: i64) -> (r: bool)
        ensures
            r == (self.lines@.len() == 0 && self.expires_at < now),
    {
        self.lines.len() == 0 && self.expires_at < now
    }
}

} // verus!
