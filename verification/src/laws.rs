//! Laws that relate the operations of the engine to one another.

use crate::enums::OrderStatus;
use crate::inventory::{
    claimable, claimable_count, claimed, claims_at, lemma_find_instance, linked, linked_count,
    released, releases_at, spec_find_instance, spec_release, spec_reserve, TicketInstance,
};
use crate::orders::{status_for, EventFeeLine};
use crate::payments::completes;
use crate::refunds::{
    fee_with_id, spec_refund_all, spec_refund_one, RefundItem, RefundState,
};
use crate::search::{first_match, is_first_match, lemma_first_match, lemma_first_match_is};
use vstd::prelude::*;

verus! {

// ---------------------------------------------------------------------------
// The ledger: reserve, then release
// ---------------------------------------------------------------------------
/// Two ledgers whose instances are claimable alike have the same number of
/// claimable instances.
proof fn lemma_claimable_count_same(
    a: Seq<TicketInstance>,
    b: Seq<TicketInstance>,
    ticket_type_id: u128,
    now: i64,
    upto: int,
)
    requires
        0 <= upto <= a.len(),
        a.len() == b.len(),
        forall|i: int|
            0 <= i < upto ==> claimable(a[i], ticket_type_id, now) == claimable(
                b[i],
                ticket_type_id,
                now,
            ),
    ensures
        claimable_count(a, ticket_type_id, now, upto) == claimable_count(
            b,
            ticket_type_id,
            now,
            upto,
        ),
    decreases upto,
{
    if upto > 0 {
        lemma_claimable_count_same(a, b, ticket_type_id, now, upto - 1);
    }
}

/// The smaller of two numbers.
pub open spec fn least(a: nat, b: nat) -> nat {
    if a <= b {
        a
    } else {
        b
    }
}

/// After a reservation for a line item that held nothing, the instances
/// linked to the item are those that the reservation claimed, and as many
/// fewer can be claimed.
proof fn lemma_reserved_counts(
    s: Seq<TicketInstance>,
    ticket_type_id: u128,
    quantity: nat,
    order_item_id: u128,
    until: i64,
    now: i64,
    upto: int,
)
    requires
        0 <= upto <= s.len(),
        until >= now,
        forall|i: int| 0 <= i < s.len() ==> !linked(s[i], order_item_id),
    ensures
        linked_count(
            spec_reserve(s, ticket_type_id, quantity, order_item_id, until, now),
            order_item_id,
            upto,
        ) == least(claimable_count(s, ticket_type_id, now, upto), quantity),
        claimable_count(
            spec_reserve(s, ticket_type_id, quantity, order_item_id, until, now),
            ticket_type_id,
            now,
            upto,
        ) == claimable_count(s, ticket_type_id, now, upto) - least(
            claimable_count(s, ticket_type_id, now, upto),
            quantity,
        ),
    decreases upto,
{
    if upto > 0 {
        lemma_reserved_counts(s, ticket_type_id, quantity, order_item_id, until, now, upto - 1);
    }
}

/// Round trip on the ledger. A reservation of `quantity` instances for a
/// line item that held none, followed by the release of `quantity`
/// instances of that item, leaves as many instances claimable as there were
/// before, and the item without any instance.
pub proof fn law_reserve_then_release(
    s: Seq<TicketInstance>,
    ticket_type_id: u128,
    quantity: nat,
    order_item_id: u128,
    reservation_window_seconds: u32,
    now: i64,
)
    requires
        now + reservation_window_seconds <= i64::MAX,
        forall|i: int| 0 <= i < s.len() ==> !linked(s[i], order_item_id),
        claimable_count(s, ticket_type_id, now, s.len() as int) >= quantity,
    ensures
        ({
            let until = (now + reservation_window_seconds) as i64;
            let reserved = spec_reserve(s, ticket_type_id, quantity, order_item_id, until, now);
            let after = spec_release(reserved, order_item_id, quantity);
            &&& linked_count(reserved, order_item_id, s.len() as int) == quantity
            &&& claimable_count(reserved, ticket_type_id, now, s.len() as int) == claimable_count(
                s,
                ticket_type_id,
                now,
                s.len() as int,
            ) - quantity
            &&& claimable_count(after, ticket_type_id, now, s.len() as int) == claimable_count(
                s,
                ticket_type_id,
                now,
                s.len() as int,
            )
            &&& linked_count(after, order_item_id, s.len() as int) == 0
        }),
{
    let until = (now + reservation_window_seconds) as i64;
    let reserved = spec_reserve(s, ticket_type_id, quantity, order_item_id, until, now);
    let after = spec_release(reserved, order_item_id, quantity);
    lemma_reserved_counts(s, ticket_type_id, quantity, order_item_id, until, now, s.len() as int);
    assert forall|i: int| 0 <= i < s.len() implies claimable(after[i], ticket_type_id, now)
        == claimable(s[i], ticket_type_id, now) && !linked(after[i], order_item_id) by {
        lemma_reserved_counts(s, ticket_type_id, quantity, order_item_id, until, now, i);
        if claims_at(s, ticket_type_id, quantity, now, i) {
            assert(reserved[i] == claimed(s[i], order_item_id, until));
            assert(releases_at(reserved, order_item_id, quantity, i));
            assert(after[i] == released(reserved[i]));
        } else {
            assert(reserved[i] == s[i]);
            assert(after[i] == reserved[i]);
        }
    }
    lemma_claimable_count_same(after, s, ticket_type_id, now, s.len() as int);
    lemma_none_linked(after, order_item_id, s.len() as int);
}

/// Where no instance is linked to the line item, none is counted.
proof fn lemma_none_linked(s: Seq<TicketInstance>, order_item_id: u128, upto: int)
    requires
        0 <= upto <= s.len(),
        forall|i: int| 0 <= i < s.len() ==> !linked(s[i], order_item_id),
    ensures
        linked_count(s, order_item_id, upto) == 0,
    decreases upto,
{
    if upto > 0 {
        lemma_none_linked(s, order_item_id, upto - 1);
    }
}

/// A release is scoped to its line item: an instance that is not linked to
/// the item stays as it is, and one that is linked to it is released or
/// stays as it is.
pub proof fn law_release_is_scoped(s: Seq<TicketInstance>, order_item_id: u128, quantity: nat)
    ensures
        spec_release(s, order_item_id, quantity).len() == s.len(),
        forall|i: int|
            0 <= i < s.len() && !linked(s[i], order_item_id) ==> #[trigger] spec_release(
                s,
                order_item_id,
                quantity,
            )[i] == s[i],
        forall|i: int|
            0 <= i < s.len() ==> #[trigger] spec_release(s, order_item_id, quantity)[i] == s[i]
                || spec_release(s, order_item_id, quantity)[i] == released(s[i]),
{
}

/// A reservation takes nothing that is held: an instance that cannot be
/// claimed for the ticket type stays as it is, and one that can is claimed
/// for the line item or stays as it is.
pub proof fn law_reserve_is_scoped(
    s: Seq<TicketInstance>,
    ticket_type_id: u128,
    quantity: nat,
    order_item_id: u128,
    until: i64,
    now: i64,
)
    ensures
        spec_reserve(s, ticket_type_id, quantity, order_item_id, until, now).len() == s.len(),
        forall|i: int|
            0 <= i < s.len() && !claimable(s[i], ticket_type_id, now) ==> #[trigger] spec_reserve(
                s,
                ticket_type_id,
                quantity,
                order_item_id,
                until,
                now,
            )[i] == s[i],
        forall|i: int|
            0 <= i < s.len() ==> #[trigger] spec_reserve(
                s,
                ticket_type_id,
                quantity,
                order_item_id,
                until,
                now,
            )[i] == s[i] || spec_reserve(s, ticket_type_id, quantity, order_item_id, until, now)[i]
                == claimed(s[i], order_item_id, until),
{
}

// ---------------------------------------------------------------------------
// Payments
// ---------------------------------------------------------------------------
/// The first `upto` amounts added up.
pub open spec fn amounts_total(amounts: Seq<u64>, upto: int) -> nat
    decreases upto,
{
    if upto <= 0 {
        0
    } else {
        amounts_total(amounts, upto - 1) + amounts[upto - 1] as nat
    }
}

/// The status of an order of the given total after the first `k` payments.
pub open spec fn status_after(amounts: Seq<u64>, total: nat, k: int) -> OrderStatus {
    status_for(amounts_total(amounts, k), total)
}

/// How many of the first `upto` payments report the completion of the
/// order.
pub open spec fn completions(amounts: Seq<u64>, total: nat, upto: int) -> nat
    decreases upto,
{
    if upto <= 0 {
        0
    } else {
        completions(amounts, total, upto - 1) + if completes(
            status_after(amounts, total, upto - 1),
            status_after(amounts, total, upto),
        ) {
            1nat
        } else {
            0nat
        }
    }
}

/// The place of a status in the life of an order.
pub open spec fn status_rank(status: OrderStatus) -> int {
    match status {
        OrderStatus::Draft => 0,
        OrderStatus::PartiallyPaid => 1,
        OrderStatus::Paid => 2,
        OrderStatus::Cancelled => 3,
    }
}

proof fn lemma_amounts_total_monotonic(amounts: Seq<u64>, j: int, k: int)
    requires
        j <= k,
    ensures
        amounts_total(amounts, j) <= amounts_total(amounts, k),
    decreases k - j,
{
    if j < k {
        lemma_amounts_total_monotonic(amounts, j, k - 1);
    }
}

proof fn lemma_completions(amounts: Seq<u64>, total: nat, upto: int)
    requires
        total > 0,
        0 <= upto,
    ensures
        completions(amounts, total, upto) == if amounts_total(amounts, upto) >= total {
            1nat
        } else {
            0nat
        },
    decreases upto,
{
    if upto > 0 {
        lemma_completions(amounts, total, upto - 1);
        lemma_amounts_total_monotonic(amounts, upto - 1, upto);
    }
}

/// Payment crossing. Payments that add up to exactly the total of an order
/// (above zero) take it from `Draft`, through `PartiallyPaid` if at all, to
/// `Paid`: the status never steps back, and exactly one of the payments
/// reports the completion.
pub proof fn law_payment_crossing(amounts: Seq<u64>, total: nat)
    requires
        total > 0,
        amounts_total(amounts, amounts.len() as int) == total,
    ensures
        status_after(amounts, total, 0) == OrderStatus::Draft,
        status_after(amounts, total, amounts.len() as int) == OrderStatus::Paid,
        forall|j: int, k: int|
            0 <= j <= k <= amounts.len() ==> status_rank(#[trigger] status_after(amounts, total, j))
                <= status_rank(#[trigger] status_after(amounts, total, k)),
        forall|k: int|
            0 <= k <= amounts.len() ==> status_after(amounts, total, k) != OrderStatus::Cancelled,
        completions(amounts, total, amounts.len() as int) == 1,
{
    lemma_completions(amounts, total, amounts.len() as int);
    assert forall|j: int, k: int| 0 <= j <= k <= amounts.len() implies status_rank(
        #[trigger] status_after(amounts, total, j),
    ) <= status_rank(#[trigger] status_after(amounts, total, k)) by {
        lemma_amounts_total_monotonic(amounts, j, k);
    }
}

// ---------------------------------------------------------------------------
// Refunds
// ---------------------------------------------------------------------------
/// The ids of two ledgers agree position by position.
pub open spec fn same_instance_ids(a: Seq<TicketInstance>, b: Seq<TicketInstance>) -> bool {
    a.len() == b.len() && forall|i: int| 0 <= i < a.len() ==> a[i].id == b[i].id
}

/// The ids of two lists of event fees agree position by position, and what
/// was refunded in the first is refunded in the second.
pub open spec fn fees_carried(a: Seq<EventFeeLine>, b: Seq<EventFeeLine>) -> bool {
    a.len() == b.len() && forall|i: int|
        0 <= i < a.len() ==> a[i].id == b[i].id && a[i].event_id == b[i].event_id && (a[i].refunded
            ==> b[i].refunded)
}

/// Ledgers with the same ids find the same instance.
proof fn lemma_find_same_ids(a: Seq<TicketInstance>, b: Seq<TicketInstance>, id: u128, upto: int)
    requires
        same_instance_ids(a, b),
        0 <= upto <= a.len(),
    ensures
        spec_find_instance(a, id, upto) == spec_find_instance(b, id, upto),
    decreases upto,
{
    if upto > 0 {
        lemma_find_same_ids(a, b, id, upto - 1);
    }
}

/// Lists of event fees with the same ids find the same fee.
proof fn lemma_find_fee_same_ids(a: Seq<EventFeeLine>, b: Seq<EventFeeLine>, id: u128)
    requires
        fees_carried(a, b),
    ensures
        first_match(a, fee_with_id(id)) == first_match(b, fee_with_id(id)),
{
    let p = fee_with_id(id);
    lemma_first_match(a, p);
    match first_match(a, p) {
        Some(m) => {
            assert forall|j: int| 0 <= j < m implies !p(#[trigger] b[j]) by {
                assert(!p(a[j]));
            }
            assert(is_first_match(b, p, m));
            lemma_first_match_is(b, p, m);
        },
        None => {
            assert forall|j: int| 0 <= j < b.len() implies !p(#[trigger] b[j]) by {
                assert(!p(a[j]));
            }
            crate::search::lemma_first_match_none(b, p);
        },
    }
}

/// A refund of one unit keeps the ids of the ledger and of the event fees;
/// it links no instance and takes no refund back.
proof fn lemma_refund_one_carries(s: RefundState, item: RefundItem)
    requires
        spec_refund_one(s, item) is Ok,
    ensures
        same_instance_ids(s.instances, spec_refund_one(s, item)->Ok_0.instances),
        forall|i: int|
            0 <= i < s.instances.len() && s.instances[i].order_item_id is None ==> spec_refund_one(
                s,
                item,
            )->Ok_0.instances[i].order_item_id is None,
        fees_carried(s.event_fees, spec_refund_one(s, item)->Ok_0.event_fees),
{
    lemma_first_match(s.event_fees, fee_with_id(item.order_item_id));
    if item.ticket_instance_id is Some {
        lemma_find_instance(
            s.instances,
            item.ticket_instance_id->0,
            s.instances.len() as int,
        );
        let i = first_match(s.lines, crate::refunds::line_with_id(item.order_item_id))->0;
        lemma_first_match(s.event_fees, crate::cart::fee_of_event(s.lines[i].event_id));
    }
}

/// What a successful refund of one unit leaves of that unit: the instance
/// named is unlinked, or (without an instance) the event fee is refunded.
proof fn lemma_refund_one_marks(s: RefundState, item: RefundItem)
    requires
        spec_refund_one(s, item) is Ok,
    ensures
        match item.ticket_instance_id {
            Some(instance_id) => spec_find_instance(
                s.instances,
                instance_id,
                s.instances.len() as int,
            ) matches Some(k) && spec_refund_one(s, item)->Ok_0.instances[k].order_item_id is None,
            None => first_match(s.event_fees, fee_with_id(item.order_item_id)) matches Some(f)
                && spec_refund_one(s, item)->Ok_0.event_fees[f].refunded,
        },
{
    lemma_first_match(s.event_fees, fee_with_id(item.order_item_id));
    if item.ticket_instance_id is Some {
        lemma_find_instance(
            s.instances,
            item.ticket_instance_id->0,
            s.instances.len() as int,
        );
    }
}

/// The unit was refunded in the state: its instance exists and is linked
/// to nothing, or (without an instance) its event fee is refunded.
pub open spec fn unit_refunded(s: RefundState, item: RefundItem) -> bool {
    match item.ticket_instance_id {
        Some(instance_id) => spec_find_instance(s.instances, instance_id, s.instances.len() as int)
            matches Some(k) && s.instances[k].order_item_id is None,
        None => first_match(s.event_fees, fee_with_id(item.order_item_id)) matches Some(f)
            && s.event_fees[f].refunded,
    }
}

/// A unit that was refunded stays so through any further refund.
proof fn lemma_refunded_stays(s: RefundState, done: RefundItem, item: RefundItem)
    requires
        unit_refunded(s, done),
        spec_refund_one(s, item) is Ok,
    ensures
        unit_refunded(spec_refund_one(s, item)->Ok_0, done),
{
    let t = spec_refund_one(s, item)->Ok_0;
    lemma_refund_one_carries(s, item);
    match done.ticket_instance_id {
        Some(instance_id) => {
            lemma_find_instance(s.instances, instance_id, s.instances.len() as int);
            lemma_find_same_ids(s.instances, t.instances, instance_id, s.instances.len() as int);
        },
        None => {
            lemma_find_fee_same_ids(s.event_fees, t.event_fees, done.order_item_id);
        },
    }
}

/// A unit that was refunded cannot be refunded again.
proof fn lemma_refunded_refuses(s: RefundState, done: RefundItem)
    requires
        unit_refunded(s, done),
    ensures
        spec_refund_one(s, done) is Err,
{
}

/// A unit that was refunded among the first `upto` of a successful refund
/// is refunded at its end.
proof fn lemma_refund_all_marks(s: RefundState, items: Seq<RefundItem>, k: int, upto: int)
    requires
        0 <= k < upto <= items.len(),
        spec_refund_all(s, items, upto) is Ok,
    ensures
        unit_refunded(spec_refund_all(s, items, upto)->Ok_0, items[k]),
    decreases upto,
{
    let before = spec_refund_all(s, items, upto - 1);
    assert(before is Ok);
    if k == upto - 1 {
        lemma_refund_one_marks(before->Ok_0, items[k]);
        lemma_refund_one_carries(before->Ok_0, items[k]);
        let t = spec_refund_one(before->Ok_0, items[k])->Ok_0;
        match items[k].ticket_instance_id {
            Some(instance_id) => {
                lemma_find_same_ids(
                    before->Ok_0.instances,
                    t.instances,
                    instance_id,
                    t.instances.len() as int,
                );
            },
            None => {
                lemma_find_fee_same_ids(
                    before->Ok_0.event_fees,
                    t.event_fees,
                    items[k].order_item_id,
                );
            },
        }
    } else {
        lemma_refund_all_marks(s, items, k, upto - 1);
        lemma_refunded_stays(before->Ok_0, items[k], items[upto - 1]);
    }
}

/// A refund that holds a unit that was refunded before fails.
proof fn lemma_refund_all_refuses(s: RefundState, items: Seq<RefundItem>, j: int, upto: int)
    requires
        0 <= j < upto <= items.len(),
        unit_refunded(s, items[j]),
    ensures
        spec_refund_all(s, items, upto) is Err,
    decreases upto,
{
    let before = spec_refund_all(s, items, upto - 1);
    if before is Ok {
        if j == upto - 1 {
            lemma_refunded_through(s, items, items[j], upto - 1);
            lemma_refunded_refuses(before->Ok_0, items[j]);
        } else {
            lemma_refund_all_refuses(s, items, j, upto - 1);
        }
    }
}

/// A unit that was refunded stays so through a successful refund of the
/// first `upto` units.
proof fn lemma_refunded_through(s: RefundState, items: Seq<RefundItem>, done: RefundItem, upto: int)
    requires
        0 <= upto <= items.len(),
        unit_refunded(s, done),
        spec_refund_all(s, items, upto) is Ok,
    ensures
        unit_refunded(spec_refund_all(s, items, upto)->Ok_0, done),
    decreases upto,
{
    if upto > 0 {
        let before = spec_refund_all(s, items, upto - 1);
        lemma_refunded_through(s, items, done, upto - 1);
        lemma_refunded_stays(before->Ok_0, done, items[upto - 1]);
    }
}

/// Refund guard. Once a refund went through, any later refund that names
/// one of its units again fails, whatever else it names: a ticket is
/// refunded once per instance, an event fee once. (A refund that fails
/// changes nothing, so the refunded quantities stay.)
pub proof fn law_refund_guard(
    s: RefundState,
    first: Seq<RefundItem>,
    k: int,
    second: Seq<RefundItem>,
    j: int,
)
    requires
        spec_refund_all(s, first, first.len() as int) is Ok,
        0 <= k < first.len(),
        0 <= j < second.len(),
        second[j] == first[k],
    ensures
        spec_refund_all(
            RefundState {
                refunded_cents: 0,
                ..spec_refund_all(s, first, first.len() as int)->Ok_0
            },
            second,
            second.len() as int,
        ) is Err,
{
    let after = spec_refund_all(s, first, first.len() as int)->Ok_0;
    lemma_refund_all_marks(s, first, k, first.len() as int);
    let again = RefundState { refunded_cents: 0, ..after };
    assert(unit_refunded(again, second[j]));
    lemma_refund_all_refuses(again, second, j, second.len() as int);
}

} // verus!
