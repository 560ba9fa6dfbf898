//! The book of orders as a whole: what holds of all its orders together,
//! and the operations on an order in the book that keep it so.

use crate::cart::spec_update;
use crate::catalog::{Catalog, UpdateOrderItem};
use crate::enums::OrderStatus;
use crate::errors::EngineError;
use crate::inventory::{claimable, linked, same_instances, InventoryLedger, TicketInstance};
use crate::orders::{lemma_owned_ids_below, Order};
use crate::payments::spec_payment_refusal;
use crate::refunds::{spec_refund, RefundItem};
use crate::store::OrderBook;
use vstd::prelude::*;

verus! {

/// No line item of one order has the id of a line item of the other.
pub open spec fn orders_apart(a: Order, b: Order) -> bool {
    forall|id: int| !(#[trigger] a.owns(id) && b.owns(id))
}

/// Of two carts of one user the second was opened when the first had
/// expired.
pub open spec fn one_cart_at_a_time(first: Order, second: Order) -> bool {
    first.user_id == second.user_id && first.status == OrderStatus::Draft && second.status
        == OrderStatus::Draft ==> first.expires_at <= second.created_at
}

/// Every order of the first list stands in the second, in its place and
/// unchanged, but for the one at `index`.
pub open spec fn others_unchanged(before: Seq<Order>, after: Seq<Order>, index: int) -> bool {
    &&& after.len() == before.len()
    &&& forall|i: int| 0 <= i < before.len() && i != index ==> #[trigger] after[i] == before[i]
}

/// The order at `index` is the same order as before under a status that is
/// no draft unless it was one, and owns no id that it did not own or that
/// the sequence gave out since.
pub open spec fn same_order(before: Order, after: Order, first_id: int, next_id: int) -> bool {
    &&& after.id == before.id
    &&& after.user_id == before.user_id
    &&& after.created_at == before.created_at
    &&& after.expires_at == before.expires_at
    &&& (after.status == OrderStatus::Draft ==> before.status == OrderStatus::Draft)
    &&& forall|id: int| #[trigger] after.owns(id) ==> before.owns(id) || first_id <= id < next_id
}

/// The two books hold the same orders and give out the same ids next.
pub open spec fn same_book(a: OrderBook, b: OrderBook) -> bool {
    &&& a.orders@ == b.orders@
    &&& a.next_order_id == b.next_order_id
    &&& a.cart_lifetime_seconds == b.cart_lifetime_seconds
    &&& a.ids == b.ids
}

impl OrderBook {
    /// The invariant of the book.
    ///
    /// Every order is well formed, has an id that the book gave out, and
    /// line items under ids that the sequence gave out. No two orders
    /// share an id, or the id of a line item. Of two carts of one user the
    /// later was opened when the earlier had expired.
    pub open spec fn wf(&self) -> bool {
        &&& forall|i: int|
            0 <= i < self.orders@.len() ==> {
                &&& (#[trigger] self.orders@[i]).wf()
                &&& self.orders@[i].issued_before(self.ids.next)
                &&& self.orders@[i].id < self.next_order_id
            }
        &&& forall|i: int, j: int|
            0 <= i < j < self.orders@.len() ==> {
                &&& (#[trigger] self.orders@[i]).id != (#[trigger] self.orders@[j]).id
                &&& orders_apart(self.orders@[i], self.orders@[j])
                &&& one_cart_at_a_time(self.orders@[i], self.orders@[j])
            }
    }

    /// A change of one order that gives it no id of another keeps the book
    /// well formed.
    pub proof fn lemma_change_keeps_book(
        before: OrderBook,
        after: OrderBook,
        index: int,
    )
        requires
            before.wf(),
            0 <= index < before.orders@.len(),
            others_unchanged(before.orders@, after.orders@, index),
            after.next_order_id == before.next_order_id,
            before.ids.next <= after.ids.next,
            after.orders@[index].wf(),
            after.orders@[index].issued_before(after.ids.next),
            same_order(
                before.orders@[index],
                after.orders@[index],
                before.ids.next as int,
                after.ids.next as int,
            ),
        ensures
            after.wf(),
    {
        let changed = after.orders@[index];
        let was = before.orders@[index];
        assert forall|i: int| 0 <= i < after.orders@.len() implies {
            &&& (#[trigger] after.orders@[i]).wf()
            &&& after.orders@[i].issued_before(after.ids.next)
            &&& after.orders@[i].id < after.next_order_id
        } by {
            if i != index {
                assert(after.orders@[i] == before.orders@[i]);
                assert(before.orders@[i].issued_before(before.ids.next));
            }
        }
        assert forall|i: int, j: int| 0 <= i < j < after.orders@.len() implies {
            &&& (#[trigger] after.orders@[i]).id != (#[trigger] after.orders@[j]).id
            &&& orders_apart(after.orders@[i], after.orders@[j])
            &&& one_cart_at_a_time(after.orders@[i], after.orders@[j])
        } by {
            assert(before.orders@[i].id != before.orders@[j].id);
            assert(orders_apart(before.orders@[i], before.orders@[j]));
            assert(one_cart_at_a_time(before.orders@[i], before.orders@[j]));
            if i == index {
                let other = before.orders@[j];
                assert(after.orders@[j] == other);
                lemma_owned_ids_below(other.lines@, other.event_fees@, before.ids.next as int);
                assert forall|id: int| !(#[trigger] changed.owns(id) && other.owns(id)) by {
                    if changed.owns(id) && other.owns(id) {
                        assert(!(was.owns(id) && other.owns(id)));
                    }
                }
            } else if j == index {
                let other = before.orders@[i];
                assert(after.orders@[i] == other);
                lemma_owned_ids_below(other.lines@, other.event_fees@, before.ids.next as int);
                assert forall|id: int| !(#[trigger] other.owns(id) && changed.owns(id)) by {
                    if changed.owns(id) && other.owns(id) {
                        assert(!(other.owns(id) && was.owns(id)));
                    }
                }
            } else {
                assert(after.orders@[i] == before.orders@[i]);
                assert(after.orders@[j] == before.orders@[j]);
            }
        }
    }

    /// Changes the quantities of the order at `index`, with ids from the
    /// sequence of the book. The other orders stay as they are and the
    /// book stays well formed.
    pub fn update_quantities(
        &mut self,
        index: usize,
        user_id: u128,
        request: &Vec<UpdateOrderItem>,
        box_office_pricing: bool,
        remove_others: bool,
        catalog: &Catalog,
        ledger: &mut InventoryLedger,
        now: i64,
    ) -> (r: Result<(), EngineError>)
        requires
            old(self).wf(),
            index < old(self).orders@.len(),
            catalog.wf(),
            now + old(ledger).reservation_window_seconds <= i64::MAX,
            old(self).ids.next + 3 * (old(self).orders@[index as int].lines@.len() + request@.len())
                <= u128::MAX,
        ensures
            final(self).wf(),
            others_unchanged(old(self).orders@, final(self).orders@, index as int),
            final(self).next_order_id == old(self).next_order_id,
            final(self).cart_lifetime_seconds == old(self).cart_lifetime_seconds,
            final(ledger).reservation_window_seconds == old(ledger).reservation_window_seconds,
            same_instances(old(ledger).instances@, final(ledger).instances@),
            old(ledger).wf() ==> final(ledger).wf(),
            match spec_update(
                old(self).orders@[index as int].status,
                old(self).orders@[index as int].lines@,
                old(self).orders@[index as int].event_fees@,
                old(ledger).instances@,
                old(self).ids.next as int,
                *catalog,
                request@,
                box_office_pricing,
                remove_others,
                now,
                (now + old(ledger).reservation_window_seconds) as i64,
            ) {
                Err(e) => r == Err::<(), EngineError>(e) && same_book(*final(self), *old(self))
                    && final(ledger).instances@ == old(ledger).instances@,
                Ok(updated) => {
                    &&& r is Ok
                    &&& final(self).orders@[index as int].lines@ == updated.lines
                    &&& final(self).orders@[index as int].event_fees@ == updated.event_fees
                    &&& final(ledger).instances@ == updated.instances
                    &&& final(self).ids.next == updated.next_id
                    &&& final(self).orders@[index as int].box_office_pricing == box_office_pricing
                    &&& final(self).orders@[index as int].status == old(self).orders@[index as int].status
                    &&& final(self).orders@[index as int].payments == old(self).orders@[index as int].payments
                    &&& final(self).orders@[index as int].events == old(self).orders@[index as int].events
                    &&& final(self).orders@[index as int].note == old(self).orders@[index as int].note
                    &&& final(self).orders@[index as int].paid_at == old(self).orders@[index as int].paid_at
                },
            },
    {
        let r = self.orders[index].update_quantities(
            user_id,
            request,
            box_office_pricing,
            remove_others,
            catalog,
            ledger,
            &mut self.ids,
            now,
        );
        proof {
            Self::lemma_change_keeps_book(*old(self), *self, index as int);
            if r is Err {
                assert(self.orders@ =~= old(self).orders@);
            }
        }
        r
    }

    /// Takes a payment towards the order at `index`. The other orders stay
    /// as they are and the book stays well formed.
    pub fn add_external_payment(
        &mut self,
        index: usize,
        external_reference: Option<String>,
        payer_id: u128,
        amount_in_cents: u64,
        ledger: &mut InventoryLedger,
        catalog: &Catalog,
        now: i64,
    ) -> (r: Result<(), EngineError>)
        requires
            old(self).wf(),
            index < old(self).orders@.len(),
        ensures
            final(self).wf(),
            others_unchanged(old(self).orders@, final(self).orders@, index as int),
            final(self).next_order_id == old(self).next_order_id,
            final(self).cart_lifetime_seconds == old(self).cart_lifetime_seconds,
            final(self).ids == old(self).ids,
            final(ledger).reservation_window_seconds == old(ledger).reservation_window_seconds,
            same_instances(old(ledger).instances@, final(ledger).instances@),
            old(ledger).wf() ==> final(ledger).wf(),
            r is Err <==> spec_payment_refusal(
                old(self).orders@[index as int].status,
                old(self).orders@[index as int].lines@,
                old(ledger).instances@,
                *catalog,
                now,
            ) is Some,
            r matches Err(e) ==> Some(e) == spec_payment_refusal(
                old(self).orders@[index as int].status,
                old(self).orders@[index as int].lines@,
                old(ledger).instances@,
                *catalog,
                now,
            ) && same_book(*final(self), *old(self)) && final(ledger).instances@ == old(ledger).instances@,
            r is Ok ==> final(self).orders@[index as int].spec_paid() == old(self).orders@[index as int].spec_paid() + amount_in_cents && final(self).orders@[index as int].spec_total() == old(self).orders@[index as int].spec_total(),
    {
        let r = self.orders[index].add_external_payment(
            external_reference,
            payer_id,
            amount_in_cents,
            ledger,
            catalog,
            now,
        );
        proof {
            Self::lemma_change_keeps_book(*old(self), *self, index as int);
            if r is Err {
                assert(self.orders@ =~= old(self).orders@);
            } else {
                crate::payments::lemma_payments_total_push(
                    old(self).orders@[index as int].payments@,
                    crate::orders::Payment { external_reference, payer_id, amount_in_cents },
                    old(self).orders@[index as int].payments@.len() as int,
                );
            }
        }
        r
    }

    /// Refunds units of the order at `index`. The other orders stay as
    /// they are and the book stays well formed.
    pub fn refund(
        &mut self,
        index: usize,
        refund_items: &Vec<RefundItem>,
        requester_id: u128,
        ledger: &mut InventoryLedger,
    ) -> (r: Result<u128, EngineError>)
        requires
            old(self).wf(),
            index < old(self).orders@.len(),
        ensures
            final(self).wf(),
            others_unchanged(old(self).orders@, final(self).orders@, index as int),
            final(self).next_order_id == old(self).next_order_id,
            final(self).cart_lifetime_seconds == old(self).cart_lifetime_seconds,
            final(self).ids == old(self).ids,
            final(ledger).reservation_window_seconds == old(ledger).reservation_window_seconds,
            same_instances(old(ledger).instances@, final(ledger).instances@),
            old(ledger).wf() ==> final(ledger).wf(),
            match spec_refund(
                old(self).orders@[index as int].status,
                old(self).orders@[index as int].lines@,
                old(self).orders@[index as int].event_fees@,
                old(ledger).instances@,
                refund_items@,
            ) {
                Err(e) => r == Err::<u128, EngineError>(e) && same_book(*final(self), *old(self))
                    && final(ledger).instances@ == old(ledger).instances@,
                Ok(s) => {
                    &&& r matches Ok(cents) && cents == s.refunded_cents
                    &&& final(self).orders@[index as int].lines@ == s.lines
                    &&& final(self).orders@[index as int].event_fees@ == s.event_fees
                    &&& final(ledger).instances@ == s.instances
                },
            },
    {
        let r = self.orders[index].refund(refund_items, requester_id, ledger);
        proof {
            Self::lemma_change_keeps_book(*old(self), *self, index as int);
            if r is Err {
                assert(self.orders@ =~= old(self).orders@);
            }
        }
        r
    }

    /// Clears the order at `index` of the lines that cannot be purchased.
    /// The other orders stay as they are and the book stays well formed.
    pub fn clear_invalid_items(
        &mut self,
        index: usize,
        user_id: u128,
        ledger: &mut InventoryLedger,
        catalog: &Catalog,
        now: i64,
    ) -> (r: Result<(), EngineError>)
        requires
            old(self).wf(),
            index < old(self).orders@.len(),
        ensures
            final(self).wf(),
            others_unchanged(old(self).orders@, final(self).orders@, index as int),
            final(self).next_order_id == old(self).next_order_id,
            final(self).cart_lifetime_seconds == old(self).cart_lifetime_seconds,
            final(self).ids == old(self).ids,
            final(ledger).reservation_window_seconds == old(ledger).reservation_window_seconds,
            same_instances(old(ledger).instances@, final(ledger).instances@),
            old(ledger).wf() ==> final(ledger).wf(),
            r is Ok <==> old(self).orders@[index as int].status == OrderStatus::Draft,
            r is Err ==> same_book(*final(self), *old(self)) && final(ledger).instances@ == old(
                ledger,
            ).instances@,
            r is Ok ==> (final(self).orders@[index as int].lines@, final(ledger).instances@)
                == crate::cleanup::spec_cleared(
                old(self).orders@[index as int].lines@,
                old(ledger).instances@,
                *catalog,
                now,
                old(self).orders@[index as int].lines@.len() as int,
            ),
    {
        let r = self.orders[index].clear_invalid_items(user_id, ledger, catalog, now);
        proof {
            Self::lemma_change_keeps_book(*old(self), *self, index as int);
            if r is Err {
                assert(self.orders@ =~= old(self).orders@);
            }
        }
        r
    }

    /// Cancels the order at `index`. The other orders stay as they are and
    /// the book stays well formed.
    pub fn cancel(&mut self, index: usize, ledger: &mut InventoryLedger) -> (r: Result<
        (),
        EngineError,
    >)
        requires
            old(self).wf(),
            index < old(self).orders@.len(),
        ensures
            final(self).wf(),
            others_unchanged(old(self).orders@, final(self).orders@, index as int),
            final(self).next_order_id == old(self).next_order_id,
            final(self).cart_lifetime_seconds == old(self).cart_lifetime_seconds,
            final(self).ids == old(self).ids,
            final(ledger).reservation_window_seconds == old(ledger).reservation_window_seconds,
            same_instances(old(ledger).instances@, final(ledger).instances@),
            old(ledger).wf() ==> final(ledger).wf(),
            r is Ok <==> old(self).orders@[index as int].status == OrderStatus::Draft,
            r is Err ==> same_book(*final(self), *old(self)) && final(ledger).instances@ == old(
                ledger,
            ).instances@,
            r is Ok ==> final(self).orders@[index as int] == (Order {
                status: OrderStatus::Cancelled,
                ..old(self).orders@[index as int]
            }),
    {
        let r = self.orders[index].cancel(ledger);
        proof {
            Self::lemma_change_keeps_book(*old(self), *self, index as int);
            if r is Err {
                assert(self.orders@ =~= old(self).orders@);
            }
        }
        r
    }
}

/// No interference between the orders of a book. A change of the
/// quantities of one order of a well-formed book leaves every instance as
/// it is that is linked to a line of another order of the book, unless its
/// reservation has lapsed.
pub proof fn law_orders_do_not_interfere(
    book: OrderBook,
    index: int,
    other: int,
    line: int,
    instances: Seq<TicketInstance>,
    i: int,
    catalog: Catalog,
    request: Seq<UpdateOrderItem>,
    box_office: bool,
    replace: bool,
    now: i64,
    until: i64,
)
    requires
        book.wf(),
        0 <= index < book.orders@.len(),
        0 <= other < book.orders@.len(),
        other != index,
        0 <= line < book.orders@[other].lines@.len(),
        0 <= i < instances.len(),
        linked(instances[i], book.orders@[other].lines@[line].id),
        !claimable(instances[i], instances[i].ticket_type_id, now),
        book.ids.next + 2 * request.len() <= u128::MAX,
        spec_update(
            OrderStatus::Draft,
            book.orders@[index].lines@,
            book.orders@[index].event_fees@,
            instances,
            book.ids.next as int,
            catalog,
            request,
            box_office,
            replace,
            now,
            until,
        ) is Ok,
    ensures
        spec_update(
            OrderStatus::Draft,
            book.orders@[index].lines@,
            book.orders@[index].event_fees@,
            instances,
            book.ids.next as int,
            catalog,
            request,
            box_office,
            replace,
            now,
            until,
        )->Ok_0.instances[i] == instances[i],
{
    let mine = book.orders@[index];
    let theirs = book.orders@[other];
    let x = theirs.lines@[line].id;
    assert(theirs.owns(x as int));
    if other < index {
        assert(orders_apart(theirs, mine));
    } else {
        assert(orders_apart(mine, theirs));
    }
    assert(!mine.owns(x as int));
    assert(theirs.issued_before(book.ids.next));
    assert forall|k: int| 0 <= k < mine.lines@.len() implies (#[trigger] mine.lines@[k]).id
        != x by {
        if mine.lines@[k].id == x {
            assert(mine.owns(x as int));
        }
    }
    crate::cart_laws::law_update_spares_other_orders(
        mine.lines@,
        mine.event_fees@,
        instances,
        book.ids.next as int,
        catalog,
        request,
        box_office,
        replace,
        now,
        until,
        i,
    );
}

} // verus!
