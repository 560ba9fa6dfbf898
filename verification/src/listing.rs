//! What an order can tell of itself: a line item by its id, its payments,
//! the events and organizations it is about; and the orders of a user as
//! shown.

use crate::catalog::{event_with_id, Catalog, Event, UpdateOrderItem};
use crate::display::{contains_id, is_display_of, DisplayOrder, EventScope, Viewer};
use crate::enums::OrderStatus;
use crate::errors::EngineError;
use crate::inventory::InventoryLedger;
use crate::orders::{IdSequence, Order, OrderItem, Payment, TicketLine};
use crate::search::{first_match, is_first_match, lemma_first_match_is, lemma_first_match_none};
use crate::store::OrderBook;
use vstd::prelude::*;

verus! {

pub open spec fn item_with_id(id: u128) -> spec_fn(OrderItem) -> bool {
    |item: OrderItem| item.id == id
}

/// The events of the first `upto` lines, each once, in the order in which
/// the lines first name them.
pub open spec fn spec_event_ids(lines: Seq<TicketLine>, upto: int) -> Seq<u128>
    decreases upto,
{
    if upto <= 0 {
        Seq::empty()
    } else {
        let before = spec_event_ids(lines, upto - 1);
        if before.contains(lines[upto - 1].event_id) {
            before
        } else {
            before.push(lines[upto - 1].event_id)
        }
    }
}

/// Of the first `upto` ids, the events that the catalog knows.
pub open spec fn spec_known_events(catalog: Catalog, ids: Seq<u128>, upto: int) -> Seq<Event>
    decreases upto,
{
    if upto <= 0 {
        Seq::empty()
    } else {
        let before = spec_known_events(catalog, ids, upto - 1);
        match first_match(catalog.events@, event_with_id(ids[upto - 1])) {
            Some(e) => before.push(catalog.events@[e]),
            None => before,
        }
    }
}

/// The organizations of the first `upto` events, each once, in the order in
/// which the events first name them.
pub open spec fn spec_organization_ids(events: Seq<Event>, upto: int) -> Seq<u128>
    decreases upto,
{
    if upto <= 0 {
        Seq::empty()
    } else {
        let before = spec_organization_ids(events, upto - 1);
        if before.contains(events[upto - 1].organization_id) {
            before
        } else {
            before.push(events[upto - 1].organization_id)
        }
    }
}

/// Of the first `upto` orders, those of the user that are past the draft,
/// by position.
pub open spec fn spec_placed_orders(orders: Seq<Order>, user_id: u128, upto: int) -> Seq<int>
    decreases upto,
{
    if upto <= 0 {
        Seq::empty()
    } else {
        let before = spec_placed_orders(orders, user_id, upto - 1);
        if orders[upto - 1].user_id == user_id && orders[upto - 1].status != OrderStatus::Draft {
            before.push(upto - 1)
        } else {
            before
        }
    }
}

impl Order {
    /// The line item of the order with the id.
    pub fn find_item(&self, order_item_id: u128) -> (r: Result<OrderItem, EngineError>)
        requires
            self.wf(),
        ensures
            match first_match(self.spec_items(), item_with_id(order_item_id)) {
                Some(i) => r == Ok::<OrderItem, EngineError>(self.spec_items()[i]),
                None => r == Err::<OrderItem, EngineError>(EngineError::NotFound),
            },
    {
        let items = self.items();
        let ghost p = item_with_id(order_item_id);
        let mut i: usize = 0;
        while i < items.len()
            invariant
                0 <= i <= items.len(),
                items@ == self.spec_items(),
                p == item_with_id(order_item_id),
                forall|j: int| 0 <= j < i ==> !p(#[trigger] items@[j]),
            decreases items.len() - i,
        {
            if items[i].id == order_item_id {
                proof {
                    assert(is_first_match(items@, p, i as int));
                    lemma_first_match_is(items@, p, i as int);
                }
                return Ok(items[i]);
            }
            i += 1;
        }
        proof {
            lemma_first_match_none(items@, p);
        }
        Err(EngineError::NotFound)
    }

    /// The payments made towards the order, oldest first.
    pub fn payments(&self) -> (r: &Vec<Payment>)
        ensures
            r@ == self.payments@,
    {
        &self.payments
    }

    /// The ids of the events that the order is about, each once, in the
    /// order in which its lines first name them.
    pub fn event_ids(&self) -> (r: Vec<u128>)
        ensures
            r@ == spec_event_ids(self.lines@, self.lines@.len() as int),
    {
        let mut ids: Vec<u128> = Vec::new();
        let mut i: usize = 0;
        while i < self.lines.len()
            invariant
                0 <= i <= self.lines.len(),
                ids@ == spec_event_ids(self.lines@, i as int),
            decreases self.lines.len() - i,
        {
            let event_id = self.lines[i].event_id;
            if !contains_id(&ids, event_id) {
                ids.push(event_id);
            }
            i += 1;
        }
        ids
    }

    /// The events that the order is about, as the catalog knows them.
    pub fn events(&self, catalog: &Catalog) -> (r: Vec<Event>)
        ensures
            r@ == spec_known_events(
                *catalog,
                spec_event_ids(self.lines@, self.lines@.len() as int),
                spec_event_ids(self.lines@, self.lines@.len() as int).len() as int,
            ),
    {
        let ids = self.event_ids();
        let mut events: Vec<Event> = Vec::new();
        let mut i: usize = 0;
        while i < ids.len()
            invariant
                0 <= i <= ids.len(),
                events@ == spec_known_events(*catalog, ids@, i as int),
            decreases ids.len() - i,
        {
            match catalog.find_event(ids[i]) {
                Some(e) => {
                    events.push(catalog.events[e]);
                },
                None => {},
            }
            i += 1;
        }
        events
    }

    /// The ids of the organizations whose events the order is about, each
    /// once.
    pub fn organizations(&self, catalog: &Catalog) -> (r: Vec<u128>)
        ensures
            r@ == spec_organization_ids(
                spec_known_events(
                    *catalog,
                    spec_event_ids(self.lines@, self.lines@.len() as int),
                    spec_event_ids(self.lines@, self.lines@.len() as int).len() as int,
                ),
                spec_known_events(
                    *catalog,
                    spec_event_ids(self.lines@, self.lines@.len() as int),
                    spec_event_ids(self.lines@, self.lines@.len() as int).len() as int,
                ).len() as int,
            ),
    {
        let events = self.events(catalog);
        let mut ids: Vec<u128> = Vec::new();
        let mut i: usize = 0;
        while i < events.len()
            invariant
                0 <= i <= events.len(),
                ids@ == spec_organization_ids(events@, i as int),
            decreases events.len() - i,
        {
            let organization_id = events[i].organization_id;
            if !contains_id(&ids, organization_id) {
                ids.push(organization_id);
            }
            i += 1;
        }
        ids
    }

    /// Empties a draft order: a full replacement by nothing.
    pub fn clear_cart(
        &mut self,
        user_id: u128,
        catalog: &Catalog,
        ledger: &mut InventoryLedger,
        ids: &mut IdSequence,
        now: i64,
    ) -> (r: Result<(), EngineError>)
        requires
            old(self).wf(),
            old(self).issued_before(old(ids).next),
            catalog.wf(),
            now + old(ledger).reservation_window_seconds <= i64::MAX,
            old(ids).next + 3 * old(self).lines@.len() <= u128::MAX,
        ensures
            final(self).wf(),
            final(self).issued_before(final(ids).next),
            old(ids).next <= final(ids).next,
            final(ledger).reservation_window_seconds == old(ledger).reservation_window_seconds,
            crate::inventory::same_instances(old(ledger).instances@, final(ledger).instances@),
            old(ledger).wf() ==> final(ledger).wf(),
            r is Ok <==> old(self).status == OrderStatus::Draft,
            r matches Err(e) ==> e == EngineError::InvalidStateTransition && *final(self) == *old(
                self,
            ) && final(ledger).instances@ == old(ledger).instances@,
            r is Ok ==> final(self).lines@.len() == 0 && final(self).event_fees@.len() == 0
                && final(ledger).instances@ == crate::cart::spec_retain(
                old(self).lines@,
                old(ledger).instances@,
                Seq::empty(),
                true,
                old(self).lines@.len() as int,
            ).1,
    {
        let request: Vec<UpdateOrderItem> = Vec::new();
        let box_office = self.box_office_pricing;
        proof {
            lemma_retain_nothing(
                self.lines@,
                ledger.instances@,
                self.lines@.len() as int,
            );
            assert(request@ =~= Seq::<UpdateOrderItem>::empty());
            lemma_kept_without_lines(
                self.event_fees@,
                Seq::<TicketLine>::empty(),
                self.event_fees@.len() as int,
            );
            let kept = crate::cart::spec_retain(
                self.lines@,
                ledger.instances@,
                Seq::empty(),
                true,
                self.lines@.len() as int,
            ).0;
            assert(kept =~= Seq::<TicketLine>::empty());
        }
        self.update_quantities(user_id, &request, box_office, true, catalog, ledger, ids, now)
    }
}

/// A full replacement by nothing keeps no line.
pub proof fn lemma_retain_nothing(
    lines: Seq<TicketLine>,
    instances: Seq<crate::inventory::TicketInstance>,
    upto: int,
)
    requires
        0 <= upto <= lines.len(),
    ensures
        crate::cart::spec_retain(lines, instances, Seq::empty(), true, upto).0.len() == 0,
    decreases upto,
{
    if upto > 0 {
        lemma_retain_nothing(lines, instances, upto - 1);
        lemma_first_match_none(
            Seq::<crate::catalog::ResolvedLine>::empty(),
            crate::cart::request_for_line(lines[upto - 1]),
        );
    }
}

/// Without lines no event fee is kept.
pub proof fn lemma_kept_without_lines(
    fees: Seq<crate::orders::EventFeeLine>,
    lines: Seq<TicketLine>,
    upto: int,
)
    requires
        0 <= upto <= fees.len(),
        lines.len() == 0,
    ensures
        crate::cart::spec_kept_event_fees(fees, lines, upto).len() == 0,
    decreases upto,
{
    if upto > 0 {
        lemma_kept_without_lines(fees, lines, upto - 1);
        lemma_first_match_none(lines, crate::cart::line_of_event(fees[upto - 1].event_id));
    }
}

impl OrderBook {
    /// The orders of a user that are past the draft, as shown to the user,
    /// oldest first.
    pub fn find_for_user_for_display(
        &self,
        user_id: u128,
        ledger: &InventoryLedger,
        catalog: &Catalog,
        now: i64,
    ) -> (r: Vec<DisplayOrder>)
        requires
            forall|i: int| 0 <= i < self.orders@.len() ==> (#[trigger] self.orders@[i]).wf(),
        ensures
            r@.len() == spec_placed_orders(self.orders@, user_id, self.orders@.len() as int).len(),
            forall|k: int|
                0 <= k < r@.len() ==> {
                    let i = spec_placed_orders(self.orders@, user_id, self.orders@.len() as int)[k];
                    &&& 0 <= i < self.orders@.len()
                    &&& is_display_of(
                        #[trigger] r@[k],
                        self.orders@[i],
                        None,
                        Seq::empty(),
                        ledger.instances@,
                        *catalog,
                        now,
                    )
                    &&& !r@[k].order_contains_other_tickets
                },
    {
        let viewer = Viewer { user_id, scopes: Vec::new() };
        let mut shown: Vec<DisplayOrder> = Vec::new();
        let mut i: usize = 0;
        while i < self.orders.len()
            invariant
                0 <= i <= self.orders.len(),
                forall|j: int| 0 <= j < self.orders@.len() ==> (#[trigger] self.orders@[j]).wf(),
                shown@.len() == spec_placed_orders(self.orders@, user_id, i as int).len(),
                viewer.scopes@ == Seq::<EventScope>::empty(),
                forall|k: int|
                    0 <= k < shown@.len() ==> {
                        let j = spec_placed_orders(self.orders@, user_id, i as int)[k];
                        &&& 0 <= j < i
                        &&& is_display_of(
                            #[trigger] shown@[k],
                            self.orders@[j],
                            None,
                            Seq::empty(),
                            ledger.instances@,
                            *catalog,
                            now,
                        )
                        &&& !shown@[k].order_contains_other_tickets
                    },
            decreases self.orders.len() - i,
        {
            let o = &self.orders[i];
            let draft = match o.status {
                OrderStatus::Draft => true,
                _ => false,
            };
            if o.user_id == user_id && !draft {
                let display = o.for_display(None, &viewer, ledger, catalog, now);
                shown.push(display);
            }
            i += 1;
        }
        shown
    }
}

} // verus!
