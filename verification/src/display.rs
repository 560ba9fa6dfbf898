//! The read model of an order: what a viewer may see of it, and how each
//! line stands.

use crate::catalog::{event_with_id, Catalog};
use crate::enums::{OrderItemTypes, OrderStatus};
use crate::inventory::{InventoryLedger, TicketInstance};
use crate::orders::{EventFeeLine, Order, TicketLine};
use crate::search::{first_match, is_first_match, lemma_first_match_is, lemma_first_match_none};
use crate::validity::{line_status, spec_items_valid, spec_line_status, CartItemStatus};
use vstd::prelude::*;

verus! {

/// A viewer's access within one organization is limited to these events.
#[derive(Debug)]
pub struct EventScope {
    pub organization_id: u128,
    pub event_ids: Vec<u128>,
}

/// Who looks at an order. Within an organization without a scope every
/// event is open to the viewer.
#[derive(Debug)]
pub struct Viewer {
    pub user_id: u128,
    pub scopes: Vec<EventScope>,
}

/// A line item as shown.
#[derive(Clone, Copy, Debug, PartialEq, Eq)]
pub struct DisplayOrderItem {
    pub id: u128,
    pub parent_id: Option<u128>,
    pub item_type: OrderItemTypes,
    pub ticket_type_id: Option<u128>,
    pub event_id: u128,
    pub quantity: u32,
    pub refunded_quantity: u32,
    pub unit_price_in_cents: u32,
    pub cart_item_status: Option<CartItemStatus>,
}

/// An order as shown to a viewer.
#[derive(Debug)]
pub struct DisplayOrder {
    pub id: u128,
    pub user_id: u128,
    pub status: OrderStatus,
    pub items: Vec<DisplayOrderItem>,
    pub total_in_cents: u128,
    /// Seconds until the cart expires, zero once it has; absent once paid.
    pub seconds_until_expiry: Option<u64>,
    /// Some item of the order is hidden from the viewer.
    pub order_contains_other_tickets: bool,
    /// Present while the order is unpaid only.
    pub valid_for_purchase: Option<bool>,
}

pub open spec fn scope_of_organization(organization_id: u128) -> spec_fn(EventScope) -> bool {
    |s: EventScope| s.organization_id == organization_id
}

/// Whether the viewer sees the event. Without a filter everything shows.
/// With one, the event must be known, its organization must be in the
/// filter, and the viewer's scope in that organization, if any, must hold
/// the event.
pub open spec fn spec_visible(
    catalog: Catalog,
    organizations: Option<Seq<u128>>,
    scopes: Seq<EventScope>,
    event_id: u128,
) -> bool {
    match organizations {
        None => true,
        Some(filter) => match first_match(catalog.events@, event_with_id(event_id)) {
            None => false,
            Some(e) => {
                let organization_id = catalog.events@[e].organization_id;
                filter.contains(organization_id) && match first_match(
                    scopes,
                    scope_of_organization(organization_id),
                ) {
                    None => true,
                    Some(s) => scopes[s].event_ids@.contains(event_id),
                }
            },
        },
    }
}

/// Some of the first `upto` lines is for an event that the viewer sees
/// (`shown`) or does not see (`!shown`).
pub open spec fn some_line_shown(
    lines: Seq<TicketLine>,
    catalog: Catalog,
    organizations: Option<Seq<u128>>,
    scopes: Seq<EventScope>,
    shown: bool,
    upto: int,
) -> bool {
    exists|i: int|
        0 <= i < upto && i < lines.len() && spec_visible(
            catalog,
            organizations,
            scopes,
            (#[trigger] lines[i]).event_id,
        ) == shown
}

/// The viewer sees some but not all of the events of the order.
pub open spec fn spec_partially_visible(
    lines: Seq<TicketLine>,
    catalog: Catalog,
    organizations: Seq<u128>,
    scopes: Seq<EventScope>,
) -> bool {
    some_line_shown(lines, catalog, Some(organizations), scopes, true, lines.len() as int)
        && some_line_shown(lines, catalog, Some(organizations), scopes, false, lines.len() as int)
}

/// The status shown with the fee of an event.
pub open spec fn event_fee_status(f: EventFeeLine) -> CartItemStatus {
    if f.refunded {
        CartItemStatus::Refunded
    } else {
        CartItemStatus::Valid
    }
}

pub open spec fn display_ticket(l: TicketLine, status: CartItemStatus) -> DisplayOrderItem {
    DisplayOrderItem {
        id: l.id,
        parent_id: None,
        item_type: OrderItemTypes::Tickets,
        ticket_type_id: Some(l.ticket_type_id),
        event_id: l.event_id,
        quantity: l.quantity,
        refunded_quantity: l.refunded_quantity,
        unit_price_in_cents: l.unit_price_in_cents,
        cart_item_status: Some(status),
    }
}

pub open spec fn display_fee(l: TicketLine, status: CartItemStatus) -> DisplayOrderItem {
    DisplayOrderItem {
        id: (l.id + 1) as u128,
        parent_id: Some(l.id),
        item_type: OrderItemTypes::PerUnitFees,
        ticket_type_id: None,
        event_id: l.event_id,
        quantity: l.quantity,
        refunded_quantity: l.refunded_quantity,
        unit_price_in_cents: l.fee->0.fee_in_cents,
        cart_item_status: Some(status),
    }
}

pub open spec fn display_event_fee(f: EventFeeLine) -> DisplayOrderItem {
    DisplayOrderItem {
        id: f.id,
        parent_id: None,
        item_type: OrderItemTypes::EventFees,
        ticket_type_id: None,
        event_id: f.event_id,
        quantity: 1,
        refunded_quantity: if f.refunded {
            1u32
        } else {
            0u32
        },
        unit_price_in_cents: f.unit_price_in_cents,
        cart_item_status: Some(event_fee_status(f)),
    }
}

/// The items shown of the first `upto` lines: for each line that the viewer
/// sees, its tickets item and then its fee item, both with the status of
/// the line.
pub open spec fn shown_line_items(
    lines: Seq<TicketLine>,
    instances: Seq<TicketInstance>,
    catalog: Catalog,
    organizations: Option<Seq<u128>>,
    scopes: Seq<EventScope>,
    now: i64,
    paid: bool,
    upto: int,
) -> Seq<DisplayOrderItem>
    decreases upto,
{
    if upto <= 0 {
        Seq::empty()
    } else {
        let before = shown_line_items(
            lines,
            instances,
            catalog,
            organizations,
            scopes,
            now,
            paid,
            upto - 1,
        );
        let l = lines[upto - 1];
        let status = spec_line_status(l, instances, catalog, now, paid);
        if !spec_visible(catalog, organizations, scopes, l.event_id) {
            before
        } else if l.fee is Some {
            before.push(display_ticket(l, status)).push(display_fee(l, status))
        } else {
            before.push(display_ticket(l, status))
        }
    }
}

/// The items shown of the first `upto` event fees.
pub open spec fn shown_event_fees(
    fees: Seq<EventFeeLine>,
    catalog: Catalog,
    organizations: Option<Seq<u128>>,
    scopes: Seq<EventScope>,
    upto: int,
) -> Seq<DisplayOrderItem>
    decreases upto,
{
    if upto <= 0 {
        Seq::empty()
    } else {
        let before = shown_event_fees(fees, catalog, organizations, scopes, upto - 1);
        if spec_visible(catalog, organizations, scopes, fees[upto - 1].event_id) {
            before.push(display_event_fee(fees[upto - 1]))
        } else {
            before
        }
    }
}

/// Seconds from `now` to `expires_at`, zero if that is past.
pub open spec fn spec_seconds_until(expires_at: i64, now: i64) -> u64 {
    if expires_at > now {
        (expires_at - now) as u64
    } else {
        0u64
    }
}

/// The filter as a sequence.
pub open spec fn spec_filter(organizations: Option<&Vec<u128>>) -> Option<Seq<u128>> {
    match organizations {
        Some(v) => Some(v@),
        None => None,
    }
}

/// What an order shows to a viewer at `now`: the items of the events that
/// the viewer sees, those of the lines first, each with its status; its
/// total; whether any line is hidden; and, while the order is unpaid, the
/// seconds left to it and whether it can be purchased.
pub open spec fn is_display_of(
    d: DisplayOrder,
    o: Order,
    organizations: Option<Seq<u128>>,
    scopes: Seq<EventScope>,
    instances: Seq<TicketInstance>,
    catalog: Catalog,
    now: i64,
) -> bool {
    &&& d.id == o.id
    &&& d.user_id == o.user_id
    &&& d.status == o.status
    &&& d.total_in_cents == o.spec_total()
    &&& d.items@ == shown_line_items(
        o.lines@,
        instances,
        catalog,
        organizations,
        scopes,
        now,
        o.spec_is_paid(),
        o.lines@.len() as int,
    ) + shown_event_fees(o.event_fees@, catalog, organizations, scopes, o.event_fees@.len() as int)
    &&& d.order_contains_other_tickets == some_line_shown(
        o.lines@,
        catalog,
        organizations,
        scopes,
        false,
        o.lines@.len() as int,
    )
    &&& d.seconds_until_expiry == if o.spec_is_paid() {
        None
    } else {
        Some(spec_seconds_until(o.expires_at, now))
    }
    &&& d.valid_for_purchase == if o.spec_is_paid() {
        None
    } else {
        Some(spec_items_valid(o.lines@, instances, catalog, now, false))
    }
}

/// Whether the list holds the id.
pub fn contains_id(ids: &Vec<u128>, id: u128) -> (r: bool)
    ensures
        r == ids@.contains(id),
{
    let mut i: usize = 0;
    while i < ids.len()
        invariant
            0 <= i <= ids.len(),
            forall|j: int| 0 <= j < i ==> ids@[j] != id,
        decreases ids.len() - i,
    {
        if ids[i] == id {
            return true;
        }
        i += 1;
    }
    false
}

impl Viewer {
    /// The position of the viewer's scope in the organization, if limited
    /// there.
    pub fn find_scope(&self, organization_id: u128) -> (r: Option<usize>)
        ensures
            match r {
                Some(i) => first_match(self.scopes@, scope_of_organization(organization_id))
                    == Some(i as int) && i < self.scopes@.len(),
                None => first_match(self.scopes@, scope_of_organization(organization_id)) is None,
            },
    {
        let ghost p = scope_of_organization(organization_id);
        let mut i: usize = 0;
        while i < self.scopes.len()
            invariant
                0 <= i <= self.scopes.len(),
                p == scope_of_organization(organization_id),
                forall|j: int| 0 <= j < i ==> !p(#[trigger] self.scopes@[j]),
            decreases self.scopes.len() - i,
        {
            if self.scopes[i].organization_id == organization_id {
                proof {
                    assert(is_first_match(self.scopes@, p, i as int));
                    lemma_first_match_is(self.scopes@, p, i as int);
                }
                return Some(i);
            }
            i += 1;
        }
        proof {
            lemma_first_match_none(self.scopes@, p);
        }
        None
    }

    /// Whether the viewer sees the event under the filter.
    pub fn sees_event(&self, catalog: &Catalog, organizations: Option<&Vec<u128>>, event_id: u128)
        -> (r: bool)
        ensures
            r == spec_visible(*catalog, spec_filter(organizations), self.scopes@, event_id),
    {
        match organizations {
            None => true,
            Some(filter) => match catalog.find_event(event_id) {
                None => false,
                Some(e) => {
                    let organization_id = catalog.events[e].organization_id;
                    if !contains_id(filter, organization_id) {
                        false
                    } else {
                        match self.find_scope(organization_id) {
                            None => true,
                            Some(s) => contains_id(&self.scopes[s].event_ids, event_id),
                        }
                    }
                },
            },
        }
    }
}

impl Order {
    /// Whether the viewer's access covers some but not all of the events of
    /// the order.
    pub fn partially_visible_order(
        &self,
        organizations: &Vec<u128>,
        viewer: &Viewer,
        catalog: &Catalog,
    ) -> (r: bool)
        ensures
            r == spec_partially_visible(self.lines@, *catalog, organizations@, viewer.scopes@),
    {
        let mut any_shown = false;
        let mut any_hidden = false;
        let mut i: usize = 0;
        while i < self.lines.len()
            invariant
                0 <= i <= self.lines.len(),
                any_shown == some_line_shown(
                    self.lines@,
                    *catalog,
                    Some(organizations@),
                    viewer.scopes@,
                    true,
                    i as int,
                ),
                any_hidden == some_line_shown(
                    self.lines@,
                    *catalog,
                    Some(organizations@),
                    viewer.scopes@,
                    false,
                    i as int,
                ),
            decreases self.lines.len() - i,
        {
            if viewer.sees_event(catalog, Some(organizations), self.lines[i].event_id) {
                any_shown = true;
            } else {
                any_hidden = true;
            }
            i += 1;
        }
        any_shown && any_hidden
    }

    /// The order as shown to a viewer at `now`: the items of the events that
    /// the viewer sees, each with its status; whether any item is hidden;
    /// and, while the order is unpaid, the seconds left to it and whether it
    /// can be purchased.
    pub fn for_display(
        &self,
        organizations: Option<&Vec<u128>>,
        viewer: &Viewer,
        ledger: &InventoryLedger,
        catalog: &Catalog,
        now: i64,
    ) -> (r: DisplayOrder)
        requires
            self.wf(),
        ensures
            is_display_of(
                r,
                *self,
                spec_filter(organizations),
                viewer.scopes@,
                ledger.instances@,
                *catalog,
                now,
            ),
    {
        let paid = self.is_paid();
        let mut items: Vec<DisplayOrderItem> = Vec::new();
        let mut any_hidden = false;
        let mut i: usize = 0;
        while i < self.lines.len()
            invariant
                0 <= i <= self.lines.len(),
                self.wf(),
                paid == self.spec_is_paid(),
                any_hidden == some_line_shown(
                    self.lines@,
                    *catalog,
                    spec_filter(organizations),
                    viewer.scopes@,
                    false,
                    i as int,
                ),
                items@ == shown_line_items(
                    self.lines@,
                    ledger.instances@,
                    *catalog,
                    spec_filter(organizations),
                    viewer.scopes@,
                    now,
                    paid,
                    i as int,
                ),
            decreases self.lines.len() - i,
        {
            let l = self.lines[i];
            if viewer.sees_event(catalog, organizations, l.event_id) {
                let status = line_status(l, ledger, catalog, now, paid);
                items.push(
                    DisplayOrderItem {
                        id: l.id,
                        parent_id: None,
                        item_type: OrderItemTypes::Tickets,
                        ticket_type_id: Some(l.ticket_type_id),
                        event_id: l.event_id,
                        quantity: l.quantity,
                        refunded_quantity: l.refunded_quantity,
                        unit_price_in_cents: l.unit_price_in_cents,
                        cart_item_status: Some(status),
                    },
                );
                match l.fee {
                    Some(fee) => {
                        items.push(
                            DisplayOrderItem {
                                id: l.id + 1,
                                parent_id: Some(l.id),
                                item_type: OrderItemTypes::PerUnitFees,
                                ticket_type_id: None,
                                event_id: l.event_id,
                                quantity: l.quantity,
                                refunded_quantity: l.refunded_quantity,
                                unit_price_in_cents: fee.fee_in_cents,
                                cart_item_status: Some(status),
                            },
                        );
                    },
                    None => {},
                }
            } else {
                any_hidden = true;
            }
            i += 1;
        }
        let ghost from_lines = items@;
        let mut k: usize = 0;
        while k < self.event_fees.len()
            invariant
                0 <= k <= self.event_fees.len(),
                items@ == from_lines + shown_event_fees(
                    self.event_fees@,
                    *catalog,
                    spec_filter(organizations),
                    viewer.scopes@,
                    k as int,
                ),
            decreases self.event_fees.len() - k,
        {
            let f = self.event_fees[k];
            if viewer.sees_event(catalog, organizations, f.event_id) {
                items.push(
                    DisplayOrderItem {
                        id: f.id,
                        parent_id: None,
                        item_type: OrderItemTypes::EventFees,
                        ticket_type_id: None,
                        event_id: f.event_id,
                        quantity: 1,
                        refunded_quantity: if f.refunded {
                            1
                        } else {
                            0
                        },
                        unit_price_in_cents: f.unit_price_in_cents,
                        cart_item_status: Some(
                            if f.refunded {
                                CartItemStatus::Refunded
                            } else {
                                CartItemStatus::Valid
                            },
                        ),
                    },
                );
                assert(items@ =~= from_lines + shown_event_fees(
                    self.event_fees@,
                    *catalog,
                    spec_filter(organizations),
                    viewer.scopes@,
                    k + 1,
                ));
            }
            k += 1;
        }
        let seconds_until_expiry = if paid {
            None
        } else if self.expires_at > now {
            Some((self.expires_at as i128 - now as i128) as u64)
        } else {
            Some(0)
        };
        let valid_for_purchase = if paid {
            None
        } else {
            Some(self.items_valid_for_purchase(ledger, catalog, now))
        };
        DisplayOrder {
            id: self.id,
            user_id: self.user_id,
            status: self.status,
            items,
            total_in_cents: self.calculate_total(),
            seconds_until_expiry,
            order_contains_other_tickets: any_hidden,
            valid_for_purchase,
        }
    }
}

} // verus!
