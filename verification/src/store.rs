//! The orders of all users: finding a user's cart, opening one, destroying
//! one, and annotating an order.

use crate::enums::{DomainEventTypes, OrderStatus};
use crate::errors::EngineError;
use crate::inventory::{same_instances, spec_release, InventoryLedger, TicketInstance};
use crate::orders::{event_count, IdSequence, Order, TicketLine};
use crate::payments::lemma_event_count_push;
use crate::book::{one_cart_at_a_time, orders_apart};
use crate::search::{
    first_match, is_first_match, lemma_first_match, lemma_first_match_is, lemma_first_match_none,
};
use vstd::prelude::*;

verus! {

/// All orders, oldest first, with the id of the next order and the
/// sequence that gives their line items their ids.
#[derive(Debug)]
pub struct OrderBook {
    pub orders: Vec<Order>,
    pub next_order_id: u128,
    /// How long a new cart lives, in seconds.
    pub cart_lifetime_seconds: u32,
    pub ids: IdSequence,
}

/// The changes that an update makes to an order; an absent field stays.
#[derive(Debug)]
pub struct UpdateOrderAttributes {
    pub note: Option<Option<String>>,
}

/// The carts of the user that are open at `now`: draft and not expired.
pub open spec fn open_cart_of(user_id: u128, now: i64) -> spec_fn(Order) -> bool {
    |o: Order| o.user_id == user_id && o.status == OrderStatus::Draft && o.expires_at > now
}

pub open spec fn order_with_id(id: u128) -> spec_fn(Order) -> bool {
    |o: Order| o.id == id
}

/// The order is a cart as it is first opened.
pub open spec fn is_fresh_cart(o: Order, id: u128, user_id: u128, now: i64, expires_at: i64) -> bool {
    &&& o.id == id
    &&& o.user_id == user_id
    &&& o.status == OrderStatus::Draft
    &&& o.created_at == now
    &&& o.expires_at == expires_at
    &&& o.paid_at is None
    &&& o.note is None
    &&& !o.box_office_pricing
    &&& o.lines@.len() == 0
    &&& o.event_fees@.len() == 0
    &&& o.payments@.len() == 0
    &&& o.events@ == seq![DomainEventTypes::OrderCreated]
}

/// The ledger after the instances of the first `upto` lines are released.
pub open spec fn spec_release_lines(
    instances: Seq<TicketInstance>,
    lines: Seq<TicketLine>,
    upto: int,
) -> Seq<TicketInstance>
    decreases upto,
{
    if upto <= 0 {
        instances
    } else {
        let before = spec_release_lines(instances, lines, upto - 1);
        spec_release(before, lines[upto - 1].id, before.len())
    }
}

impl Order {
    /// Applies the stated changes to the order and reports the update.
    pub fn update(&mut self, attributes: UpdateOrderAttributes, _user_id: u128)
        requires
            old(self).wf(),
        ensures
            final(self).wf(),
            final(self).note == match attributes.note {
                Some(note) => note,
                None => old(self).note,
            },
            final(self).events@ == old(self).events@.push(DomainEventTypes::OrderUpdated),
            final(self).id == old(self).id,
            final(self).user_id == old(self).user_id,
            final(self).status == old(self).status,
            final(self).created_at == old(self).created_at,
            final(self).expires_at == old(self).expires_at,
            final(self).paid_at == old(self).paid_at,
            final(self).box_office_pricing == old(self).box_office_pricing,
            final(self).lines == old(self).lines,
            final(self).event_fees == old(self).event_fees,
            final(self).payments == old(self).payments,
    {
        match attributes.note {
            Some(note) => {
                self.note = note;
            },
            None => {},
        }
        proof {
            lemma_event_count_push(
                self.events@,
                DomainEventTypes::OrderUpdated,
                DomainEventTypes::OrderCompleted,
                self.events@.len() as int,
            );
        }
        self.events.push(DomainEventTypes::OrderUpdated);
    }
}

impl Order {
    /// Cancels a draft order: the instances linked to its lines are
    /// released and the order is cancelled for good. Any other order is
    /// refused and stays as it was.
    pub fn cancel(&mut self, ledger: &mut InventoryLedger) -> (r: Result<(), EngineError>)
        requires
            old(self).wf(),
        ensures
            final(self).wf(),
            final(ledger).reservation_window_seconds == old(ledger).reservation_window_seconds,
            same_instances(old(ledger).instances@, final(ledger).instances@),
            old(ledger).wf() ==> final(ledger).wf(),
            r is Ok <==> old(self).status == OrderStatus::Draft,
            r matches Err(e) ==> e == EngineError::InvalidStateTransition && *final(self) == *old(
                self,
            ) && *final(ledger) == *old(ledger),
            r is Ok ==> *final(self) == (Order { status: OrderStatus::Cancelled, ..*old(self) })
                && final(ledger).instances@ == spec_release_lines(
                old(ledger).instances@,
                old(self).lines@,
                old(self).lines@.len() as int,
            ),
    {
        match self.status {
            OrderStatus::Draft => {},
            _ => {
                return Err(EngineError::InvalidStateTransition);
            },
        }
        let ghost before = ledger.instances@;
        let mut k: usize = 0;
        while k < self.lines.len()
            invariant
                0 <= k <= self.lines.len(),
                *self == *old(self),
                ledger.reservation_window_seconds == old(ledger).reservation_window_seconds,
                same_instances(before, ledger.instances@),
                ledger.instances@ == spec_release_lines(before, self.lines@, k as int),
            decreases self.lines.len() - k,
        {
            ledger.release(self.lines[k].id);
            k += 1;
        }
        proof {
            if old(ledger).wf() {
                crate::inventory::lemma_same_instances_distinct(
                    old(ledger).instances@,
                    ledger.instances@,
                );
            }
        }
        self.status = OrderStatus::Cancelled;
        Ok(())
    }
}

impl OrderBook {
    /// An empty book.
    pub fn new(cart_lifetime_seconds: u32) -> (r: OrderBook)
        ensures
            r.orders@.len() == 0,
            r.next_order_id == 1,
            r.cart_lifetime_seconds == cart_lifetime_seconds,
            r.ids.next == 1,
    {
        OrderBook {
            orders: Vec::new(),
            next_order_id: 1,
            cart_lifetime_seconds,
            ids: IdSequence::new(),
        }
    }

    /// The position of the user's open cart: the first draft order of the
    /// user that has not expired at `now`.
    pub fn find_cart_for_user(&self, user_id: u128, now: i64) -> (r: Option<usize>)
        ensures
            match r {
                Some(i) => first_match(self.orders@, open_cart_of(user_id, now)) == Some(i as int)
                    && i < self.orders@.len(),
                None => first_match(self.orders@, open_cart_of(user_id, now)) is None,
            },
    {
        let ghost p = open_cart_of(user_id, now);
        let mut i: usize = 0;
        while i < self.orders.len()
            invariant
                0 <= i <= self.orders.len(),
                p == open_cart_of(user_id, now),
                forall|j: int| 0 <= j < i ==> !p(#[trigger] self.orders@[j]),
            decreases self.orders.len() - i,
        {
            let o = &self.orders[i];
            let draft = match o.status {
                OrderStatus::Draft => true,
                _ => false,
            };
            if o.user_id == user_id && draft && o.expires_at > now {
                proof {
                    assert(is_first_match(self.orders@, p, i as int));
                    lemma_first_match_is(self.orders@, p, i as int);
                }
                return Some(i);
            }
            i += 1;
        }
        proof {
            lemma_first_match_none(self.orders@, p);
        }
        None
    }

    /// The position of the user's open cart. Where the user has none, a new
    /// cart is opened at the end of the book: a draft order without items
    /// that expires one cart lifetime from `now` and reports its creation.
    ///
    /// A well-formed book stays so, and in it the cart answered is the
    /// only open cart of the user among the orders made by `now`.
    pub fn find_or_create_cart(&mut self, user_id: u128, now: i64) -> (r: usize)
        requires
            old(self).next_order_id < u128::MAX,
            now + old(self).cart_lifetime_seconds <= i64::MAX,
        ensures
            old(self).wf() ==> final(self).wf(),
            old(self).cart_lifetime_seconds > 0 ==> open_cart_of(user_id, now)(
                final(self).orders@[r as int],
            ),
            old(self).wf() ==> forall|i: int|
                0 <= i < final(self).orders@.len() && i != r && final(self).orders@[i].created_at
                    <= now ==> !open_cart_of(user_id, now)(#[trigger] final(self).orders@[i]),
            r < final(self).orders@.len(),
            final(self).cart_lifetime_seconds == old(self).cart_lifetime_seconds,
            final(self).ids == old(self).ids,
            match first_match(old(self).orders@, open_cart_of(user_id, now)) {
                Some(i) => r == i && *final(self) == *old(self),
                None => {
                    &&& r == old(self).orders@.len()
                    &&& final(self).next_order_id == old(self).next_order_id + 1
                    &&& final(self).orders@.len() == old(self).orders@.len() + 1
                    &&& forall|i: int|
                        0 <= i < old(self).orders@.len() ==> final(self).orders@[i] == old(
                            self,
                        ).orders@[i]
                    &&& is_fresh_cart(
                        final(self).orders@[r as int],
                        old(self).next_order_id,
                        user_id,
                        now,
                        (now + old(self).cart_lifetime_seconds) as i64,
                    )
                    &&& final(self).orders@[r as int].wf()
                },
            },
    {
        proof {
            lemma_first_match(self.orders@, open_cart_of(user_id, now));
        }
        match self.find_cart_for_user(user_id, now) {
            Some(i) => {
                proof {
                    let p = open_cart_of(user_id, now);
                    if self.wf() {
                        assert forall|k: int|
                            0 <= k < self.orders@.len() && k != i && self.orders@[k].created_at
                                <= now implies !p(#[trigger] self.orders@[k]) by {
                            if p(self.orders@[k]) {
                                if k < i {
                                    assert(one_cart_at_a_time(
                                        self.orders@[k],
                                        self.orders@[i as int],
                                    ));
                                } else {
                                    assert(one_cart_at_a_time(
                                        self.orders@[i as int],
                                        self.orders@[k],
                                    ));
                                }
                            }
                        }
                    }
                }
                i
            },
            None => {
                let mut events: Vec<DomainEventTypes> = Vec::new();
                events.push(DomainEventTypes::OrderCreated);
                let cart = Order {
                    id: self.next_order_id,
                    user_id,
                    status: OrderStatus::Draft,
                    created_at: now,
                    expires_at: now + self.cart_lifetime_seconds as i64,
                    paid_at: None,
                    note: None,
                    box_office_pricing: false,
                    lines: Vec::new(),
                    event_fees: Vec::new(),
                    payments: Vec::new(),
                    events,
                };
                proof {
                    assert(cart.events@ =~= seq![DomainEventTypes::OrderCreated]);
                    assert(event_count(cart.events@, DomainEventTypes::OrderCompleted, 1) == 0) by {
                        reveal_with_fuel(event_count, 2);
                    }
                    assert(cart.spec_paid() == 0);
                }
                self.orders.push(cart);
                self.next_order_id = self.next_order_id + 1;
                proof {
                    let p = open_cart_of(user_id, now);
                    let r = self.orders@.len() - 1;
                    let cart = self.orders@[r];
                    assert forall|id: int| !cart.owns(id) by {}
                    if old(self).wf() {
                        assert forall|i: int, j: int| 0 <= i < j < self.orders@.len() implies {
                            &&& (#[trigger] self.orders@[i]).id != (#[trigger] self.orders@[j]).id
                            &&& orders_apart(self.orders@[i], self.orders@[j])
                            &&& one_cart_at_a_time(self.orders@[i], self.orders@[j])
                        } by {
                            assert(self.orders@[i] == old(self).orders@[i]);
                            if j < r {
                                assert(self.orders@[j] == old(self).orders@[j]);
                            } else {
                                assert(!p(old(self).orders@[i]));
                            }
                        }
                        assert forall|i: int| 0 <= i < self.orders@.len() implies {
                            &&& (#[trigger] self.orders@[i]).wf()
                            &&& self.orders@[i].issued_before(self.ids.next)
                            &&& self.orders@[i].id < self.next_order_id
                        } by {
                            if i < r {
                                assert(self.orders@[i] == old(self).orders@[i]);
                            }
                        }
                    }
                    assert forall|i: int|
                        0 <= i < self.orders@.len() && i != r && self.orders@[i].created_at
                            <= now implies !p(#[trigger] self.orders@[i]) by {
                        assert(self.orders@[i] == old(self).orders@[i]);
                        assert(!p(old(self).orders@[i]));
                    }
                }
                self.orders.len() - 1
            },
        }
    }

    /// The position of the order with the id.
    pub fn find(&self, order_id: u128) -> (r: Option<usize>)
        ensures
            match r {
                Some(i) => first_match(self.orders@, order_with_id(order_id)) == Some(i as int)
                    && i < self.orders@.len(),
                None => first_match(self.orders@, order_with_id(order_id)) is None,
            },
    {
        let ghost p = order_with_id(order_id);
        let mut i: usize = 0;
        while i < self.orders.len()
            invariant
                0 <= i <= self.orders.len(),
                p == order_with_id(order_id),
                forall|j: int| 0 <= j < i ==> !p(#[trigger] self.orders@[j]),
            decreases self.orders.len() - i,
        {
            if self.orders[i].id == order_id {
                proof {
                    assert(is_first_match(self.orders@, p, i as int));
                    lemma_first_match_is(self.orders@, p, i as int);
                }
                return Some(i);
            }
            i += 1;
        }
        proof {
            lemma_first_match_none(self.orders@, p);
        }
        None
    }

    /// Destroys a cart: the instances linked to its lines are released and
    /// the order leaves the book. An unknown id is not found; an order that
    /// is no draft is refused. The book and the ledger then stay as they
    /// were.
    pub fn destroy(&mut self, order_id: u128, ledger: &mut InventoryLedger) -> (r: Result<
        (),
        EngineError,
    >)
        ensures
            old(self).wf() ==> final(self).wf(),
            final(self).next_order_id == old(self).next_order_id,
            final(self).cart_lifetime_seconds == old(self).cart_lifetime_seconds,
            final(self).ids == old(self).ids,
            final(ledger).reservation_window_seconds == old(ledger).reservation_window_seconds,
            same_instances(old(ledger).instances@, final(ledger).instances@),
            old(ledger).wf() ==> final(ledger).wf(),
            match first_match(old(self).orders@, order_with_id(order_id)) {
                None => r == Err::<(), EngineError>(EngineError::NotFound) && *final(self) == *old(
                    self,
                ) && *final(ledger) == *old(ledger),
                Some(i) => if old(self).orders@[i].status != OrderStatus::Draft {
                    r == Err::<(), EngineError>(EngineError::InvalidStateTransition) && *final(self)
                        == *old(self) && *final(ledger) == *old(ledger)
                } else {
                    &&& r is Ok
                    &&& final(self).orders@ == old(self).orders@.remove(i)
                    &&& final(ledger).instances@ == spec_release_lines(
                        old(ledger).instances@,
                        old(self).orders@[i].lines@,
                        old(self).orders@[i].lines@.len() as int,
                    )
                },
            },
    {
        let i = match self.find(order_id) {
            Some(i) => i,
            None => {
                return Err(EngineError::NotFound);
            },
        };
        match self.orders[i].status {
            OrderStatus::Draft => {},
            _ => {
                return Err(EngineError::InvalidStateTransition);
            },
        }
        let order = self.orders.remove(i);
        proof {
            if old(self).wf() {
                assert forall|a: int| 0 <= a < self.orders@.len() implies {
                    &&& (#[trigger] self.orders@[a]).wf()
                    &&& self.orders@[a].issued_before(self.ids.next)
                    &&& self.orders@[a].id < self.next_order_id
                } by {
                    let a0 = if a < i {
                        a
                    } else {
                        a + 1
                    };
                    assert(self.orders@[a] == old(self).orders@[a0]);
                }
                assert forall|a: int, b: int| 0 <= a < b < self.orders@.len() implies {
                    &&& (#[trigger] self.orders@[a]).id != (#[trigger] self.orders@[b]).id
                    &&& orders_apart(self.orders@[a], self.orders@[b])
                    &&& one_cart_at_a_time(self.orders@[a], self.orders@[b])
                } by {
                    let a0 = if a < i {
                        a
                    } else {
                        a + 1
                    };
                    let b0 = if b < i {
                        b
                    } else {
                        b + 1
                    };
                    assert(self.orders@[a] == old(self).orders@[a0]);
                    assert(self.orders@[b] == old(self).orders@[b0]);
                }
            }
        }
        let ghost before = ledger.instances@;
        let mut k: usize = 0;
        while k < order.lines.len()
            invariant
                0 <= k <= order.lines.len(),
                old(self).wf() ==> self.wf(),
                ledger.reservation_window_seconds == old(ledger).reservation_window_seconds,
                same_instances(before, ledger.instances@),
                ledger.instances@ == spec_release_lines(before, order.lines@, k as int),
            decreases order.lines.len() - k,
        {
            ledger.release(order.lines[k].id);
            k += 1;
        }
        proof {
            if old(ledger).wf() {
                crate::inventory::lemma_same_instances_distinct(
                    old(ledger).instances@,
                    ledger.instances@,
                );
            }
        }
        Ok(())
    }
}

} // verus!
