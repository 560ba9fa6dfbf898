use bigneon::catalog::{Catalog, Event, Organization, UpdateOrderItem};
use bigneon::codes::{validate, Code, Outcome, RedemptionTerms};
use bigneon::enums::{CodeTypes, DomainEventTypes, OrderStatus, TicketInstanceStatus};
use bigneon::errors::{EngineError, ValidationError};
use bigneon::fees::{event_fee_for, FeeSchedule, FeeScheduleRange};
use bigneon::inventory::{InventoryLedger, TicketInstance};
use bigneon::orders::{Order, OrderItem};
use bigneon::pricing::{TicketPricing, TicketType};
use bigneon::refunds::RefundItem;
use bigneon::store::OrderBook;

const NOW: i64 = 1_500_000_000;

fn range(id: u128, min_price_in_cents: u32, fee_in_cents: u32) -> FeeScheduleRange {
    FeeScheduleRange { id, min_price_in_cents, fee_in_cents }
}

fn schedule() -> FeeSchedule {
    FeeSchedule::new(1, vec![range(1, 20, 10), range(2, 100, 20), range(3, 1000, 75)], 1).unwrap()
}

fn instance(id: u128, ticket_type_id: u128) -> TicketInstance {
    TicketInstance {
        id,
        ticket_type_id,
        status: TicketInstanceStatus::Available,
        order_item_id: None,
        reserved_until: None,
    }
}

fn ledger(count: u128) -> InventoryLedger {
    InventoryLedger {
        instances: (1..=count).map(|id| instance(id, 7)).collect(),
        reservation_window_seconds: 900,
    }
}

fn ticket_type(increment: u32) -> TicketType {
    TicketType {
        id: 7,
        event_id: 5,
        increment,
        pricing: vec![
            TicketPricing {
                id: 70,
                price_in_cents: 100,
                start_date: 0,
                end_date: NOW - 1,
                is_box_office_only: false,
            },
            TicketPricing {
                id: 71,
                price_in_cents: 150,
                start_date: NOW,
                end_date: NOW + 1_000,
                is_box_office_only: false,
            },
            TicketPricing {
                id: 72,
                price_in_cents: 5000,
                start_date: NOW + 5_000,
                end_date: NOW + 6_000,
                is_box_office_only: true,
            },
        ],
    }
}

fn catalog() -> Catalog {
    Catalog {
        organizations: vec![Organization {
            id: 3,
            event_fee_in_cents: Some(250),
            fee_schedule: schedule(),
        }],
        events: vec![Event { id: 5, organization_id: 3, fee_in_cents: None }],
        ticket_types: vec![ticket_type(1)],
        codes: vec![Code {
            id: 90,
            event_id: 5,
            redemption_code: "SAVE".to_string(),
            code_type: CodeTypes::Discount,
            discount_in_cents: Some(500),
            start_date: Some(NOW - 10),
            end_date: Some(NOW + 10),
            max_uses: Some(5),
            uses: 2,
            ticket_type_ids: vec![7],
        }],
        holds: vec![],
    }
}

struct World {
    catalog: Catalog,
    ledger: InventoryLedger,
    book: OrderBook,
}

fn world() -> World {
    World { catalog: catalog(), ledger: ledger(20), book: OrderBook::new(900) }
}

fn line(quantity: u32, code: Option<&str>) -> UpdateOrderItem {
    UpdateOrderItem { ticket_type_id: 7, quantity, redemption_code: code.map(|c| c.to_string()) }
}

impl World {
    fn cart(&mut self) -> usize {
        self.book.find_or_create_cart(1, NOW)
    }

    fn update(&mut self, cart: usize, request: Vec<UpdateOrderItem>, replace: bool)
        -> Result<(), EngineError> {
        self.book.update_quantities(
            cart,
            1,
            &request,
            false,
            replace,
            &self.catalog,
            &mut self.ledger,
            NOW,
        )
    }

    fn order(&self, cart: usize) -> &Order {
        &self.book.orders[cart]
    }

    fn pay(&mut self, cart: usize, amount: u64) -> Result<(), EngineError> {
        self.book.add_external_payment(
            cart,
            None,
            1,
            amount,
            &mut self.ledger,
            &self.catalog,
            NOW,
        )
    }
}

fn total_of(items: &[OrderItem]) -> u128 {
    items
        .iter()
        .map(|i| i.unit_price_in_cents as u128 * (i.quantity - i.refunded_quantity) as u128)
        .sum()
}

// ---- fee material ----

#[test]
fn fee_range_is_the_floor_match() {
    let schedule = schedule();
    assert_eq!(schedule.range_for(20).fee_in_cents, 10);
    assert_eq!(schedule.range_for(99).fee_in_cents, 10);
    assert_eq!(schedule.range_for(100).fee_in_cents, 20);
    assert_eq!(schedule.range_for(150).fee_in_cents, 20);
    assert_eq!(schedule.range_for(999).fee_in_cents, 20);
    assert_eq!(schedule.range_for(1000).fee_in_cents, 75);
    assert_eq!(schedule.range_for(u32::MAX).fee_in_cents, 75);
}

#[test]
fn fee_range_below_first_breakpoint_is_the_lowest() {
    let schedule = schedule();
    assert_eq!(schedule.range_for(0), range(1, 20, 10));
    assert_eq!(schedule.range_for(19), range(1, 20, 10));
}

#[test]
fn fee_schedule_must_be_sorted_and_not_empty() {
    assert!(FeeSchedule::new(1, vec![], 0).is_none());
    assert!(FeeSchedule::new(1, vec![range(1, 20, 10), range(2, 20, 20)], 0).is_none());
    assert!(FeeSchedule::new(1, vec![range(1, 30, 10), range(2, 20, 20)], 0).is_none());
    assert!(FeeSchedule::new(1, vec![range(1, 30, 10)], 0).is_some());
}

#[test]
fn per_unit_fee_is_suppressed_for_box_office_and_free_units() {
    let schedule = schedule();
    assert_eq!(schedule.per_unit_fee(150, false), Some(range(2, 100, 20)));
    assert_eq!(schedule.per_unit_fee(150, true), None);
    assert_eq!(schedule.per_unit_fee(0, false), None);
    assert_eq!(schedule.per_unit_fee(1, false), Some(range(1, 20, 10)));
    let no_threshold = FeeSchedule::new(1, vec![range(1, 20, 10)], 0).unwrap();
    assert_eq!(no_threshold.per_unit_fee(0, false), Some(range(1, 20, 10)));
}

#[test]
fn event_fee_of_the_event_overrides_that_of_the_organization() {
    assert_eq!(event_fee_for(Some(100), Some(250)), Some(100));
    assert_eq!(event_fee_for(None, Some(250)), Some(250));
    assert_eq!(event_fee_for(Some(100), None), Some(100));
    assert_eq!(event_fee_for(None, None), None);
    let mut catalog = catalog();
    assert_eq!(catalog.event_fee_for(5), Some(250));
    catalog.events[0].fee_in_cents = Some(75);
    assert_eq!(catalog.event_fee_for(5), Some(75));
    assert_eq!(catalog.event_fee_for(6), None);
}

// ---- inventory ledger ----

#[test]
fn reserve_claims_the_first_available_instances() {
    let mut ledger = ledger(5);
    let ids = ledger.reserve(7, 3, 40, NOW).unwrap();
    assert_eq!(ids, vec![1, 2, 3]);
    for t in &ledger.instances[0..3] {
        assert_eq!(t.status, TicketInstanceStatus::Reserved);
        assert_eq!(t.order_item_id, Some(40));
        assert_eq!(t.reserved_until, Some(NOW + 900));
    }
    for t in &ledger.instances[3..5] {
        assert_eq!(*t, instance(t.id, 7));
    }
    assert_eq!(ledger.available_count(7, NOW), 2);
    assert_eq!(ledger.linked_to(40), 3);
}

#[test]
fn reserve_fails_without_change_when_too_few_are_left() {
    let mut ledger = ledger(5);
    ledger.reserve(7, 3, 40, NOW).unwrap();
    let before = ledger.instances.clone();
    assert_eq!(ledger.reserve(7, 3, 41, NOW), Err(EngineError::InsufficientInventory));
    assert_eq!(ledger.instances, before);
    assert_eq!(ledger.reserve(8, 1, 41, NOW), Err(EngineError::InsufficientInventory));
    assert_eq!(ledger.reserve(7, 0, 41, NOW), Ok(vec![]));
}

#[test]
fn reserve_absorbs_lapsed_reservations() {
    let mut ledger = ledger(3);
    ledger.reserve(7, 3, 40, NOW).unwrap();
    assert_eq!(ledger.reserve(7, 1, 41, NOW + 900), Err(EngineError::InsufficientInventory));
    let ids = ledger.reserve(7, 2, 41, NOW + 901).unwrap();
    assert_eq!(ids, vec![1, 2]);
    assert_eq!(ledger.linked_to(40), 1);
    assert_eq!(ledger.linked_to(41), 2);
}

#[test]
fn reserve_then_release_restores_the_available_count() {
    let mut ledger = ledger(8);
    ledger.reserve(7, 2, 40, NOW).unwrap();
    let before = ledger.available_count(7, NOW);
    ledger.reserve(7, 4, 41, NOW).unwrap();
    assert_eq!(ledger.available_count(7, NOW), before - 4);
    assert_eq!(ledger.release_quantity(41, 4), 4);
    assert_eq!(ledger.available_count(7, NOW), before);
    assert_eq!(ledger.linked_to(41), 0);
    assert_eq!(ledger.linked_to(40), 2);
}

#[test]
fn release_frees_every_instance_of_the_item() {
    let mut ledger = ledger(6);
    ledger.reserve(7, 2, 40, NOW).unwrap();
    ledger.reserve(7, 3, 41, NOW).unwrap();
    assert_eq!(ledger.release(41), 3);
    assert_eq!(ledger.release(41), 0);
    assert_eq!(ledger.linked_to(40), 2);
    assert_eq!(ledger.available_count(7, NOW), 4);
    assert_eq!(ledger.release_quantity(40, 1), 1);
    assert_eq!(ledger.instances[0], instance(1, 7));
    assert_eq!(ledger.instances[1].order_item_id, Some(40));
}

#[test]
fn redeem_takes_reserved_and_purchased_instances_only() {
    let mut ledger = ledger(3);
    ledger.reserve(7, 2, 40, NOW).unwrap();
    ledger.mark_purchased(40);
    assert_eq!(ledger.instances[0].status, TicketInstanceStatus::Purchased);
    assert_eq!(ledger.instances[2].status, TicketInstanceStatus::Available);
    assert_eq!(ledger.redeem(1), Ok(()));
    assert_eq!(ledger.instances[0].status, TicketInstanceStatus::Redeemed);
    assert_eq!(ledger.redeem(1), Err(EngineError::InvalidStateTransition));
    assert_eq!(ledger.redeem(3), Err(EngineError::InvalidStateTransition));
    assert_eq!(ledger.redeem(99), Err(EngineError::NotFound));
    ledger.instances[1].status = TicketInstanceStatus::Nullified;
    assert_eq!(ledger.redeem(2), Err(EngineError::InvalidStateTransition));
    let mut reserved = self::ledger(1);
    reserved.reserve(7, 1, 40, NOW).unwrap();
    assert_eq!(reserved.redeem(1), Ok(()));
}

// ---- validator ----

fn terms() -> RedemptionTerms {
    RedemptionTerms { start: Some(100), end: Some(200), remaining: Some(3), discount_in_cents: Some(25) }
}

#[test]
fn validator_outcomes() {
    assert_eq!(validate(true, terms(), 3, 100), Outcome::Valid(25));
    assert_eq!(validate(true, terms(), 3, 200), Outcome::Valid(25));
    assert_eq!(validate(true, terms(), 3, 99), Outcome::NotYetActive);
    assert_eq!(validate(true, terms(), 3, 201), Outcome::Expired);
    assert_eq!(validate(true, terms(), 4, 150), Outcome::QuantityExhausted);
    assert_eq!(validate(false, terms(), 1, 150), Outcome::NotApplicable);
    assert_eq!(validate(false, terms(), 9, 999), Outcome::NotApplicable);
    assert_eq!(validate(true, terms(), 9, 999), Outcome::Expired);
}

#[test]
fn validator_takes_absent_bounds_as_no_bounds() {
    let open = RedemptionTerms { start: None, end: None, remaining: None, discount_in_cents: None };
    assert_eq!(validate(true, open, u32::MAX, i64::MIN), Outcome::Valid(0));
    assert_eq!(validate(true, open, u32::MAX, i64::MAX), Outcome::Valid(0));
}

#[test]
fn code_counts_its_uses() {
    let catalog = catalog();
    let code = &catalog.codes[0];
    assert_eq!(code.validate(7, 3, NOW), Outcome::Valid(500));
    assert_eq!(code.validate(7, 4, NOW), Outcome::QuantityExhausted);
    assert_eq!(code.validate(8, 1, NOW), Outcome::NotApplicable);
    assert_eq!(code.validate(7, 1, NOW - 11), Outcome::NotYetActive);
    assert_eq!(code.validate(7, 1, NOW + 11), Outcome::Expired);
}

// ---- pricing resolver ----

#[test]
fn resolver_takes_the_active_tier_less_the_discount() {
    let ticket_type = ticket_type(1);
    assert_eq!(ticket_type.resolve(2, 0, false, NOW), Ok((150, 71)));
    assert_eq!(ticket_type.resolve(2, 20, false, NOW), Ok((130, 71)));
    assert_eq!(ticket_type.resolve(2, 150, false, NOW), Ok((0, 71)));
    assert_eq!(ticket_type.resolve(2, 500, false, NOW), Ok((0, 71)));
    assert_eq!(ticket_type.resolve(2, 0, false, NOW - 1), Ok((100, 70)));
}

#[test]
fn resolver_takes_the_box_office_tier_unconditionally() {
    let ticket_type = ticket_type(1);
    assert_eq!(ticket_type.resolve(2, 0, true, NOW), Ok((5000, 72)));
    assert_eq!(ticket_type.resolve(2, 100, true, NOW), Ok((5000, 72)));
}

#[test]
fn resolver_failures() {
    let ticket_type = ticket_type(4);
    assert_eq!(
        ticket_type.resolve(10, 0, false, NOW),
        Err(EngineError::Validation(ValidationError::QuantityInvalidIncrement))
    );
    assert_eq!(ticket_type.resolve(12, 0, false, NOW), Ok((150, 71)));
    assert_eq!(
        ticket_type.resolve(12, 0, false, NOW + 1_001),
        Err(EngineError::Validation(ValidationError::NoActivePricing))
    );
    assert_eq!(
        self::ticket_type(0).resolve(12, 0, false, NOW),
        Err(EngineError::Validation(ValidationError::QuantityInvalidIncrement))
    );
    let mut no_box_office = self::ticket_type(1);
    no_box_office.pricing.pop();
    assert_eq!(
        no_box_office.resolve(1, 0, true, NOW),
        Err(EngineError::Validation(ValidationError::NoActivePricing))
    );
}

// ---- changing quantities ----

#[test]
fn update_leaves_an_item_with_the_quantity_and_the_discounted_price() {
    let mut world = world();
    world.catalog.codes[0].discount_in_cents = Some(60);
    let cart = world.cart();
    world.update(cart, vec![line(3, Some("SAVE")), line(2, None)], false).unwrap();
    let items = world.order(cart).items();
    let discounted = items.iter().find(|i| i.code_id == Some(90)).unwrap();
    assert_eq!(discounted.quantity, 3);
    assert_eq!(discounted.unit_price_in_cents, 90);
    let plain = items.iter().find(|i| i.ticket_type_id == Some(7) && i.code_id.is_none()).unwrap();
    assert_eq!(plain.quantity, 2);
    assert_eq!(plain.unit_price_in_cents, 150);
    // fee tiers: 90 is in the tier from 20, 150 in the tier from 100
    let fee = items.iter().find(|i| i.parent_id == Some(discounted.id)).unwrap();
    assert_eq!((fee.quantity, fee.unit_price_in_cents), (3, 10));
    let fee = items.iter().find(|i| i.parent_id == Some(plain.id)).unwrap();
    assert_eq!((fee.quantity, fee.unit_price_in_cents), (2, 20));
    assert_eq!(world.order(cart).calculate_total(), 3 * 100 + 2 * 170 + 250);
}

#[test]
fn discount_is_floored_at_zero() {
    let mut world = world();
    let cart = world.cart();
    world.update(cart, vec![line(1, Some("SAVE"))], false).unwrap();
    let items = world.order(cart).items();
    assert_eq!(items[0].unit_price_in_cents, 0);
    // a free ticket carries no per-unit fee
    assert_eq!(items.len(), 2);
    assert_eq!(world.order(cart).calculate_total(), 250);
}

#[test]
fn same_full_replacement_twice_changes_nothing() {
    let mut world = world();
    let cart = world.cart();
    world.update(cart, vec![line(4, None)], false).unwrap();
    let request = || vec![line(3, Some("SAVE")), line(6, None)];
    world.update(cart, request(), true).unwrap();
    let items = world.order(cart).items();
    let instances = world.ledger.instances.clone();
    let next = world.book.ids.next;
    assert_eq!(items.len(), 4);
    world.update(cart, request(), true).unwrap();
    assert_eq!(world.order(cart).items(), items);
    assert_eq!(world.ledger.instances, instances);
    assert_eq!(world.book.ids.next, next);
}

#[test]
fn replacement_drops_what_is_not_requested() {
    let mut world = world();
    let cart = world.cart();
    world.update(cart, vec![line(3, Some("SAVE")), line(6, None)], false).unwrap();
    assert_eq!(world.ledger.available_count(7, NOW), 11);
    world.update(cart, vec![line(2, None)], true).unwrap();
    let items = world.order(cart).items();
    assert_eq!(items.len(), 3);
    assert_eq!(items[0].quantity, 2);
    assert_eq!(items[0].code_id, None);
    assert_eq!(world.ledger.available_count(7, NOW), 18);
}

#[test]
fn later_request_for_the_same_pair_overrides() {
    let mut world = world();
    let cart = world.cart();
    world.update(cart, vec![line(4, None), line(8, None)], false).unwrap();
    let items = world.order(cart).items();
    assert_eq!(items.iter().filter(|i| i.ticket_type_id == Some(7)).count(), 1);
    assert_eq!(items[0].quantity, 8);
    assert_eq!(world.ledger.linked_to(items[0].id), 8);
}

#[test]
fn update_is_all_or_nothing() {
    let mut world = world();
    let cart = world.cart();
    world.update(cart, vec![line(5, None)], false).unwrap();
    let items = world.order(cart).items();
    let instances = world.ledger.instances.clone();
    let next = world.book.ids.next;

    // the second line asks for more than is left
    let result = world.update(cart, vec![line(2, Some("SAVE")), line(19, None)], false);
    assert_eq!(result, Err(EngineError::Validation(ValidationError::QuantityNotAvailable)));
    assert_eq!(world.order(cart).items(), items);
    assert_eq!(world.ledger.instances, instances);
    assert_eq!(world.book.ids.next, next);

    // the second line does not resolve
    let result = world.update(
        cart,
        vec![line(2, None), UpdateOrderItem { ticket_type_id: 8, quantity: 1, redemption_code: None }],
        true,
    );
    assert_eq!(result, Err(EngineError::NotFound));
    assert_eq!(world.order(cart).items(), items);
    assert_eq!(world.ledger.instances, instances);
}

#[test]
fn update_failures_of_codes() {
    let mut world = world();
    let cart = world.cart();
    assert_eq!(
        world.update(cart, vec![line(1, Some("NOPE"))], false),
        Err(EngineError::Validation(ValidationError::RedemptionCodeUnknown))
    );
    assert_eq!(
        world.update(cart, vec![line(4, Some("SAVE"))], false),
        Err(EngineError::Validation(ValidationError::RedemptionQuantityExhausted))
    );
    world.catalog.codes[0].ticket_type_ids = vec![8];
    assert_eq!(
        world.update(cart, vec![line(1, Some("SAVE"))], false),
        Err(EngineError::Validation(ValidationError::RedemptionCodeNotApplicable))
    );
    world.catalog.codes[0].ticket_type_ids = vec![7];
    world.catalog.codes[0].start_date = Some(NOW + 1);
    assert_eq!(
        world.update(cart, vec![line(1, Some("SAVE"))], false),
        Err(EngineError::Validation(ValidationError::CodeNotValidForCurrentDatetime))
    );
    assert!(world.order(cart).items().is_empty());
}

#[test]
fn only_a_draft_order_changes() {
    let mut world = world();
    let cart = world.cart();
    world.update(cart, vec![line(1, None)], false).unwrap();
    world.pay(cart, 420).unwrap();
    assert_eq!(world.order(cart).status, OrderStatus::Paid);
    assert_eq!(
        world.update(cart, vec![line(2, None)], false),
        Err(EngineError::InvalidStateTransition)
    );
    let user = world.order(cart).user_id;
    assert_eq!(
        world.book.orders[cart].clear_invalid_items(user, &mut world.ledger, &world.catalog, NOW),
        Err(EngineError::InvalidStateTransition)
    );
}

#[test]
fn total_is_the_sum_over_the_items() {
    let mut world = world();
    let cart = world.cart();
    world.update(cart, vec![line(4, None), line(2, Some("SAVE"))], false).unwrap();
    assert_eq!(world.order(cart).calculate_total(), total_of(&world.order(cart).items()));
    world.update(cart, vec![line(1, None)], false).unwrap();
    assert_eq!(world.order(cart).calculate_total(), total_of(&world.order(cart).items()));
    let total = world.order(cart).calculate_total();
    world.pay(cart, total as u64).unwrap();
    let item = world.order(cart).items()[0];
    let ticket = world.ledger.instances.iter().find(|t| t.order_item_id == Some(item.id)).unwrap().id;
    world.book.orders[cart]
        .refund(
            &vec![RefundItem { order_item_id: item.id, ticket_instance_id: Some(ticket) }],
            1,
            &mut world.ledger,
        )
        .unwrap();
    assert_eq!(world.order(cart).calculate_total(), total_of(&world.order(cart).items()));
    assert_eq!(world.order(cart).calculate_total(), total - 170);
}

// ---- payments ----

#[test]
fn payments_cross_the_total_once() {
    let mut world = world();
    let cart = world.cart();
    world.update(cart, vec![line(2, None)], false).unwrap();
    assert_eq!(world.order(cart).calculate_total(), 590);
    let completed = |order: &Order| {
        order.events.iter().filter(|e| **e == DomainEventTypes::OrderCompleted).count()
    };

    world.pay(cart, 0).unwrap();
    assert_eq!(world.order(cart).status, OrderStatus::Draft);
    world.pay(cart, 100).unwrap();
    assert_eq!(world.order(cart).status, OrderStatus::PartiallyPaid);
    world.pay(cart, 489).unwrap();
    assert_eq!(world.order(cart).status, OrderStatus::PartiallyPaid);
    assert_eq!(completed(world.order(cart)), 0);
    assert_eq!(world.order(cart).paid_at, None);
    assert!(world.ledger.instances.iter().all(|t| t.status != TicketInstanceStatus::Purchased));

    world.pay(cart, 1).unwrap();
    assert_eq!(world.order(cart).status, OrderStatus::Paid);
    assert_eq!(completed(world.order(cart)), 1);
    assert_eq!(world.order(cart).paid_at, Some(NOW));
    assert_eq!(world.order(cart).paid_total(), 590);
    let purchased = world
        .ledger
        .instances
        .iter()
        .filter(|t| t.status == TicketInstanceStatus::Purchased)
        .count();
    assert_eq!(purchased, 2);

    world.pay(cart, 10).unwrap();
    assert_eq!(world.order(cart).status, OrderStatus::Paid);
    assert_eq!(completed(world.order(cart)), 1);
}

#[test]
fn no_payment_against_a_stale_cart() {
    let mut world = world();
    let cart = world.cart();
    world.update(cart, vec![line(2, None)], false).unwrap();
    let later = NOW + 901;
    let result =
        world.book.orders[cart].add_external_payment(None, 1, 590, &mut world.ledger, &world.catalog, later);
    assert_eq!(result, Err(EngineError::Validation(ValidationError::TicketNotReserved)));
    assert_eq!(world.order(cart).status, OrderStatus::Draft);
    assert!(world.order(cart).payments().is_empty());

    world.ledger.instances[0].reserved_until = Some(NOW + 5_000);
    world.ledger.instances[1].reserved_until = Some(NOW + 5_000);
    world.ledger.instances[1].status = TicketInstanceStatus::Nullified;
    let result =
        world.book.orders[cart].add_external_payment(None, 1, 590, &mut world.ledger, &world.catalog, later);
    assert_eq!(result, Err(EngineError::Validation(ValidationError::TicketNullified)));
}

#[test]
fn cancelled_order_takes_no_payment() {
    let mut world = world();
    let cart = world.cart();
    world.book.orders[cart].status = OrderStatus::Cancelled;
    assert_eq!(world.pay(cart, 10), Err(EngineError::InvalidStateTransition));
}

// ---- refunds ----

fn paid_order(world: &mut World, quantity: u32) -> (usize, OrderItem, Vec<u128>) {
    let cart = world.cart();
    world.update(cart, vec![line(quantity, None)], false).unwrap();
    let total = world.order(cart).calculate_total();
    world.pay(cart, total as u64).unwrap();
    let item = world.order(cart).items()[0];
    let tickets = world
        .ledger
        .instances
        .iter()
        .filter(|t| t.order_item_id == Some(item.id))
        .map(|t| t.id)
        .collect();
    (cart, item, tickets)
}

#[test]
fn same_ticket_is_refunded_once() {
    let mut world = world();
    let (cart, item, tickets) = paid_order(&mut world, 3);
    let unit = RefundItem { order_item_id: item.id, ticket_instance_id: Some(tickets[0]) };
    assert_eq!(world.book.refund(cart, &vec![unit], 1, &mut world.ledger), Ok(170));
    let items = world.order(cart).items();
    let instances = world.ledger.instances.clone();

    assert_eq!(
        world.book.orders[cart].refund(&vec![unit], 1, &mut world.ledger),
        Err(EngineError::AlreadyRefunded)
    );
    assert_eq!(world.order(cart).items(), items);
    assert_eq!(world.ledger.instances, instances);
    assert_eq!(items[0].refunded_quantity, 1);

    // also where the repeated unit comes after a fresh one
    let other = RefundItem { order_item_id: item.id, ticket_instance_id: Some(tickets[1]) };
    assert_eq!(
        world.book.orders[cart].refund(&vec![other, unit], 1, &mut world.ledger),
        Err(EngineError::AlreadyRefunded)
    );
    assert_eq!(world.order(cart).items(), items);
    assert_eq!(world.ledger.instances, instances);
}

#[test]
fn refund_of_the_last_ticket_refunds_the_event_fee() {
    let mut world = world();
    let (cart, item, tickets) = paid_order(&mut world, 2);
    let first = RefundItem { order_item_id: item.id, ticket_instance_id: Some(tickets[0]) };
    let second = RefundItem { order_item_id: item.id, ticket_instance_id: Some(tickets[1]) };
    assert_eq!(world.book.orders[cart].refund(&vec![first], 1, &mut world.ledger), Ok(170));
    assert_eq!(world.book.orders[cart].refund(&vec![second], 1, &mut world.ledger), Ok(170 + 250));
    let items = world.order(cart).items();
    assert!(items.iter().all(|i| i.refunded_quantity == i.quantity));
    assert_eq!(world.order(cart).calculate_total(), 0);
    assert_eq!(world.order(cart).status, OrderStatus::Paid);
    // the tickets keep their status and lose their link
    let ticket = world.ledger.instances.iter().find(|t| t.id == tickets[0]).unwrap();
    assert_eq!(ticket.status, TicketInstanceStatus::Purchased);
    assert_eq!(ticket.order_item_id, None);

    let event_fee = items.last().unwrap();
    assert_eq!(
        world.book.orders[cart].refund(
            &vec![RefundItem { order_item_id: event_fee.id, ticket_instance_id: None }],
            1,
            &mut world.ledger
        ),
        Err(EngineError::AlreadyRefunded)
    );
}

#[test]
fn refund_failures() {
    let mut world = world();
    let cart = world.cart();
    world.update(cart, vec![line(1, None)], false).unwrap();
    let item = world.order(cart).items()[0];
    let ticket = world.ledger.instances[0].id;
    let unit = RefundItem { order_item_id: item.id, ticket_instance_id: Some(ticket) };
    assert_eq!(
        world.book.orders[cart].refund(&vec![unit], 1, &mut world.ledger),
        Err(EngineError::InvalidStateTransition)
    );
    world.pay(cart, 420).unwrap();
    let unknown_item = RefundItem { order_item_id: 999, ticket_instance_id: Some(ticket) };
    assert_eq!(
        world.book.orders[cart].refund(&vec![unknown_item], 1, &mut world.ledger),
        Err(EngineError::NotFound)
    );
    let unknown_ticket = RefundItem { order_item_id: item.id, ticket_instance_id: Some(999) };
    assert_eq!(
        world.book.orders[cart].refund(&vec![unknown_ticket], 1, &mut world.ledger),
        Err(EngineError::NotFound)
    );
    let not_an_event_fee = RefundItem { order_item_id: item.id, ticket_instance_id: None };
    assert_eq!(
        world.book.orders[cart].refund(&vec![not_an_event_fee], 1, &mut world.ledger),
        Err(EngineError::NotFound)
    );
    let foreign_ticket =
        RefundItem { order_item_id: item.id, ticket_instance_id: Some(world.ledger.instances[5].id) };
    assert_eq!(
        world.book.orders[cart].refund(&vec![foreign_ticket], 1, &mut world.ledger),
        Err(EngineError::AlreadyRefunded)
    );
    assert_eq!(world.order(cart).items()[0].refunded_quantity, 0);
}

// ---- carts in the book ----

#[test]
fn abandoned_order_has_no_items_and_is_expired() {
    let mut world = world();
    let cart = world.cart();
    assert!(!world.order(cart).is_abandoned(NOW + 900));
    assert!(world.order(cart).is_abandoned(NOW + 901));
    world.update(cart, vec![line(1, None)], false).unwrap();
    assert!(!world.order(cart).is_abandoned(NOW + 901));
}

#[test]
fn destroying_a_cart_releases_its_tickets() {
    let mut world = world();
    let cart = world.cart();
    world.update(cart, vec![line(5, None)], false).unwrap();
    assert_eq!(world.ledger.available_count(7, NOW), 15);
    let id = world.order(cart).id;
    assert_eq!(world.book.destroy(id, &mut world.ledger), Ok(()));
    assert_eq!(world.ledger.available_count(7, NOW), 20);
    assert_eq!(world.book.destroy(id, &mut world.ledger), Err(EngineError::NotFound));
    assert!(world.book.orders.is_empty());
}

#[test]
fn expired_cart_is_replaced_by_a_new_one() {
    let mut world = world();
    let first = world.book.find_or_create_cart(1, NOW);
    assert_eq!(world.book.find_or_create_cart(1, NOW + 10), first);
    let second = world.book.find_or_create_cart(1, NOW + 900);
    assert_ne!(second, first);
    assert_ne!(world.book.orders[second].id, world.book.orders[first].id);
    assert_eq!(world.book.orders[second].expires_at, NOW + 1_800);
    assert_eq!(world.book.orders[second].events, vec![DomainEventTypes::OrderCreated]);
    let other = world.book.find_or_create_cart(2, NOW + 900);
    assert_ne!(other, second);
}

#[test]
fn cancelled_cart_releases_its_tickets_for_good() {
    let mut world = world();
    let cart = world.cart();
    world.update(cart, vec![line(5, None)], false).unwrap();
    assert_eq!(world.book.cancel(cart, &mut world.ledger), Ok(()));
    assert_eq!(world.order(cart).status, OrderStatus::Cancelled);
    assert_eq!(world.ledger.available_count(7, NOW), 20);
    assert_eq!(world.order(cart).items().len(), 3);
    assert_eq!(
        world.book.orders[cart].cancel(&mut world.ledger),
        Err(EngineError::InvalidStateTransition)
    );
    assert_eq!(
        world.update(cart, vec![line(1, None)], false),
        Err(EngineError::InvalidStateTransition)
    );
}

#[test]
fn change_of_one_cart_leaves_the_tickets_of_another() {
    let mut world = world();
    let first = world.book.find_or_create_cart(1, NOW);
    let second = world.book.find_or_create_cart(2, NOW);
    world.update(first, vec![line(5, None)], false).unwrap();
    let held: Vec<TicketInstance> =
        world.ledger.instances.iter().filter(|t| t.order_item_id.is_some()).cloned().collect();
    assert_eq!(held.len(), 5);

    world.update(second, vec![line(6, None)], false).unwrap();
    world.update(second, vec![line(2, None)], false).unwrap();
    world.update(second, vec![], true).unwrap();
    for instance in &held {
        assert!(world.ledger.instances.contains(instance));
    }
    let first_item = world.order(first).items()[0];
    assert_eq!(world.ledger.linked_to(first_item.id), 5);
    assert!(world.order(first).items_valid_for_purchase(&world.ledger, &world.catalog, NOW));

    // no more is handed out than there is
    assert_eq!(
        world.update(second, vec![line(16, None)], false),
        Err(EngineError::Validation(ValidationError::QuantityNotAvailable))
    );
    world.update(second, vec![line(15, None)], false).unwrap();
    assert_eq!(world.ledger.available_count(7, NOW), 0);
    let ids: Vec<u128> = world
        .book
        .orders
        .iter()
        .flat_map(|o| o.items())
        .map(|i| i.id)
        .collect();
    let mut unique = ids.clone();
    unique.sort();
    unique.dedup();
    assert_eq!(unique.len(), ids.len());
}

#[test]
fn fee_item_follows_its_tickets_item() {
    let mut world = world();
    world.catalog.codes[0].discount_in_cents = Some(60);
    let cart = world.cart();
    world.update(cart, vec![line(3, Some("SAVE")), line(2, None)], false).unwrap();
    let items = world.order(cart).items();
    for (j, item) in items.iter().enumerate() {
        if item.parent_id.is_some() {
            assert_eq!(item.parent_id, Some(items[j - 1].id));
            assert_eq!(item.quantity, items[j - 1].quantity);
            assert_eq!(item.event_id, items[j - 1].event_id);
        }
    }
    assert_eq!(items.iter().filter(|i| i.parent_id.is_some()).count(), 2);
}

#[test]
fn user_has_one_open_cart_at_a_time() {
    let mut world = world();
    let first = world.book.find_or_create_cart(1, NOW);
    assert_eq!(world.book.find_or_create_cart(1, NOW + 899), first);
    let second = world.book.find_or_create_cart(1, NOW + 900);
    let third = world.book.find_or_create_cart(2, NOW + 900);
    let open = |book: &OrderBook, user: u128, now: i64| {
        book.orders
            .iter()
            .filter(|o| {
                o.user_id == user
                    && o.status == OrderStatus::Draft
                    && o.created_at <= now
                    && o.expires_at > now
            })
            .count()
    };
    assert_eq!(open(&world.book, 1, NOW), 1);
    assert_eq!(open(&world.book, 1, NOW + 900), 1);
    assert_eq!(open(&world.book, 1, NOW + 1_799), 1);
    assert_eq!(open(&world.book, 1, NOW + 1_800), 0);
    assert_eq!(open(&world.book, 2, NOW + 900), 1);
    assert_eq!(world.book.find_cart_for_user(1, NOW + 900), Some(second));
    assert_eq!(world.book.find_cart_for_user(2, NOW + 900), Some(third));
    let ids: Vec<u128> = world.book.orders.iter().map(|o| o.id).collect();
    assert_eq!(ids, vec![1, 2, 3]);
}
