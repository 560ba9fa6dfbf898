use bigneon::catalog::{Catalog, Event, Organization, UpdateOrderItem};
use bigneon::codes::{Code, Hold};
use bigneon::display::{DisplayOrderItem, EventScope, Viewer};
use bigneon::enums::{
    CodeTypes, DomainEventTypes, HoldTypes, OrderItemTypes, OrderStatus, TicketInstanceStatus,
};
use bigneon::errors::{EngineError};
use bigneon::fees::{FeeSchedule, FeeScheduleRange};
use bigneon::inventory::{InventoryLedger, TicketInstance};
use bigneon::orders::{Order, OrderItem};
use bigneon::pricing::{TicketPricing, TicketType};
use bigneon::refunds::RefundItem;
use bigneon::store::{OrderBook, UpdateOrderAttributes};
use bigneon::validity::CartItemStatus;

const NOW: i64 = 1_500_000_000;
const FAR: i64 = 250_000_000_000;
const EVENT_FEE: u32 = 250;

struct TestProject {
    catalog: Catalog,
    ledger: InventoryLedger,
    book: OrderBook,
    next: u128,
}

impl TestProject {
    fn new() -> TestProject {
        let mut project = TestProject {
            catalog: Catalog {
                organizations: Vec::new(),
                events: Vec::new(),
                ticket_types: Vec::new(),
                codes: Vec::new(),
                holds: Vec::new(),
            },
            ledger: InventoryLedger { instances: Vec::new(), reservation_window_seconds: 900 },
            book: OrderBook::new(900),
            next: 1_000,
        };
        // the organization of events that name none
        project.catalog.organizations.push(Organization {
            id: 1,
            event_fee_in_cents: None,
            fee_schedule: FeeSchedule::new(
                2,
                vec![FeeScheduleRange { id: 3, min_price_in_cents: 0, fee_in_cents: 50 }],
                1,
            )
            .unwrap(),
        });
        project
    }

    fn id(&mut self) -> u128 {
        self.next += 1;
        self.next
    }

    fn create_user(&mut self) -> u128 {
        self.id()
    }

    fn create_fee_schedule(&mut self) -> FeeSchedule {
        let id = self.id();
        let low = self.id();
        let high = self.id();
        FeeSchedule::new(
            id,
            vec![
                FeeScheduleRange { id: low, min_price_in_cents: 20, fee_in_cents: 10 },
                FeeScheduleRange { id: high, min_price_in_cents: 100, fee_in_cents: 20 },
            ],
            1,
        )
        .unwrap()
    }

    fn create_organization(&mut self, with_fee_schedule: bool, with_event_fee: bool) -> u128 {
        let id = self.id();
        let fee_schedule = if with_fee_schedule {
            self.create_fee_schedule()
        } else {
            let schedule_id = self.id();
            let range_id = self.id();
            FeeSchedule::new(
                schedule_id,
                vec![FeeScheduleRange { id: range_id, min_price_in_cents: 0, fee_in_cents: 50 }],
                1,
            )
            .unwrap()
        };
        self.catalog.organizations.push(Organization {
            id,
            event_fee_in_cents: if with_event_fee { Some(EVENT_FEE) } else { None },
            fee_schedule,
        });
        id
    }

    fn add_ticket_type(&mut self, event_id: u128, price: Option<u32>, increment: u32) -> u128 {
        let id = self.id();
        let mut pricing = Vec::new();
        if let Some(price_in_cents) = price {
            let pricing_id = self.id();
            pricing.push(TicketPricing {
                id: pricing_id,
                price_in_cents,
                start_date: 0,
                end_date: FAR,
                is_box_office_only: false,
            });
        }
        self.catalog.ticket_types.push(TicketType { id, event_id, increment, pricing });
        for _ in 0..100 {
            let instance_id = self.id();
            self.ledger.instances.push(TicketInstance {
                id: instance_id,
                ticket_type_id: id,
                status: TicketInstanceStatus::Available,
                order_item_id: None,
                reserved_until: None,
            });
        }
        id
    }

    /// An event with tickets and ticket pricing; the ids of the event and
    /// of its ticket types.
    fn create_event(&mut self, organization: Option<u128>, ticket_type_count: usize)
        -> (u128, Vec<u128>) {
        let id = self.id();
        self.catalog.events.push(Event {
            id,
            organization_id: organization.unwrap_or(1),
            fee_in_cents: None,
        });
        let mut ticket_types = Vec::new();
        for _ in 0..ticket_type_count {
            ticket_types.push(self.add_ticket_type(id, Some(150), 1));
        }
        (id, ticket_types)
    }

    fn create_code(
        &mut self,
        event_id: u128,
        ticket_type_id: u128,
        code_type: CodeTypes,
        discount_in_cents: Option<u32>,
    ) -> usize {
        let id = self.id();
        self.catalog.codes.push(Code {
            id,
            event_id,
            redemption_code: format!("CODE{}", id),
            code_type,
            discount_in_cents,
            start_date: Some(0),
            end_date: Some(FAR),
            max_uses: Some(100),
            uses: 0,
            ticket_type_ids: vec![ticket_type_id],
        });
        self.catalog.codes.len() - 1
    }

    fn create_hold(&mut self, event_id: u128, ticket_type_id: u128, quantity: u32) -> usize {
        let id = self.id();
        let mut hold = Hold::create(
            id,
            "Hold".to_string(),
            event_id,
            ticket_type_id,
            format!("HOLD{}", id),
            Some(10),
            None,
            None,
            HoldTypes::Discount,
        )
        .unwrap();
        hold.set_quantity(quantity).unwrap();
        self.catalog.holds.push(hold);
        self.catalog.holds.len() - 1
    }

    fn cart(&mut self, user_id: u128) -> usize {
        self.book.find_or_create_cart(user_id, NOW)
    }

    fn update(
        &mut self,
        cart: usize,
        user_id: u128,
        lines: &[(u128, u32, Option<String>)],
        box_office: bool,
        replace: bool,
    ) -> Result<(), EngineError> {
        let request: Vec<UpdateOrderItem> = lines
            .iter()
            .map(|(ticket_type_id, quantity, code)| UpdateOrderItem {
                ticket_type_id: *ticket_type_id,
                quantity: *quantity,
                redemption_code: code.clone(),
            })
            .collect();
        self.book.update_quantities(
            cart,
            user_id,
            &request,
            box_office,
            replace,
            &self.catalog,
            &mut self.ledger,
            NOW,
        )
    }

    fn order(&self, cart: usize) -> &Order {
        &self.book.orders[cart]
    }

    fn pay(&mut self, cart: usize, reference: &str, user_id: u128, amount: u64)
        -> Result<(), EngineError> {
        self.book.add_external_payment(
            cart,
            Some(reference.to_string()),
            user_id,
            amount,
            &mut self.ledger,
            &self.catalog,
            NOW,
        )
    }

    /// An order of ten tickets of a new event.
    fn create_order(&mut self, user_id: u128) -> usize {
        let (_, ticket_types) = self.create_event(None, 1);
        let cart = self.cart(user_id);
        self.update(cart, user_id, &[(ticket_types[0], 10, None)], false, false).unwrap();
        cart
    }

    fn instances_of(&self, order_item_id: u128) -> Vec<TicketInstance> {
        self.ledger
            .instances
            .iter()
            .filter(|t| t.order_item_id == Some(order_item_id))
            .cloned()
            .collect()
    }
}

fn ticket_item(items: &[OrderItem], ticket_type_id: u128) -> OrderItem {
    *items.iter().find(|i| i.ticket_type_id == Some(ticket_type_id)).unwrap()
}

fn fee_item(items: &[OrderItem], parent: &OrderItem) -> Option<OrderItem> {
    items.iter().find(|i| i.parent_id == Some(parent.id)).cloned()
}

fn event_fee_count(items: &[OrderItem]) -> usize {
    items.iter().filter(|i| i.item_type == OrderItemTypes::EventFees).count()
}

fn status_count(items: &[DisplayOrderItem], status: CartItemStatus) -> usize {
    items
        .iter()
        .filter(|i| i.item_type == OrderItemTypes::Tickets && i.cart_item_status == Some(status))
        .count()
}

fn event_count(order: &Order, event: DomainEventTypes) -> usize {
    order.events.iter().filter(|e| **e == event).count()
}

fn no_scopes(user_id: u128) -> Viewer {
    Viewer { user_id, scopes: Vec::new() }
}

#[test]
fn orders_create() {
    let mut project = TestProject::new();
    let user = project.create_user();
    let organization = project.create_organization(false, false);
    let _event = project.create_event(Some(organization), 0);
    let cart = project.book.find_or_create_cart(user, NOW);
    let order = project.order(cart);
    assert_eq!(order.user_id, user);
    assert_eq!(order.id.to_string().is_empty(), false);
    assert_eq!(1, event_count(order, DomainEventTypes::OrderCreated));
}

#[test]
fn add_tickets() {
    let mut project = TestProject::new();
    let organization = project.create_organization(true, false);
    let (_, ticket_types) = project.create_event(Some(organization), 1);
    let ticket = ticket_types[0];
    let user = project.create_user();
    let cart = project.cart(user);
    project.update(cart, user, &[(ticket, 10, None)], false, false).unwrap();
    let items = project.order(cart).items();
    let order_item = ticket_item(&items, ticket);

    let ticket_pricing = project.catalog.ticket_types[0].pricing[0];
    assert_eq!(order_item.ticket_pricing_id, Some(ticket_pricing.id));
    assert_eq!(project.ledger.linked_to(order_item.id), 10);
    assert_eq!(order_item.unit_price_in_cents, ticket_pricing.price_in_cents);

    let fee_item = fee_item(&items, &order_item).unwrap();
    let fee_schedule_range = project.catalog.organizations[1].fee_schedule.range_for(150);
    assert_eq!(fee_item.fee_schedule_range_id, Some(fee_schedule_range.id));
    assert_eq!(fee_item.unit_price_in_cents, fee_schedule_range.fee_in_cents);
    assert_eq!(fee_item.quantity, 10);

    // Add some more
    project.update(cart, user, &[(ticket, 15, None)], false, false).unwrap();
    let items = project.order(cart).items();
    assert_eq!(items.len(), 2);
    let order_item = ticket_item(&items, ticket);
    assert_eq!(project.ledger.linked_to(order_item.id), 15);
}

#[test]
fn add_tickets_below_min_fee() {
    let mut project = TestProject::new();
    let organization = project.create_organization(true, false);
    let (event, _) = project.create_event(Some(organization), 0);
    let ticket_type = project.add_ticket_type(event, Some(0), 1);

    let user = project.create_user();
    let cart = project.cart(user);
    project.update(cart, user, &[(ticket_type, 10, None)], false, false).unwrap();

    let items = project.order(cart).items();
    let order_item = ticket_item(&items, ticket_type);
    assert_eq!(order_item.unit_price_in_cents, 0);
    assert_eq!(items.len(), 1);

    let fee_item = fee_item(&items, &order_item);
    assert_eq!(fee_item, None);
}

#[test]
fn events() {
    let mut project = TestProject::new();
    let organization = project.create_organization(false, false);
    let (event, ticket_types) = project.create_event(Some(organization), 2);
    let (event2, ticket_types2) = project.create_event(Some(organization), 1);
    let user = project.create_user();
    let cart = project.cart(user);
    project
        .update(
            cart,
            user,
            &[(ticket_types[0], 2, None), (ticket_types[1], 2, None), (ticket_types2[0], 1, None)],
            false,
            false,
        )
        .unwrap();

    let expected: Vec<Event> = project
        .catalog
        .events
        .iter()
        .filter(|e| e.id == event || e.id == event2)
        .cloned()
        .collect();
    assert_eq!(expected.len(), 2);
    assert_eq!(expected, project.order(cart).events(&project.catalog));
}

#[test]
fn items_valid_for_purchase() {
    let mut project = TestProject::new();
    let organization = project.create_organization(false, false);
    let (event, ticket_types) = project.create_event(Some(organization), 1);
    let ticket_type = ticket_types[0];
    let hold = project.create_hold(event, ticket_type, 1);
    let code = project.create_code(event, ticket_type, CodeTypes::Discount, Some(10));

    // Normal order for ticket type
    let user = project.create_user();
    let cart = project.cart(user);
    project.update(cart, user, &[(ticket_type, 1, None)], false, false).unwrap();
    assert!(project.order(cart).items_valid_for_purchase(&project.ledger, &project.catalog, NOW));

    // Order item with no associated ticket instance
    let items = project.order(cart).items();
    let order_item = ticket_item(&items, ticket_type);
    let position = project
        .ledger
        .instances
        .iter()
        .position(|t| t.order_item_id == Some(order_item.id))
        .unwrap();
    project.ledger.instances[position].order_item_id = None;
    assert!(!project.order(cart).items_valid_for_purchase(&project.ledger, &project.catalog, NOW));

    // Order item with past reserved until date
    let one_minute_ago = NOW - 60;
    project.ledger.instances[position].order_item_id = Some(order_item.id);
    project.ledger.instances[position].reserved_until = Some(one_minute_ago);
    assert!(!project.order(cart).items_valid_for_purchase(&project.ledger, &project.catalog, NOW));

    // Order item ticket nullified
    let one_minute_from_now = NOW + 60;
    project.ledger.instances[position].reserved_until = Some(one_minute_from_now);
    project.ledger.instances[position].status = TicketInstanceStatus::Nullified;
    assert!(!project.order(cart).items_valid_for_purchase(&project.ledger, &project.catalog, NOW));

    // Code with end date in the past
    let user = project.create_user();
    let cart = project.cart(user);
    let redemption_code = project.catalog.codes[code].redemption_code.clone();
    project.update(cart, user, &[(ticket_type, 1, Some(redemption_code))], false, false).unwrap();
    assert!(project.order(cart).items_valid_for_purchase(&project.ledger, &project.catalog, NOW));

    project.catalog.codes[code].end_date = Some(one_minute_ago);
    assert!(!project.order(cart).items_valid_for_purchase(&project.ledger, &project.catalog, NOW));

    // Hold with end at date in the past
    let user = project.create_user();
    let cart = project.cart(user);
    let redemption_code = project.catalog.holds[hold].redemption_code.clone();
    project.update(cart, user, &[(ticket_type, 1, Some(redemption_code))], false, false).unwrap();
    assert!(project.order(cart).items_valid_for_purchase(&project.ledger, &project.catalog, NOW));

    project.catalog.holds[hold].end_at = Some(one_minute_ago);
    assert!(!project.order(cart).items_valid_for_purchase(&project.ledger, &project.catalog, NOW));
}

#[test]
fn partially_visible_order() {
    let mut project = TestProject::new();
    let organization = project.create_organization(false, true);
    let (event, ticket_types) = project.create_event(Some(organization), 1);
    let (event2, ticket_types2) = project.create_event(Some(organization), 1);
    let user = project.create_user();
    let user2 = project.create_user();
    let cart = project.cart(user);
    project
        .update(cart, user, &[(ticket_types[0], 2, None), (ticket_types2[0], 2, None)], false, false)
        .unwrap();

    // A member of the organization, without a limit to events
    let member = no_scopes(user2);
    assert!(!project.order(cart).partially_visible_order(
        &vec![organization],
        &member,
        &project.catalog
    ));

    // A promoter without any event: nothing of the order is covered
    let promoter = Viewer {
        user_id: user2,
        scopes: vec![EventScope { organization_id: organization, event_ids: vec![] }],
    };
    assert!(!project.order(cart).partially_visible_order(
        &vec![organization],
        &promoter,
        &project.catalog
    ));

    // A promoter of one of the two events: some but not all is covered
    let promoter = Viewer {
        user_id: user2,
        scopes: vec![EventScope { organization_id: organization, event_ids: vec![event] }],
    };
    assert!(project.order(cart).partially_visible_order(
        &vec![organization],
        &promoter,
        &project.catalog
    ));

    // A promoter of both events
    let promoter = Viewer {
        user_id: user2,
        scopes: vec![EventScope { organization_id: organization, event_ids: vec![event, event2] }],
    };
    assert!(!project.order(cart).partially_visible_order(
        &vec![organization],
        &promoter,
        &project.catalog
    ));

    // No organization at all: nothing of the order is covered
    assert!(!project.order(cart).partially_visible_order(&vec![], &promoter, &project.catalog));
}

#[test]
fn refund() {
    let mut project = TestProject::new();
    let organization = project.create_organization(true, true);
    let (_, ticket_types) = project.create_event(Some(organization), 1);
    let ticket_type = ticket_types[0];
    let user = project.create_user();
    let cart = project.cart(user);
    project.update(cart, user, &[(ticket_type, 2, None)], false, false).unwrap();

    let total = project.order(cart).calculate_total();
    project.pay(cart, "Test", user, total as u64).unwrap();

    let items = project.order(cart).items();
    let order_item = ticket_item(&items, ticket_type);
    let event_fee_item =
        *items.iter().find(|i| i.item_type == OrderItemTypes::EventFees).unwrap();
    let fee_item = fee_item(&items, &order_item).unwrap();
    let tickets = project.instances_of(order_item.id);
    let ticket = tickets[0];

    // Refund first ticket and event fee (leaving one ticket + one fee item for that ticket)
    let refund_items = vec![
        RefundItem { order_item_id: order_item.id, ticket_instance_id: Some(ticket.id) },
        RefundItem { order_item_id: event_fee_item.id, ticket_instance_id: None },
    ];
    let refund_amount = event_fee_item.unit_price_in_cents
        + order_item.unit_price_in_cents
        + fee_item.unit_price_in_cents;
    assert_eq!(
        project.book.refund(cart, &refund_items, user, &mut project.ledger).unwrap(),
        refund_amount as u128
    );

    // Reload ticket
    let ticket = *project.ledger.instances.iter().find(|t| t.id == ticket.id).unwrap();
    assert!(ticket.order_item_id.is_none());

    // Reload order item
    let order_item = project.order(cart).find_item(order_item.id).unwrap();
    assert_eq!(order_item.refunded_quantity, 1);

    // Reload fee item
    let items = project.order(cart).items();
    let fee_item = items.iter().find(|i| i.parent_id == Some(order_item.id)).cloned().unwrap();
    assert_eq!(fee_item.refunded_quantity, 1);
}

#[test]
fn organizations() {
    let mut project = TestProject::new();
    let organization = project.create_organization(true, false);
    let organization2 = project.create_organization(true, false);
    let (_, ticket_types) = project.create_event(Some(organization), 1);
    let (_, ticket_types2) = project.create_event(Some(organization2), 1);
    let user = project.create_user();
    let cart = project.cart(user);
    project
        .update(
            cart,
            user,
            &[(ticket_types[0], 10, None), (ticket_types2[0], 10, None)],
            false,
            false,
        )
        .unwrap();

    assert_eq!(
        project.order(cart).organizations(&project.catalog),
        vec![organization, organization2]
    );
}

#[test]
fn payments() {
    let mut project = TestProject::new();
    let user = project.create_user();
    let (_, ticket_types) = project.create_event(None, 1);
    let cart = project.cart(user);
    project.update(cart, user, &[(ticket_types[0], 10, None)], false, false).unwrap();
    assert_eq!(project.order(cart).calculate_total(), 2000);

    project.pay(cart, "Test", user, 500).unwrap();
    project.pay(cart, "Test2", user, 1500).unwrap();

    let payments = project.order(cart).payments();
    assert_eq!(payments.len(), 2);

    let mut payments = payments.iter().map(|p| p.amount_in_cents).collect::<Vec<u64>>();
    payments.sort();
    assert_eq!(payments, vec![500, 1500]);
}

#[test]
fn add_tickets_with_increment() {
    let mut project = TestProject::new();
    let organization = project.create_organization(true, false);
    let (_, ticket_types) = project.create_event(Some(organization), 1);
    let ticket_type = ticket_types[0];
    let user = project.create_user();
    let cart = project.cart(user);
    project.catalog.ticket_types[0].increment = 4;

    let add_tickets_result = project.update(cart, user, &[(ticket_type, 10, None)], false, false);
    assert!(add_tickets_result.is_err());
    let error = add_tickets_result.unwrap_err();
    match error {
        EngineError::Validation(error) => {
            assert_eq!(error.field(), "quantity");
            assert_eq!(error.code(), "quantity_invalid_increment");
            assert_eq!(
                error.message(),
                "Order item quantity invalid for ticket pricing increment"
            );
        }
        _ => panic!("Expected validation error"),
    }

    project.update(cart, user, &[(ticket_type, 4, None)], false, false).unwrap();
    project.update(cart, user, &[(ticket_type, 12, None)], false, false).unwrap();
    let items = project.order(cart).items();
    let order_item = ticket_item(&items, ticket_type);
    assert_eq!(order_item.quantity, 12);
}

#[test]
fn clear_cart() {
    let mut project = TestProject::new();
    let organization = project.create_organization(true, false);
    let (_, ticket_types) = project.create_event(Some(organization), 1);
    let user = project.create_user();
    let cart = project.cart(user);
    project.update(cart, user, &[(ticket_types[0], 10, None)], false, false).unwrap();
    assert!(!project.order(cart).items().is_empty());

    project.book.orders[cart]
        .clear_cart(user, &project.catalog, &mut project.ledger, &mut project.book.ids, NOW)
        .unwrap();
    assert!(project.order(cart).items().is_empty());
}

#[test]
fn replace_tickets_for_box_office() {
    let mut project = TestProject::new();
    let organization = project.create_organization(true, true);
    let (_, ticket_types) = project.create_event(Some(organization), 1);
    let ticket_type = ticket_types[0];

    let user = project.create_user();
    let cart = project.cart(user);
    assert!(!project.order(cart).box_office_pricing);

    let box_office_pricing = TicketPricing {
        id: project.id(),
        price_in_cents: 5000,
        start_date: 1_467_961_690,
        end_date: FAR,
        is_box_office_only: true,
    };
    project.catalog.ticket_types[0].pricing.push(box_office_pricing);

    // Add normal tickets to cart (box_office_pricing = false)
    project.update(cart, user, &[(ticket_type, 10, None)], false, false).unwrap();
    let items = project.order(cart).items();
    let order_item = ticket_item(&items, ticket_type);
    let ticket_pricing = project.catalog.ticket_types[0].pricing[0];
    assert_eq!(order_item.ticket_pricing_id, Some(ticket_pricing.id));
    assert_eq!(project.ledger.linked_to(order_item.id), 10);
    assert_eq!(order_item.unit_price_in_cents, ticket_pricing.price_in_cents);

    let fee_item = fee_item(&items, &order_item).unwrap();
    let fee_schedule_range = project.catalog.organizations[1].fee_schedule.range_for(150);
    assert_eq!(fee_item.fee_schedule_range_id, Some(fee_schedule_range.id));
    assert_eq!(fee_item.unit_price_in_cents, fee_schedule_range.fee_in_cents);
    assert_eq!(fee_item.quantity, 10);
    assert!(items.iter().find(|i| i.item_type == OrderItemTypes::EventFees).is_some());

    // Add box office priced tickets to cart (box_office_pricing = true)
    project.update(cart, user, &[(ticket_type, 10, None)], true, true).unwrap();
    assert!(project.order(cart).box_office_pricing);
    let items = project.order(cart).items();
    assert_eq!(items.len(), 1);
    let order_item = ticket_item(&items, ticket_type);
    assert_eq!(project.ledger.linked_to(order_item.id), 10);
    assert_eq!(order_item.unit_price_in_cents, box_office_pricing.price_in_cents);

    // No fee for box office items
    assert!(items.iter().find(|i| i.parent_id == Some(order_item.id)).is_none());
    assert!(items.iter().find(|i| i.item_type == OrderItemTypes::EventFees).is_none());
}

#[test]
fn replace_tickets() {
    let mut project = TestProject::new();
    let organization = project.create_organization(true, false);
    let (_, ticket_types) = project.create_event(Some(organization), 1);
    let ticket = ticket_types[0];
    let user = project.create_user();
    let cart = project.cart(user);
    project.update(cart, user, &[(ticket, 10, None)], false, false).unwrap();
    let items = project.order(cart).items();
    let order_item = ticket_item(&items, ticket);

    let ticket_pricing = project.catalog.ticket_types[0].pricing[0];
    assert_eq!(order_item.ticket_pricing_id, Some(ticket_pricing.id));
    assert_eq!(project.ledger.linked_to(order_item.id), 10);
    assert_eq!(order_item.unit_price_in_cents, ticket_pricing.price_in_cents);

    let fee_item = fee_item(&items, &order_item).unwrap();
    let fee_schedule_range = project.catalog.organizations[1].fee_schedule.range_for(150);
    assert_eq!(fee_item.unit_price_in_cents, fee_schedule_range.fee_in_cents);
    assert_eq!(fee_item.quantity, 10);

    // Add some more
    project.update(cart, user, &[(ticket, 15, None)], false, true).unwrap();
    let items = project.order(cart).items();
    assert_eq!(items.len(), 2);
    let order_item = ticket_item(&items, ticket);
    assert_eq!(project.ledger.linked_to(order_item.id), 15);
}

#[test]
fn replace_tickets_with_code_pricing() {
    let mut project = TestProject::new();
    let organization = project.create_organization(true, false);
    let (event, ticket_types) = project.create_event(Some(organization), 1);
    let ticket_type = ticket_types[0];
    let user = project.create_user();
    let cart = project.cart(user);
    let discount_in_cents: u32 = 20;
    let code = project.create_code(event, ticket_type, CodeTypes::Access, Some(discount_in_cents));
    let redemption_code = project.catalog.codes[code].redemption_code.clone();
    project
        .update(cart, user, &[(ticket_type, 10, Some(redemption_code.clone()))], false, false)
        .unwrap();
    let items = project.order(cart).items();
    let order_item = ticket_item(&items, ticket_type);

    let ticket_pricing = project.catalog.ticket_types[0].pricing[0];
    assert_eq!(order_item.ticket_pricing_id, Some(ticket_pricing.id));
    assert_eq!(project.ledger.linked_to(order_item.id), 10);
    assert_eq!(order_item.unit_price_in_cents, ticket_pricing.price_in_cents - discount_in_cents);

    let fee_item = fee_item(&items, &order_item).unwrap();
    let fee_schedule_range = project.catalog.organizations[1]
        .fee_schedule
        .range_for(ticket_pricing.price_in_cents - discount_in_cents);
    assert_eq!(fee_item.fee_schedule_range_id, Some(fee_schedule_range.id));
    assert_eq!(fee_item.unit_price_in_cents, fee_schedule_range.fee_in_cents);
    assert_eq!(fee_item.quantity, 10);

    // Add some more
    project.update(cart, user, &[(ticket_type, 15, Some(redemption_code))], false, true).unwrap();
    let items = project.order(cart).items();
    assert_eq!(items.len(), 2);
    let order_item = ticket_item(&items, ticket_type);
    assert_eq!(project.ledger.linked_to(order_item.id), 15);
}

#[test]
fn remove_tickets() {
    let mut project = TestProject::new();
    let (_, ticket_types) = project.create_event(None, 1);
    let ticket_type = ticket_types[0];
    let user = project.create_user();
    let cart = project.cart(user);
    project.update(cart, user, &[(ticket_type, 10, None)], false, false).unwrap();
    let items = project.order(cart).items();
    let order_item = ticket_item(&items, ticket_type);

    let ticket_pricing = project.catalog.ticket_types[0].pricing[0];
    assert_eq!(order_item.quantity, 10);
    assert_eq!(order_item.unit_price_in_cents, ticket_pricing.price_in_cents);

    let fee = fee_item(&items, &order_item).unwrap();
    let fee_schedule_range = project.catalog.organizations[0].fee_schedule.range_for(150);
    assert_eq!(fee.fee_schedule_range_id, Some(fee_schedule_range.id));
    assert_eq!(fee.unit_price_in_cents, fee_schedule_range.fee_in_cents);
    assert_eq!(fee.quantity, 10);

    // Remove tickets
    assert!(project.update(cart, user, &[(ticket_type, 6, None)], false, false).is_ok());
    let items = project.order(cart).items();
    let order_item = ticket_item(&items, ticket_type);
    assert_eq!(order_item.quantity, 6);
    assert_eq!(order_item.unit_price_in_cents, ticket_pricing.price_in_cents);
    let fee = fee_item(&items, &order_item).unwrap();
    assert_eq!(fee.unit_price_in_cents, fee_schedule_range.fee_in_cents);
    assert_eq!(fee.quantity, 6);
    assert_eq!(project.ledger.linked_to(order_item.id), 6);

    project.update(cart, user, &[(ticket_type, 0, None)], false, false).unwrap();
    // Item removed from cart completely
    assert!(project.order(cart).items().is_empty());
}

#[test]
fn clear_tickets() {
    let mut project = TestProject::new();
    let (_, ticket_types) = project.create_event(None, 1);
    let user = project.create_user();
    let cart = project.cart(user);
    project.update(cart, user, &[(ticket_types[0], 10, None)], false, false).unwrap();

    // Remove tickets
    assert!(project.update(cart, user, &[], false, true).is_ok());

    // Item removed from cart completely
    assert!(project.order(cart).items().is_empty());
}

#[test]
fn remove_tickets_with_increment() {
    let mut project = TestProject::new();
    let (_, ticket_types) = project.create_event(None, 1);
    let ticket_type = ticket_types[0];
    let user = project.create_user();
    let cart = project.cart(user);
    project.catalog.ticket_types[0].increment = 4;
    let add_tickets_result = project.update(cart, user, &[(ticket_type, 8, None)], false, false);
    assert!(add_tickets_result.is_ok());
    let items = project.order(cart).items();
    let order_item = ticket_item(&items, ticket_type);
    assert_eq!(order_item.quantity, 8);

    project.update(cart, user, &[(ticket_type, 4, None)], false, false).unwrap();
    let items = project.order(cart).items();
    let order_item = ticket_item(&items, ticket_type);
    assert_eq!(order_item.quantity, 4);

    let remove_tickets_result = project.update(cart, user, &[(ticket_type, 5, None)], false, false);
    assert!(remove_tickets_result.is_err());
    let error = remove_tickets_result.unwrap_err();
    match error {
        EngineError::Validation(error) => {
            assert_eq!(error.field(), "quantity");
            assert_eq!(error.code(), "quantity_invalid_increment");
            assert_eq!(
                error.message(),
                "Order item quantity invalid for ticket pricing increment"
            );
        }
        _ => panic!("Expected validation error"),
    }
}

#[test]
fn find_item() {
    let mut project = TestProject::new();
    let (_, ticket_types) = project.create_event(None, 1);
    let ticket_type = ticket_types[0];
    let user = project.create_user();
    let user2 = project.create_user();
    let order = project.cart(user);
    project.update(order, user, &[(ticket_type, 5, None)], false, false).unwrap();
    let order2 = project.cart(user2);
    project.update(order2, user, &[(ticket_type, 10, None)], false, false).unwrap();

    let items = project.order(order).items();
    let order_item = ticket_item(&items, ticket_type);
    let items = project.order(order2).items();
    let order_item2 = ticket_item(&items, ticket_type);

    let found_item = project.order(order).find_item(order_item.id).unwrap();
    assert_eq!(order_item, found_item);

    let found_item = project.order(order2).find_item(order_item2.id).unwrap();
    assert_eq!(order_item2, found_item);

    let find_results = project.order(order).find_item(order_item2.id);
    assert_eq!(find_results.unwrap_err(), EngineError::NotFound);

    let find_results = project.order(order2).find_item(order_item.id);
    assert_eq!(find_results.unwrap_err(), EngineError::NotFound);

    let unknown = project.id();
    let find_results = project.order(order).find_item(unknown);
    assert_eq!(find_results.unwrap_err(), EngineError::NotFound);
}

#[test]
fn find_cart_for_user() {
    let mut project = TestProject::new();
    let user = project.create_user();

    // No cart
    let cart_result = project.book.find_cart_for_user(user, NOW);
    assert!(cart_result.is_none());

    // Cart exists, is not expired
    let cart = project.cart(user);
    let cart_result = project.book.find_cart_for_user(user, NOW);
    assert_eq!(cart_result.unwrap(), cart);

    // Expired cart
    let one_minute_ago = NOW - 60;
    project.book.orders[cart].expires_at = one_minute_ago;
    let cart_result = project.book.find_cart_for_user(user, NOW);
    assert!(cart_result.is_none());
}

#[test]
fn has_items() {
    let mut project = TestProject::new();
    let user = project.create_user();
    let cart = project.cart(user);

    // Without items
    assert!(!project.order(cart).has_items());

    // With items
    let (_, ticket_types) = project.create_event(None, 1);
    project.update(cart, user, &[(ticket_types[0], 10, None)], false, false).unwrap();
    assert!(project.order(cart).has_items());
}

#[test]
fn destroy() {
    let mut project = TestProject::new();
    let user = project.create_user();
    let cart = project.cart(user);
    let cart_result = project.book.find_cart_for_user(user, NOW);
    assert_eq!(cart_result.unwrap(), cart);

    let id = project.order(cart).id;
    project.book.destroy(id, &mut project.ledger).unwrap();
    let cart_result = project.book.find_cart_for_user(user, NOW);
    assert!(cart_result.is_none());
}

#[test]
fn calculate_cart_total() {
    let mut project = TestProject::new();
    let organization = project.create_organization(true, false);
    let (_, ticket_types) = project.create_event(Some(organization), 1);
    let ticket = ticket_types[0];
    let user = project.create_user();
    let cart = project.cart(user);
    project.update(cart, user, &[(ticket, 10, None)], false, false).unwrap();

    let total = project.order(cart).calculate_total();
    assert_eq!(total, 1700);

    project.update(cart, user, &[(ticket, 30, None)], false, false).unwrap();
    let total = project.order(cart).calculate_total();
    assert_eq!(total, 5100);
}

#[test]
fn add_external_payment() {
    let mut project = TestProject::new();
    let user = project.create_user();
    let (_, ticket_types) = project.create_event(None, 1);
    let cart = project.cart(user);
    project.update(cart, user, &[(ticket_types[0], 10, None)], false, false).unwrap();
    assert_eq!(project.order(cart).calculate_total(), 2000);
    assert!(project.order(cart).paid_at.is_none());

    // Partially paid
    project.pay(cart, "test", user, 1500).unwrap();
    assert_eq!(project.order(cart).status, OrderStatus::PartiallyPaid);
    assert!(project.order(cart).paid_at.is_none());

    // Fully paid
    project.pay(cart, "test2", user, 500).unwrap();
    assert_eq!(project.order(cart).status, OrderStatus::Paid);
    assert!(project.order(cart).paid_at.is_some());

    assert_eq!(1, event_count(project.order(cart), DomainEventTypes::OrderCompleted));
}

#[test]
fn add_external_payment_for_expired_code() {
    let mut project = TestProject::new();
    let user = project.create_user();
    let (event, ticket_types) = project.create_event(None, 1);
    let ticket_type = ticket_types[0];
    let cart = project.cart(user);
    let code = project.create_code(event, ticket_type, CodeTypes::Access, Some(100));
    assert_eq!(project.catalog.codes[code].discount_in_cents, Some(100));
    let redemption_code = project.catalog.codes[code].redemption_code.clone();
    project.update(cart, user, &[(ticket_type, 10, Some(redemption_code))], false, false).unwrap();
    assert_eq!(project.order(cart).calculate_total(), 1000);
    assert!(project.order(cart).paid_at.is_none());

    // Update code so it's expired
    project.catalog.codes[code].start_date = Some(NOW - 3 * 86_400);
    project.catalog.codes[code].end_date = Some(NOW - 2 * 86_400);

    // Attempting to pay triggers error
    let result = project.pay(cart, "test", user, 1000);
    match result {
        Ok(_) => {
            panic!("Expected validation error");
        }
        Err(error) => match error {
            EngineError::Validation(error) => {
                assert_eq!(error.field(), "code_id");
                assert_eq!(error.code(), "Code not valid for current datetime");
            }
            _ => panic!("Expected validation error"),
        },
    }
}

#[test]
fn find_for_user_for_display() {
    let mut project = TestProject::new();
    let user = project.create_user();
    let order1 = project.create_order(user);
    project.pay(order1, "test", user, 2000).unwrap();
    // the paid order is no cart any more, so the user gets a new one
    let order2 = project.create_order(user);
    project.pay(order2, "test", user, 500).unwrap();

    assert_eq!(project.order(order1).status, OrderStatus::Paid);
    assert_eq!(project.order(order2).status, OrderStatus::PartiallyPaid);

    let display_orders =
        project.book.find_for_user_for_display(user, &project.ledger, &project.catalog, NOW);
    let ids: Vec<u128> = display_orders.iter().map(|o| o.id).collect();

    assert_eq!(project.order(order1).id, ids[0]);

    // User list so items shown in full
    assert!(!&display_orders[0].order_contains_other_tickets);
    assert!(!&display_orders[1].order_contains_other_tickets);
}

#[test]
fn for_display() {
    let mut project = TestProject::new();
    let user = project.create_user();
    let order = project.create_order(user);

    // 1 minute from now expires
    project.book.orders[order].expires_at = NOW + 60;
    let viewer = no_scopes(user);
    let display_order =
        project.order(order).for_display(None, &viewer, &project.ledger, &project.catalog, NOW);
    assert!(vec![59, 60].contains(&display_order.seconds_until_expiry.unwrap()));
    assert_eq!(Some(60), display_order.seconds_until_expiry);

    // No organization filtering
    assert!(!display_order.order_contains_other_tickets);

    // 1 minute ago expires
    project.book.orders[order].expires_at = NOW - 60;
    let display_order =
        project.order(order).for_display(None, &viewer, &project.ledger, &project.catalog, NOW);
    assert_eq!(Some(0), display_order.seconds_until_expiry);
}

#[test]
fn for_display_with_invalid_items() {
    let mut project = TestProject::new();
    let user = project.create_user();
    let organization = project.create_organization(false, false);
    let (event, ticket_types) = project.create_event(Some(organization), 5);
    let ticket_type = ticket_types[0];
    let ticket_type2 = ticket_types[1];
    let ticket_type3 = ticket_types[2];
    let ticket_type4 = ticket_types[3];
    let ticket_type5 = ticket_types[4];
    let hold = project.create_hold(event, ticket_type5, 1);
    let code = project.create_code(event, ticket_type5, CodeTypes::Discount, Some(10));
    let viewer = no_scopes(user);

    // Normal order for ticket type
    let cart = project.cart(user);
    project.update(cart, user, &[(ticket_type, 1, None)], false, false).unwrap();

    // Order item with no associated ticket instance
    project.update(cart, user, &[(ticket_type2, 2, None)], false, false).unwrap();
    let items = project.order(cart).items();
    let order_item = ticket_item(&items, ticket_type2);
    let position = project
        .ledger
        .instances
        .iter()
        .position(|t| t.order_item_id == Some(order_item.id))
        .unwrap();
    project.ledger.instances[position].order_item_id = None;

    let display_order =
        project.order(cart).for_display(None, &viewer, &project.ledger, &project.catalog, NOW);
    assert_eq!(1, status_count(&display_order.items, CartItemStatus::TicketNotReserved));

    // Order item with past reserved until date
    project.update(cart, user, &[(ticket_type3, 1, None)], false, false).unwrap();
    let items = project.order(cart).items();
    let order_item = ticket_item(&items, ticket_type3);
    let one_minute_ago = NOW - 60;
    for instance in project.ledger.instances.iter_mut() {
        if instance.order_item_id == Some(order_item.id) {
            instance.reserved_until = Some(one_minute_ago);
        }
    }

    let display_order =
        project.order(cart).for_display(None, &viewer, &project.ledger, &project.catalog, NOW);
    assert_eq!(2, status_count(&display_order.items, CartItemStatus::TicketNotReserved));

    // Order item with nullified ticket status
    project.update(cart, user, &[(ticket_type4, 2, None)], false, false).unwrap();
    let items = project.order(cart).items();
    let order_item = ticket_item(&items, ticket_type4);
    let position = project
        .ledger
        .instances
        .iter()
        .position(|t| t.order_item_id == Some(order_item.id))
        .unwrap();
    project.ledger.instances[position].status = TicketInstanceStatus::Nullified;

    // Code with end date in the past
    let redemption_code = project.catalog.codes[code].redemption_code.clone();
    project.update(cart, user, &[(ticket_type5, 1, Some(redemption_code))], false, false).unwrap();
    project.catalog.codes[code].end_date = Some(one_minute_ago);

    // Hold with end at date in the past
    let redemption_code = project.catalog.holds[hold].redemption_code.clone();
    project.update(cart, user, &[(ticket_type5, 1, Some(redemption_code))], false, false).unwrap();
    project.catalog.holds[hold].end_at = Some(one_minute_ago);

    let display_order =
        project.order(cart).for_display(None, &viewer, &project.ledger, &project.catalog, NOW);

    // Check against expected counts for status based on above
    assert_eq!(1, status_count(&display_order.items, CartItemStatus::Valid));
    assert_eq!(2, status_count(&display_order.items, CartItemStatus::TicketNotReserved));
    assert_eq!(1, status_count(&display_order.items, CartItemStatus::TicketNullified));
    assert_eq!(1, status_count(&display_order.items, CartItemStatus::CodeExpired));
    assert_eq!(1, status_count(&display_order.items, CartItemStatus::HoldExpired));

    // Unpaid order includes valid_for_purchase
    assert_eq!(Some(false), display_order.valid_for_purchase);

    // Clear invalid items
    project.book.clear_invalid_items(cart, user, &mut project.ledger, &project.catalog, NOW).unwrap();

    let display_order =
        project.order(cart).for_display(None, &viewer, &project.ledger, &project.catalog, NOW);
    assert_eq!(1, status_count(&display_order.items, CartItemStatus::Valid));
    assert_eq!(0, status_count(&display_order.items, CartItemStatus::TicketNotReserved));
    assert_eq!(0, status_count(&display_order.items, CartItemStatus::TicketNullified));
    assert_eq!(0, status_count(&display_order.items, CartItemStatus::CodeExpired));
    assert_eq!(0, status_count(&display_order.items, CartItemStatus::HoldExpired));
    assert_eq!(Some(true), display_order.valid_for_purchase);

    // Pay off cart
    let total = project.order(cart).calculate_total();
    project.pay(cart, "Test", user, total as u64).unwrap();

    // Paid order does not include valid_for_purchase
    let display_order =
        project.order(cart).for_display(None, &viewer, &project.ledger, &project.catalog, NOW);
    assert_eq!(None, display_order.valid_for_purchase);
}

#[test]
fn for_display_with_organization_id_and_event_id_filters() {
    let mut project = TestProject::new();

    // Events with different organizations
    let organization = project.create_organization(false, false);
    let organization2 = project.create_organization(false, false);
    let (event, ticket_types) = project.create_event(Some(organization), 1);
    let (event2, ticket_types2) = project.create_event(Some(organization2), 1);
    let ticket_type = ticket_types[0];
    let ticket_type2 = ticket_types2[0];

    let user = project.create_user();
    let user2 = project.create_user();
    let member = no_scopes(user2);

    let cart = project.cart(user);
    project
        .update(cart, user, &[(ticket_type, 1, None), (ticket_type2, 1, None)], false, false)
        .unwrap();

    // No filtering
    let display_order =
        project.order(cart).for_display(None, &member, &project.ledger, &project.catalog, NOW);
    assert!(!display_order.order_contains_other_tickets);
    assert_eq!(display_order.items.len(), 4); // 2 tickets, 2 fees

    // With filtering
    let display_order = project.order(cart).for_display(
        Some(&vec![organization]),
        &member,
        &project.ledger,
        &project.catalog,
        NOW,
    );
    assert!(display_order.order_contains_other_tickets);
    assert_eq!(display_order.items.len(), 2); // 1 ticket, 1 fee
    let order_item: &DisplayOrderItem =
        display_order.items.iter().find(|i| i.parent_id.is_none()).unwrap();
    assert_eq!(order_item.ticket_type_id, Some(ticket_type));

    // With filtering, entire list
    let both = vec![organization, organization2];
    let display_order = project.order(cart).for_display(
        Some(&both),
        &member,
        &project.ledger,
        &project.catalog,
        NOW,
    );
    assert!(!display_order.order_contains_other_tickets);
    assert_eq!(display_order.items.len(), 4); // 2 tickets, 2 fees

    // Filtered by event_id
    let promoter = Viewer {
        user_id: user2,
        scopes: vec![
            EventScope { organization_id: organization, event_ids: vec![event] },
            EventScope { organization_id: organization2, event_ids: vec![] },
        ],
    };
    let display_order = project.order(cart).for_display(
        Some(&both),
        &promoter,
        &project.ledger,
        &project.catalog,
        NOW,
    );
    assert!(display_order.order_contains_other_tickets);
    assert_eq!(display_order.items.len(), 2); // 1 tickets, 1 fees

    let promoter = Viewer {
        user_id: user2,
        scopes: vec![
            EventScope { organization_id: organization, event_ids: vec![] },
            EventScope { organization_id: organization2, event_ids: vec![event2] },
        ],
    };
    let display_order = project.order(cart).for_display(
        Some(&both),
        &promoter,
        &project.ledger,
        &project.catalog,
        NOW,
    );
    assert!(display_order.order_contains_other_tickets);
    assert_eq!(display_order.items.len(), 2); // 1 tickets, 1 fees

    let promoter = Viewer {
        user_id: user2,
        scopes: vec![
            EventScope { organization_id: organization, event_ids: vec![event] },
            EventScope { organization_id: organization2, event_ids: vec![event2] },
        ],
    };
    let display_order = project.order(cart).for_display(
        Some(&both),
        &promoter,
        &project.ledger,
        &project.catalog,
        NOW,
    );
    assert!(!display_order.order_contains_other_tickets);
    assert_eq!(display_order.items.len(), 4); // 2 tickets, 2 fees
}

#[test]
fn adding_event_fees() {
    let mut project = TestProject::new();
    let organization = project.create_organization(true, true);
    let (_, ticket_types1) = project.create_event(Some(organization), 1);
    let (_, ticket_types2) = project.create_event(Some(organization), 1);
    let (_, ticket_types3) = project.create_event(Some(organization), 1);
    let organization2 = project.create_organization(true, true);
    let (_, ticket_types4) = project.create_event(Some(organization2), 1);
    let user = project.create_user();
    let cart = project.cart(user);
    project.update(cart, user, &[(ticket_types1[0], 10, None)], false, false).unwrap();
    assert_eq!(event_fee_count(&project.order(cart).items()), 1);

    // Add some more of the same event and some of a second event
    project.update(cart, user, &[(ticket_types1[0], 15, None)], false, false).unwrap();
    project.update(cart, user, &[(ticket_types2[0], 5, None)], false, false).unwrap();
    assert_eq!(event_fee_count(&project.order(cart).items()), 2);

    // Add tickets of a third event of the organization
    project.update(cart, user, &[(ticket_types3[0], 5, None)], false, false).unwrap();
    assert_eq!(event_fee_count(&project.order(cart).items()), 3);

    // Add tickets of an event of another organization with an event fee
    project.update(cart, user, &[(ticket_types4[0], 5, None)], false, false).unwrap();
    assert_eq!(event_fee_count(&project.order(cart).items()), 4);
}

#[test]
pub fn orders_update() {
    let mut project = TestProject::new();
    let user = project.create_user();
    let owner = project.create_user();
    let order = project.create_order(owner);

    let attrs = UpdateOrderAttributes {
        note: Some(Some("Client will pick up at 18h00".to_string())),
    };

    let domain_event_count = event_count(project.order(order), DomainEventTypes::OrderUpdated);

    project.book.orders[order].update(attrs, user);
    let updated = project.order(order);
    assert_eq!(updated.note, Some("Client will pick up at 18h00".to_string()));
    let new_domain_event_count = event_count(updated, DomainEventTypes::OrderUpdated);

    // 1 order update event should be recorded from the update call
    assert_eq!(domain_event_count + 1, new_domain_event_count);
}
