use bigneon::carts::{Cart, CartItem, CartItemChange, CartStatus, DisplayCartItem, NewCartItem};

fn stored(change: CartItemChange, id: u128) -> CartItem {
    match change {
        CartItemChange::Create(new_item) => new_item.stored(id, 1_500_000_000),
        _ => panic!("Expected a new item"),
    }
}

#[test]
fn add_to_cart() {
    let user_id = 7;
    let ticket_allocation_id = 9;
    let cart = Cart::create(user_id).stored(1, 1_500_000_000);

    let item = stored(cart.add_item(None, ticket_allocation_id, 10), 2);
    assert_eq!(item.cart_id, cart.id);
    assert_eq!(item.quantity, 10);

    assert_eq!(cart.user_id, user_id);
    assert_eq!(
        Cart::items(vec![item]),
        vec![DisplayCartItem { ticket_allocation_id, quantity: 10 }]
    );
}

#[test]
fn checkout() {
    let user_id = 7;
    let mut cart = Cart::create(user_id).stored(1, 1_500_000_000);
    let item = stored(cart.add_item(None, 9, 1), 2);
    assert_eq!(item.quantity, 1);
    assert_eq!(cart.status(), CartStatus::Open);
    let order_id = 33;
    cart.checkout_and_create_order(order_id);
    assert_eq!(cart.user_id, user_id);
    assert_eq!(cart.status(), CartStatus::Completed);
    assert_eq!(cart.order_id, Some(order_id));
}

#[test]
fn adding_to_an_item_updates_or_deletes_it() {
    let cart = Cart::create(7).stored(1, 0);
    let item = stored(cart.add_item(None, 9, 10), 2);
    assert_eq!(
        cart.add_item(Some(item), 9, 5),
        CartItemChange::Update(CartItem { quantity: 15, ..item })
    );
    assert_eq!(
        cart.add_item(Some(item), 9, -4),
        CartItemChange::Update(CartItem { quantity: 6, ..item })
    );
    assert_eq!(
        cart.add_item(Some(item), 9, -10),
        CartItemChange::Delete(CartItem { quantity: 0, ..item })
    );
    assert_eq!(
        cart.add_item(Some(item), 9, -11),
        CartItemChange::Delete(CartItem { quantity: -1, ..item })
    );
}

#[test]
fn adding_nothing_to_no_item_does_nothing() {
    let cart = Cart::create(7).stored(1, 0);
    assert_eq!(cart.add_item(None, 9, 0), CartItemChange::Nothing);
    assert_eq!(cart.add_item(None, 9, -3), CartItemChange::Nothing);
}

#[test]
fn new_item_quantity_is_taken_as_32_bits() {
    let cart = Cart::create(7).stored(1, 0);
    assert_eq!(
        cart.add_item(None, 9, 0x1_0000_0005),
        CartItemChange::Create(NewCartItem { cart_id: 1, ticket_allocation_id: 9, quantity: 5 })
    );
    let item = CartItem {
        id: 2,
        cart_id: 1,
        created_at: 0,
        ticket_allocation_id: 9,
        quantity: 0x1_0000_0005,
    };
    assert_eq!(DisplayCartItem::from(item), DisplayCartItem { ticket_allocation_id: 9, quantity: 5 });
}

#[test]
fn cart_status_is_written_as_json_string() {
    assert_eq!(CartStatus::Open.to_string(), "\"open\"");
    assert_eq!(CartStatus::Completed.to_string(), "\"completed\"");
    assert_eq!(Cart::create(7).status, "\"open\"");
}

#[test]
fn cart_status_is_read_from_json_string() {
    assert_eq!(CartStatus::parse("\"open\""), Ok(CartStatus::Open));
    assert_eq!(CartStatus::parse("\"completed\""), Ok(CartStatus::Completed));
    assert_eq!(CartStatus::parse("  \"completed\" "), Ok(CartStatus::Completed));
    assert_eq!(CartStatus::parse("\"\\u006fpen\""), Ok(CartStatus::Open));
    assert_eq!(CartStatus::parse("open"), Err("Could not parse cart status"));
    assert_eq!(CartStatus::parse("\"Open\""), Err("Could not parse cart status"));
    assert_eq!(CartStatus::parse("\"closed\""), Err("Could not parse cart status"));
    assert_eq!(CartStatus::parse(""), Err("Could not parse cart status"));
}

#[test]
fn cart_status_names() {
    assert_eq!(CartStatus::from_name("open"), Some(CartStatus::Open));
    assert_eq!(CartStatus::from_name("completed"), Some(CartStatus::Completed));
    assert_eq!(CartStatus::from_name("Completed"), None);
    assert_eq!(CartStatus::from_name(""), None);
}

#[test]
fn unreadable_cart_status_is_no_status() {
    let mut cart = Cart::create(7).stored(1, 0);
    assert_eq!(cart.try_status(), Some(CartStatus::Open));
    cart.status = "open".to_string();
    assert_eq!(cart.try_status(), None);
}
