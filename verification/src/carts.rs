//! Carts of ticket allocations: the status of a cart, and what adding to a
//! cart does to its items.

use crate::json::{from_json_text, json_string_text, json_string_value, to_json_text};
use vstd::prelude::*;

verus! {

/// Whether a cart is still open or was checked out.
#[derive(Clone, Copy, Debug, PartialEq, Eq, Structural)]
pub enum CartStatus {
    Open,
    Completed,
}

impl CartStatus {
    /// The name of the status, in kebab case.
    pub open spec fn spec_name(self) -> Seq<char> {
        match self {
            CartStatus::Open => "open"@,
            CartStatus::Completed => "completed"@,
        }
    }

    /// The status that a name stands for.
    pub open spec fn spec_from_name(name: Seq<char>) -> Option<CartStatus> {
        if name == "open"@ {
            Some(CartStatus::Open)
        } else if name == "completed"@ {
            Some(CartStatus::Completed)
        } else {
            None
        }
    }

    /// The status that a text stands for: the text is read as a JSON
    /// string, and that string as a name.
    pub open spec fn spec_parse(s: Seq<char>) -> Option<CartStatus> {
        match json_string_value(s) {
            Some(name) => Self::spec_from_name(name),
            None => None,
        }
    }

    /// The name of the status.
    pub fn name(&self) -> (r: &'static str)
        ensures
            r@ == self.spec_name(),
    {
        match self {
            CartStatus::Open => "open",
            CartStatus::Completed => "completed",
        }
    }

    /// The status that a name stands for.
    pub fn from_name(name: &str) -> (r: Option<CartStatus>)
        ensures
            r == Self::spec_from_name(name@),
    {
        let name = name.to_owned();
        if name == CartStatus::Open.name().to_owned() {
            Some(CartStatus::Open)
        } else if name == CartStatus::Completed.name().to_owned() {
            Some(CartStatus::Completed)
        } else {
            None
        }
    }

    /// The status as it is written down: its name as a JSON string. What is
    /// written is read back as the same status.
    pub fn to_string(&self) -> (r: String)
        ensures
            r@ == json_string_text(self.spec_name()),
            Self::spec_parse(r@) == Some(*self),
    {
        proof {
            reveal_strlit("open");
            reveal_strlit("completed");
            assert("open"@.len() == 4);
            assert("completed"@.len() == 9);
        }
        to_json_text(self.name())
    }

    /// Reads a status from the text that stands for it.
    pub fn parse(s: &str) -> (r: Result<CartStatus, &'static str>)
        ensures
            match r {
                Ok(status) => Self::spec_parse(s@) == Some(status),
                Err(e) => Self::spec_parse(s@) is None && e@ == "Could not parse cart status"@,
            },
    {
        match from_json_text(s) {
            Some(name) => match CartStatus::from_name(name.as_str()) {
                Some(status) => Ok(status),
                None => Err("Could not parse cart status"),
            },
            None => Err("Could not parse cart status"),
        }
    }
}

/// A cart as it is stored.
#[derive(Debug)]
pub struct Cart {
    pub id: u128,
    pub user_id: u128,
    pub order_id: Option<u128>,
    pub status: String,
    pub created_at: i64,
}

/// A cart that is yet to be stored.
#[derive(Debug)]
pub struct NewCart {
    pub user_id: u128,
    pub status: String,
}

/// An item of a cart as it is stored: so many tickets of an allocation.
#[derive(Clone, Copy, Debug, PartialEq, Eq)]
pub struct CartItem {
    pub id: u128,
    pub cart_id: u128,
    pub created_at: i64,
    pub ticket_allocation_id: u128,
    pub quantity: i64,
}

/// An item that is yet to be stored.
#[derive(Clone, Copy, Debug, PartialEq, Eq)]
pub struct NewCartItem {
    pub cart_id: u128,
    pub ticket_allocation_id: u128,
    pub quantity: i64,
}

/// An item of a cart as it is shown.
#[derive(Clone, Copy, Debug, PartialEq, Eq)]
pub struct DisplayCartItem {
    pub ticket_allocation_id: u128,
    pub quantity: u32,
}

/// What adding to a cart calls for.
#[derive(Clone, Copy, Debug, PartialEq, Eq)]
pub enum CartItemChange {
    /// Nothing is to be done.
    Nothing,
    /// The item is to be stored.
    Create(NewCartItem),
    /// The stored item takes the quantity given here.
    Update(CartItem),
    /// The stored item is to be deleted.
    Delete(CartItem),
}

/// What adding `quantity` tickets of an allocation calls for, given the
/// item that the cart holds for the allocation, if any.
///
/// Without an item, nothing is done for a quantity that is not positive;
/// else an item is created, with the quantity taken as 32 unsigned bits.
/// With an item, the quantity is added to it; the item is deleted if
/// nothing is left, else updated.
pub open spec fn spec_add_item(
    cart_id: u128,
    existing: Option<CartItem>,
    ticket_allocation_id: u128,
    quantity: i64,
) -> CartItemChange {
    match existing {
        None => if quantity <= 0 {
            CartItemChange::Nothing
        } else {
            CartItemChange::Create(
                NewCartItem { cart_id, ticket_allocation_id, quantity: (quantity as u32) as i64 },
            )
        },
        Some(item) => if item.quantity + quantity <= 0 {
            CartItemChange::Delete(
                CartItem { quantity: (item.quantity + quantity) as i64, ..item },
            )
        } else {
            CartItemChange::Update(
                CartItem { quantity: (item.quantity + quantity) as i64, ..item },
            )
        },
    }
}

/// The item as it is shown: the quantity is taken as 32 unsigned bits.
pub open spec fn spec_display_item(item: CartItem) -> DisplayCartItem {
    DisplayCartItem {
        ticket_allocation_id: item.ticket_allocation_id,
        quantity: item.quantity as u32,
    }
}

impl From<CartItem> for DisplayCartItem {
    fn from(item: CartItem) -> (r: DisplayCartItem) {
        DisplayCartItem {
            ticket_allocation_id: item.ticket_allocation_id,
            quantity: #[verifier::truncate]
            (item.quantity as u32),
        }
    }
}

impl vstd::std_specs::convert::FromSpecImpl<CartItem> for DisplayCartItem {
    open spec fn obeys_from_spec() -> bool {
        true
    }

    open spec fn from_spec(item: CartItem) -> DisplayCartItem {
        spec_display_item(item)
    }
}

impl CartItem {
    /// A new item of the cart.
    pub fn create(cart_id: u128, ticket_allocation_id: u128, quantity: u32) -> (r: NewCartItem)
        ensures
            r == (NewCartItem { cart_id, ticket_allocation_id, quantity: quantity as i64 }),
    {
        NewCartItem { cart_id, ticket_allocation_id, quantity: quantity as i64 }
    }
}

impl NewCartItem {
    /// The item as stored under the given id at the given time.
    pub fn stored(self, id: u128, created_at: i64) -> (r: CartItem)
        ensures
            r == (CartItem {
                id,
                cart_id: self.cart_id,
                created_at,
                ticket_allocation_id: self.ticket_allocation_id,
                quantity: self.quantity,
            }),
    {
        CartItem {
            id,
            cart_id: self.cart_id,
            created_at,
            ticket_allocation_id: self.ticket_allocation_id,
            quantity: self.quantity,
        }
    }
}

impl NewCart {
    /// The cart as stored under the given id at the given time.
    pub fn stored(self, id: u128, created_at: i64) -> (r: Cart)
        ensures
            r.id == id,
            r.user_id == self.user_id,
            r.order_id is None,
            r.status == self.status,
            r.created_at == created_at,
    {
        Cart { id, user_id: self.user_id, order_id: None, status: self.status, created_at }
    }
}

impl Cart {
    /// The status of the cart can be read.
    pub open spec fn wf(&self) -> bool {
        CartStatus::spec_parse(self.status@) is Some
    }

    /// A new, open cart of the user.
    pub fn create(user_id: u128) -> (r: NewCart)
        ensures
            r.user_id == user_id,
            r.status@ == json_string_text(CartStatus::Open.spec_name()),
            CartStatus::spec_parse(r.status@) == Some(CartStatus::Open),
    {
        NewCart { user_id, status: CartStatus::Open.to_string() }
    }

    /// The status of the cart.
    pub fn status(&self) -> (r: CartStatus)
        requires
            self.wf(),
        ensures
            Some(r) == CartStatus::spec_parse(self.status@),
    {
        match CartStatus::parse(self.status.as_str()) {
            Ok(status) => status,
            Err(_) => CartStatus::Open,
        }
    }

    /// The status of the cart, if it can be read.
    pub fn try_status(&self) -> (r: Option<CartStatus>)
        ensures
            r == CartStatus::spec_parse(self.status@),
    {
        match CartStatus::parse(self.status.as_str()) {
            Ok(_) => Some(self.status()),
            Err(_) => None,
        }
    }

    /// What adding `quantity` tickets of an allocation to the cart calls
    /// for, given the item that the cart holds for the allocation, if any.
    pub fn add_item(&self, existing: Option<CartItem>, ticket_allocation_id: u128, quantity: i64)
        -> (r: CartItemChange)
        requires
            existing matches Some(item) ==> i64::MIN <= item.quantity + quantity <= i64::MAX,
        ensures
            r == spec_add_item(self.id, existing, ticket_allocation_id, quantity),
    {
        match existing {
            None => {
                if quantity <= 0 {
                    CartItemChange::Nothing
                } else {
                    CartItemChange::Create(
                        CartItem::create(
                            self.id,
                            ticket_allocation_id,
                            #[verifier::truncate]
                            (quantity as u32),
                        ),
                    )
                }
            },
            Some(item) => {
                let mut item = item;
                item.quantity = item.quantity + quantity;
                if item.quantity <= 0 {
                    CartItemChange::Delete(item)
                } else {
                    CartItemChange::Update(item)
                }
            },
        }
    }

    /// The items of a cart as they are shown, in the order given.
    pub fn items(items: Vec<CartItem>) -> (r: Vec<DisplayCartItem>)
        ensures
            r@.len() == items@.len(),
            forall|i: int| 0 <= i < items@.len() ==> r@[i] == spec_display_item(items@[i]),
    {
        let mut out: Vec<DisplayCartItem> = Vec::new();
        let mut i: usize = 0;
        while i < items.len()
            invariant
                0 <= i <= items.len(),
                out@.len() == i,
                forall|j: int| 0 <= j < i ==> out@[j] == spec_display_item(items@[j]),
            decreases items.len() - i,
        {
            out.push(DisplayCartItem::from(items[i]));
            i += 1;
        }
        out
    }

    /// Checks the cart out into the order with the given id: the cart is
    /// completed and points to the order.
    pub fn checkout_and_create_order(&mut self, order_id: u128)
        ensures
            final(self).wf(),
            final(self).order_id == Some(order_id),
            final(self).status@ == json_string_text(CartStatus::Completed.spec_name()),
            CartStatus::spec_parse(final(self).status@) == Some(CartStatus::Completed),
            final(self).id == old(self).id,
            final(self).user_id == old(self).user_id,
            final(self).created_at == old(self).created_at,
    {
        self.order_id = Some(order_id);
        self.status = CartStatus::Completed.to_string();
    }
}

} // verus!
