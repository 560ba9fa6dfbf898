//! Whether the lines of an order can still be purchased: every ticket has a
//! live reservation, and every code or hold applied is within its window.

use crate::catalog::{code_with_id, hold_with_id, Catalog};
use crate::codes::{in_window, within_window};
use crate::enums::{OrderStatus, TicketInstanceStatus};
use crate::errors::ValidationError;
use crate::inventory::{linked, InventoryLedger, TicketInstance};
use crate::orders::{Order, TicketLine};
use crate::search::{first_match, is_first_match, lemma_first_match_is, lemma_first_match_none};
use vstd::prelude::*;

verus! {

/// How a line of an order stands.
#[derive(Clone, Copy, Debug, PartialEq, Eq, Structural)]
pub enum CartItemStatus {
    Valid,
    TicketNotReserved,
    TicketNullified,
    CodeExpired,
    HoldExpired,
    Refunded,
}

/// The instance is not nullified, and its reservation lies in the future
/// unless the order is paid.
pub open spec fn instance_live(t: TicketInstance, now: i64, paid: bool) -> bool {
    &&& t.status != TicketInstanceStatus::Nullified
    &&& (paid || (t.reserved_until is Some && t.reserved_until->0 > now))
}

/// How many of the first `upto` instances are linked to the line and live.
pub open spec fn live_count(
    s: Seq<TicketInstance>,
    order_item_id: u128,
    now: i64,
    paid: bool,
    upto: int,
) -> nat
    decreases upto,
{
    if upto <= 0 {
        0
    } else {
        live_count(s, order_item_id, now, paid, upto - 1) + if linked(s[upto - 1], order_item_id)
            && instance_live(s[upto - 1], now, paid) {
            1nat
        } else {
            0nat
        }
    }
}

/// How many of the first `upto` instances are linked to the line and
/// nullified.
pub open spec fn nullified_count(s: Seq<TicketInstance>, order_item_id: u128, upto: int) -> nat
    decreases upto,
{
    if upto <= 0 {
        0
    } else {
        nullified_count(s, order_item_id, upto - 1) + if linked(s[upto - 1], order_item_id)
            && s[upto - 1].status == TicketInstanceStatus::Nullified {
            1nat
        } else {
            0nat
        }
    }
}

/// The code applied, if any, is in the catalog and within its window.
pub open spec fn code_current(catalog: Catalog, code_id: Option<u128>, now: i64) -> bool {
    match code_id {
        None => true,
        Some(id) => match first_match(catalog.codes@, code_with_id(id)) {
            None => false,
            Some(i) => within_window(
                catalog.codes@[i].start_date,
                catalog.codes@[i].end_date,
                now,
            ),
        },
    }
}

/// The hold applied, if any, is in the catalog and not past its end.
pub open spec fn hold_current(catalog: Catalog, hold_id: Option<u128>, now: i64) -> bool {
    match hold_id {
        None => true,
        Some(id) => match first_match(catalog.holds@, hold_with_id(id)) {
            None => false,
            Some(i) => within_window(None, catalog.holds@[i].end_at, now),
        },
    }
}

/// How a line stands. A line refunded in full is `Refunded`. Else the code
/// is judged first, then the hold, then nullified tickets, then whether
/// every ticket not refunded has a live reservation.
pub open spec fn spec_line_status(
    l: TicketLine,
    instances: Seq<TicketInstance>,
    catalog: Catalog,
    now: i64,
    paid: bool,
) -> CartItemStatus {
    if l.refunded_quantity >= l.quantity {
        CartItemStatus::Refunded
    } else if !code_current(catalog, l.code_id, now) {
        CartItemStatus::CodeExpired
    } else if !hold_current(catalog, l.hold_id, now) {
        CartItemStatus::HoldExpired
    } else if nullified_count(instances, l.id, instances.len() as int) > 0 {
        CartItemStatus::TicketNullified
    } else if live_count(instances, l.id, now, paid, instances.len() as int) < l.quantity
        - l.refunded_quantity {
        CartItemStatus::TicketNotReserved
    } else {
        CartItemStatus::Valid
    }
}

/// The lines that do not stand as valid, as a predicate.
pub open spec fn invalid_lines(
    instances: Seq<TicketInstance>,
    catalog: Catalog,
    now: i64,
    paid: bool,
) -> spec_fn(TicketLine) -> bool {
    |l: TicketLine| spec_line_status(l, instances, catalog, now, paid) != CartItemStatus::Valid
}

/// Every line stands as valid.
pub open spec fn spec_items_valid(
    lines: Seq<TicketLine>,
    instances: Seq<TicketInstance>,
    catalog: Catalog,
    now: i64,
    paid: bool,
) -> bool {
    forall|i: int|
        0 <= i < lines.len() ==> spec_line_status(#[trigger] lines[i], instances, catalog, now, paid)
            == CartItemStatus::Valid
}

/// The validation failure that a status other than `Valid` stands for.
pub open spec fn spec_status_error(status: CartItemStatus) -> ValidationError {
    match status {
        CartItemStatus::CodeExpired => ValidationError::CodeNotValidForCurrentDatetime,
        CartItemStatus::HoldExpired => ValidationError::HoldNotValidForCurrentDatetime,
        CartItemStatus::TicketNullified => ValidationError::TicketNullified,
        _ => ValidationError::TicketNotReserved,
    }
}

/// The validation failure that a status other than `Valid` stands for.
pub fn status_error(status: CartItemStatus) -> (e: ValidationError)
    ensures
        e == spec_status_error(status),
{
    match status {
        CartItemStatus::CodeExpired => ValidationError::CodeNotValidForCurrentDatetime,
        CartItemStatus::HoldExpired => ValidationError::HoldNotValidForCurrentDatetime,
        CartItemStatus::TicketNullified => ValidationError::TicketNullified,
        _ => ValidationError::TicketNotReserved,
    }
}

/// How a line stands at `now`.
pub fn line_status(
    l: TicketLine,
    ledger: &InventoryLedger,
    catalog: &Catalog,
    now: i64,
    paid: bool,
) -> (r: CartItemStatus)
    ensures
        r == spec_line_status(l, ledger.instances@, *catalog, now, paid),
{
    if l.refunded_quantity >= l.quantity {
        return CartItemStatus::Refunded;
    }
    let code_ok = match l.code_id {
        None => true,
        Some(id) => match catalog.find_code(id) {
            None => false,
            Some(i) => in_window(catalog.codes[i].start_date, catalog.codes[i].end_date, now),
        },
    };
    if !code_ok {
        return CartItemStatus::CodeExpired;
    }
    let hold_ok = match l.hold_id {
        None => true,
        Some(id) => match catalog.find_hold(id) {
            None => false,
            Some(i) => in_window(None, catalog.holds[i].end_at, now),
        },
    };
    if !hold_ok {
        return CartItemStatus::HoldExpired;
    }
    let mut live: usize = 0;
    let mut nullified: usize = 0;
    let mut i: usize = 0;
    while i < ledger.instances.len()
        invariant
            0 <= i <= ledger.instances.len(),
            live == live_count(ledger.instances@, l.id, now, paid, i as int),
            nullified == nullified_count(ledger.instances@, l.id, i as int),
            live <= i,
            nullified <= i,
        decreases ledger.instances.len() - i,
    {
        let t = ledger.instances[i];
        let mine = match t.order_item_id {
            Some(owner) => owner == l.id,
            None => false,
        };
        if mine {
            let is_nullified = match t.status {
                TicketInstanceStatus::Nullified => true,
                _ => false,
            };
            if is_nullified {
                nullified += 1;
            } else {
                let held = paid || match t.reserved_until {
                    Some(until) => until > now,
                    None => false,
                };
                if held {
                    live += 1;
                }
            }
        }
        i += 1;
    }
    if nullified > 0 {
        CartItemStatus::TicketNullified
    } else if live < (l.quantity - l.refunded_quantity) as usize {
        CartItemStatus::TicketNotReserved
    } else {
        CartItemStatus::Valid
    }
}

/// The first line that does not stand as valid, with its status.
pub fn first_invalid_line(
    lines: &Vec<TicketLine>,
    ledger: &InventoryLedger,
    catalog: &Catalog,
    now: i64,
    paid: bool,
) -> (r: Option<(usize, CartItemStatus)>)
    ensures
        match r {
            Some((i, status)) => first_match(
                lines@,
                invalid_lines(ledger.instances@, *catalog, now, paid),
            ) == Some(i as int) && i < lines@.len() && status == spec_line_status(
                lines@[i as int],
                ledger.instances@,
                *catalog,
                now,
                paid,
            ) && status != CartItemStatus::Valid,
            None => first_match(lines@, invalid_lines(ledger.instances@, *catalog, now, paid))
                is None,
        },
        r is None <==> spec_items_valid(lines@, ledger.instances@, *catalog, now, paid),
{
    let ghost p = invalid_lines(ledger.instances@, *catalog, now, paid);
    let mut i: usize = 0;
    while i < lines.len()
        invariant
            0 <= i <= lines.len(),
            p == invalid_lines(ledger.instances@, *catalog, now, paid),
            forall|j: int| 0 <= j < i ==> !p(#[trigger] lines@[j]),
        decreases lines.len() - i,
    {
        let status = line_status(lines[i], ledger, catalog, now, paid);
        let valid = match status {
            CartItemStatus::Valid => true,
            _ => false,
        };
        if !valid {
            proof {
                assert(p(lines@[i as int]));
                assert(is_first_match(lines@, p, i as int));
                lemma_first_match_is(lines@, p, i as int);
            }
            return Some((i, status));
        }
        i += 1;
    }
    proof {
        lemma_first_match_none(lines@, p);
        assert forall|j: int| 0 <= j < lines@.len() implies spec_line_status(
            #[trigger] lines@[j],
            ledger.instances@,
            *catalog,
            now,
            paid,
        ) == CartItemStatus::Valid by {
            assert(!p(lines@[j]));
        }
    }
    None
}

impl Order {
    /// Whether the order counts as paid.
    pub open spec fn spec_is_paid(&self) -> bool {
        self.status == OrderStatus::Paid
    }

    /// Whether the order counts as paid.
    pub fn is_paid(&self) -> (r: bool)
        ensures
            r == self.spec_is_paid(),
    {
        match self.status {
            OrderStatus::Paid => true,
            _ => false,
        }
    }

    /// Whether every line can be purchased at `now`: each ticket not
    /// refunded is linked, not nullified and (unless the order is paid)
    /// reserved into the future, and each code or hold applied is within its
    /// window.
    pub fn items_valid_for_purchase(&self, ledger: &InventoryLedger, catalog: &Catalog, now: i64)
        -> (r: bool)
        ensures
            r == spec_items_valid(
                self.lines@,
                ledger.instances@,
                *catalog,
                now,
                self.spec_is_paid(),
            ),
    {
        let paid = self.is_paid();
        first_invalid_line(&self.lines, ledger, catalog, now, paid).is_none()
    }
}

} // verus!
