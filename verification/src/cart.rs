//! Changing the quantities of a cart: every requested line is resolved
//! against the catalog, reconciled with the line the order already holds for
//! the same (ticket type, code or hold) pair, and the ledger follows. Either
//! every line reconciles or nothing changes.

use crate::catalog::{
    spec_event_fee_for, spec_resolve_line, spec_text, Catalog, ResolvedLine, UpdateOrderItem,
};
use crate::enums::OrderStatus;
use crate::errors::{EngineError, ValidationError};
use crate::fees::FeeScheduleRange;
use crate::inventory::{
    claimable_count, same_instances, spec_release, spec_reserve, InventoryLedger, TicketInstance,
};
use crate::orders::{ids_taken_from, EventFeeLine, IdSequence, Order, TicketLine, UnitFee};
use crate::search::{first_match, is_first_match, lemma_first_match_is, lemma_first_match_none};
use crate::vecs::copy_vec;
use vstd::prelude::*;

verus! {

/// The ticket lines of an order with the ledger they reserve from and the
/// next free item id.
pub struct LineState {
    pub lines: Seq<TicketLine>,
    pub instances: Seq<TicketInstance>,
    pub next_id: int,
}

/// What a successful change of quantities leaves behind.
pub struct UpdatedCart {
    pub lines: Seq<TicketLine>,
    pub event_fees: Seq<EventFeeLine>,
    pub instances: Seq<TicketInstance>,
    pub next_id: int,
}

/// The line and the resolved request are for the same (ticket type, code or
/// hold) pair.
pub open spec fn same_key(l: TicketLine, r: ResolvedLine) -> bool {
    l.ticket_type_id == r.ticket_type_id && l.code_id == r.code_id && l.hold_id == r.hold_id
}

pub open spec fn line_for_request(r: ResolvedLine) -> spec_fn(TicketLine) -> bool {
    |l: TicketLine| same_key(l, r)
}

pub open spec fn request_for_line(l: TicketLine) -> spec_fn(ResolvedLine) -> bool {
    |r: ResolvedLine| same_key(l, r)
}

pub open spec fn line_of_event(event_id: u128) -> spec_fn(TicketLine) -> bool {
    |l: TicketLine| l.event_id == event_id
}

pub open spec fn fee_of_event(event_id: u128) -> spec_fn(EventFeeLine) -> bool {
    |f: EventFeeLine| f.event_id == event_id
}

/// Some request is for the pair of the line.
pub open spec fn is_requested(rs: Seq<ResolvedLine>, l: TicketLine) -> bool {
    first_match(rs, request_for_line(l)) is Some
}

pub open spec fn unit_fee(range: Option<FeeScheduleRange>) -> Option<UnitFee> {
    match range {
        Some(r) => Some(UnitFee { fee_schedule_range_id: r.id, fee_in_cents: r.fee_in_cents }),
        None => None,
    }
}

/// The line with the given id that a resolved request calls for.
pub open spec fn line_from(id: u128, refunded_quantity: u32, r: ResolvedLine) -> TicketLine {
    TicketLine {
        id,
        ticket_type_id: r.ticket_type_id,
        event_id: r.event_id,
        ticket_pricing_id: r.ticket_pricing_id,
        code_id: r.code_id,
        hold_id: r.hold_id,
        quantity: r.quantity,
        unit_price_in_cents: r.unit_price_in_cents,
        refunded_quantity,
        fee: unit_fee(r.fee),
    }
}

/// What holds of a line of a draft order: it holds tickets, none of them
/// refunded, and both of its item ids exist.
pub open spec fn draft_line(l: TicketLine) -> bool {
    l.quantity > 0 && l.refunded_quantity == 0 && l.id < u128::MAX
}

pub open spec fn none_refunded(fees: Seq<EventFeeLine>) -> bool {
    forall|i: int| 0 <= i < fees.len() ==> !(#[trigger] fees[i]).refunded
}

pub open spec fn draft_lines(lines: Seq<TicketLine>) -> bool {
    forall|i: int| 0 <= i < lines.len() ==> draft_line(#[trigger] lines[i])
}

/// The requests resolved in order; the first that fails is the answer.
pub open spec fn spec_resolve_all(
    catalog: Catalog,
    request: Seq<UpdateOrderItem>,
    box_office: bool,
    now: i64,
    upto: int,
) -> Result<Seq<ResolvedLine>, EngineError>
    decreases upto,
{
    if upto <= 0 {
        Ok(Seq::empty())
    } else {
        match spec_resolve_all(catalog, request, box_office, now, upto - 1) {
            Err(e) => Err(e),
            Ok(resolved) => match spec_resolve_line(
                catalog,
                request[upto - 1].ticket_type_id,
                request[upto - 1].quantity,
                spec_text(request[upto - 1].redemption_code),
                box_office,
                now,
            ) {
                Err(e) => Err(e),
                Ok(r) => Ok(resolved.push(r)),
            },
        }
    }
}

/// The first `upto` lines after a full replacement: a line that no request
/// is for is dropped and the instances linked to it are released. Without
/// replacement every line stays.
pub open spec fn spec_retain(
    lines: Seq<TicketLine>,
    instances: Seq<TicketInstance>,
    rs: Seq<ResolvedLine>,
    replace: bool,
    upto: int,
) -> (Seq<TicketLine>, Seq<TicketInstance>)
    decreases upto,
{
    if upto <= 0 {
        (Seq::empty(), instances)
    } else {
        let (kept, inst) = spec_retain(lines, instances, rs, replace, upto - 1);
        if !replace || is_requested(rs, lines[upto - 1]) {
            (kept.push(lines[upto - 1]), inst)
        } else {
            (kept, spec_release(inst, lines[upto - 1].id, inst.len()))
        }
    }
}

/// One resolved request reconciled with the lines. `None` where the ledger
/// has too few claimable instances.
///
/// Where the order holds a line for the pair: quantity zero removes the line
/// and releases its instances; a higher quantity reserves the difference for
/// the line; a lower one releases the difference. The line takes the newly
/// resolved price, tier and fee. Where the order holds no such line, a
/// quantity above zero adds one under the next free id and reserves for it.
pub open spec fn spec_apply_line(s: LineState, r: ResolvedLine, now: i64, until: i64) -> Option<
    LineState,
> {
    match first_match(s.lines, line_for_request(r)) {
        Some(i) => {
            let current = s.lines[i];
            if r.quantity == 0 {
                Some(
                    LineState {
                        lines: s.lines.remove(i),
                        instances: spec_release(s.instances, current.id, s.instances.len()),
                        next_id: s.next_id,
                    },
                )
            } else if r.quantity >= current.quantity {
                let more = (r.quantity - current.quantity) as nat;
                if claimable_count(s.instances, r.ticket_type_id, now, s.instances.len() as int)
                    < more {
                    None
                } else {
                    Some(
                        LineState {
                            lines: s.lines.update(
                                i,
                                line_from(current.id, current.refunded_quantity, r),
                            ),
                            instances: spec_reserve(
                                s.instances,
                                r.ticket_type_id,
                                more,
                                current.id,
                                until,
                                now,
                            ),
                            next_id: s.next_id,
                        },
                    )
                }
            } else {
                Some(
                    LineState {
                        lines: s.lines.update(
                            i,
                            line_from(current.id, current.refunded_quantity, r),
                        ),
                        instances: spec_release(
                            s.instances,
                            current.id,
                            (current.quantity - r.quantity) as nat,
                        ),
                        next_id: s.next_id,
                    },
                )
            }
        },
        None => {
            if r.quantity == 0 {
                Some(s)
            } else if claimable_count(s.instances, r.ticket_type_id, now, s.instances.len() as int)
                < r.quantity {
                None
            } else {
                Some(
                    LineState {
                        lines: s.lines.push(line_from(s.next_id as u128, 0, r)),
                        instances: spec_reserve(
                            s.instances,
                            r.ticket_type_id,
                            r.quantity as nat,
                            s.next_id as u128,
                            until,
                            now,
                        ),
                        next_id: s.next_id + 2,
                    },
                )
            }
        },
    }
}

/// The first `upto` resolved requests reconciled in order.
pub open spec fn spec_apply_lines(
    s: LineState,
    rs: Seq<ResolvedLine>,
    now: i64,
    until: i64,
    upto: int,
) -> Option<LineState>
    decreases upto,
{
    if upto <= 0 {
        Some(s)
    } else {
        match spec_apply_lines(s, rs, now, until, upto - 1) {
            None => None,
            Some(before) => spec_apply_line(before, rs[upto - 1], now, until),
        }
    }
}

/// Of the first `upto` event fees, those whose event still has a line.
pub open spec fn spec_kept_event_fees(fees: Seq<EventFeeLine>, lines: Seq<TicketLine>, upto: int)
    -> Seq<EventFeeLine>
    decreases upto,
{
    if upto <= 0 {
        Seq::empty()
    } else {
        let kept = spec_kept_event_fees(fees, lines, upto - 1);
        if first_match(lines, line_of_event(fees[upto - 1].event_id)) is Some {
            kept.push(fees[upto - 1])
        } else {
            kept
        }
    }
}

/// The event fees after the events of the first `upto` lines are seen to: an
/// event that has a flat fee and no event fee yet gets one, under the next
/// free id.
pub open spec fn spec_added_event_fees(
    fees: Seq<EventFeeLine>,
    lines: Seq<TicketLine>,
    catalog: Catalog,
    next_id: int,
    upto: int,
) -> (Seq<EventFeeLine>, int)
    decreases upto,
{
    if upto <= 0 {
        (fees, next_id)
    } else {
        let (acc, next) = spec_added_event_fees(fees, lines, catalog, next_id, upto - 1);
        let event_id = lines[upto - 1].event_id;
        match spec_event_fee_for(catalog, event_id) {
            Some(fee) => if first_match(acc, fee_of_event(event_id)) is None {
                (
                    acc.push(
                        EventFeeLine {
                            id: next as u128,
                            event_id,
                            unit_price_in_cents: fee,
                            refunded: false,
                        },
                    ),
                    next + 1,
                )
            } else {
                (acc, next)
            },
            None => (acc, next),
        }
    }
}

/// The event fees that go with the lines: none on a box-office order; else
/// the fees of events that still have a line, and a new fee for each event
/// that has a flat fee and lacks one.
pub open spec fn spec_event_fees(
    fees: Seq<EventFeeLine>,
    lines: Seq<TicketLine>,
    catalog: Catalog,
    box_office: bool,
    next_id: int,
) -> (Seq<EventFeeLine>, int) {
    if box_office {
        (Seq::empty(), next_id)
    } else {
        spec_added_event_fees(
            spec_kept_event_fees(fees, lines, fees.len() as int),
            lines,
            catalog,
            next_id,
            lines.len() as int,
        )
    }
}

/// What a change of quantities does to a cart, or why it fails.
///
/// Only a draft order can change. The requests are resolved first; then,
/// on a full replacement, lines that no request is for are dropped; then the
/// requests are reconciled in order; last the event fees are brought in line.
pub open spec fn spec_update(
    status: OrderStatus,
    lines: Seq<TicketLine>,
    event_fees: Seq<EventFeeLine>,
    instances: Seq<TicketInstance>,
    next_id: int,
    catalog: Catalog,
    request: Seq<UpdateOrderItem>,
    box_office: bool,
    replace: bool,
    now: i64,
    until: i64,
) -> Result<UpdatedCart, EngineError> {
    if status != OrderStatus::Draft {
        Err(EngineError::InvalidStateTransition)
    } else {
        match spec_resolve_all(catalog, request, box_office, now, request.len() as int) {
            Err(e) => Err(e),
            Ok(rs) => {
                let (kept, inst) = spec_retain(lines, instances, rs, replace, lines.len() as int);
                match spec_apply_lines(
                    LineState { lines: kept, instances: inst, next_id },
                    rs,
                    now,
                    until,
                    rs.len() as int,
                ) {
                    None => Err(EngineError::Validation(ValidationError::QuantityNotAvailable)),
                    Some(applied) => {
                        let (fees, next) = spec_event_fees(
                            event_fees,
                            applied.lines,
                            catalog,
                            box_office,
                            applied.next_id,
                        );
                        Ok(
                            UpdatedCart {
                                lines: applied.lines,
                                event_fees: fees,
                                instances: applied.instances,
                                next_id: next,
                            },
                        )
                    },
                }
            },
        }
    }
}

/// Resolves every request, in order.
fn resolve_all(catalog: &Catalog, request: &Vec<UpdateOrderItem>, box_office: bool, now: i64) -> (r:
    Result<Vec<ResolvedLine>, EngineError>)
    requires
        catalog.wf(),
    ensures
        match r {
            Ok(rs) => spec_resolve_all(*catalog, request@, box_office, now, request@.len() as int)
                == Ok::<Seq<ResolvedLine>, EngineError>(rs@) && rs@.len() == request@.len(),
            Err(e) => spec_resolve_all(*catalog, request@, box_office, now, request@.len() as int)
                == Err::<Seq<ResolvedLine>, EngineError>(e),
        },
{
    let mut resolved: Vec<ResolvedLine> = Vec::new();
    let mut i: usize = 0;
    while i < request.len()
        invariant
            0 <= i <= request.len(),
            catalog.wf(),
            resolved@.len() == i,
            spec_resolve_all(*catalog, request@, box_office, now, i as int) == Ok::<
                Seq<ResolvedLine>,
                EngineError,
            >(resolved@),
        decreases request.len() - i,
    {
        match catalog.resolve_line(&request[i], box_office, now) {
            Ok(r) => {
                resolved.push(r);
            },
            Err(e) => {
                proof {
                    lemma_resolve_all_fails(*catalog, request@, box_office, now, i + 1, request@.len() as int);
                }
                return Err(e);
            },
        }
        i += 1;
    }
    Ok(resolved)
}

/// Once a prefix of the requests fails to resolve, every longer one fails
/// in the same way.
pub proof fn lemma_resolve_all_fails(
    catalog: Catalog,
    request: Seq<UpdateOrderItem>,
    box_office: bool,
    now: i64,
    i: int,
    upto: int,
)
    requires
        i <= upto,
        spec_resolve_all(catalog, request, box_office, now, i) is Err,
    ensures
        spec_resolve_all(catalog, request, box_office, now, upto) == spec_resolve_all(
            catalog,
            request,
            box_office,
            now,
            i,
        ),
    decreases upto - i,
{
    if i < upto {
        lemma_resolve_all_fails(catalog, request, box_office, now, i, upto - 1);
    }
}

/// Once a prefix of the requests cannot be reconciled, no longer one can.
pub proof fn lemma_apply_lines_fails(
    s: LineState,
    rs: Seq<ResolvedLine>,
    now: i64,
    until: i64,
    i: int,
    upto: int,
)
    requires
        i <= upto,
        spec_apply_lines(s, rs, now, until, i) is None,
    ensures
        spec_apply_lines(s, rs, now, until, upto) is None,
    decreases upto - i,
{
    if i < upto {
        lemma_apply_lines_fails(s, rs, now, until, i, upto - 1);
    }
}

/// Whether some request is for the pair of the line.
fn requested(rs: &Vec<ResolvedLine>, l: TicketLine) -> (r: bool)
    ensures
        r == is_requested(rs@, l),
{
    let ghost p = request_for_line(l);
    let mut i: usize = 0;
    while i < rs.len()
        invariant
            0 <= i <= rs.len(),
            p == request_for_line(l),
            forall|j: int| 0 <= j < i ==> !p(#[trigger] rs@[j]),
        decreases rs.len() - i,
    {
        let r = rs[i];
        if l.ticket_type_id == r.ticket_type_id && same_option(l.code_id, r.code_id) && same_option(
            l.hold_id,
            r.hold_id,
        ) {
            proof {
                assert(is_first_match(rs@, p, i as int));
                lemma_first_match_is(rs@, p, i as int);
            }
            return true;
        }
        i += 1;
    }
    proof {
        lemma_first_match_none(rs@, p);
    }
    false
}

/// Whether two optional ids are the same.
pub fn same_option(a: Option<u128>, b: Option<u128>) -> (r: bool)
    ensures
        r == (a == b),
{
    match (a, b) {
        (Some(x), Some(y)) => x == y,
        (None, None) => true,
        _ => false,
    }
}

/// The position of the line for the pair of the request.
fn find_line(lines: &Vec<TicketLine>, r: ResolvedLine) -> (found: Option<usize>)
    ensures
        match found {
            Some(i) => first_match(lines@, line_for_request(r)) == Some(i as int) && i
                < lines@.len(),
            None => first_match(lines@, line_for_request(r)) is None,
        },
{
    let ghost p = line_for_request(r);
    let mut i: usize = 0;
    while i < lines.len()
        invariant
            0 <= i <= lines.len(),
            p == line_for_request(r),
            forall|j: int| 0 <= j < i ==> !p(#[trigger] lines@[j]),
        decreases lines.len() - i,
    {
        let l = lines[i];
        if l.ticket_type_id == r.ticket_type_id && same_option(l.code_id, r.code_id) && same_option(
            l.hold_id,
            r.hold_id,
        ) {
            proof {
                assert(is_first_match(lines@, p, i as int));
                lemma_first_match_is(lines@, p, i as int);
            }
            return Some(i);
        }
        i += 1;
    }
    proof {
        lemma_first_match_none(lines@, p);
    }
    None
}

/// Whether some line is for the event.
pub fn event_has_line(lines: &Vec<TicketLine>, event_id: u128) -> (r: bool)
    ensures
        r == (first_match(lines@, line_of_event(event_id)) is Some),
{
    let ghost p = line_of_event(event_id);
    let mut i: usize = 0;
    while i < lines.len()
        invariant
            0 <= i <= lines.len(),
            p == line_of_event(event_id),
            forall|j: int| 0 <= j < i ==> !p(#[trigger] lines@[j]),
        decreases lines.len() - i,
    {
        if lines[i].event_id == event_id {
            proof {
                assert(is_first_match(lines@, p, i as int));
                lemma_first_match_is(lines@, p, i as int);
            }
            return true;
        }
        i += 1;
    }
    proof {
        lemma_first_match_none(lines@, p);
    }
    false
}

/// Whether some event fee is for the event.
fn has_event_fee(fees: &Vec<EventFeeLine>, event_id: u128) -> (r: bool)
    ensures
        r == (first_match(fees@, fee_of_event(event_id)) is Some),
{
    let ghost p = fee_of_event(event_id);
    let mut i: usize = 0;
    while i < fees.len()
        invariant
            0 <= i <= fees.len(),
            p == fee_of_event(event_id),
            forall|j: int| 0 <= j < i ==> !p(#[trigger] fees@[j]),
        decreases fees.len() - i,
    {
        if fees[i].event_id == event_id {
            proof {
                assert(is_first_match(fees@, p, i as int));
                lemma_first_match_is(fees@, p, i as int);
            }
            return true;
        }
        i += 1;
    }
    proof {
        lemma_first_match_none(fees@, p);
    }
    false
}

/// The line with the given id that a resolved request calls for.
fn make_line(id: u128, refunded_quantity: u32, r: ResolvedLine) -> (l: TicketLine)
    ensures
        l == line_from(id, refunded_quantity, r),
{
    TicketLine {
        id,
        ticket_type_id: r.ticket_type_id,
        event_id: r.event_id,
        ticket_pricing_id: r.ticket_pricing_id,
        code_id: r.code_id,
        hold_id: r.hold_id,
        quantity: r.quantity,
        unit_price_in_cents: r.unit_price_in_cents,
        refunded_quantity,
        fee: match r.fee {
            Some(range) => Some(
                UnitFee { fee_schedule_range_id: range.id, fee_in_cents: range.fee_in_cents },
            ),
            None => None,
        },
    }
}

/// Reconciles one resolved request with the lines and the ledger. Answers
/// `false` where the ledger has too few claimable instances.
fn apply_line(
    lines: &mut Vec<TicketLine>,
    work: &mut InventoryLedger,
    ids: &mut IdSequence,
    r: ResolvedLine,
    now: i64,
) -> (ok: bool)
    requires
        now + old(work).reservation_window_seconds <= i64::MAX,
        old(ids).next + 2 <= u128::MAX,
    ensures
        final(work).reservation_window_seconds == old(work).reservation_window_seconds,
        ok == spec_apply_line(
            LineState {
                lines: old(lines)@,
                instances: old(work).instances@,
                next_id: old(ids).next as int,
            },
            r,
            now,
            (now + old(work).reservation_window_seconds) as i64,
        ) is Some,
        ok ==> spec_apply_line(
            LineState {
                lines: old(lines)@,
                instances: old(work).instances@,
                next_id: old(ids).next as int,
            },
            r,
            now,
            (now + old(work).reservation_window_seconds) as i64,
        ) == Some(
            LineState {
                lines: final(lines)@,
                instances: final(work).instances@,
                next_id: final(ids).next as int,
            },
        ),
        old(ids).next <= final(ids).next <= old(ids).next + 2,
        final(lines)@.len() <= old(lines)@.len() + 1,
        draft_lines(old(lines)@) ==> draft_lines(final(lines)@),
        same_instances(old(work).instances@, final(work).instances@),
{
    match find_line(lines, r) {
        Some(i) => {
            let current = lines[i];
            if r.quantity == 0 {
                work.release(current.id);
                lines.remove(i);
                true
            } else if r.quantity >= current.quantity {
                match work.reserve(
                    r.ticket_type_id,
                    r.quantity - current.quantity,
                    current.id,
                    now,
                ) {
                    Ok(_) => {
                        lines.set(i, make_line(current.id, current.refunded_quantity, r));
                        true
                    },
                    Err(_) => false,
                }
            } else {
                work.release_quantity(current.id, (current.quantity - r.quantity) as usize);
                lines.set(i, make_line(current.id, current.refunded_quantity, r));
                true
            }
        },
        None => {
            if r.quantity == 0 {
                true
            } else {
                match work.reserve(r.ticket_type_id, r.quantity, ids.next, now) {
                    Ok(_) => {
                        lines.push(make_line(ids.next, 0, r));
                        ids.next = ids.next + 2;
                        true
                    },
                    Err(_) => false,
                }
            }
        },
    }
}

/// Brings the event fees in line with the lines.
fn recompute_event_fees(
    fees: &Vec<EventFeeLine>,
    lines: &Vec<TicketLine>,
    catalog: &Catalog,
    box_office: bool,
    ids: &mut IdSequence,
) -> (r: Vec<EventFeeLine>)
    requires
        old(ids).next + lines@.len() <= u128::MAX,
    ensures
        (r@, final(ids).next as int) == spec_event_fees(
            fees@,
            lines@,
            *catalog,
            box_office,
            old(ids).next as int,
        ),
        none_refunded(fees@) ==> none_refunded(r@),
{
    let mut out: Vec<EventFeeLine> = Vec::new();
    if box_office {
        return out;
    }
    let mut i: usize = 0;
    while i < fees.len()
        invariant
            0 <= i <= fees.len(),
            out@ == spec_kept_event_fees(fees@, lines@, i as int),
            none_refunded(fees@) ==> none_refunded(out@),
        decreases fees.len() - i,
    {
        let f = fees[i];
        if event_has_line(lines, f.event_id) {
            out.push(f);
        }
        i += 1;
    }
    let ghost kept = out@;
    let ghost first_id = ids.next as int;
    let mut k: usize = 0;
    while k < lines.len()
        invariant
            0 <= k <= lines.len(),
            first_id + lines@.len() <= u128::MAX,
            first_id <= ids.next <= first_id + k,
            none_refunded(fees@) ==> none_refunded(out@),
            (out@, ids.next as int) == spec_added_event_fees(
                kept,
                lines@,
                *catalog,
                first_id,
                k as int,
            ),
        decreases lines.len() - k,
    {
        let event_id = lines[k].event_id;
        match catalog.event_fee_for(event_id) {
            Some(fee) => {
                if !has_event_fee(&out, event_id) {
                    out.push(
                        EventFeeLine {
                            id: ids.next,
                            event_id,
                            unit_price_in_cents: fee,
                            refunded: false,
                        },
                    );
                    ids.next = ids.next + 1;
                }
            },
            None => {},
        }
        k += 1;
    }
    out
}

impl Order {
    /// Changes the quantities of a draft order.
    ///
    /// Each request names a ticket type, a quantity and maybe a redemption
    /// code. `remove_others` makes the request a full replacement: lines
    /// that it does not name are dropped first. The change is one
    /// transaction: on any failure the order, the ledger and the id sequence
    /// stay as they were.
    pub fn update_quantities(
        &mut self,
        _user_id: u128,
        request: &Vec<UpdateOrderItem>,
        box_office_pricing: bool,
        remove_others: bool,
        catalog: &Catalog,
        ledger: &mut InventoryLedger,
        ids: &mut IdSequence,
        now: i64,
    ) -> (r: Result<(), EngineError>)
        requires
            old(self).wf(),
            old(self).issued_before(old(ids).next),
            catalog.wf(),
            now + old(ledger).reservation_window_seconds <= i64::MAX,
            old(ids).next + 3 * (old(self).lines@.len() + request@.len()) <= u128::MAX,
        ensures
            final(self).wf(),
            final(self).issued_before(final(ids).next),
            old(ids).next <= final(ids).next <= old(ids).next + 3 * (old(self).lines@.len()
                + request@.len()),
            ids_taken_from(
                final(self).lines@,
                final(self).event_fees@,
                old(self).lines@,
                old(self).event_fees@,
                old(ids).next as int,
                final(ids).next as int,
            ),
            final(ledger).reservation_window_seconds == old(ledger).reservation_window_seconds,
            same_instances(old(ledger).instances@, final(ledger).instances@),
            old(ledger).wf() ==> final(ledger).wf(),
            match spec_update(
                old(self).status,
                old(self).lines@,
                old(self).event_fees@,
                old(ledger).instances@,
                old(ids).next as int,
                *catalog,
                request@,
                box_office_pricing,
                remove_others,
                now,
                (now + old(ledger).reservation_window_seconds) as i64,
            ) {
                Err(e) => r == Err::<(), EngineError>(e) && *final(self) == *old(self)
                    && final(ledger).instances@ == old(ledger).instances@ && final(ids).next
                    == old(ids).next,
                Ok(updated) => {
                    &&& r is Ok
                    &&& final(self).lines@ == updated.lines
                    &&& final(self).event_fees@ == updated.event_fees
                    &&& final(ledger).instances@ == updated.instances
                    &&& final(ids).next == updated.next_id
                    &&& final(self).box_office_pricing == box_office_pricing
                    &&& final(self).id == old(self).id
                    &&& final(self).user_id == old(self).user_id
                    &&& final(self).status == old(self).status
                    &&& final(self).created_at == old(self).created_at
                    &&& final(self).expires_at == old(self).expires_at
                    &&& final(self).paid_at == old(self).paid_at
                    &&& final(self).note == old(self).note
                    &&& final(self).payments == old(self).payments
                    &&& final(self).events == old(self).events
                },
            },
    {
        match self.status {
            OrderStatus::Draft => {},
            _ => {
                return Err(EngineError::InvalidStateTransition);
            },
        }
        let rs = match resolve_all(catalog, request, box_office_pricing, now) {
            Ok(rs) => rs,
            Err(e) => {
                return Err(e);
            },
        };
        let ghost until = (now + ledger.reservation_window_seconds) as i64;
        let mut work = InventoryLedger {
            instances: copy_vec(&ledger.instances),
            reservation_window_seconds: ledger.reservation_window_seconds,
        };
        let mut lines: Vec<TicketLine> = Vec::new();
        let mut i: usize = 0;
        while i < self.lines.len()
            invariant
                0 <= i <= self.lines.len(),
                lines@.len() <= i,
                draft_lines(self.lines@),
                draft_lines(lines@),
                work.reservation_window_seconds == ledger.reservation_window_seconds,
                same_instances(ledger.instances@, work.instances@),
                (lines@, work.instances@) == spec_retain(
                    self.lines@,
                    ledger.instances@,
                    rs@,
                    remove_others,
                    i as int,
                ),
            decreases self.lines.len() - i,
        {
            let l = self.lines[i];
            if !remove_others || requested(&rs, l) {
                lines.push(l);
            } else {
                work.release(l.id);
            }
            i += 1;
        }
        let ghost start = LineState {
            lines: lines@,
            instances: work.instances@,
            next_id: ids.next as int,
        };
        let first_id = ids.next;
        let mut k: usize = 0;
        let mut ok = true;
        while ok && k < rs.len()
            invariant
                0 <= k <= rs.len(),
                rs@.len() == request@.len(),
                lines@.len() <= self.lines@.len() + k,
                draft_lines(lines@),
                same_instances(ledger.instances@, work.instances@),
                first_id + 3 * (self.lines@.len() + request@.len()) <= u128::MAX,
                first_id <= ids.next <= first_id + 2 * k,
                work.reservation_window_seconds == ledger.reservation_window_seconds,
                now + ledger.reservation_window_seconds <= i64::MAX,
                until == (now + ledger.reservation_window_seconds) as i64,
                ok ==> spec_apply_lines(start, rs@, now, until, k as int) == Some(
                    LineState {
                        lines: lines@,
                        instances: work.instances@,
                        next_id: ids.next as int,
                    },
                ),
                !ok ==> spec_apply_lines(start, rs@, now, until, rs@.len() as int) is None,
            decreases rs.len() - k,
        {
            ok = apply_line(&mut lines, &mut work, ids, rs[k], now);
            proof {
                if !ok {
                    lemma_apply_lines_fails(start, rs@, now, until, k + 1, rs@.len() as int);
                }
            }
            k += 1;
        }
        if !ok {
            ids.next = first_id;
            return Err(EngineError::Validation(ValidationError::QuantityNotAvailable));
        }
        assert(none_refunded(self.event_fees@));
        assert(self.spec_paid() == 0);
        proof {
            crate::cart_laws::lemma_update_keeps_ids(
                self.lines@,
                self.event_fees@,
                ledger.instances@,
                first_id as int,
                *catalog,
                request@,
                box_office_pricing,
                remove_others,
                now,
                until,
            );
            crate::cart_laws::lemma_update_keeps_singletons(
                self.lines@,
                self.event_fees@,
                ledger.instances@,
                first_id as int,
                *catalog,
                request@,
                box_office_pricing,
                remove_others,
                now,
                until,
            );
        }
        let fees = recompute_event_fees(
            &self.event_fees,
            &lines,
            catalog,
            box_office_pricing,
            ids,
        );
        proof {
            if old(ledger).wf() {
                crate::inventory::lemma_same_instances_distinct(
                    old(ledger).instances@,
                    work.instances@,
                );
            }
        }
        self.lines = lines;
        self.event_fees = fees;
        self.box_office_pricing = box_office_pricing;
        ledger.instances = work.instances;
        Ok(())
    }
}

} // verus!
