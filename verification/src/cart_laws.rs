//! Laws of changing quantities: what a change leaves on the order, and that
//! the same change made twice is made once.

use crate::cart::{
    fee_of_event, is_requested, line_for_request, line_from, line_of_event, request_for_line,
    same_key, spec_added_event_fees, spec_apply_line, spec_apply_lines, spec_event_fees,
    spec_kept_event_fees, spec_resolve_all, spec_retain, spec_update, LineState, UpdatedCart,
};
use crate::catalog::{
    spec_event_fee_for, spec_resolve_line, spec_text, Catalog, ResolvedLine, UpdateOrderItem,
};
use crate::enums::OrderStatus;
use crate::errors::EngineError;
use crate::inventory::{spec_reserve, TicketInstance};
use crate::orders::{
    distinct_lines, ids_below, ids_taken_from, item_ids_distinct, line_items, line_pair,
    lines_apart, one_fee_per_event, order_items, owns_id, ticket_item, EventFeeLine, TicketLine,
};
use crate::pricing::{discounted, sellable_tiers, spec_resolve, TicketPricing};
use crate::search::{
    first_match, lemma_first_match, lemma_first_match_push_hit, lemma_first_match_push_miss, lemma_first_match_remove_hit,
    lemma_first_match_remove_miss, lemma_first_match_update_hit, lemma_first_match_update_miss,
    lemma_some_match_has_first,
};
use vstd::prelude::*;

verus! {

/// Two resolved requests are for the same (ticket type, code or hold) pair.
pub open spec fn same_pair(a: ResolvedLine, b: ResolvedLine) -> bool {
    a.ticket_type_id == b.ticket_type_id && a.code_id == b.code_id && a.hold_id == b.hold_id
}

/// No two resolved requests are for the same pair.
pub open spec fn distinct_requests(rs: Seq<ResolvedLine>) -> bool {
    forall|a: int, b: int| 0 <= a < b < rs.len() ==> !same_pair(rs[a], rs[b])
}

/// The order holds a line for the pair of the request with its quantity
/// and unit price.
pub open spec fn holds_line(lines: Seq<TicketLine>, r: ResolvedLine) -> bool {
    exists|i: int|
        0 <= i < lines.len() && same_key(#[trigger] lines[i], r) && lines[i].quantity == r.quantity
            && lines[i].unit_price_in_cents == r.unit_price_in_cents
}

/// The line for the pair of the request is as the request calls for: there
/// is none where it asks for no tickets; else the first such line has the
/// quantity, price, tier and fee that the request resolved to.
pub open spec fn settled(lines: Seq<TicketLine>, r: ResolvedLine) -> bool {
    match first_match(lines, line_for_request(r)) {
        Some(i) => r.quantity > 0 && lines[i] == line_from(
            lines[i].id,
            lines[i].refunded_quantity,
            r,
        ),
        None => r.quantity == 0,
    }
}

/// Every line is for the pair of some request.
pub open spec fn all_requested(lines: Seq<TicketLine>, rs: Seq<ResolvedLine>) -> bool {
    forall|i: int| 0 <= i < lines.len() ==> is_requested(rs, #[trigger] lines[i])
}

/// Every event fee is for an event that has a line.
pub open spec fn fees_covered(fees: Seq<EventFeeLine>, lines: Seq<TicketLine>) -> bool {
    forall|i: int|
        0 <= i < fees.len() ==> first_match(lines, line_of_event((#[trigger] fees[i]).event_id))
            is Some
}

/// Every event of the first `upto` lines that has a flat fee has its event
/// fee.
pub open spec fn fees_complete(
    fees: Seq<EventFeeLine>,
    lines: Seq<TicketLine>,
    catalog: Catalog,
    upto: int,
) -> bool {
    forall|j: int|
        0 <= j < upto && j < lines.len() && spec_event_fee_for(
            catalog,
            (#[trigger] lines[j]).event_id,
        ) is Some ==> first_match(fees, fee_of_event(lines[j].event_id)) is Some
}

// ---------------------------------------------------------------------------
// Resolution
// ---------------------------------------------------------------------------
/// Requests that all resolve give one resolved line each, in order.
pub proof fn lemma_resolve_all_each(
    catalog: Catalog,
    request: Seq<UpdateOrderItem>,
    box_office: bool,
    now: i64,
    upto: int,
)
    requires
        0 <= upto <= request.len(),
        spec_resolve_all(catalog, request, box_office, now, upto) is Ok,
    ensures
        spec_resolve_all(catalog, request, box_office, now, upto)->Ok_0.len() == upto,
        forall|k: int|
            0 <= k < upto ==> spec_resolve_line(
                catalog,
                request[k].ticket_type_id,
                request[k].quantity,
                spec_text(request[k].redemption_code),
                box_office,
                now,
            ) == Ok::<ResolvedLine, EngineError>(
                #[trigger] spec_resolve_all(catalog, request, box_office, now, upto)->Ok_0[k],
            ),
    decreases upto,
{
    if upto > 0 {
        lemma_resolve_all_each(catalog, request, box_office, now, upto - 1);
    }
}

/// The unit price that the resolver answers for a sale that is not at the
/// box office is the price of the first sellable tier less the discount,
/// floored at zero.
pub proof fn law_resolved_price(
    pricing: Seq<TicketPricing>,
    increment: u32,
    quantity: u32,
    discount_in_cents: u32,
    now: i64,
)
    requires
        spec_resolve(pricing, increment, quantity, discount_in_cents, false, now) is Ok,
    ensures
        quantity % increment == 0,
        first_match(pricing, sellable_tiers(false, now)) matches Some(i) && 0 <= i < pricing.len()
            && spec_resolve(pricing, increment, quantity, discount_in_cents, false, now) == Ok::<
            (u32, u128),
            EngineError,
        >((discounted(pricing[i].price_in_cents, discount_in_cents), pricing[i].id))
            && pricing[i].start_date <= now <= pricing[i].end_date,
{
    lemma_first_match(pricing, sellable_tiers(false, now));
}

// ---------------------------------------------------------------------------
// One request reconciled
// ---------------------------------------------------------------------------
/// A request for tickets leaves a line with its quantity and price.
proof fn lemma_apply_line_holds(s: LineState, r: ResolvedLine, now: i64, until: i64)
    requires
        r.quantity > 0,
        spec_apply_line(s, r, now, until) is Some,
    ensures
        holds_line(spec_apply_line(s, r, now, until)->0.lines, r),
{
    let t = spec_apply_line(s, r, now, until)->0;
    lemma_first_match(s.lines, line_for_request(r));
    match first_match(s.lines, line_for_request(r)) {
        Some(i) => {
            assert(same_key(t.lines[i], r));
        },
        None => {
            assert(same_key(t.lines[s.lines.len() as int], r));
        },
    }
}

/// A request for another pair leaves the line of a request as it holds it.
proof fn lemma_apply_line_keeps(
    s: LineState,
    r0: ResolvedLine,
    r: ResolvedLine,
    now: i64,
    until: i64,
)
    requires
        holds_line(s.lines, r0),
        !same_pair(r0, r),
        spec_apply_line(s, r, now, until) is Some,
    ensures
        holds_line(spec_apply_line(s, r, now, until)->0.lines, r0),
{
    let t = spec_apply_line(s, r, now, until)->0;
    lemma_first_match(s.lines, line_for_request(r));
    let w = choose|i: int|
        0 <= i < s.lines.len() && same_key(#[trigger] s.lines[i], r0) && s.lines[i].quantity
            == r0.quantity && s.lines[i].unit_price_in_cents == r0.unit_price_in_cents;
    match first_match(s.lines, line_for_request(r)) {
        Some(i) => {
            assert(i != w);
            if r.quantity == 0 {
                let w2 = if w > i {
                    w - 1
                } else {
                    w
                };
                assert(t.lines[w2] == s.lines[w]);
                assert(same_key(t.lines[w2], r0));
            } else {
                assert(t.lines[w] == s.lines[w]);
                assert(same_key(t.lines[w], r0));
            }
        },
        None => {
            if r.quantity > 0 {
                assert(t.lines[w] == s.lines[w]);
                assert(same_key(t.lines[w], r0));
            }
        },
    }
}

/// Once the request at `k` is reconciled, its line stays through the
/// requests behind it, none of which is for its pair.
proof fn lemma_apply_lines_holds(
    s: LineState,
    rs: Seq<ResolvedLine>,
    now: i64,
    until: i64,
    k: int,
    upto: int,
)
    requires
        0 <= k < upto <= rs.len(),
        rs[k].quantity > 0,
        forall|j: int| k < j < rs.len() ==> !same_pair(rs[k], #[trigger] rs[j]),
        spec_apply_lines(s, rs, now, until, upto) is Some,
    ensures
        holds_line(spec_apply_lines(s, rs, now, until, upto)->0.lines, rs[k]),
    decreases upto,
{
    let before = spec_apply_lines(s, rs, now, until, upto - 1);
    assert(before is Some);
    if upto - 1 == k {
        lemma_apply_line_holds(before->0, rs[k], now, until);
    } else {
        lemma_apply_lines_holds(s, rs, now, until, k, upto - 1);
        lemma_apply_line_keeps(before->0, rs[k], rs[upto - 1], now, until);
    }
}

/// The tickets item of each of the first `upto` lines is among their
/// items.
proof fn lemma_ticket_item_listed(lines: Seq<TicketLine>, i: int, upto: int)
    requires
        0 <= i < upto <= lines.len(),
    ensures
        exists|j: int|
            0 <= j < line_items(lines, upto).len() && #[trigger] line_items(lines, upto)[j]
                == ticket_item(lines[i]),
    decreases upto,
{
    let before = line_items(lines, upto - 1);
    let with_ticket = before.push(ticket_item(lines[upto - 1]));
    if i == upto - 1 {
        let j = before.len() as int;
        assert(with_ticket[j] == ticket_item(lines[i]));
        assert(line_items(lines, upto)[j] == ticket_item(lines[i]));
    } else {
        lemma_ticket_item_listed(lines, i, upto - 1);
        let j = choose|j: int| 0 <= j < before.len() && #[trigger] before[j] == ticket_item(lines[i]);
        assert(with_ticket[j] == before[j]);
        assert(line_items(lines, upto)[j] == ticket_item(lines[i]));
    }
}

/// What a change of quantities leaves of a request. Where the change goes
/// through, a request for tickets that no later request overrides leaves a
/// tickets item on the order with exactly its quantity, at the unit price
/// that the request resolved to.
pub proof fn law_update_sets_quantity_and_price(
    lines: Seq<TicketLine>,
    event_fees: Seq<EventFeeLine>,
    instances: Seq<TicketInstance>,
    next_id: int,
    catalog: Catalog,
    request: Seq<UpdateOrderItem>,
    box_office: bool,
    replace: bool,
    now: i64,
    until: i64,
    k: int,
)
    requires
        spec_update(
            OrderStatus::Draft,
            lines,
            event_fees,
            instances,
            next_id,
            catalog,
            request,
            box_office,
            replace,
            now,
            until,
        ) is Ok,
        0 <= k < request.len(),
        request[k].quantity > 0,
        forall|j: int|
            k < j < request.len() ==> !same_pair(
                spec_resolve_all(catalog, request, box_office, now, request.len() as int)->Ok_0[k],
                #[trigger] spec_resolve_all(
                    catalog,
                    request,
                    box_office,
                    now,
                    request.len() as int,
                )->Ok_0[j],
            ),
    ensures
        ({
            let updated = spec_update(
                OrderStatus::Draft,
                lines,
                event_fees,
                instances,
                next_id,
                catalog,
                request,
                box_office,
                replace,
                now,
                until,
            )->Ok_0;
            let resolved = spec_resolve_line(
                catalog,
                request[k].ticket_type_id,
                request[k].quantity,
                spec_text(request[k].redemption_code),
                box_office,
                now,
            );
            let items = order_items(updated.lines, updated.event_fees);
            &&& resolved is Ok
            &&& exists|j: int|
                0 <= j < items.len() && (#[trigger] items[j]).item_type
                    == crate::enums::OrderItemTypes::Tickets && items[j].ticket_type_id == Some(
                    request[k].ticket_type_id,
                ) && items[j].code_id == resolved->Ok_0.code_id && items[j].hold_id
                    == resolved->Ok_0.hold_id && items[j].quantity == request[k].quantity
                    && items[j].unit_price_in_cents == resolved->Ok_0.unit_price_in_cents
        }),
{
    let rs = spec_resolve_all(catalog, request, box_office, now, request.len() as int)->Ok_0;
    lemma_resolve_all_each(catalog, request, box_office, now, request.len() as int);
    let (kept, inst) = spec_retain(lines, instances, rs, replace, lines.len() as int);
    let start = LineState { lines: kept, instances: inst, next_id };
    let applied = spec_apply_lines(start, rs, now, until, rs.len() as int)->0;
    assert(spec_resolve_line(
        catalog,
        request[k].ticket_type_id,
        request[k].quantity,
        spec_text(request[k].redemption_code),
        box_office,
        now,
    ) == Ok::<ResolvedLine, EngineError>(rs[k]));
    lemma_resolved_key(catalog, request[k], box_office, now);
    lemma_apply_lines_holds(start, rs, now, until, k, rs.len() as int);
    let i = choose|i: int|
        0 <= i < applied.lines.len() && same_key(#[trigger] applied.lines[i], rs[k])
            && applied.lines[i].quantity == rs[k].quantity && applied.lines[i].unit_price_in_cents
            == rs[k].unit_price_in_cents;
    lemma_ticket_item_listed(applied.lines, i, applied.lines.len() as int);
    let updated = spec_update(
        OrderStatus::Draft,
        lines,
        event_fees,
        instances,
        next_id,
        catalog,
        request,
        box_office,
        replace,
        now,
        until,
    )->Ok_0;
    assert(updated.lines == applied.lines);
    let firsts = line_items(updated.lines, updated.lines.len() as int);
    let j = choose|j: int| 0 <= j < firsts.len() && #[trigger] firsts[j] == ticket_item(
        applied.lines[i],
    );
    let items = order_items(updated.lines, updated.event_fees);
    assert(items[j] == firsts[j]);
}

/// A request resolves to a line for its own ticket type and quantity.
proof fn lemma_resolved_key(catalog: Catalog, line: UpdateOrderItem, box_office: bool, now: i64)
    requires
        spec_resolve_line(
            catalog,
            line.ticket_type_id,
            line.quantity,
            spec_text(line.redemption_code),
            box_office,
            now,
        ) is Ok,
    ensures
        spec_resolve_line(
            catalog,
            line.ticket_type_id,
            line.quantity,
            spec_text(line.redemption_code),
            box_office,
            now,
        )->Ok_0.ticket_type_id == line.ticket_type_id,
        spec_resolve_line(
            catalog,
            line.ticket_type_id,
            line.quantity,
            spec_text(line.redemption_code),
            box_office,
            now,
        )->Ok_0.quantity == line.quantity,
{
    lemma_first_match(
        catalog.ticket_types@,
        crate::catalog::ticket_type_with_id(line.ticket_type_id),
    );
}

// ---------------------------------------------------------------------------
// The same change twice
// ---------------------------------------------------------------------------
/// Reconciling a request keeps the lines one per pair.
pub proof fn lemma_apply_line_distinct(s: LineState, r: ResolvedLine, now: i64, until: i64)
    requires
        distinct_lines(s.lines),
        spec_apply_line(s, r, now, until) is Some,
    ensures
        distinct_lines(spec_apply_line(s, r, now, until)->0.lines),
{
    let t = spec_apply_line(s, r, now, until)->0.lines;
    let p = line_for_request(r);
    lemma_first_match(s.lines, p);
    match first_match(s.lines, p) {
        Some(i) => {
            if r.quantity == 0 {
                assert forall|a: int, b: int| 0 <= a < b < t.len() implies !line_pair(
                    t[a],
                    t[b],
                ) by {
                    let a0 = if a < i {
                        a
                    } else {
                        a + 1
                    };
                    let b0 = if b < i {
                        b
                    } else {
                        b + 1
                    };
                    assert(t[a] == s.lines[a0]);
                    assert(t[b] == s.lines[b0]);
                }
            } else {
                assert forall|a: int, b: int| 0 <= a < b < t.len() implies !line_pair(
                    t[a],
                    t[b],
                ) by {
                    assert(!line_pair(s.lines[a], s.lines[b]));
                    assert(p(s.lines[i]));
                }
            }
        },
        None => {
            if r.quantity > 0 {
                assert forall|a: int, b: int| 0 <= a < b < t.len() implies !line_pair(
                    t[a],
                    t[b],
                ) by {
                    if b == s.lines.len() {
                        assert(!p(s.lines[a]));
                    } else {
                        assert(!line_pair(s.lines[a], s.lines[b]));
                    }
                }
            }
        },
    }
}

/// What stays of the first `upto` lines is taken from them; lines one per
/// pair stay so; and after a full replacement every line that stays is for
/// the pair of some request.
pub proof fn lemma_retain_kept(
    lines: Seq<TicketLine>,
    instances: Seq<TicketInstance>,
    rs: Seq<ResolvedLine>,
    replace: bool,
    upto: int,
)
    requires
        0 <= upto <= lines.len(),
    ensures
        forall|a: int|
            0 <= a < spec_retain(lines, instances, rs, replace, upto).0.len() ==> exists|j: int|
                0 <= j < upto && #[trigger] spec_retain(lines, instances, rs, replace, upto).0[a]
                    == lines[j],
        distinct_lines(lines) ==> distinct_lines(
            spec_retain(lines, instances, rs, replace, upto).0,
        ),
        replace ==> all_requested(spec_retain(lines, instances, rs, replace, upto).0, rs),
    decreases upto,
{
    if upto > 0 {
        lemma_retain_kept(lines, instances, rs, replace, upto - 1);
        let before = spec_retain(lines, instances, rs, replace, upto - 1).0;
        let kept = spec_retain(lines, instances, rs, replace, upto).0;
        if !replace || is_requested(rs, lines[upto - 1]) {
            assert(kept == before.push(lines[upto - 1]));
            assert forall|a: int| 0 <= a < kept.len() implies exists|j: int|
                0 <= j < upto && #[trigger] kept[a] == lines[j] by {
                if a < before.len() {
                    let j = choose|j: int| 0 <= j < upto - 1 && before[a] == lines[j];
                    assert(kept[a] == lines[j]);
                } else {
                    assert(kept[a] == lines[upto - 1]);
                }
            }
            if distinct_lines(lines) {
                assert forall|a: int, b: int| 0 <= a < b < kept.len() implies !line_pair(
                    kept[a],
                    kept[b],
                ) by {
                    if b == before.len() {
                        let j = choose|j: int| 0 <= j < upto - 1 && before[a] == lines[j];
                        assert(!line_pair(lines[j], lines[upto - 1]));
                    } else {
                        assert(!line_pair(before[a], before[b]));
                    }
                }
            }
            if replace {
                assert forall|i: int| 0 <= i < kept.len() implies is_requested(
                    rs,
                    #[trigger] kept[i],
                ) by {
                    if i < before.len() {
                        assert(kept[i] == before[i]);
                    }
                }
            }
        } else {
            assert(kept == before);
        }
    }
}

/// A line made for a request is for the pair of a request.
proof fn lemma_line_from_requested(rs: Seq<ResolvedLine>, k: int, id: u128, refunded: u32)
    requires
        0 <= k < rs.len(),
    ensures
        is_requested(rs, line_from(id, refunded, rs[k])),
{
    let l = line_from(id, refunded, rs[k]);
    lemma_some_match_has_first(rs, request_for_line(l), k);
}

/// Reconciling requests keeps the lines one per pair.
pub proof fn lemma_apply_lines_distinct(
    s: LineState,
    rs: Seq<ResolvedLine>,
    now: i64,
    until: i64,
    upto: int,
)
    requires
        0 <= upto <= rs.len(),
        distinct_lines(s.lines),
        spec_apply_lines(s, rs, now, until, upto) is Some,
    ensures
        distinct_lines(spec_apply_lines(s, rs, now, until, upto)->0.lines),
    decreases upto,
{
    if upto > 0 {
        let before = spec_apply_lines(s, rs, now, until, upto - 1);
        assert(before is Some);
        lemma_apply_lines_distinct(s, rs, now, until, upto - 1);
        lemma_apply_line_distinct(before->0, rs[upto - 1], now, until);
    }
}

/// Of event fees one per event, those that are kept are one per event.
pub proof fn lemma_kept_one_per_event(fees: Seq<EventFeeLine>, lines: Seq<TicketLine>, upto: int)
    requires
        0 <= upto <= fees.len(),
        one_fee_per_event(fees),
    ensures
        one_fee_per_event(spec_kept_event_fees(fees, lines, upto)),
        forall|a: int|
            0 <= a < spec_kept_event_fees(fees, lines, upto).len() ==> exists|j: int|
                0 <= j < upto && #[trigger] spec_kept_event_fees(fees, lines, upto)[a] == fees[j],
    decreases upto,
{
    if upto > 0 {
        lemma_kept_one_per_event(fees, lines, upto - 1);
        let before = spec_kept_event_fees(fees, lines, upto - 1);
        let kept = spec_kept_event_fees(fees, lines, upto);
        if first_match(lines, line_of_event(fees[upto - 1].event_id)) is Some {
            assert(kept == before.push(fees[upto - 1]));
            assert forall|a: int| 0 <= a < kept.len() implies exists|j: int|
                0 <= j < upto && #[trigger] kept[a] == fees[j] by {
                if a < before.len() {
                    let j = choose|j: int| 0 <= j < upto - 1 && before[a] == fees[j];
                    assert(kept[a] == fees[j]);
                } else {
                    assert(kept[a] == fees[upto - 1]);
                }
            }
            assert forall|a: int, b: int| 0 <= a < b < kept.len() implies kept[a].event_id
                != kept[b].event_id by {
                if b == before.len() {
                    let j = choose|j: int| 0 <= j < upto - 1 && before[a] == fees[j];
                    assert(fees[j].event_id != fees[upto - 1].event_id);
                } else {
                    assert(before[a].event_id != before[b].event_id);
                }
            }
        } else {
            assert(kept == before);
        }
    }
}

/// Event fees one per event stay so when the events of the lines are seen
/// to.
pub proof fn lemma_added_one_per_event(
    fees: Seq<EventFeeLine>,
    lines: Seq<TicketLine>,
    catalog: Catalog,
    next_id: int,
    upto: int,
)
    requires
        0 <= upto <= lines.len(),
        one_fee_per_event(fees),
    ensures
        one_fee_per_event(spec_added_event_fees(fees, lines, catalog, next_id, upto).0),
    decreases upto,
{
    if upto > 0 {
        lemma_added_one_per_event(fees, lines, catalog, next_id, upto - 1);
        let (acc, next) = spec_added_event_fees(fees, lines, catalog, next_id, upto - 1);
        let after = spec_added_event_fees(fees, lines, catalog, next_id, upto).0;
        let event_id = lines[upto - 1].event_id;
        if spec_event_fee_for(catalog, event_id) is Some && first_match(
            acc,
            fee_of_event(event_id),
        ) is None {
            lemma_first_match(acc, fee_of_event(event_id));
            assert forall|a: int, b: int| 0 <= a < b < after.len() implies after[a].event_id
                != after[b].event_id by {
                if b == acc.len() {
                    assert(!fee_of_event(event_id)(acc[a]));
                } else {
                    assert(acc[a].event_id != acc[b].event_id);
                }
            }
        }
    }
}

/// What a change of quantities leaves is one line per pair and one event
/// fee per event, where the order was so before.
pub proof fn lemma_update_keeps_singletons(
    lines: Seq<TicketLine>,
    event_fees: Seq<EventFeeLine>,
    instances: Seq<TicketInstance>,
    next_id: int,
    catalog: Catalog,
    request: Seq<UpdateOrderItem>,
    box_office: bool,
    replace: bool,
    now: i64,
    until: i64,
)
    requires
        distinct_lines(lines),
        one_fee_per_event(event_fees),
        spec_update(
            OrderStatus::Draft,
            lines,
            event_fees,
            instances,
            next_id,
            catalog,
            request,
            box_office,
            replace,
            now,
            until,
        ) is Ok,
    ensures
        distinct_lines(
            spec_update(
                OrderStatus::Draft,
                lines,
                event_fees,
                instances,
                next_id,
                catalog,
                request,
                box_office,
                replace,
                now,
                until,
            )->Ok_0.lines,
        ),
        one_fee_per_event(
            spec_update(
                OrderStatus::Draft,
                lines,
                event_fees,
                instances,
                next_id,
                catalog,
                request,
                box_office,
                replace,
                now,
                until,
            )->Ok_0.event_fees,
        ),
{
    let rs = spec_resolve_all(catalog, request, box_office, now, request.len() as int)->Ok_0;
    let (kept, inst) = spec_retain(lines, instances, rs, replace, lines.len() as int);
    lemma_retain_kept(lines, instances, rs, replace, lines.len() as int);
    let start = LineState { lines: kept, instances: inst, next_id };
    lemma_apply_lines_distinct(start, rs, now, until, rs.len() as int);
    let applied = spec_apply_lines(start, rs, now, until, rs.len() as int)->0;
    if !box_office {
        lemma_kept_one_per_event(event_fees, applied.lines, event_fees.len() as int);
        lemma_added_one_per_event(
            spec_kept_event_fees(event_fees, applied.lines, event_fees.len() as int),
            applied.lines,
            catalog,
            applied.next_id,
            applied.lines.len() as int,
        );
    }
}

/// Reconciling a request keeps every line for the pair of some request.
proof fn lemma_apply_line_requested(
    s: LineState,
    rs: Seq<ResolvedLine>,
    k: int,
    now: i64,
    until: i64,
)
    requires
        0 <= k < rs.len(),
        all_requested(s.lines, rs),
        spec_apply_line(s, rs[k], now, until) is Some,
    ensures
        all_requested(spec_apply_line(s, rs[k], now, until)->0.lines, rs),
{
    let r = rs[k];
    let t = spec_apply_line(s, r, now, until)->0.lines;
    lemma_first_match(s.lines, line_for_request(r));
    match first_match(s.lines, line_for_request(r)) {
        Some(i) => {
            if r.quantity == 0 {
                assert forall|a: int| 0 <= a < t.len() implies is_requested(rs, #[trigger] t[a]) by {
                    let a0 = if a < i {
                        a
                    } else {
                        a + 1
                    };
                    assert(t[a] == s.lines[a0]);
                }
            } else {
                lemma_line_from_requested(rs, k, s.lines[i].id, s.lines[i].refunded_quantity);
                assert forall|a: int| 0 <= a < t.len() implies is_requested(rs, #[trigger] t[a]) by {
                    if a != i {
                        assert(t[a] == s.lines[a]);
                    }
                }
            }
        },
        None => {
            if r.quantity > 0 {
                lemma_line_from_requested(rs, k, s.next_id as u128, 0);
                assert forall|a: int| 0 <= a < t.len() implies is_requested(rs, #[trigger] t[a]) by {
                    if a < s.lines.len() {
                        assert(t[a] == s.lines[a]);
                    }
                }
            }
        },
    }
}

/// Reconciling a request settles it.
proof fn lemma_apply_line_settles(s: LineState, r: ResolvedLine, now: i64, until: i64)
    requires
        distinct_lines(s.lines),
        spec_apply_line(s, r, now, until) is Some,
    ensures
        settled(spec_apply_line(s, r, now, until)->0.lines, r),
{
    let p = line_for_request(r);
    let t = spec_apply_line(s, r, now, until)->0.lines;
    lemma_first_match(s.lines, p);
    match first_match(s.lines, p) {
        Some(i) => {
            if r.quantity == 0 {
                assert forall|a: int, b: int| 0 <= a < b < s.lines.len() implies !(p(
                    #[trigger] s.lines[a],
                ) && p(#[trigger] s.lines[b])) by {
                    assert(!line_pair(s.lines[a], s.lines[b]));
                }
                lemma_first_match_remove_hit(s.lines, p, i);
            } else {
                let x = line_from(s.lines[i].id, s.lines[i].refunded_quantity, r);
                assert(p(x));
                lemma_first_match_update_hit(s.lines, p, i, x);
                assert(t[i] == x);
            }
        },
        None => {
            if r.quantity > 0 {
                let x = line_from(s.next_id as u128, 0, r);
                assert(p(x));
                lemma_first_match_push_hit(s.lines, p, x);
                assert(t[s.lines.len() as int] == x);
            }
        },
    }
}

/// Reconciling a request for another pair leaves a settled request
/// settled.
proof fn lemma_apply_line_stays_settled(
    s: LineState,
    r0: ResolvedLine,
    r: ResolvedLine,
    now: i64,
    until: i64,
)
    requires
        settled(s.lines, r0),
        !same_pair(r0, r),
        spec_apply_line(s, r, now, until) is Some,
    ensures
        settled(spec_apply_line(s, r, now, until)->0.lines, r0),
{
    let p0 = line_for_request(r0);
    let p = line_for_request(r);
    let t = spec_apply_line(s, r, now, until)->0.lines;
    lemma_first_match(s.lines, p);
    lemma_first_match(s.lines, p0);
    match first_match(s.lines, p) {
        Some(i) => {
            assert(p(s.lines[i]));
            assert(!p0(s.lines[i]));
            if r.quantity == 0 {
                lemma_first_match_remove_miss(s.lines, p0, i);
            } else {
                let x = line_from(s.lines[i].id, s.lines[i].refunded_quantity, r);
                assert(!p0(x));
                lemma_first_match_update_miss(s.lines, p0, i, x);
                if first_match(s.lines, p0) is Some {
                    let m = first_match(s.lines, p0)->0;
                    assert(m != i);
                    assert(t[m] == s.lines[m]);
                }
            }
        },
        None => {
            if r.quantity > 0 {
                let x = line_from(s.next_id as u128, 0, r);
                assert(!p0(x));
                lemma_first_match_push_miss(s.lines, p0, x);
                if first_match(s.lines, p0) is Some {
                    let m = first_match(s.lines, p0)->0;
                    assert(t[m] == s.lines[m]);
                }
            }
        },
    }
}

/// After requests for distinct pairs are reconciled, each of them is
/// settled; the lines are one per pair; and lines that were all requested
/// still are.
pub proof fn lemma_apply_lines_settles(
    s: LineState,
    rs: Seq<ResolvedLine>,
    now: i64,
    until: i64,
    upto: int,
)
    requires
        0 <= upto <= rs.len(),
        distinct_requests(rs),
        distinct_lines(s.lines),
        spec_apply_lines(s, rs, now, until, upto) is Some,
    ensures
        distinct_lines(spec_apply_lines(s, rs, now, until, upto)->0.lines),
        forall|k: int|
            0 <= k < upto ==> settled(
                spec_apply_lines(s, rs, now, until, upto)->0.lines,
                #[trigger] rs[k],
            ),
        all_requested(s.lines, rs) ==> all_requested(
            spec_apply_lines(s, rs, now, until, upto)->0.lines,
            rs,
        ),
    decreases upto,
{
    if upto > 0 {
        let before = spec_apply_lines(s, rs, now, until, upto - 1);
        assert(before is Some);
        lemma_apply_lines_settles(s, rs, now, until, upto - 1);
        let r = rs[upto - 1];
        lemma_apply_line_distinct(before->0, r, now, until);
        lemma_apply_line_settles(before->0, r, now, until);
        let after = spec_apply_line(before->0, r, now, until)->0;
        assert forall|k: int| 0 <= k < upto implies settled(after.lines, #[trigger] rs[k]) by {
            if k < upto - 1 {
                assert(!same_pair(rs[k], rs[upto - 1]));
                lemma_apply_line_stays_settled(before->0, rs[k], r, now, until);
            }
        }
        if all_requested(s.lines, rs) {
            lemma_apply_line_requested(before->0, rs, upto - 1, now, until);
        }
    }
}

/// Reconciling a settled request changes nothing.
proof fn lemma_apply_line_settled(s: LineState, r: ResolvedLine, now: i64, until: i64)
    requires
        settled(s.lines, r),
    ensures
        spec_apply_line(s, r, now, until) == Some(s),
{
    let p = line_for_request(r);
    lemma_first_match(s.lines, p);
    match first_match(s.lines, p) {
        Some(i) => {
            let x = line_from(s.lines[i].id, s.lines[i].refunded_quantity, r);
            assert(s.lines.update(i, x) =~= s.lines);
            assert(spec_reserve(s.instances, r.ticket_type_id, 0, s.lines[i].id, until, now)
                =~= s.instances);
        },
        None => {},
    }
}

/// Reconciling requests that are all settled changes nothing.
proof fn lemma_apply_lines_settled(
    s: LineState,
    rs: Seq<ResolvedLine>,
    now: i64,
    until: i64,
    upto: int,
)
    requires
        0 <= upto <= rs.len(),
        forall|k: int| 0 <= k < rs.len() ==> settled(s.lines, #[trigger] rs[k]),
    ensures
        spec_apply_lines(s, rs, now, until, upto) == Some(s),
    decreases upto,
{
    if upto > 0 {
        lemma_apply_lines_settled(s, rs, now, until, upto - 1);
        lemma_apply_line_settled(s, rs[upto - 1], now, until);
    }
}

/// Where every line stays, the lines and the ledger are as before.
proof fn lemma_retain_all(
    lines: Seq<TicketLine>,
    instances: Seq<TicketInstance>,
    rs: Seq<ResolvedLine>,
    replace: bool,
    upto: int,
)
    requires
        0 <= upto <= lines.len(),
        replace ==> all_requested(lines, rs),
    ensures
        spec_retain(lines, instances, rs, replace, upto) == (lines.subrange(0, upto), instances),
    decreases upto,
{
    if upto > 0 {
        lemma_retain_all(lines, instances, rs, replace, upto - 1);
        assert(lines.subrange(0, upto - 1).push(lines[upto - 1]) =~= lines.subrange(0, upto));
    } else {
        assert(lines.subrange(0, 0) =~= Seq::<TicketLine>::empty());
    }
}

/// The event fees that are kept are for events that have a line.
proof fn lemma_kept_covered(fees: Seq<EventFeeLine>, lines: Seq<TicketLine>, upto: int)
    requires
        0 <= upto <= fees.len(),
    ensures
        fees_covered(spec_kept_event_fees(fees, lines, upto), lines),
    decreases upto,
{
    if upto > 0 {
        lemma_kept_covered(fees, lines, upto - 1);
        let before = spec_kept_event_fees(fees, lines, upto - 1);
        let kept = spec_kept_event_fees(fees, lines, upto);
        assert forall|i: int| 0 <= i < kept.len() implies first_match(
            lines,
            line_of_event((#[trigger] kept[i]).event_id),
        ) is Some by {
            if i < before.len() {
                assert(kept[i] == before[i]);
            }
        }
    }
}

/// Event fees that are all for events with a line are all kept.
proof fn lemma_kept_all(fees: Seq<EventFeeLine>, lines: Seq<TicketLine>, upto: int)
    requires
        0 <= upto <= fees.len(),
        fees_covered(fees, lines),
    ensures
        spec_kept_event_fees(fees, lines, upto) == fees.subrange(0, upto),
    decreases upto,
{
    if upto > 0 {
        lemma_kept_all(fees, lines, upto - 1);
        assert(fees.subrange(0, upto - 1).push(fees[upto - 1]) =~= fees.subrange(0, upto));
    } else {
        assert(fees.subrange(0, 0) =~= Seq::<EventFeeLine>::empty());
    }
}

/// An element that is found stays found when another is added at the end.
proof fn lemma_found_after_push<T>(s: Seq<T>, p: spec_fn(T) -> bool, x: T)
    requires
        first_match(s, p) is Some,
    ensures
        first_match(s.push(x), p) is Some,
{
    lemma_first_match(s, p);
    let m = first_match(s, p)->0;
    assert(s.push(x)[m] == s[m]);
    lemma_some_match_has_first(s.push(x), p, m);
}

/// After the events of the first `upto` lines are seen to, every event fee
/// is for an event with a line, and every such event that has a flat fee
/// has its event fee.
proof fn lemma_added_complete(
    fees: Seq<EventFeeLine>,
    lines: Seq<TicketLine>,
    catalog: Catalog,
    next_id: int,
    upto: int,
)
    requires
        0 <= upto <= lines.len(),
        fees_covered(fees, lines),
    ensures
        fees_covered(spec_added_event_fees(fees, lines, catalog, next_id, upto).0, lines),
        fees_complete(
            spec_added_event_fees(fees, lines, catalog, next_id, upto).0,
            lines,
            catalog,
            upto,
        ),
    decreases upto,
{
    if upto > 0 {
        lemma_added_complete(fees, lines, catalog, next_id, upto - 1);
        let (acc, next) = spec_added_event_fees(fees, lines, catalog, next_id, upto - 1);
        let after = spec_added_event_fees(fees, lines, catalog, next_id, upto).0;
        let event_id = lines[upto - 1].event_id;
        let grows = spec_event_fee_for(catalog, event_id) is Some && first_match(
            acc,
            fee_of_event(event_id),
        ) is None;
        if grows {
            let x = after[acc.len() as int];
            assert(after == acc.push(x));
            lemma_some_match_has_first(lines, line_of_event(event_id), upto - 1);
            assert forall|i: int| 0 <= i < after.len() implies first_match(
                lines,
                line_of_event((#[trigger] after[i]).event_id),
            ) is Some by {
                if i < acc.len() {
                    assert(after[i] == acc[i]);
                }
            }
            assert forall|j: int|
                0 <= j < upto && j < lines.len() && spec_event_fee_for(
                    catalog,
                    (#[trigger] lines[j]).event_id,
                ) is Some implies first_match(after, fee_of_event(lines[j].event_id)) is Some by {
                if lines[j].event_id == event_id {
                    lemma_some_match_has_first(after, fee_of_event(event_id), acc.len() as int);
                } else {
                    lemma_found_after_push(acc, fee_of_event(lines[j].event_id), x);
                }
            }
        } else {
            assert(after == acc);
        }
    }
}

/// Where every event with a flat fee has its event fee, none is added.
proof fn lemma_added_none(
    fees: Seq<EventFeeLine>,
    lines: Seq<TicketLine>,
    catalog: Catalog,
    next_id: int,
    upto: int,
)
    requires
        0 <= upto <= lines.len(),
        fees_complete(fees, lines, catalog, lines.len() as int),
    ensures
        spec_added_event_fees(fees, lines, catalog, next_id, upto) == (fees, next_id),
    decreases upto,
{
    if upto > 0 {
        lemma_added_none(fees, lines, catalog, next_id, upto - 1);
        assert(spec_event_fee_for(catalog, lines[upto - 1].event_id) is Some ==> first_match(
            fees,
            fee_of_event(lines[upto - 1].event_id),
        ) is Some);
    }
}

/// The event fees that go with the lines are what they are brought to
/// again.
proof fn lemma_event_fees_settled(
    fees: Seq<EventFeeLine>,
    lines: Seq<TicketLine>,
    catalog: Catalog,
    box_office: bool,
    next_id: int,
)
    ensures
        spec_event_fees(
            spec_event_fees(fees, lines, catalog, box_office, next_id).0,
            lines,
            catalog,
            box_office,
            spec_event_fees(fees, lines, catalog, box_office, next_id).1,
        ) == spec_event_fees(fees, lines, catalog, box_office, next_id),
{
    if !box_office {
        let kept = spec_kept_event_fees(fees, lines, fees.len() as int);
        lemma_kept_covered(fees, lines, fees.len() as int);
        let (once, next) = spec_added_event_fees(kept, lines, catalog, next_id, lines.len() as int);
        lemma_added_complete(kept, lines, catalog, next_id, lines.len() as int);
        lemma_kept_all(once, lines, once.len() as int);
        assert(once.subrange(0, once.len() as int) =~= once);
        lemma_added_none(once, lines, catalog, next, lines.len() as int);
    }
}

/// Idempotence. A change of quantities whose requests are for distinct
/// pairs, made on an order that holds one line per pair, and made again
/// with the same requests at the same moment, leaves the order, its event
/// fees, the ledger and the id sequence as the first change left them: no
/// line and no fee is added twice.
pub proof fn law_update_twice_is_once(
    lines: Seq<TicketLine>,
    event_fees: Seq<EventFeeLine>,
    instances: Seq<TicketInstance>,
    next_id: int,
    catalog: Catalog,
    request: Seq<UpdateOrderItem>,
    box_office: bool,
    replace: bool,
    now: i64,
    until: i64,
)
    requires
        distinct_lines(lines),
        spec_update(
            OrderStatus::Draft,
            lines,
            event_fees,
            instances,
            next_id,
            catalog,
            request,
            box_office,
            replace,
            now,
            until,
        ) is Ok,
        distinct_requests(
            spec_resolve_all(catalog, request, box_office, now, request.len() as int)->Ok_0,
        ),
    ensures
        ({
            let once = spec_update(
                OrderStatus::Draft,
                lines,
                event_fees,
                instances,
                next_id,
                catalog,
                request,
                box_office,
                replace,
                now,
                until,
            )->Ok_0;
            &&& distinct_lines(once.lines)
            &&& spec_update(
                OrderStatus::Draft,
                once.lines,
                once.event_fees,
                once.instances,
                once.next_id,
                catalog,
                request,
                box_office,
                replace,
                now,
                until,
            ) == Ok::<UpdatedCart, EngineError>(once)
        }),
{
    let rs = spec_resolve_all(catalog, request, box_office, now, request.len() as int)->Ok_0;
    let (kept, inst) = spec_retain(lines, instances, rs, replace, lines.len() as int);
    lemma_retain_kept(lines, instances, rs, replace, lines.len() as int);
    let start = LineState { lines: kept, instances: inst, next_id };
    lemma_apply_lines_settles(start, rs, now, until, rs.len() as int);
    let applied = spec_apply_lines(start, rs, now, until, rs.len() as int)->0;
    let (fees, next) = spec_event_fees(event_fees, applied.lines, catalog, box_office, applied.next_id);
    // the second change
    lemma_retain_all(applied.lines, applied.instances, rs, replace, applied.lines.len() as int);
    assert(applied.lines.subrange(0, applied.lines.len() as int) =~= applied.lines);
    let again = LineState { lines: applied.lines, instances: applied.instances, next_id: next };
    lemma_apply_lines_settled(again, rs, now, until, rs.len() as int);
    lemma_event_fees_settled(event_fees, applied.lines, catalog, box_office, applied.next_id);
    lemma_event_fees_next(event_fees, applied.lines, catalog, box_office, applied.next_id, next);
}

/// The event fees that go with the lines do not depend on the next free id
/// once none is added.
proof fn lemma_event_fees_next(
    fees: Seq<EventFeeLine>,
    lines: Seq<TicketLine>,
    catalog: Catalog,
    box_office: bool,
    next_id: int,
    other: int,
)
    ensures
        ({
            let once = spec_event_fees(fees, lines, catalog, box_office, next_id);
            spec_event_fees(once.0, lines, catalog, box_office, other) == (once.0, other)
        }),
{
    if !box_office {
        let kept = spec_kept_event_fees(fees, lines, fees.len() as int);
        lemma_kept_covered(fees, lines, fees.len() as int);
        let (once, next) = spec_added_event_fees(kept, lines, catalog, next_id, lines.len() as int);
        lemma_added_complete(kept, lines, catalog, next_id, lines.len() as int);
        lemma_kept_all(once, lines, once.len() as int);
        assert(once.subrange(0, once.len() as int) =~= once);
        lemma_added_none(once, lines, catalog, other, lines.len() as int);
    }
}

// ---------------------------------------------------------------------------
// Event fees and the ledger
// ---------------------------------------------------------------------------
/// Event fees follow the lines. Once the event fees of an order that is
/// not at the box office are brought in line, there is one fee per event at
/// most, every fee is for an event that has a line, and every event that
/// has a line and a flat fee has its fee. At the box office there is none.
pub proof fn law_event_fees_follow_lines(
    fees: Seq<EventFeeLine>,
    lines: Seq<TicketLine>,
    catalog: Catalog,
    next_id: int,
)
    requires
        one_fee_per_event(fees),
    ensures
        one_fee_per_event(spec_event_fees(fees, lines, catalog, false, next_id).0),
        fees_covered(spec_event_fees(fees, lines, catalog, false, next_id).0, lines),
        fees_complete(
            spec_event_fees(fees, lines, catalog, false, next_id).0,
            lines,
            catalog,
            lines.len() as int,
        ),
        spec_event_fees(fees, lines, catalog, true, next_id).0.len() == 0,
{
    let kept = spec_kept_event_fees(fees, lines, fees.len() as int);
    lemma_kept_one_per_event(fees, lines, fees.len() as int);
    lemma_kept_covered(fees, lines, fees.len() as int);
    lemma_added_one_per_event(kept, lines, catalog, next_id, lines.len() as int);
    lemma_added_complete(kept, lines, catalog, next_id, lines.len() as int);
}

/// The instance is held for a line item of another order: it is linked to
/// an item that was given its id before and is none of the lines, and it
/// cannot be claimed.
pub open spec fn held_elsewhere(
    t: TicketInstance,
    lines: Seq<TicketLine>,
    next_id: int,
    now: i64,
) -> bool {
    &&& t.order_item_id is Some
    &&& t.order_item_id->0 < next_id
    &&& forall|k: int| 0 <= k < lines.len() ==> (#[trigger] lines[k]).id != t.order_item_id->0
    &&& !crate::inventory::claimable(t, t.ticket_type_id, now)
}

/// Every line has the id of one of the lines `old`, or an id given since
/// `first_id`.
pub open spec fn ids_known(
    lines: Seq<TicketLine>,
    old: Seq<TicketLine>,
    first_id: int,
    next_id: int,
) -> bool {
    forall|k: int|
        0 <= k < lines.len() ==> (first_id <= (#[trigger] lines[k]).id < next_id) || exists|j: int|
            0 <= j < old.len() && old[j].id == lines[k].id
}

/// Reconciling a request leaves an instance that is held elsewhere as it
/// is, and takes ids for new lines from the sequence only.
proof fn lemma_apply_line_spares(
    s: LineState,
    r: ResolvedLine,
    now: i64,
    until: i64,
    old: Seq<TicketLine>,
    first_id: int,
    i: int,
)
    requires
        0 <= first_id <= s.next_id,
        s.next_id + 2 <= u128::MAX,
        ids_known(s.lines, old, first_id, s.next_id),
        0 <= i < s.instances.len(),
        held_elsewhere(s.instances[i], old, first_id, now),
        spec_apply_line(s, r, now, until) is Some,
    ensures
        spec_apply_line(s, r, now, until)->0.instances.len() == s.instances.len(),
        spec_apply_line(s, r, now, until)->0.instances[i] == s.instances[i],
        s.next_id <= spec_apply_line(s, r, now, until)->0.next_id <= s.next_id + 2,
        ids_known(
            spec_apply_line(s, r, now, until)->0.lines,
            old,
            first_id,
            spec_apply_line(s, r, now, until)->0.next_id,
        ),
{
    let t = spec_apply_line(s, r, now, until)->0;
    lemma_first_match(s.lines, line_for_request(r));
    match first_match(s.lines, line_for_request(r)) {
        Some(m) => {
            if r.quantity == 0 {
                assert forall|k: int| 0 <= k < t.lines.len() implies (first_id <= (
                #[trigger] t.lines[k]).id < t.next_id) || exists|j: int|
                    0 <= j < old.len() && old[j].id == t.lines[k].id by {
                    let k0 = if k < m {
                        k
                    } else {
                        k + 1
                    };
                    assert(t.lines[k] == s.lines[k0]);
                }
            } else {
                assert forall|k: int| 0 <= k < t.lines.len() implies (first_id <= (
                #[trigger] t.lines[k]).id < t.next_id) || exists|j: int|
                    0 <= j < old.len() && old[j].id == t.lines[k].id by {
                    assert(t.lines[k].id == s.lines[k].id);
                }
            }
        },
        None => {
            if r.quantity > 0 {
                assert forall|k: int| 0 <= k < t.lines.len() implies (first_id <= (
                #[trigger] t.lines[k]).id < t.next_id) || exists|j: int|
                    0 <= j < old.len() && old[j].id == t.lines[k].id by {
                    if k < s.lines.len() {
                        assert(t.lines[k] == s.lines[k]);
                    }
                }
            }
        },
    }
}

/// Reconciling requests leaves an instance that is held elsewhere as it is.
proof fn lemma_apply_lines_spares(
    s: LineState,
    rs: Seq<ResolvedLine>,
    now: i64,
    until: i64,
    old: Seq<TicketLine>,
    first_id: int,
    i: int,
    upto: int,
)
    requires
        0 <= upto <= rs.len(),
        0 <= first_id == s.next_id,
        first_id + 2 * rs.len() <= u128::MAX,
        ids_known(s.lines, old, first_id, first_id),
        0 <= i < s.instances.len(),
        held_elsewhere(s.instances[i], old, first_id, now),
        spec_apply_lines(s, rs, now, until, upto) is Some,
    ensures
        spec_apply_lines(s, rs, now, until, upto)->0.instances.len() == s.instances.len(),
        spec_apply_lines(s, rs, now, until, upto)->0.instances[i] == s.instances[i],
        first_id <= spec_apply_lines(s, rs, now, until, upto)->0.next_id <= first_id + 2 * upto,
        ids_known(
            spec_apply_lines(s, rs, now, until, upto)->0.lines,
            old,
            first_id,
            spec_apply_lines(s, rs, now, until, upto)->0.next_id,
        ),
    decreases upto,
{
    if upto > 0 {
        let before = spec_apply_lines(s, rs, now, until, upto - 1);
        assert(before is Some);
        lemma_apply_lines_spares(s, rs, now, until, old, first_id, i, upto - 1);
        lemma_apply_line_spares(before->0, rs[upto - 1], now, until, old, first_id, i);
    }
}

/// Dropping lines leaves an instance that is held elsewhere as it is.
proof fn lemma_retain_spares(
    lines: Seq<TicketLine>,
    instances: Seq<TicketInstance>,
    rs: Seq<ResolvedLine>,
    replace: bool,
    next_id: int,
    now: i64,
    i: int,
    upto: int,
)
    requires
        0 <= upto <= lines.len(),
        0 <= i < instances.len(),
        held_elsewhere(instances[i], lines, next_id, now),
    ensures
        spec_retain(lines, instances, rs, replace, upto).1.len() == instances.len(),
        spec_retain(lines, instances, rs, replace, upto).1[i] == instances[i],
    decreases upto,
{
    if upto > 0 {
        lemma_retain_spares(lines, instances, rs, replace, next_id, now, i, upto - 1);
    }
}

/// No interference between orders. A change of the quantities of an order
/// leaves every instance as it is that is held for a line item of another
/// order: one that is linked to an item which is none of the order's and
/// whose reservation has not lapsed.
pub proof fn law_update_spares_other_orders(
    lines: Seq<TicketLine>,
    event_fees: Seq<EventFeeLine>,
    instances: Seq<TicketInstance>,
    next_id: int,
    catalog: Catalog,
    request: Seq<UpdateOrderItem>,
    box_office: bool,
    replace: bool,
    now: i64,
    until: i64,
    i: int,
)
    requires
        0 <= next_id,
        next_id + 2 * request.len() <= u128::MAX,
        0 <= i < instances.len(),
        held_elsewhere(instances[i], lines, next_id, now),
        spec_update(
            OrderStatus::Draft,
            lines,
            event_fees,
            instances,
            next_id,
            catalog,
            request,
            box_office,
            replace,
            now,
            until,
        ) is Ok,
    ensures
        spec_update(
            OrderStatus::Draft,
            lines,
            event_fees,
            instances,
            next_id,
            catalog,
            request,
            box_office,
            replace,
            now,
            until,
        )->Ok_0.instances.len() == instances.len(),
        spec_update(
            OrderStatus::Draft,
            lines,
            event_fees,
            instances,
            next_id,
            catalog,
            request,
            box_office,
            replace,
            now,
            until,
        )->Ok_0.instances[i] == instances[i],
{
    let rs = spec_resolve_all(catalog, request, box_office, now, request.len() as int)->Ok_0;
    lemma_resolve_all_each(catalog, request, box_office, now, request.len() as int);
    let (kept, inst) = spec_retain(lines, instances, rs, replace, lines.len() as int);
    lemma_retain_kept(lines, instances, rs, replace, lines.len() as int);
    lemma_retain_spares(lines, instances, rs, replace, next_id, now, i, lines.len() as int);
    let start = LineState { lines: kept, instances: inst, next_id };
    assert forall|k: int| 0 <= k < kept.len() implies (next_id <= (#[trigger] kept[k]).id < next_id)
        || exists|j: int| 0 <= j < lines.len() && lines[j].id == kept[k].id by {
        let j = choose|j: int| 0 <= j < lines.len() && kept[k] == lines[j];
        assert(lines[j].id == kept[k].id);
    }
    lemma_apply_lines_spares(start, rs, now, until, lines, next_id, i, rs.len() as int);
}

// ---------------------------------------------------------------------------
// Item ids
// ---------------------------------------------------------------------------
/// Every line has the id of one of the lines `old`, or an id given since
/// `first_id`; either way its two item ids lie below `next_id`.
pub open spec fn lines_issued(
    lines: Seq<TicketLine>,
    old: Seq<TicketLine>,
    first_id: int,
    next_id: int,
) -> bool {
    &&& forall|k: int| 0 <= k < lines.len() ==> (#[trigger] lines[k]).id + 1 < next_id
    &&& ids_known(lines, old, first_id, next_id)
}

/// Reconciling a request keeps the item ids of the lines apart, and takes
/// the ids of a new line from the sequence.
proof fn lemma_apply_line_ids(
    s: LineState,
    r: ResolvedLine,
    now: i64,
    until: i64,
    old: Seq<TicketLine>,
    first_id: int,
)
    requires
        0 <= first_id <= s.next_id,
        s.next_id + 2 <= u128::MAX,
        lines_apart(s.lines),
        lines_issued(s.lines, old, first_id, s.next_id),
        spec_apply_line(s, r, now, until) is Some,
    ensures
        lines_apart(spec_apply_line(s, r, now, until)->0.lines),
        lines_issued(
            spec_apply_line(s, r, now, until)->0.lines,
            old,
            first_id,
            spec_apply_line(s, r, now, until)->0.next_id,
        ),
        s.next_id <= spec_apply_line(s, r, now, until)->0.next_id <= s.next_id + 2,
{
    let t = spec_apply_line(s, r, now, until)->0;
    lemma_first_match(s.lines, line_for_request(r));
    match first_match(s.lines, line_for_request(r)) {
        Some(m) => {
            if r.quantity == 0 {
                assert forall|k: int| 0 <= k < t.lines.len() implies exists|k0: int|
                    0 <= k0 < s.lines.len() && #[trigger] t.lines[k] == s.lines[k0] && (k0 == k
                        || k0 == k + 1) by {
                    let k0 = if k < m {
                        k
                    } else {
                        k + 1
                    };
                    assert(t.lines[k] == s.lines[k0]);
                }
                assert forall|a: int, b: int|
                    0 <= a < t.lines.len() && 0 <= b < t.lines.len() && a != b implies (
                #[trigger] t.lines[a]).id != (#[trigger] t.lines[b]).id && t.lines[a].id
                    != t.lines[b].id + 1 by {
                    let a0 = if a < m {
                        a
                    } else {
                        a + 1
                    };
                    let b0 = if b < m {
                        b
                    } else {
                        b + 1
                    };
                    assert(t.lines[a] == s.lines[a0]);
                    assert(t.lines[b] == s.lines[b0]);
                }
                assert forall|k: int| 0 <= k < t.lines.len() implies (#[trigger] t.lines[k]).id + 1
                    < t.next_id by {
                    let k0 = if k < m {
                        k
                    } else {
                        k + 1
                    };
                    assert(t.lines[k] == s.lines[k0]);
                }
                assert forall|k: int| 0 <= k < t.lines.len() implies (first_id <= (
                #[trigger] t.lines[k]).id < t.next_id) || exists|j: int|
                    0 <= j < old.len() && old[j].id == t.lines[k].id by {
                    let k0 = if k < m {
                        k
                    } else {
                        k + 1
                    };
                    assert(t.lines[k] == s.lines[k0]);
                }
            } else {
                assert forall|a: int, b: int|
                    0 <= a < t.lines.len() && 0 <= b < t.lines.len() && a != b implies (
                #[trigger] t.lines[a]).id != (#[trigger] t.lines[b]).id && t.lines[a].id
                    != t.lines[b].id + 1 by {
                    assert(t.lines[a].id == s.lines[a].id);
                    assert(t.lines[b].id == s.lines[b].id);
                }
                assert forall|k: int| 0 <= k < t.lines.len() implies (#[trigger] t.lines[k]).id + 1
                    < t.next_id by {
                    assert(t.lines[k].id == s.lines[k].id);
                }
                assert forall|k: int| 0 <= k < t.lines.len() implies (first_id <= (
                #[trigger] t.lines[k]).id < t.next_id) || exists|j: int|
                    0 <= j < old.len() && old[j].id == t.lines[k].id by {
                    assert(t.lines[k].id == s.lines[k].id);
                }
            }
        },
        None => {
            if r.quantity > 0 {
                let n = s.lines.len() as int;
                assert(t.lines[n].id == s.next_id);
                assert forall|a: int, b: int|
                    0 <= a < t.lines.len() && 0 <= b < t.lines.len() && a != b implies (
                #[trigger] t.lines[a]).id != (#[trigger] t.lines[b]).id && t.lines[a].id
                    != t.lines[b].id + 1 by {
                    if a < n {
                        assert(t.lines[a] == s.lines[a]);
                    }
                    if b < n {
                        assert(t.lines[b] == s.lines[b]);
                    }
                }
                assert forall|k: int| 0 <= k < t.lines.len() implies (#[trigger] t.lines[k]).id + 1
                    < t.next_id by {
                    if k < n {
                        assert(t.lines[k] == s.lines[k]);
                    }
                }
                assert forall|k: int| 0 <= k < t.lines.len() implies (first_id <= (
                #[trigger] t.lines[k]).id < t.next_id) || exists|j: int|
                    0 <= j < old.len() && old[j].id == t.lines[k].id by {
                    if k < n {
                        assert(t.lines[k] == s.lines[k]);
                    }
                }
            }
        },
    }
}

/// Reconciling requests keeps the item ids of the lines apart.
proof fn lemma_apply_lines_ids(
    s: LineState,
    rs: Seq<ResolvedLine>,
    now: i64,
    until: i64,
    old: Seq<TicketLine>,
    upto: int,
)
    requires
        0 <= upto <= rs.len(),
        0 <= s.next_id,
        s.next_id + 2 * rs.len() <= u128::MAX,
        lines_apart(s.lines),
        lines_issued(s.lines, old, s.next_id, s.next_id),
        spec_apply_lines(s, rs, now, until, upto) is Some,
    ensures
        lines_apart(spec_apply_lines(s, rs, now, until, upto)->0.lines),
        lines_issued(
            spec_apply_lines(s, rs, now, until, upto)->0.lines,
            old,
            s.next_id,
            spec_apply_lines(s, rs, now, until, upto)->0.next_id,
        ),
        s.next_id <= spec_apply_lines(s, rs, now, until, upto)->0.next_id <= s.next_id + 2 * upto,
    decreases upto,
{
    if upto > 0 {
        let before = spec_apply_lines(s, rs, now, until, upto - 1);
        assert(before is Some);
        lemma_apply_lines_ids(s, rs, now, until, old, upto - 1);
        lemma_apply_line_ids(before->0, rs[upto - 1], now, until, old, s.next_id);
    }
}

/// The event fees after the events of the lines are seen to: the fees
/// there were, each in its place, followed by fees under ids given since
/// `next_id`, one after the other.
proof fn lemma_added_fee_ids(
    fees: Seq<EventFeeLine>,
    lines: Seq<TicketLine>,
    catalog: Catalog,
    next_id: int,
    upto: int,
)
    requires
        0 <= upto <= lines.len(),
        0 <= next_id,
        next_id + lines.len() <= u128::MAX,
    ensures
        ({
            let (after, next) = spec_added_event_fees(fees, lines, catalog, next_id, upto);
            &&& after.len() >= fees.len()
            &&& next == next_id + (after.len() - fees.len())
            &&& next <= next_id + upto
            &&& forall|k: int| 0 <= k < fees.len() ==> #[trigger] after[k] == fees[k]
            &&& forall|k: int|
                fees.len() <= k < after.len() ==> (#[trigger] after[k]).id == next_id + (k
                    - fees.len())
        }),
    decreases upto,
{
    if upto > 0 {
        lemma_added_fee_ids(fees, lines, catalog, next_id, upto - 1);
        let (acc, n) = spec_added_event_fees(fees, lines, catalog, next_id, upto - 1);
        let (after, next) = spec_added_event_fees(fees, lines, catalog, next_id, upto);
        if after.len() > acc.len() {
            assert(after[acc.len() as int].id == n);
            assert forall|k: int| 0 <= k < fees.len() implies #[trigger] after[k] == fees[k] by {
                assert(after[k] == acc[k]);
            }
            assert forall|k: int| fees.len() <= k < after.len() implies (#[trigger] after[k]).id
                == next_id + (k - fees.len()) by {
                if k < acc.len() {
                    assert(after[k] == acc[k]);
                }
            }
        }
    }
}

/// What a change of quantities leaves has no two line items under one id,
/// and all of its ids were given out by the sequence, where that held of
/// the order before.
pub proof fn lemma_update_keeps_ids(
    lines: Seq<TicketLine>,
    event_fees: Seq<EventFeeLine>,
    instances: Seq<TicketInstance>,
    next_id: int,
    catalog: Catalog,
    request: Seq<UpdateOrderItem>,
    box_office: bool,
    replace: bool,
    now: i64,
    until: i64,
)
    requires
        0 <= next_id,
        next_id + 3 * (lines.len() + request.len()) <= u128::MAX,
        item_ids_distinct(lines, event_fees),
        one_fee_per_event(event_fees),
        ids_below(lines, event_fees, next_id),
        spec_update(
            OrderStatus::Draft,
            lines,
            event_fees,
            instances,
            next_id,
            catalog,
            request,
            box_office,
            replace,
            now,
            until,
        ) is Ok,
    ensures
        ({
            let updated = spec_update(
                OrderStatus::Draft,
                lines,
                event_fees,
                instances,
                next_id,
                catalog,
                request,
                box_office,
                replace,
                now,
                until,
            )->Ok_0;
            &&& item_ids_distinct(updated.lines, updated.event_fees)
            &&& ids_below(updated.lines, updated.event_fees, updated.next_id)
            &&& next_id <= updated.next_id <= next_id + 3 * (lines.len() + request.len())
            &&& ids_taken_from(
                updated.lines,
                updated.event_fees,
                lines,
                event_fees,
                next_id,
                updated.next_id,
            )
        }),
{
    let rs = spec_resolve_all(catalog, request, box_office, now, request.len() as int)->Ok_0;
    lemma_resolve_all_each(catalog, request, box_office, now, request.len() as int);
    let (kept, inst) = spec_retain(lines, instances, rs, replace, lines.len() as int);
    lemma_retain_kept(lines, instances, rs, replace, lines.len() as int);
    lemma_retain_order(lines, instances, rs, replace, lines.len() as int);
    let start = LineState { lines: kept, instances: inst, next_id };
    // what stays of the lines is apart and was given out before
    assert forall|a: int, b: int|
        0 <= a < kept.len() && 0 <= b < kept.len() && a != b implies (#[trigger] kept[a]).id != (
    #[trigger] kept[b]).id && kept[a].id != kept[b].id + 1 by {
        let ja = retained_from(lines, instances, rs, replace, lines.len() as int, a);
        let jb = retained_from(lines, instances, rs, replace, lines.len() as int, b);
        assert(kept[a] == lines[ja]);
        assert(kept[b] == lines[jb]);
        if a < b {
            lemma_retained_from_increases(lines, instances, rs, replace, lines.len() as int, a, b);
        } else {
            lemma_retained_from_increases(lines, instances, rs, replace, lines.len() as int, b, a);
        }
    }
    assert forall|k: int| 0 <= k < kept.len() implies (#[trigger] kept[k]).id + 1 < next_id by {
        let j = retained_from(lines, instances, rs, replace, lines.len() as int, k);
        assert(kept[k] == lines[j]);
    }
    assert forall|k: int| 0 <= k < kept.len() implies (next_id <= (#[trigger] kept[k]).id < next_id)
        || exists|j: int| 0 <= j < lines.len() && lines[j].id == kept[k].id by {
        let j = retained_from(lines, instances, rs, replace, lines.len() as int, k);
        assert(lines[j].id == kept[k].id);
    }
    lemma_apply_lines_ids(start, rs, now, until, lines, rs.len() as int);
    let applied = spec_apply_lines(start, rs, now, until, rs.len() as int)->0;
    lemma_apply_lines_len(start, rs, now, until, rs.len() as int);
    if !box_office {
        let kept_fees = spec_kept_event_fees(event_fees, applied.lines, event_fees.len() as int);
        lemma_kept_one_per_event(event_fees, applied.lines, event_fees.len() as int);
        lemma_kept_fees_order(event_fees, applied.lines, event_fees.len() as int);
        lemma_added_fee_ids(
            kept_fees,
            applied.lines,
            catalog,
            applied.next_id,
            applied.lines.len() as int,
        );
        let (after, next) = spec_added_event_fees(
            kept_fees,
            applied.lines,
            catalog,
            applied.next_id,
            applied.lines.len() as int,
        );
        // every fee that stays is one of the fees before: under an id below
        // `next_id`, apart from the other fees and from the lines before
        assert forall|k: int| 0 <= k < kept_fees.len() implies (#[trigger] kept_fees[k]).id
            < next_id && forall|j: int|
            0 <= j < lines.len() ==> kept_fees[k].id != (#[trigger] lines[j]).id && kept_fees[k].id
                != lines[j].id + 1 by {
            let j0 = kept_fee_from(event_fees, applied.lines, event_fees.len() as int, k);
            assert(kept_fees[k] == event_fees[j0]);
        }
        assert forall|a: int, b: int| 0 <= a < b < after.len() implies (#[trigger] after[a]).id != (
        #[trigger] after[b]).id by {
            if b < kept_fees.len() {
                let ja = kept_fee_from(event_fees, applied.lines, event_fees.len() as int, a);
                let jb = kept_fee_from(event_fees, applied.lines, event_fees.len() as int, b);
                lemma_kept_fee_from_increases(
                    event_fees,
                    applied.lines,
                    event_fees.len() as int,
                    a,
                    b,
                );
                assert(after[a] == kept_fees[a]);
                assert(after[b] == kept_fees[b]);
                assert(kept_fees[a] == event_fees[ja]);
                assert(kept_fees[b] == event_fees[jb]);
            } else if a < kept_fees.len() {
                assert(after[a] == kept_fees[a]);
            }
        }
        assert forall|a: int, b: int|
            0 <= a < applied.lines.len() && 0 <= b < after.len() implies (#[trigger] after[b]).id
            != (#[trigger] applied.lines[a]).id && after[b].id != applied.lines[a].id + 1 by {
            if b < kept_fees.len() {
                assert(after[b] == kept_fees[b]);
                if !(next_id <= applied.lines[a].id < applied.next_id) {
                    let j = choose|j: int|
                        0 <= j < lines.len() && lines[j].id == applied.lines[a].id;
                    assert(kept_fees[b].id != lines[j].id);
                }
            }
        }
        assert forall|k: int| 0 <= k < after.len() implies (#[trigger] after[k]).id < next by {
            if k < kept_fees.len() {
                assert(after[k] == kept_fees[k]);
            }
        }
        assert forall|id: int| #[trigger] owns_id(applied.lines, after, id) implies owns_id(
            lines,
            event_fees,
            id,
        ) || next_id <= id < next by {
            if exists|i: int|
                0 <= i < applied.lines.len() && (id == (#[trigger] applied.lines[i]).id || id
                    == applied.lines[i].id + 1) {
                let i = choose|i: int|
                    0 <= i < applied.lines.len() && (id == (#[trigger] applied.lines[i]).id || id
                        == applied.lines[i].id + 1);
                if !(next_id <= applied.lines[i].id < applied.next_id) {
                    let j = choose|j: int|
                        0 <= j < lines.len() && lines[j].id == applied.lines[i].id;
                    assert(id == lines[j].id || id == lines[j].id + 1);
                }
            } else {
                let i = choose|i: int| 0 <= i < after.len() && id == (#[trigger] after[i]).id;
                if i < kept_fees.len() {
                    assert(after[i] == kept_fees[i]);
                    let j0 = kept_fee_from(event_fees, applied.lines, event_fees.len() as int, i);
                    assert(kept_fees[i] == event_fees[j0]);
                }
            }
        }
    } else {
        let none = Seq::<EventFeeLine>::empty();
        assert forall|id: int| #[trigger] owns_id(applied.lines, none, id) implies owns_id(
            lines,
            event_fees,
            id,
        ) || next_id <= id < applied.next_id by {
            let i = choose|i: int|
                0 <= i < applied.lines.len() && (id == (#[trigger] applied.lines[i]).id || id
                    == applied.lines[i].id + 1);
            if !(next_id <= applied.lines[i].id < applied.next_id) {
                let j = choose|j: int| 0 <= j < lines.len() && lines[j].id == applied.lines[i].id;
                assert(id == lines[j].id || id == lines[j].id + 1);
            }
        }
    }
}

/// Reconciling a request adds one line at most.
proof fn lemma_apply_lines_len(
    s: LineState,
    rs: Seq<ResolvedLine>,
    now: i64,
    until: i64,
    upto: int,
)
    requires
        0 <= upto <= rs.len(),
        spec_apply_lines(s, rs, now, until, upto) is Some,
    ensures
        spec_apply_lines(s, rs, now, until, upto)->0.lines.len() <= s.lines.len() + upto,
    decreases upto,
{
    if upto > 0 {
        let before = spec_apply_lines(s, rs, now, until, upto - 1);
        assert(before is Some);
        lemma_apply_lines_len(s, rs, now, until, upto - 1);
        lemma_first_match(before->0.lines, line_for_request(rs[upto - 1]));
    }
}

/// The place among the lines of the line that stays at `a`.
pub open spec fn retained_from(
    lines: Seq<TicketLine>,
    instances: Seq<TicketInstance>,
    rs: Seq<ResolvedLine>,
    replace: bool,
    upto: int,
    a: int,
) -> int
    decreases upto,
{
    if upto <= 0 {
        0
    } else {
        let before = spec_retain(lines, instances, rs, replace, upto - 1).0;
        if a < before.len() {
            retained_from(lines, instances, rs, replace, upto - 1, a)
        } else {
            upto - 1
        }
    }
}

/// What stays of the lines stays in its order: the line at `a` is the line
/// at its place among the lines.
proof fn lemma_retain_order(
    lines: Seq<TicketLine>,
    instances: Seq<TicketInstance>,
    rs: Seq<ResolvedLine>,
    replace: bool,
    upto: int,
)
    requires
        0 <= upto <= lines.len(),
    ensures
        spec_retain(lines, instances, rs, replace, upto).0.len() <= upto,
        forall|a: int|
            0 <= a < spec_retain(lines, instances, rs, replace, upto).0.len() ==> 0
                <= #[trigger] retained_from(lines, instances, rs, replace, upto, a) < upto
                && spec_retain(lines, instances, rs, replace, upto).0[a] == lines[retained_from(
                lines,
                instances,
                rs,
                replace,
                upto,
                a,
            )],
    decreases upto,
{
    if upto > 0 {
        lemma_retain_order(lines, instances, rs, replace, upto - 1);
        let before = spec_retain(lines, instances, rs, replace, upto - 1).0;
        let kept = spec_retain(lines, instances, rs, replace, upto).0;
        assert forall|a: int| 0 <= a < kept.len() implies 0 <= #[trigger] retained_from(
            lines,
            instances,
            rs,
            replace,
            upto,
            a,
        ) < upto && kept[a] == lines[retained_from(lines, instances, rs, replace, upto, a)] by {
            if a < before.len() {
                assert(kept[a] == before[a]);
                assert(retained_from(lines, instances, rs, replace, upto - 1, a) < upto - 1);
            }
        }
    }
}

/// Lines that stay come from different places.
proof fn lemma_retained_from_increases(
    lines: Seq<TicketLine>,
    instances: Seq<TicketInstance>,
    rs: Seq<ResolvedLine>,
    replace: bool,
    upto: int,
    a: int,
    b: int,
)
    requires
        0 <= upto <= lines.len(),
        0 <= a < b < spec_retain(lines, instances, rs, replace, upto).0.len(),
    ensures
        retained_from(lines, instances, rs, replace, upto, a) < retained_from(
            lines,
            instances,
            rs,
            replace,
            upto,
            b,
        ),
    decreases upto,
{
    if upto > 0 {
        lemma_retain_order(lines, instances, rs, replace, upto - 1);
        let before = spec_retain(lines, instances, rs, replace, upto - 1).0;
        if b < before.len() {
            lemma_retained_from_increases(lines, instances, rs, replace, upto - 1, a, b);
        } else {
            assert(retained_from(lines, instances, rs, replace, upto - 1, a) < upto - 1);
        }
    }
}

/// The place among the event fees of the fee that is kept at `a`.
pub open spec fn kept_fee_from(
    fees: Seq<EventFeeLine>,
    lines: Seq<TicketLine>,
    upto: int,
    a: int,
) -> int
    decreases upto,
{
    if upto <= 0 {
        0
    } else {
        let before = spec_kept_event_fees(fees, lines, upto - 1);
        if a < before.len() {
            kept_fee_from(fees, lines, upto - 1, a)
        } else {
            upto - 1
        }
    }
}

/// The event fees that are kept stay in their order.
proof fn lemma_kept_fees_order(fees: Seq<EventFeeLine>, lines: Seq<TicketLine>, upto: int)
    requires
        0 <= upto <= fees.len(),
    ensures
        spec_kept_event_fees(fees, lines, upto).len() <= upto,
        forall|a: int|
            0 <= a < spec_kept_event_fees(fees, lines, upto).len() ==> 0 <= #[trigger] kept_fee_from(
                fees,
                lines,
                upto,
                a,
            ) < upto && spec_kept_event_fees(fees, lines, upto)[a] == fees[kept_fee_from(
                fees,
                lines,
                upto,
                a,
            )],
    decreases upto,
{
    if upto > 0 {
        lemma_kept_fees_order(fees, lines, upto - 1);
        let before = spec_kept_event_fees(fees, lines, upto - 1);
        let kept = spec_kept_event_fees(fees, lines, upto);
        assert forall|a: int| 0 <= a < kept.len() implies 0 <= #[trigger] kept_fee_from(
            fees,
            lines,
            upto,
            a,
        ) < upto && kept[a] == fees[kept_fee_from(fees, lines, upto, a)] by {
            if a < before.len() {
                assert(kept[a] == before[a]);
                assert(kept_fee_from(fees, lines, upto - 1, a) < upto - 1);
            }
        }
    }
}

/// Event fees that are kept come from different places.
proof fn lemma_kept_fee_from_increases(
    fees: Seq<EventFeeLine>,
    lines: Seq<TicketLine>,
    upto: int,
    a: int,
    b: int,
)
    requires
        0 <= upto <= fees.len(),
        0 <= a < b < spec_kept_event_fees(fees, lines, upto).len(),
    ensures
        kept_fee_from(fees, lines, upto, a) < kept_fee_from(fees, lines, upto, b),
    decreases upto,
{
    if upto > 0 {
        lemma_kept_fees_order(fees, lines, upto - 1);
        let before = spec_kept_event_fees(fees, lines, upto - 1);
        if b < before.len() {
            lemma_kept_fee_from_increases(fees, lines, upto - 1, a, b);
        } else {
            assert(kept_fee_from(fees, lines, upto - 1, a) < upto - 1);
        }
    }
}

/// Lines and event fees picked from those of an order, no line and no fee
/// twice, have no two line items under one id, and their ids were given
/// out when those of the order were.
pub proof fn lemma_picked_ids_apart(
    lines: Seq<TicketLine>,
    fees: Seq<EventFeeLine>,
    picked_lines: Seq<TicketLine>,
    picked_fees: Seq<EventFeeLine>,
)
    requires
        item_ids_distinct(lines, fees),
        distinct_lines(picked_lines),
        one_fee_per_event(picked_fees),
        forall|a: int|
            0 <= a < picked_lines.len() ==> exists|j: int|
                0 <= j < lines.len() && #[trigger] picked_lines[a] == lines[j],
        forall|a: int|
            0 <= a < picked_fees.len() ==> exists|j: int|
                0 <= j < fees.len() && #[trigger] picked_fees[a] == fees[j],
    ensures
        item_ids_distinct(picked_lines, picked_fees),
        forall|next: int|
            ids_below(lines, fees, next) ==> #[trigger] ids_below(picked_lines, picked_fees, next),
        forall|id: int| owns_id(picked_lines, picked_fees, id) ==> #[trigger] owns_id(lines, fees, id),
{
    assert forall|id: int| owns_id(picked_lines, picked_fees, id) implies #[trigger] owns_id(
        lines,
        fees,
        id,
    ) by {
        if exists|i: int|
            0 <= i < picked_lines.len() && (id == (#[trigger] picked_lines[i]).id || id
                == picked_lines[i].id + 1) {
            let i = choose|i: int|
                0 <= i < picked_lines.len() && (id == (#[trigger] picked_lines[i]).id || id
                    == picked_lines[i].id + 1);
            let j = choose|j: int| 0 <= j < lines.len() && picked_lines[i] == lines[j];
            assert(id == lines[j].id || id == lines[j].id + 1);
        } else {
            let i = choose|i: int| 0 <= i < picked_fees.len() && id == (#[trigger] picked_fees[i]).id;
            let j = choose|j: int| 0 <= j < fees.len() && picked_fees[i] == fees[j];
            assert(id == fees[j].id);
        }
    }
    assert forall|a: int, b: int|
        0 <= a < picked_lines.len() && 0 <= b < picked_lines.len() && a != b implies (
    #[trigger] picked_lines[a]).id != (#[trigger] picked_lines[b]).id && picked_lines[a].id
        != picked_lines[b].id + 1 by {
        let ja = choose|j: int| 0 <= j < lines.len() && picked_lines[a] == lines[j];
        let jb = choose|j: int| 0 <= j < lines.len() && picked_lines[b] == lines[j];
        if a < b {
            assert(!line_pair(picked_lines[a], picked_lines[b]));
        } else {
            assert(!line_pair(picked_lines[b], picked_lines[a]));
        }
        assert(ja != jb);
        assert(lines[ja].id != lines[jb].id && lines[ja].id != lines[jb].id + 1);
    }
    assert forall|a: int, b: int| 0 <= a < b < picked_fees.len() implies (
    #[trigger] picked_fees[a]).id != (#[trigger] picked_fees[b]).id by {
        let ja = choose|j: int| 0 <= j < fees.len() && picked_fees[a] == fees[j];
        let jb = choose|j: int| 0 <= j < fees.len() && picked_fees[b] == fees[j];
        assert(picked_fees[a].event_id != picked_fees[b].event_id);
        assert(ja != jb);
        if ja < jb {
            assert(fees[ja].id != fees[jb].id);
        } else {
            assert(fees[jb].id != fees[ja].id);
        }
    }
    assert forall|a: int, b: int|
        0 <= a < picked_lines.len() && 0 <= b < picked_fees.len() implies (
    #[trigger] picked_fees[b]).id != (#[trigger] picked_lines[a]).id && picked_fees[b].id
        != picked_lines[a].id + 1 by {
        let ja = choose|j: int| 0 <= j < lines.len() && picked_lines[a] == lines[j];
        let jb = choose|j: int| 0 <= j < fees.len() && picked_fees[b] == fees[j];
        assert(fees[jb].id != lines[ja].id && fees[jb].id != lines[ja].id + 1);
    }
    assert forall|next: int| ids_below(lines, fees, next) implies #[trigger] ids_below(
        picked_lines,
        picked_fees,
        next,
    ) by {
        assert forall|i: int| 0 <= i < picked_lines.len() implies (#[trigger] picked_lines[i]).id
            + 1 < next by {
            let j = choose|j: int| 0 <= j < lines.len() && picked_lines[i] == lines[j];
            assert(lines[j].id + 1 < next);
        }
        assert forall|i: int| 0 <= i < picked_fees.len() implies (#[trigger] picked_fees[i]).id
            < next by {
            let j = choose|j: int| 0 <= j < fees.len() && picked_fees[i] == fees[j];
            assert(fees[j].id < next);
        }
    }
}

/// What stays of lines whose item ids are apart has its item ids apart.
pub proof fn lemma_retain_apart(
    lines: Seq<TicketLine>,
    instances: Seq<TicketInstance>,
    rs: Seq<ResolvedLine>,
    replace: bool,
)
    requires
        lines_apart(lines),
    ensures
        lines_apart(spec_retain(lines, instances, rs, replace, lines.len() as int).0),
{
    let kept = spec_retain(lines, instances, rs, replace, lines.len() as int).0;
    lemma_retain_order(lines, instances, rs, replace, lines.len() as int);
    assert forall|a: int, b: int|
        0 <= a < kept.len() && 0 <= b < kept.len() && a != b implies (#[trigger] kept[a]).id != (
    #[trigger] kept[b]).id && kept[a].id != kept[b].id + 1 by {
        let ja = retained_from(lines, instances, rs, replace, lines.len() as int, a);
        let jb = retained_from(lines, instances, rs, replace, lines.len() as int, b);
        assert(kept[a] == lines[ja]);
        assert(kept[b] == lines[jb]);
        if a < b {
            lemma_retained_from_increases(lines, instances, rs, replace, lines.len() as int, a, b);
        } else {
            lemma_retained_from_increases(lines, instances, rs, replace, lines.len() as int, b, a);
        }
    }
}

/// Bringing the event fees in line gives out ids and takes none back.
pub proof fn lemma_event_fees_next_id(
    fees: Seq<EventFeeLine>,
    lines: Seq<TicketLine>,
    catalog: Catalog,
    box_office: bool,
    next_id: int,
)
    ensures
        spec_event_fees(fees, lines, catalog, box_office, next_id).1 >= next_id,
{
    if !box_office {
        lemma_added_next_id(
            spec_kept_event_fees(fees, lines, fees.len() as int),
            lines,
            catalog,
            next_id,
            lines.len() as int,
        );
    }
}

proof fn lemma_added_next_id(
    fees: Seq<EventFeeLine>,
    lines: Seq<TicketLine>,
    catalog: Catalog,
    next_id: int,
    upto: int,
)
    ensures
        spec_added_event_fees(fees, lines, catalog, next_id, upto).1 >= next_id,
    decreases upto,
{
    if upto > 0 {
        lemma_added_next_id(fees, lines, catalog, next_id, upto - 1);
    }
}

// ---------------------------------------------------------------------------
// Replacing and merging
// ---------------------------------------------------------------------------
/// Reconciling requests keeps every line for the pair of some request.
proof fn lemma_apply_lines_requested(
    s: LineState,
    rs: Seq<ResolvedLine>,
    now: i64,
    until: i64,
    upto: int,
)
    requires
        0 <= upto <= rs.len(),
        all_requested(s.lines, rs),
        spec_apply_lines(s, rs, now, until, upto) is Some,
    ensures
        all_requested(spec_apply_lines(s, rs, now, until, upto)->0.lines, rs),
    decreases upto,
{
    if upto > 0 {
        let before = spec_apply_lines(s, rs, now, until, upto - 1);
        assert(before is Some);
        lemma_apply_lines_requested(s, rs, now, until, upto - 1);
        lemma_apply_line_requested(before->0, rs, upto - 1, now, until);
    }
}

/// Reconciling a request leaves a line for another pair in the order.
proof fn lemma_apply_line_keeps_line(
    s: LineState,
    l: TicketLine,
    r: ResolvedLine,
    now: i64,
    until: i64,
)
    requires
        s.lines.contains(l),
        !same_key(l, r),
        spec_apply_line(s, r, now, until) is Some,
    ensures
        spec_apply_line(s, r, now, until)->0.lines.contains(l),
{
    let t = spec_apply_line(s, r, now, until)->0;
    lemma_first_match(s.lines, line_for_request(r));
    let w = choose|i: int| 0 <= i < s.lines.len() && s.lines[i] == l;
    match first_match(s.lines, line_for_request(r)) {
        Some(i) => {
            assert(i != w);
            if r.quantity == 0 {
                let w2 = if w > i {
                    w - 1
                } else {
                    w
                };
                assert(t.lines[w2] == l);
            } else {
                assert(t.lines[w] == l);
            }
        },
        None => {
            if r.quantity > 0 {
                assert(t.lines[w] == l);
            }
        },
    }
}

/// Reconciling requests leaves a line in the order that none of them is
/// for.
proof fn lemma_apply_lines_keeps_line(
    s: LineState,
    l: TicketLine,
    rs: Seq<ResolvedLine>,
    now: i64,
    until: i64,
    upto: int,
)
    requires
        0 <= upto <= rs.len(),
        s.lines.contains(l),
        !is_requested(rs, l),
        spec_apply_lines(s, rs, now, until, upto) is Some,
    ensures
        spec_apply_lines(s, rs, now, until, upto)->0.lines.contains(l),
    decreases upto,
{
    if upto > 0 {
        let before = spec_apply_lines(s, rs, now, until, upto - 1);
        assert(before is Some);
        lemma_apply_lines_keeps_line(s, l, rs, now, until, upto - 1);
        lemma_first_match(rs, request_for_line(l));
        assert(!request_for_line(l)(rs[upto - 1]));
        lemma_apply_line_keeps_line(before->0, l, rs[upto - 1], now, until);
    }
}

/// Replacing and merging. After a full replacement every line of the
/// order is for the pair of some request. After a merge every line that
/// no request is for is on the order as it was.
pub proof fn law_update_replaces_or_merges(
    lines: Seq<TicketLine>,
    event_fees: Seq<EventFeeLine>,
    instances: Seq<TicketInstance>,
    next_id: int,
    catalog: Catalog,
    request: Seq<UpdateOrderItem>,
    box_office: bool,
    replace: bool,
    now: i64,
    until: i64,
)
    requires
        spec_update(
            OrderStatus::Draft,
            lines,
            event_fees,
            instances,
            next_id,
            catalog,
            request,
            box_office,
            replace,
            now,
            until,
        ) is Ok,
    ensures
        ({
            let updated = spec_update(
                OrderStatus::Draft,
                lines,
                event_fees,
                instances,
                next_id,
                catalog,
                request,
                box_office,
                replace,
                now,
                until,
            )->Ok_0;
            let rs = spec_resolve_all(catalog, request, box_office, now, request.len() as int)->Ok_0;
            &&& replace ==> all_requested(updated.lines, rs)
            &&& !replace ==> forall|j: int|
                0 <= j < lines.len() && !is_requested(rs, #[trigger] lines[j])
                    ==> updated.lines.contains(lines[j])
        }),
{
    let rs = spec_resolve_all(catalog, request, box_office, now, request.len() as int)->Ok_0;
    let (kept, inst) = spec_retain(lines, instances, rs, replace, lines.len() as int);
    lemma_retain_kept(lines, instances, rs, replace, lines.len() as int);
    let start = LineState { lines: kept, instances: inst, next_id };
    if replace {
        lemma_apply_lines_requested(start, rs, now, until, rs.len() as int);
    } else {
        lemma_retain_all(lines, instances, rs, replace, lines.len() as int);
        assert(lines.subrange(0, lines.len() as int) =~= lines);
        let applied = spec_apply_lines(start, rs, now, until, rs.len() as int)->0;
        assert forall|j: int|
            0 <= j < lines.len() && !is_requested(rs, #[trigger] lines[j]) implies applied.lines.contains(
            lines[j],
        ) by {
            assert(kept[j] == lines[j]);
            lemma_apply_lines_keeps_line(start, lines[j], rs, now, until, rs.len() as int);
        }
    }
}

} // verus!
