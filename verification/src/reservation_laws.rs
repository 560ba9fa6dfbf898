//! Laws that tie the lines of a cart to the ledger: a change of quantities
//! leaves every line with a live reservation for each of its tickets.

use crate::cart::{
    draft_lines, line_for_request, spec_apply_line, spec_apply_lines, spec_resolve_all,
    spec_retain, spec_update, LineState,
};
use crate::cart_laws::lemma_retain_kept;
use crate::catalog::{Catalog, ResolvedLine, UpdateOrderItem};
use crate::enums::{OrderStatus, TicketInstanceStatus};
use crate::inventory::{
    claimable, claimable_count, claimed, claims_at, linked, linked_count, released, releases_at,
    spec_release, spec_reserve, TicketInstance,
};
use crate::orders::{lines_apart, EventFeeLine, TicketLine};
use crate::search::{first_match, lemma_first_match};
use crate::validity::{
    code_current, hold_current, instance_live, live_count, nullified_count, spec_items_valid,
    spec_line_status, CartItemStatus,
};
use vstd::prelude::*;

verus! {

/// The instance is reserved and its reservation has not lapsed.
pub open spec fn held(t: TicketInstance, now: i64) -> bool {
    t.status == TicketInstanceStatus::Reserved && t.reserved_until is Some && t.reserved_until->0
        > now
}

/// How many of the first `upto` instances are linked to the line item and
/// held.
pub open spec fn held_count(s: Seq<TicketInstance>, order_item_id: u128, now: i64, upto: int) -> nat
    decreases upto,
{
    if upto <= 0 {
        0
    } else {
        held_count(s, order_item_id, now, upto - 1) + if linked(s[upto - 1], order_item_id) && held(
            s[upto - 1],
            now,
        ) {
            1nat
        } else {
            0nat
        }
    }
}

/// The line item has `quantity` instances, all of them held.
pub open spec fn item_reserved(
    s: Seq<TicketInstance>,
    order_item_id: u128,
    quantity: nat,
    now: i64,
) -> bool {
    linked_count(s, order_item_id, s.len() as int) == quantity && held_count(
        s,
        order_item_id,
        now,
        s.len() as int,
    ) == quantity
}

/// Every line has an instance for each of its tickets, all of them held
/// and none besides.
pub open spec fn reserved_in_full(lines: Seq<TicketLine>, s: Seq<TicketInstance>, now: i64)
    -> bool {
    forall|i: int|
        0 <= i < lines.len() ==> item_reserved(
            s,
            (#[trigger] lines[i]).id,
            lines[i].quantity as nat,
            now,
        )
}

/// No instance is linked to an item whose id is yet to be given out.
pub open spec fn links_below(s: Seq<TicketInstance>, next: int) -> bool {
    forall|i: int|
        0 <= i < s.len() && (#[trigger] s[i]).order_item_id is Some ==> s[i].order_item_id->0
            < next
}

/// The smaller of two numbers.
pub open spec fn smaller(a: nat, b: nat) -> nat {
    if a <= b {
        a
    } else {
        b
    }
}

/// No more instances are held for an item than are linked to it.
proof fn lemma_held_at_most_linked(s: Seq<TicketInstance>, x: u128, now: i64, upto: int)
    requires
        0 <= upto <= s.len(),
    ensures
        held_count(s, x, now, upto) <= linked_count(s, x, upto),
    decreases upto,
{
    if upto > 0 {
        lemma_held_at_most_linked(s, x, now, upto - 1);
    }
}

/// Where as many instances are held for an item as are linked to it, every
/// instance linked to it is held.
proof fn lemma_all_linked_held(s: Seq<TicketInstance>, x: u128, now: i64, upto: int, i: int)
    requires
        0 <= i < upto <= s.len(),
        held_count(s, x, now, upto) == linked_count(s, x, upto),
        linked(s[i], x),
    ensures
        held(s[i], now),
    decreases upto,
{
    lemma_held_at_most_linked(s, x, now, upto - 1);
    if i < upto - 1 {
        lemma_all_linked_held(s, x, now, upto - 1, i);
    }
}

/// Where no instance is linked to an item, none is counted for it.
proof fn lemma_no_links(s: Seq<TicketInstance>, x: u128, now: i64, upto: int)
    requires
        0 <= upto <= s.len(),
        forall|i: int| 0 <= i < s.len() ==> !linked(s[i], x),
    ensures
        linked_count(s, x, upto) == 0,
        held_count(s, x, now, upto) == 0,
    decreases upto,
{
    if upto > 0 {
        lemma_no_links(s, x, now, upto - 1);
    }
}

/// A release for one item leaves the instances of another as they are.
proof fn lemma_release_other(
    s: Seq<TicketInstance>,
    item: u128,
    quantity: nat,
    x: u128,
    now: i64,
    upto: int,
)
    requires
        0 <= upto <= s.len(),
        x != item,
    ensures
        linked_count(spec_release(s, item, quantity), x, upto) == linked_count(s, x, upto),
        held_count(spec_release(s, item, quantity), x, now, upto) == held_count(s, x, now, upto),
    decreases upto,
{
    if upto > 0 {
        lemma_release_other(s, item, quantity, x, now, upto - 1);
    }
}

/// A release of `quantity` instances of an item whose instances are all
/// held leaves it that many fewer, all of them held.
proof fn lemma_release_own(s: Seq<TicketInstance>, item: u128, quantity: nat, now: i64, upto: int)
    requires
        0 <= upto <= s.len(),
        forall|i: int| 0 <= i < s.len() && linked(s[i], item) ==> held(s[i], now),
    ensures
        linked_count(spec_release(s, item, quantity), item, upto) == linked_count(s, item, upto)
            - smaller(linked_count(s, item, upto), quantity),
        held_count(spec_release(s, item, quantity), item, now, upto) == linked_count(
            s,
            item,
            upto,
        ) - smaller(linked_count(s, item, upto), quantity),
    decreases upto,
{
    if upto > 0 {
        lemma_release_own(s, item, quantity, now, upto - 1);
    }
}

/// A reservation for one item leaves the instances of another as they are,
/// where those are all held.
proof fn lemma_reserve_other(
    s: Seq<TicketInstance>,
    ticket_type_id: u128,
    quantity: nat,
    item: u128,
    until: i64,
    now: i64,
    x: u128,
    upto: int,
)
    requires
        0 <= upto <= s.len(),
        x != item,
        forall|i: int| 0 <= i < s.len() && linked(s[i], x) ==> held(s[i], now),
    ensures
        linked_count(spec_reserve(s, ticket_type_id, quantity, item, until, now), x, upto)
            == linked_count(s, x, upto),
        held_count(spec_reserve(s, ticket_type_id, quantity, item, until, now), x, now, upto)
            == held_count(s, x, now, upto),
    decreases upto,
{
    if upto > 0 {
        lemma_reserve_other(s, ticket_type_id, quantity, item, until, now, x, upto - 1);
    }
}

/// A reservation for an item whose instances are all held gives it as many
/// more as it claims, all of them held.
proof fn lemma_reserve_own(
    s: Seq<TicketInstance>,
    ticket_type_id: u128,
    quantity: nat,
    item: u128,
    until: i64,
    now: i64,
    upto: int,
)
    requires
        0 <= upto <= s.len(),
        until > now,
        forall|i: int| 0 <= i < s.len() && linked(s[i], item) ==> held(s[i], now),
    ensures
        linked_count(spec_reserve(s, ticket_type_id, quantity, item, until, now), item, upto)
            == linked_count(s, item, upto) + smaller(
            claimable_count(s, ticket_type_id, now, upto),
            quantity,
        ),
        held_count(spec_reserve(s, ticket_type_id, quantity, item, until, now), item, now, upto)
            == linked_count(s, item, upto) + smaller(
            claimable_count(s, ticket_type_id, now, upto),
            quantity,
        ),
    decreases upto,
{
    if upto > 0 {
        lemma_reserve_own(s, ticket_type_id, quantity, item, until, now, upto - 1);
    }
}

/// What the lines and the ledger keep through a change: the lines are
/// reserved in full, their item ids are apart and were given out, and no
/// instance is linked to an id yet to be given out.
pub open spec fn in_step(s: LineState, now: i64) -> bool {
    &&& 0 <= s.next_id
    &&& draft_lines(s.lines)
    &&& lines_apart(s.lines)
    &&& forall|k: int| 0 <= k < s.lines.len() ==> (#[trigger] s.lines[k]).id + 1 < s.next_id
    &&& links_below(s.instances, s.next_id)
    &&& reserved_in_full(s.lines, s.instances, now)
}

/// Every instance linked to a line is held.
proof fn lemma_lines_held(s: LineState, now: i64, k: int)
    requires
        in_step(s, now),
        0 <= k < s.lines.len(),
    ensures
        forall|i: int|
            0 <= i < s.instances.len() && linked(s.instances[i], s.lines[k].id) ==> held(
                s.instances[i],
                now,
            ),
{
    assert forall|i: int|
        0 <= i < s.instances.len() && linked(s.instances[i], s.lines[k].id) implies held(
        s.instances[i],
        now,
    ) by {
        lemma_all_linked_held(s.instances, s.lines[k].id, now, s.instances.len() as int, i);
    }
}

/// Reconciling a request keeps the lines and the ledger in step.
proof fn lemma_apply_line_in_step(s: LineState, r: ResolvedLine, now: i64, until: i64)
    requires
        in_step(s, now),
        until > now,
        s.next_id + 2 <= u128::MAX,
        spec_apply_line(s, r, now, until) is Some,
    ensures
        in_step(spec_apply_line(s, r, now, until)->0, now),
{
    let t = spec_apply_line(s, r, now, until)->0;
    let n = s.instances.len() as int;
    lemma_first_match(s.lines, line_for_request(r));
    match first_match(s.lines, line_for_request(r)) {
        Some(m) => {
            let current = s.lines[m];
            lemma_lines_held(s, now, m);
            if r.quantity == 0 {
                assert forall|k: int| 0 <= k < t.lines.len() implies item_reserved(
                    t.instances,
                    (#[trigger] t.lines[k]).id,
                    t.lines[k].quantity as nat,
                    now,
                ) && t.lines[k].id + 1 < t.next_id && crate::cart::draft_line(t.lines[k]) by {
                    let k0 = if k < m {
                        k
                    } else {
                        k + 1
                    };
                    assert(t.lines[k] == s.lines[k0]);
                    assert(s.lines[k0].id != current.id);
                    lemma_release_other(s.instances, current.id, n as nat, s.lines[k0].id, now, n);
                }
                assert forall|a: int, b: int|
                    0 <= a < t.lines.len() && 0 <= b < t.lines.len() && a != b implies (
                #[trigger] t.lines[a]).id != (#[trigger] t.lines[b]).id && t.lines[a].id
                    != t.lines[b].id + 1 by {
                    let a0 = if a < m {
                        a
                    } else {
                        a + 1
                    };
                    let b0 = if b < m {
                        b
                    } else {
                        b + 1
                    };
                    assert(t.lines[a] == s.lines[a0]);
                    assert(t.lines[b] == s.lines[b0]);
                }
            } else if r.quantity >= current.quantity {
                let more = (r.quantity - current.quantity) as nat;
                assert forall|k: int| 0 <= k < t.lines.len() implies item_reserved(
                    t.instances,
                    (#[trigger] t.lines[k]).id,
                    t.lines[k].quantity as nat,
                    now,
                ) && t.lines[k].id + 1 < t.next_id && crate::cart::draft_line(t.lines[k]) by {
                    assert(t.lines[k].id == s.lines[k].id);
                    if k == m {
                        lemma_reserve_own(
                            s.instances,
                            r.ticket_type_id,
                            more,
                            current.id,
                            until,
                            now,
                            n,
                        );
                    } else {
                        assert(t.lines[k] == s.lines[k]);
                        lemma_lines_held(s, now, k);
                        lemma_reserve_other(
                            s.instances,
                            r.ticket_type_id,
                            more,
                            current.id,
                            until,
                            now,
                            s.lines[k].id,
                            n,
                        );
                    }
                }
                assert forall|a: int, b: int|
                    0 <= a < t.lines.len() && 0 <= b < t.lines.len() && a != b implies (
                #[trigger] t.lines[a]).id != (#[trigger] t.lines[b]).id && t.lines[a].id
                    != t.lines[b].id + 1 by {
                    assert(t.lines[a].id == s.lines[a].id);
                    assert(t.lines[b].id == s.lines[b].id);
                }
            } else {
                let fewer = (current.quantity - r.quantity) as nat;
                assert forall|k: int| 0 <= k < t.lines.len() implies item_reserved(
                    t.instances,
                    (#[trigger] t.lines[k]).id,
                    t.lines[k].quantity as nat,
                    now,
                ) && t.lines[k].id + 1 < t.next_id && crate::cart::draft_line(t.lines[k]) by {
                    assert(t.lines[k].id == s.lines[k].id);
                    if k == m {
                        lemma_release_own(s.instances, current.id, fewer, now, n);
                    } else {
                        assert(t.lines[k] == s.lines[k]);
                        lemma_release_other(s.instances, current.id, fewer, s.lines[k].id, now, n);
                    }
                }
                assert forall|a: int, b: int|
                    0 <= a < t.lines.len() && 0 <= b < t.lines.len() && a != b implies (
                #[trigger] t.lines[a]).id != (#[trigger] t.lines[b]).id && t.lines[a].id
                    != t.lines[b].id + 1 by {
                    assert(t.lines[a].id == s.lines[a].id);
                    assert(t.lines[b].id == s.lines[b].id);
                }
            }
        },
        None => {
            if r.quantity > 0 {
                let fresh = s.next_id as u128;
                let len = s.lines.len() as int;
                assert(t.lines[len].id == fresh);
                assert forall|i: int| 0 <= i < n implies !linked(s.instances[i], fresh) by {}
                lemma_no_links(s.instances, fresh, now, n);
                assert forall|k: int| 0 <= k < t.lines.len() implies item_reserved(
                    t.instances,
                    (#[trigger] t.lines[k]).id,
                    t.lines[k].quantity as nat,
                    now,
                ) && t.lines[k].id + 1 < t.next_id && crate::cart::draft_line(t.lines[k]) by {
                    if k == len {
                        lemma_reserve_own(
                            s.instances,
                            r.ticket_type_id,
                            r.quantity as nat,
                            fresh,
                            until,
                            now,
                            n,
                        );
                    } else {
                        assert(t.lines[k] == s.lines[k]);
                        lemma_lines_held(s, now, k);
                        lemma_reserve_other(
                            s.instances,
                            r.ticket_type_id,
                            r.quantity as nat,
                            fresh,
                            until,
                            now,
                            s.lines[k].id,
                            n,
                        );
                    }
                }
                assert forall|a: int, b: int|
                    0 <= a < t.lines.len() && 0 <= b < t.lines.len() && a != b implies (
                #[trigger] t.lines[a]).id != (#[trigger] t.lines[b]).id && t.lines[a].id
                    != t.lines[b].id + 1 by {
                    if a < len {
                        assert(t.lines[a] == s.lines[a]);
                    }
                    if b < len {
                        assert(t.lines[b] == s.lines[b]);
                    }
                }
            }
        },
    }
}

/// Reconciling requests keeps the lines and the ledger in step.
proof fn lemma_apply_lines_in_step(
    s: LineState,
    rs: Seq<ResolvedLine>,
    now: i64,
    until: i64,
    upto: int,
)
    requires
        0 <= upto <= rs.len(),
        in_step(s, now),
        until > now,
        s.next_id + 2 * rs.len() <= u128::MAX,
        spec_apply_lines(s, rs, now, until, upto) is Some,
    ensures
        in_step(spec_apply_lines(s, rs, now, until, upto)->0, now),
        spec_apply_lines(s, rs, now, until, upto)->0.next_id <= s.next_id + 2 * upto,
    decreases upto,
{
    if upto > 0 {
        let before = spec_apply_lines(s, rs, now, until, upto - 1);
        assert(before is Some);
        lemma_apply_lines_in_step(s, rs, now, until, upto - 1);
        lemma_apply_line_in_step(before->0, rs[upto - 1], now, until);
        lemma_first_match(before->0.lines, line_for_request(rs[upto - 1]));
    }
}

/// Dropping lines leaves the instances of the lines that stay as they
/// are, and links no instance.
proof fn lemma_retain_in_step(
    lines: Seq<TicketLine>,
    instances: Seq<TicketInstance>,
    rs: Seq<ResolvedLine>,
    replace: bool,
    next_id: int,
    now: i64,
    upto: int,
)
    requires
        0 <= upto <= lines.len(),
        lines_apart(lines),
        links_below(instances, next_id),
    ensures
        spec_retain(lines, instances, rs, replace, upto).1.len() == instances.len(),
        links_below(spec_retain(lines, instances, rs, replace, upto).1, next_id),
        forall|j: int|
            upto <= j < lines.len() ==> linked_count(
                spec_retain(lines, instances, rs, replace, upto).1,
                (#[trigger] lines[j]).id,
                instances.len() as int,
            ) == linked_count(instances, lines[j].id, instances.len() as int) && held_count(
                spec_retain(lines, instances, rs, replace, upto).1,
                lines[j].id,
                now,
                instances.len() as int,
            ) == held_count(instances, lines[j].id, now, instances.len() as int),
        forall|a: int|
            0 <= a < spec_retain(lines, instances, rs, replace, upto).0.len() ==> linked_count(
                spec_retain(lines, instances, rs, replace, upto).1,
                (#[trigger] spec_retain(lines, instances, rs, replace, upto).0[a]).id,
                instances.len() as int,
            ) == linked_count(
                instances,
                spec_retain(lines, instances, rs, replace, upto).0[a].id,
                instances.len() as int,
            ) && held_count(
                spec_retain(lines, instances, rs, replace, upto).1,
                spec_retain(lines, instances, rs, replace, upto).0[a].id,
                now,
                instances.len() as int,
            ) == held_count(
                instances,
                spec_retain(lines, instances, rs, replace, upto).0[a].id,
                now,
                instances.len() as int,
            ),
    decreases upto,
{
    if upto > 0 {
        lemma_retain_in_step(lines, instances, rs, replace, next_id, now, upto - 1);
        lemma_retain_kept(lines, instances, rs, replace, upto - 1);
        let (kept0, inst0) = spec_retain(lines, instances, rs, replace, upto - 1);
        let (kept, inst) = spec_retain(lines, instances, rs, replace, upto);
        let n = instances.len() as int;
        let l = lines[upto - 1];
        if !replace || crate::cart::is_requested(rs, l) {
            assert(kept == kept0.push(l));
            assert forall|a: int| 0 <= a < kept.len() implies linked_count(
                inst,
                (#[trigger] kept[a]).id,
                n,
            ) == linked_count(instances, kept[a].id, n) && held_count(inst, kept[a].id, now, n)
                == held_count(instances, kept[a].id, now, n) by {
                if a < kept0.len() {
                    assert(kept[a] == kept0[a]);
                }
            }
        } else {
            assert(kept == kept0);
            assert forall|j: int| upto <= j < lines.len() implies linked_count(
                inst,
                (#[trigger] lines[j]).id,
                n,
            ) == linked_count(instances, lines[j].id, n) && held_count(inst, lines[j].id, now, n)
                == held_count(instances, lines[j].id, now, n) by {
                assert(lines[j].id != l.id);
                lemma_release_other(inst0, l.id, inst0.len(), lines[j].id, now, n);
            }
            assert forall|a: int| 0 <= a < kept.len() implies linked_count(
                inst,
                (#[trigger] kept[a]).id,
                n,
            ) == linked_count(instances, kept[a].id, n) && held_count(inst, kept[a].id, now, n)
                == held_count(instances, kept[a].id, now, n) by {
                let j = choose|j: int| 0 <= j < upto - 1 && kept0[a] == lines[j];
                assert(lines[j].id != l.id);
                lemma_release_other(inst0, l.id, inst0.len(), kept[a].id, now, n);
            }
        }
    }
}

/// Reservations follow the lines. A change of quantities at `now`, made
/// on a draft order whose every line has a held instance for each of its
/// tickets and none besides, leaves an order of which the same holds:
/// what is added is reserved, what is taken away is released, and no line
/// loses an instance to another.
pub proof fn law_update_keeps_lines_reserved(
    lines: Seq<TicketLine>,
    event_fees: Seq<EventFeeLine>,
    instances: Seq<TicketInstance>,
    next_id: int,
    catalog: Catalog,
    request: Seq<UpdateOrderItem>,
    box_office: bool,
    replace: bool,
    now: i64,
    until: i64,
)
    requires
        until > now,
        0 <= next_id,
        next_id + 2 * request.len() <= u128::MAX,
        draft_lines(lines),
        lines_apart(lines),
        forall|k: int| 0 <= k < lines.len() ==> (#[trigger] lines[k]).id + 1 < next_id,
        links_below(instances, next_id),
        reserved_in_full(lines, instances, now),
        spec_update(
            OrderStatus::Draft,
            lines,
            event_fees,
            instances,
            next_id,
            catalog,
            request,
            box_office,
            replace,
            now,
            until,
        ) is Ok,
    ensures
        ({
            let updated = spec_update(
                OrderStatus::Draft,
                lines,
                event_fees,
                instances,
                next_id,
                catalog,
                request,
                box_office,
                replace,
                now,
                until,
            )->Ok_0;
            &&& reserved_in_full(updated.lines, updated.instances, now)
            &&& links_below(updated.instances, updated.next_id)
        }),
{
    let rs = spec_resolve_all(catalog, request, box_office, now, request.len() as int)->Ok_0;
    crate::cart_laws::lemma_resolve_all_each(
        catalog,
        request,
        box_office,
        now,
        request.len() as int,
    );
    let (kept, inst) = spec_retain(lines, instances, rs, replace, lines.len() as int);
    lemma_retain_kept(lines, instances, rs, replace, lines.len() as int);
    lemma_retain_in_step(lines, instances, rs, replace, next_id, now, lines.len() as int);
    let start = LineState { lines: kept, instances: inst, next_id };
    assert forall|k: int| 0 <= k < kept.len() implies item_reserved(
        inst,
        (#[trigger] kept[k]).id,
        kept[k].quantity as nat,
        now,
    ) && kept[k].id + 1 < next_id && crate::cart::draft_line(kept[k]) by {
        let j = choose|j: int| 0 <= j < lines.len() && kept[k] == lines[j];
        assert(kept[k] == lines[j]);
    }
    assert(lines_apart(kept)) by {
        crate::cart_laws::lemma_retain_apart(lines, instances, rs, replace);
    }
    lemma_apply_lines_in_step(start, rs, now, until, rs.len() as int);
    let applied = spec_apply_lines(start, rs, now, until, rs.len() as int)->0;
    crate::cart_laws::lemma_event_fees_next_id(
        event_fees,
        applied.lines,
        catalog,
        box_office,
        applied.next_id,
    );
}

/// Held instances count as live.
proof fn lemma_held_is_live(s: Seq<TicketInstance>, x: u128, now: i64, upto: int)
    requires
        0 <= upto <= s.len(),
        held_count(s, x, now, upto) == linked_count(s, x, upto),
    ensures
        live_count(s, x, now, false, upto) == linked_count(s, x, upto),
        nullified_count(s, x, upto) == 0,
    decreases upto,
{
    if upto > 0 {
        lemma_held_at_most_linked(s, x, now, upto - 1);
        lemma_held_is_live(s, x, now, upto - 1);
    }
}

/// A cart that is reserved in full can be purchased, where every code and
/// hold applied is within its window.
pub proof fn law_reserved_cart_is_valid(
    lines: Seq<TicketLine>,
    instances: Seq<TicketInstance>,
    catalog: Catalog,
    now: i64,
)
    requires
        draft_lines(lines),
        reserved_in_full(lines, instances, now),
        forall|i: int|
            0 <= i < lines.len() ==> code_current(catalog, (#[trigger] lines[i]).code_id, now)
                && hold_current(catalog, lines[i].hold_id, now),
    ensures
        spec_items_valid(lines, instances, catalog, now, false),
{
    assert forall|i: int| 0 <= i < lines.len() implies spec_line_status(
        #[trigger] lines[i],
        instances,
        catalog,
        now,
        false,
    ) == CartItemStatus::Valid by {
        assert(item_reserved(instances, lines[i].id, lines[i].quantity as nat, now));
        lemma_held_is_live(instances, lines[i].id, now, instances.len() as int);
    }
}

} // verus!
