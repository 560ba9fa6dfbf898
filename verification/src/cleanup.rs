//! Clearing a cart of the lines that cannot be purchased any more.

use crate::cart::{draft_lines, event_has_line, none_refunded, spec_kept_event_fees};
use crate::catalog::Catalog;
use crate::enums::OrderStatus;
use crate::errors::EngineError;
use crate::inventory::{same_instances, spec_release, InventoryLedger, TicketInstance};
use crate::orders::{distinct_lines, line_pair, EventFeeLine, Order, TicketLine};
use crate::validity::{line_status, spec_line_status, CartItemStatus};
use crate::vecs::copy_vec;
use vstd::prelude::*;

verus! {

/// The first `upto` lines cleared: a line that does not stand as valid in
/// the ledger as it was (`before`) is dropped and the instances linked to
/// it are released.
pub open spec fn spec_cleared(
    lines: Seq<TicketLine>,
    before: Seq<TicketInstance>,
    catalog: Catalog,
    now: i64,
    upto: int,
) -> (Seq<TicketLine>, Seq<TicketInstance>)
    decreases upto,
{
    if upto <= 0 {
        (Seq::empty(), before)
    } else {
        let (kept, instances) = spec_cleared(lines, before, catalog, now, upto - 1);
        if spec_line_status(lines[upto - 1], before, catalog, now, false)
            == CartItemStatus::Valid {
            (kept.push(lines[upto - 1]), instances)
        } else {
            (kept, spec_release(instances, lines[upto - 1].id, instances.len()))
        }
    }
}

/// What stays of the first `upto` lines is taken from them, and lines one
/// per pair stay so.
pub proof fn lemma_cleared_kept(
    lines: Seq<TicketLine>,
    before: Seq<TicketInstance>,
    catalog: Catalog,
    now: i64,
    upto: int,
)
    requires
        0 <= upto <= lines.len(),
        distinct_lines(lines),
    ensures
        distinct_lines(spec_cleared(lines, before, catalog, now, upto).0),
        forall|a: int|
            0 <= a < spec_cleared(lines, before, catalog, now, upto).0.len() ==> exists|j: int|
                0 <= j < upto && #[trigger] spec_cleared(lines, before, catalog, now, upto).0[a]
                    == lines[j],
    decreases upto,
{
    if upto > 0 {
        lemma_cleared_kept(lines, before, catalog, now, upto - 1);
        let shorter = spec_cleared(lines, before, catalog, now, upto - 1).0;
        let kept = spec_cleared(lines, before, catalog, now, upto).0;
        if spec_line_status(lines[upto - 1], before, catalog, now, false)
            == CartItemStatus::Valid {
            assert(kept == shorter.push(lines[upto - 1]));
            assert forall|a: int| 0 <= a < kept.len() implies exists|j: int|
                0 <= j < upto && #[trigger] kept[a] == lines[j] by {
                if a < shorter.len() {
                    let j = choose|j: int| 0 <= j < upto - 1 && shorter[a] == lines[j];
                    assert(kept[a] == lines[j]);
                } else {
                    assert(kept[a] == lines[upto - 1]);
                }
            }
            assert forall|a: int, b: int| 0 <= a < b < kept.len() implies !line_pair(
                kept[a],
                kept[b],
            ) by {
                if b == shorter.len() {
                    let j = choose|j: int| 0 <= j < upto - 1 && shorter[a] == lines[j];
                    assert(!line_pair(lines[j], lines[upto - 1]));
                } else {
                    assert(!line_pair(shorter[a], shorter[b]));
                }
            }
        } else {
            assert(kept == shorter);
        }
    }
}

impl Order {
    /// Removes from a draft order every line that cannot be purchased at
    /// `now`, releases the instances linked to such a line, and drops the
    /// fee of every event that is left without a line. Any other order is
    /// refused and stays as it was.
    pub fn clear_invalid_items(
        &mut self,
        _user_id: u128,
        ledger: &mut InventoryLedger,
        catalog: &Catalog,
        now: i64,
    ) -> (r: Result<(), EngineError>)
        requires
            old(self).wf(),
        ensures
            final(self).wf(),
            forall|next: u128| old(self).issued_before(next) ==> final(self).issued_before(next),
            forall|id: int| final(self).owns(id) ==> #[trigger] old(self).owns(id),
            final(ledger).reservation_window_seconds == old(ledger).reservation_window_seconds,
            same_instances(old(ledger).instances@, final(ledger).instances@),
            old(ledger).wf() ==> final(ledger).wf(),
            r is Ok <==> old(self).status == OrderStatus::Draft,
            r matches Err(e) ==> e == EngineError::InvalidStateTransition && *final(self) == *old(
                self,
            ) && *final(ledger) == *old(ledger),
            r is Ok ==> {
                &&& (final(self).lines@, final(ledger).instances@) == spec_cleared(
                    old(self).lines@,
                    old(ledger).instances@,
                    *catalog,
                    now,
                    old(self).lines@.len() as int,
                )
                &&& final(self).event_fees@ == spec_kept_event_fees(
                    old(self).event_fees@,
                    final(self).lines@,
                    old(self).event_fees@.len() as int,
                )
                &&& final(self).id == old(self).id
                &&& final(self).user_id == old(self).user_id
                &&& final(self).status == old(self).status
                &&& final(self).created_at == old(self).created_at
                &&& final(self).expires_at == old(self).expires_at
                &&& final(self).paid_at == old(self).paid_at
                &&& final(self).note == old(self).note
                &&& final(self).box_office_pricing == old(self).box_office_pricing
                &&& final(self).payments == old(self).payments
                &&& final(self).events == old(self).events
            },
    {
        match self.status {
            OrderStatus::Draft => {},
            _ => {
                return Err(EngineError::InvalidStateTransition);
            },
        }
        let before = InventoryLedger {
            instances: copy_vec(&ledger.instances),
            reservation_window_seconds: ledger.reservation_window_seconds,
        };
        let mut lines: Vec<TicketLine> = Vec::new();
        let mut i: usize = 0;
        while i < self.lines.len()
            invariant
                0 <= i <= self.lines.len(),
                draft_lines(self.lines@),
                draft_lines(lines@),
                ledger.reservation_window_seconds == old(ledger).reservation_window_seconds,
                same_instances(old(ledger).instances@, ledger.instances@),
                before.instances@ == old(ledger).instances@,
                (lines@, ledger.instances@) == spec_cleared(
                    self.lines@,
                    before.instances@,
                    *catalog,
                    now,
                    i as int,
                ),
            decreases self.lines.len() - i,
        {
            let l = self.lines[i];
            let valid = match line_status(l, &before, catalog, now, false) {
                CartItemStatus::Valid => true,
                _ => false,
            };
            if valid {
                lines.push(l);
            } else {
                ledger.release(l.id);
            }
            i += 1;
        }
        let mut fees: Vec<EventFeeLine> = Vec::new();
        let mut k: usize = 0;
        while k < self.event_fees.len()
            invariant
                0 <= k <= self.event_fees.len(),
                none_refunded(self.event_fees@),
                none_refunded(fees@),
                fees@ == spec_kept_event_fees(self.event_fees@, lines@, k as int),
            decreases self.event_fees.len() - k,
        {
            let f = self.event_fees[k];
            if event_has_line(&lines, f.event_id) {
                fees.push(f);
            }
            k += 1;
        }
        assert(self.spec_paid() == 0);
        proof {
            lemma_cleared_kept(
                self.lines@,
                old(ledger).instances@,
                *catalog,
                now,
                self.lines@.len() as int,
            );
            crate::cart_laws::lemma_kept_one_per_event(
                self.event_fees@,
                lines@,
                self.event_fees@.len() as int,
            );
            crate::cart_laws::lemma_picked_ids_apart(
                self.lines@,
                self.event_fees@,
                lines@,
                fees@,
            );
        }
        proof {
            if old(ledger).wf() {
                crate::inventory::lemma_same_instances_distinct(
                    old(ledger).instances@,
                    ledger.instances@,
                );
            }
        }
        self.lines = lines;
        self.event_fees = fees;
        Ok(())
    }
}

} // verus!
