//! Applying payments to an order, and the status that follows from them.

use crate::catalog::Catalog;
use crate::enums::{DomainEventTypes, OrderStatus};
use crate::errors::EngineError;
use crate::inventory::{same_instances, spec_mark_purchased, InventoryLedger, TicketInstance};
use crate::orders::{event_count, payments_total, status_for, Order, Payment, TicketLine};
use crate::search::first_match;
use crate::validity::{
    first_invalid_line, invalid_lines, spec_line_status, spec_status_error, status_error,
};
use vstd::prelude::*;

verus! {

/// The ledger after the instances of the first `upto` lines are marked as
/// purchased.
pub open spec fn spec_purchase_lines(
    instances: Seq<TicketInstance>,
    lines: Seq<TicketLine>,
    upto: int,
) -> Seq<TicketInstance>
    decreases upto,
{
    if upto <= 0 {
        instances
    } else {
        spec_mark_purchased(spec_purchase_lines(instances, lines, upto - 1), lines[upto - 1].id)
    }
}

/// Why a payment is refused, if it is: a cancelled order takes none, and
/// no payment is taken against a stale cart. The first line that does not
/// stand as valid names the failure.
pub open spec fn spec_payment_refusal(
    status: OrderStatus,
    lines: Seq<TicketLine>,
    instances: Seq<TicketInstance>,
    catalog: Catalog,
    now: i64,
) -> Option<EngineError> {
    if status == OrderStatus::Cancelled {
        Some(EngineError::InvalidStateTransition)
    } else {
        match first_match(
            lines,
            invalid_lines(instances, catalog, now, status == OrderStatus::Paid),
        ) {
            Some(i) => Some(
                EngineError::Validation(
                    spec_status_error(
                        spec_line_status(
                            lines[i],
                            instances,
                            catalog,
                            now,
                            status == OrderStatus::Paid,
                        ),
                    ),
                ),
            ),
            None => None,
        }
    }
}

/// The payment is the one that first takes the order to `Paid`.
pub open spec fn completes(before: OrderStatus, after: OrderStatus) -> bool {
    before != OrderStatus::Paid && after == OrderStatus::Paid
}

pub proof fn lemma_payments_total_push(payments: Seq<Payment>, payment: Payment, upto: int)
    requires
        0 <= upto <= payments.len(),
    ensures
        payments_total(payments.push(payment), upto) == payments_total(payments, upto),
        upto == payments.len() ==> payments_total(payments.push(payment), upto + 1)
            == payments_total(payments, upto) + payment.amount_in_cents,
    decreases upto,
{
    if upto > 0 {
        lemma_payments_total_push(payments, payment, upto - 1);
    }
}

pub proof fn lemma_event_count_push(
    events: Seq<DomainEventTypes>,
    pushed: DomainEventTypes,
    event: DomainEventTypes,
    upto: int,
)
    requires
        0 <= upto <= events.len(),
    ensures
        event_count(events.push(pushed), event, upto) == event_count(events, event, upto),
        upto == events.len() ==> event_count(events.push(pushed), event, upto + 1) == event_count(
            events,
            event,
            upto,
        ) + if pushed == event {
            1nat
        } else {
            0nat
        },
    decreases upto,
{
    if upto > 0 {
        lemma_event_count_push(events, pushed, event, upto - 1);
    }
    if upto == events.len() {
        assert(events.push(pushed)[upto] == pushed);
        assert(event_count(events.push(pushed), event, upto + 1) == event_count(
            events.push(pushed),
            event,
            upto,
        ) + if events.push(pushed)[upto] == event {
            1nat
        } else {
            0nat
        });
    }
}

impl Order {
    /// Takes a payment towards the order.
    ///
    /// A cancelled order takes none, and none is taken while a line cannot
    /// be purchased any more; the order and the ledger then stay as they
    /// were. Else the payment is recorded and the status follows the amount
    /// paid. The payment that first takes the order to `Paid` stamps the
    /// order, reports its completion and marks its tickets as purchased.
    pub fn add_external_payment(
        &mut self,
        external_reference: Option<String>,
        payer_id: u128,
        amount_in_cents: u64,
        ledger: &mut InventoryLedger,
        catalog: &Catalog,
        now: i64,
    ) -> (r: Result<(), EngineError>)
        requires
            old(self).wf(),
        ensures
            final(self).wf(),
            final(ledger).reservation_window_seconds == old(ledger).reservation_window_seconds,
            same_instances(old(ledger).instances@, final(ledger).instances@),
            old(ledger).wf() ==> final(ledger).wf(),
            final(self).id == old(self).id,
            final(self).user_id == old(self).user_id,
            final(self).created_at == old(self).created_at,
            final(self).expires_at == old(self).expires_at,
            final(self).note == old(self).note,
            final(self).box_office_pricing == old(self).box_office_pricing,
            final(self).lines == old(self).lines,
            final(self).event_fees == old(self).event_fees,
            match spec_payment_refusal(
                old(self).status,
                old(self).lines@,
                old(ledger).instances@,
                *catalog,
                now,
            ) {
                Some(e) => r == Err::<(), EngineError>(e) && *final(self) == *old(self)
                    && final(ledger).instances@ == old(ledger).instances@,
                None => {
                    &&& r is Ok
                    &&& final(self).payments@ == old(self).payments@.push(
                        Payment { external_reference, payer_id, amount_in_cents },
                    )
                    &&& final(self).status == status_for(
                        old(self).spec_paid() + amount_in_cents as nat,
                        old(self).spec_total(),
                    )
                    &&& if completes(old(self).status, final(self).status) {
                        &&& final(self).events@ == old(self).events@.push(
                            DomainEventTypes::OrderCompleted,
                        )
                        &&& final(self).paid_at == Some(now)
                        &&& final(ledger).instances@ == spec_purchase_lines(
                            old(ledger).instances@,
                            old(self).lines@,
                            old(self).lines@.len() as int,
                        )
                    } else {
                        &&& final(self).events@ == old(self).events@
                        &&& final(self).paid_at == old(self).paid_at
                        &&& final(ledger).instances@ == old(ledger).instances@
                    }
                },
            },
    {
        let was_paid = match self.status {
            OrderStatus::Cancelled => {
                return Err(EngineError::InvalidStateTransition);
            },
            OrderStatus::Paid => true,
            _ => false,
        };
        match first_invalid_line(&self.lines, ledger, catalog, now, was_paid) {
            Some((_, status)) => {
                return Err(EngineError::Validation(status_error(status)));
            },
            None => {},
        }
        let total = self.calculate_total();
        proof {
            lemma_payments_total_push(
                self.payments@,
                Payment { external_reference, payer_id, amount_in_cents },
                self.payments@.len() as int,
            );
        }
        self.payments.push(Payment { external_reference, payer_id, amount_in_cents });
        let paid = self.paid_total();
        let status = if paid == 0 {
            OrderStatus::Draft
        } else if paid < total {
            OrderStatus::PartiallyPaid
        } else {
            OrderStatus::Paid
        };
        let now_paid = match status {
            OrderStatus::Paid => true,
            _ => false,
        };
        self.status = status;
        if now_paid && !was_paid {
            proof {
                lemma_event_count_push(
                    self.events@,
                    DomainEventTypes::OrderCompleted,
                    DomainEventTypes::OrderCompleted,
                    self.events@.len() as int,
                );
            }
            self.events.push(DomainEventTypes::OrderCompleted);
            self.paid_at = Some(now);
            let ghost before = ledger.instances@;
            let mut i: usize = 0;
            while i < self.lines.len()
                invariant
                    0 <= i <= self.lines.len(),
                    ledger.reservation_window_seconds == old(ledger).reservation_window_seconds,
                    same_instances(before, ledger.instances@),
                    ledger.instances@ == spec_purchase_lines(before, self.lines@, i as int),
                decreases self.lines.len() - i,
            {
                ledger.mark_purchased(self.lines[i].id);
                i += 1;
            }
        }
        proof {
            if old(ledger).wf() {
                crate::inventory::lemma_same_instances_distinct(
                    old(ledger).instances@,
                    ledger.instances@,
                );
            }
        }
        Ok(())
    }
}

} // verus!
