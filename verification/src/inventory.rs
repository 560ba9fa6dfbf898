//! The inventory ledger: one record per ticket instance, with the transitions
//! that reserve, release, purchase and redeem them.

use crate::enums::TicketInstanceStatus;
use crate::errors::EngineError;
use vstd::prelude::*;

verus! {

/// One concrete, individually trackable unit of inventory.
#[derive(Clone, Copy, Debug, PartialEq, Eq)]
pub struct TicketInstance {
    pub id: u128,
    pub ticket_type_id: u128,
    pub status: TicketInstanceStatus,
    /// The line item that holds the instance; `None` while unassigned.
    pub order_item_id: Option<u128>,
    /// Until when a reservation holds, in seconds.
    pub reserved_until: Option<i64>,
}

/// All ticket instances, in a fixed order. Reservations claim the first
/// claimable instances in that order.
#[derive(Debug)]
pub struct InventoryLedger {
    pub instances: Vec<TicketInstance>,
    /// How long a new reservation holds, in seconds.
    pub reservation_window_seconds: u32,
}

/// An instance can be claimed for a ticket type when it is available, or when
/// it is reserved and that reservation has lapsed.
pub open spec fn claimable(t: TicketInstance, ticket_type_id: u128, now: i64) -> bool {
    &&& t.ticket_type_id == ticket_type_id
    &&& (t.status == TicketInstanceStatus::Available || (t.status == TicketInstanceStatus::Reserved
        && t.reserved_until is Some && t.reserved_until->0 < now))
}

/// How many of the first `upto` instances can be claimed.
pub open spec fn claimable_count(s: Seq<TicketInstance>, ticket_type_id: u128, now: i64, upto: int)
    -> nat
    decreases upto,
{
    if upto <= 0 {
        0
    } else {
        claimable_count(s, ticket_type_id, now, upto - 1) + if claimable(
            s[upto - 1],
            ticket_type_id,
            now,
        ) {
            1nat
        } else {
            0nat
        }
    }
}

/// The instance is linked to the line item.
pub open spec fn linked(t: TicketInstance, order_item_id: u128) -> bool {
    t.order_item_id == Some(order_item_id)
}

/// How many of the first `upto` instances are linked to the line item.
pub open spec fn linked_count(s: Seq<TicketInstance>, order_item_id: u128, upto: int) -> nat
    decreases upto,
{
    if upto <= 0 {
        0
    } else {
        linked_count(s, order_item_id, upto - 1) + if linked(s[upto - 1], order_item_id) {
            1nat
        } else {
            0nat
        }
    }
}

/// The instance after a reservation for `order_item_id`.
pub open spec fn claimed(t: TicketInstance, order_item_id: u128, until: i64) -> TicketInstance {
    TicketInstance {
        status: TicketInstanceStatus::Reserved,
        order_item_id: Some(order_item_id),
        reserved_until: Some(until),
        ..t
    }
}

/// The instance after its release.
pub open spec fn released(t: TicketInstance) -> TicketInstance {
    TicketInstance {
        status: TicketInstanceStatus::Available,
        order_item_id: None,
        reserved_until: None,
        ..t
    }
}

/// The instance after its link is cleared, status untouched.
pub open spec fn unlinked(t: TicketInstance) -> TicketInstance {
    TicketInstance { order_item_id: None, ..t }
}

/// The instance after payment of the line item that holds it.
pub open spec fn purchased(t: TicketInstance, order_item_id: u128) -> TicketInstance {
    if linked(t, order_item_id) && t.status == TicketInstanceStatus::Reserved {
        TicketInstance { status: TicketInstanceStatus::Purchased, ..t }
    } else {
        t
    }
}

/// Whether a reservation of `quantity` claims the instance at `i`: it is
/// claimable and fewer than `quantity` claimable instances stand before it.
pub open spec fn claims_at(
    s: Seq<TicketInstance>,
    ticket_type_id: u128,
    quantity: nat,
    now: i64,
    i: int,
) -> bool {
    claimable(s[i], ticket_type_id, now) && claimable_count(s, ticket_type_id, now, i) < quantity
}

/// The ledger after a successful reservation of `quantity` instances.
pub open spec fn spec_reserve(
    s: Seq<TicketInstance>,
    ticket_type_id: u128,
    quantity: nat,
    order_item_id: u128,
    until: i64,
    now: i64,
) -> Seq<TicketInstance> {
    Seq::new(
        s.len(),
        |i: int|
            if claims_at(s, ticket_type_id, quantity, now, i) {
                claimed(s[i], order_item_id, until)
            } else {
                s[i]
            },
    )
}

/// The ids that a reservation of `quantity` claims among the first `upto`
/// instances, in ledger order.
pub open spec fn spec_reserved_ids(
    s: Seq<TicketInstance>,
    ticket_type_id: u128,
    quantity: nat,
    now: i64,
    upto: int,
) -> Seq<u128>
    decreases upto,
{
    if upto <= 0 {
        Seq::empty()
    } else {
        let before = spec_reserved_ids(s, ticket_type_id, quantity, now, upto - 1);
        if claims_at(s, ticket_type_id, quantity, now, upto - 1) {
            before.push(s[upto - 1].id)
        } else {
            before
        }
    }
}

/// Whether a release of up to `quantity` instances frees the instance at `i`.
pub open spec fn releases_at(s: Seq<TicketInstance>, order_item_id: u128, quantity: nat, i: int)
    -> bool {
    linked(s[i], order_item_id) && linked_count(s, order_item_id, i) < quantity
}

/// The ledger after the first `quantity` instances linked to the line item
/// are released.
pub open spec fn spec_release(s: Seq<TicketInstance>, order_item_id: u128, quantity: nat) -> Seq<
    TicketInstance,
> {
    Seq::new(
        s.len(),
        |i: int|
            if releases_at(s, order_item_id, quantity, i) {
                released(s[i])
            } else {
                s[i]
            },
    )
}

/// The ledger after every instance linked to the line item is purchased.
pub open spec fn spec_mark_purchased(s: Seq<TicketInstance>, order_item_id: u128) -> Seq<
    TicketInstance,
> {
    Seq::new(s.len(), |i: int| purchased(s[i], order_item_id))
}

/// The position of the first instance with the id among the first `upto`.
pub open spec fn spec_find_instance(s: Seq<TicketInstance>, id: u128, upto: int) -> Option<int>
    decreases upto,
{
    if upto <= 0 {
        None
    } else {
        match spec_find_instance(s, id, upto - 1) {
            Some(i) => Some(i),
            None => if s[upto - 1].id == id {
                Some(upto - 1)
            } else {
                None
            },
        }
    }
}

/// The second ledger holds the instances of the first: as many, in the
/// same order, each under its id and of its ticket type.
pub open spec fn same_instances(a: Seq<TicketInstance>, b: Seq<TicketInstance>) -> bool {
    &&& a.len() == b.len()
    &&& forall|i: int|
        0 <= i < a.len() ==> (#[trigger] a[i]).id == b[i].id && a[i].ticket_type_id
            == b[i].ticket_type_id
}

/// No two instances share an id.
pub open spec fn instance_ids_distinct(s: Seq<TicketInstance>) -> bool {
    forall|i: int, j: int| 0 <= i < j < s.len() ==> s[i].id != s[j].id
}

/// A ledger that holds the instances of one without shared ids has no
/// shared ids.
pub proof fn lemma_same_instances_distinct(a: Seq<TicketInstance>, b: Seq<TicketInstance>)
    requires
        same_instances(a, b),
        instance_ids_distinct(a),
    ensures
        instance_ids_distinct(b),
{
    assert forall|i: int, j: int| 0 <= i < j < b.len() implies b[i].id != b[j].id by {
        assert(a[i].id == b[i].id);
        assert(a[j].id == b[j].id);
    }
}

pub proof fn lemma_linked_count_bounded(s: Seq<TicketInstance>, order_item_id: u128, upto: int)
    requires
        0 <= upto,
    ensures
        linked_count(s, order_item_id, upto) <= upto,
    decreases upto,
{
    if upto > 0 {
        lemma_linked_count_bounded(s, order_item_id, upto - 1);
    }
}

/// A found position holds the id, and no earlier position does.
pub proof fn lemma_find_instance(s: Seq<TicketInstance>, id: u128, upto: int)
    requires
        0 <= upto <= s.len(),
    ensures
        match spec_find_instance(s, id, upto) {
            Some(i) => 0 <= i < upto && s[i].id == id && forall|j: int|
                0 <= j < i ==> s[j].id != id,
            None => forall|j: int| 0 <= j < upto ==> s[j].id != id,
        },
    decreases upto,
{
    if upto > 0 {
        lemma_find_instance(s, id, upto - 1);
    }
}

impl InventoryLedger {
    /// No two instances share an id.
    pub open spec fn wf(&self) -> bool {
        instance_ids_distinct(self.instances@)
    }

    /// How many instances of the ticket type can be claimed at `now`.
    pub fn available_count(&self, ticket_type_id: u128, now: i64) -> (count: usize)
        ensures
            count == claimable_count(
                self.instances@,
                ticket_type_id,
                now,
                self.instances@.len() as int,
            ),
    {
        let mut count: usize = 0;
        let mut i: usize = 0;
        while i < self.instances.len()
            invariant
                0 <= i <= self.instances.len(),
                count == claimable_count(self.instances@, ticket_type_id, now, i as int),
                count <= i,
            decreases self.instances.len() - i,
        {
            let t = self.instances[i];
            let free = match t.status {
                TicketInstanceStatus::Available => true,
                TicketInstanceStatus::Reserved => match t.reserved_until {
                    Some(until) => until < now,
                    None => false,
                },
                _ => false,
            };
            if t.ticket_type_id == ticket_type_id && free {
                count += 1;
            }
            i += 1;
        }
        count
    }

    /// How many instances are linked to the line item.
    pub fn linked_to(&self, order_item_id: u128) -> (count: usize)
        ensures
            count == linked_count(self.instances@, order_item_id, self.instances@.len() as int),
    {
        let mut count: usize = 0;
        let mut i: usize = 0;
        while i < self.instances.len()
            invariant
                0 <= i <= self.instances.len(),
                count == linked_count(self.instances@, order_item_id, i as int),
                count <= i,
            decreases self.instances.len() - i,
        {
            let t = self.instances[i];
            let hit = match t.order_item_id {
                Some(owner) => owner == order_item_id,
                None => false,
            };
            if hit {
                count += 1;
            }
            i += 1;
        }
        count
    }

    /// Claims `quantity` instances of the ticket type for the line item: the
    /// first claimable ones in ledger order become reserved, linked to the
    /// item, and held until `now` plus the reservation window. With fewer
    /// claimable instances than asked for nothing changes.
    pub fn reserve(
        &mut self,
        ticket_type_id: u128,
        quantity: u32,
        owning_order_item: u128,
        now: i64,
    ) -> (r: Result<Vec<u128>, EngineError>)
        requires
            now + old(self).reservation_window_seconds <= i64::MAX,
        ensures
            final(self).reservation_window_seconds == old(self).reservation_window_seconds,
            same_instances(old(self).instances@, final(self).instances@),
            old(self).wf() ==> final(self).wf(),
            r is Ok <==> claimable_count(
                old(self).instances@,
                ticket_type_id,
                now,
                old(self).instances@.len() as int,
            ) >= quantity,
            r matches Err(e) ==> e == EngineError::InsufficientInventory && final(self).instances@
                == old(self).instances@,
            r matches Ok(ids) ==> {
                &&& final(self).instances@ == spec_reserve(
                    old(self).instances@,
                    ticket_type_id,
                    quantity as nat,
                    owning_order_item,
                    (now + old(self).reservation_window_seconds) as i64,
                    now,
                )
                &&& ids@ == spec_reserved_ids(
                    old(self).instances@,
                    ticket_type_id,
                    quantity as nat,
                    now,
                    old(self).instances@.len() as int,
                )
            },
    {
        let available = self.available_count(ticket_type_id, now);
        if available < quantity as usize {
            return Err(EngineError::InsufficientInventory);
        }
        let until: i64 = now + self.reservation_window_seconds as i64;
        let ghost before = self.instances@;
        let mut ids: Vec<u128> = Vec::new();
        let mut taken: usize = 0;
        let mut i: usize = 0;
        while i < self.instances.len()
            invariant
                0 <= i <= self.instances.len(),
                self.instances@.len() == before.len(),
                self.reservation_window_seconds == old(self).reservation_window_seconds,
                taken == claimable_count(before, ticket_type_id, now, i as int),
                taken <= i,
                ids@ == spec_reserved_ids(before, ticket_type_id, quantity as nat, now, i as int),
                forall|j: int|
                    0 <= j < i ==> self.instances@[j] == spec_reserve(
                        before,
                        ticket_type_id,
                        quantity as nat,
                        owning_order_item,
                        until,
                        now,
                    )[j],
                forall|j: int| i <= j < before.len() ==> self.instances@[j] == before[j],
            decreases self.instances.len() - i,
        {
            let t = self.instances[i];
            let free = match t.status {
                TicketInstanceStatus::Available => true,
                TicketInstanceStatus::Reserved => match t.reserved_until {
                    Some(end) => end < now,
                    None => false,
                },
                _ => false,
            };
            if t.ticket_type_id == ticket_type_id && free {
                if taken < quantity as usize {
                    self.instances.set(
                        i,
                        TicketInstance {
                            id: t.id,
                            ticket_type_id: t.ticket_type_id,
                            status: TicketInstanceStatus::Reserved,
                            order_item_id: Some(owning_order_item),
                            reserved_until: Some(until),
                        },
                    );
                    ids.push(t.id);
                }
                taken += 1;
            }
            i += 1;
        }
        assert(self.instances@ =~= spec_reserve(
            before,
            ticket_type_id,
            quantity as nat,
            owning_order_item,
            until,
            now,
        ));
        Ok(ids)
    }

    /// Releases up to `quantity` instances linked to the line item, the first
    /// in ledger order: each becomes available and unassigned. Returns how
    /// many were released.
    pub fn release_quantity(&mut self, order_item_id: u128, quantity: usize) -> (count: usize)
        ensures
            final(self).reservation_window_seconds == old(self).reservation_window_seconds,
            same_instances(old(self).instances@, final(self).instances@),
            old(self).wf() ==> final(self).wf(),
            final(self).instances@ == spec_release(
                old(self).instances@,
                order_item_id,
                quantity as nat,
            ),
            count == if linked_count(
                old(self).instances@,
                order_item_id,
                old(self).instances@.len() as int,
            ) <= quantity {
                linked_count(
                    old(self).instances@,
                    order_item_id,
                    old(self).instances@.len() as int,
                )
            } else {
                quantity as nat
            },
    {
        let ghost before = self.instances@;
        let mut seen: usize = 0;
        let mut i: usize = 0;
        while i < self.instances.len()
            invariant
                0 <= i <= self.instances.len(),
                self.instances@.len() == before.len(),
                self.reservation_window_seconds == old(self).reservation_window_seconds,
                seen == linked_count(before, order_item_id, i as int),
                seen <= i,
                forall|j: int|
                    0 <= j < i ==> self.instances@[j] == spec_release(
                        before,
                        order_item_id,
                        quantity as nat,
                    )[j],
                forall|j: int| i <= j < before.len() ==> self.instances@[j] == before[j],
            decreases self.instances.len() - i,
        {
            let t = self.instances[i];
            let hit = match t.order_item_id {
                Some(owner) => owner == order_item_id,
                None => false,
            };
            if hit {
                if seen < quantity {
                    self.instances.set(
                        i,
                        TicketInstance {
                            id: t.id,
                            ticket_type_id: t.ticket_type_id,
                            status: TicketInstanceStatus::Available,
                            order_item_id: None,
                            reserved_until: None,
                        },
                    );
                }
                seen += 1;
            }
            i += 1;
        }
        assert(self.instances@ =~= spec_release(before, order_item_id, quantity as nat));
        if seen <= quantity {
            seen
        } else {
            quantity
        }
    }

    /// Releases every instance linked to the line item: each becomes
    /// available and unassigned. Returns how many were released.
    pub fn release(&mut self, order_item_id: u128) -> (count: usize)
        ensures
            final(self).reservation_window_seconds == old(self).reservation_window_seconds,
            same_instances(old(self).instances@, final(self).instances@),
            old(self).wf() ==> final(self).wf(),
            count == linked_count(
                old(self).instances@,
                order_item_id,
                old(self).instances@.len() as int,
            ),
            final(self).instances@ == spec_release(
                old(self).instances@,
                order_item_id,
                old(self).instances@.len(),
            ),
    {
        proof {
            lemma_linked_count_bounded(
                self.instances@,
                order_item_id,
                self.instances@.len() as int,
            );
        }
        let limit = self.instances.len();
        self.release_quantity(order_item_id, limit)
    }

    /// The position of the instance with the id, if there is one.
    pub fn find(&self, instance_id: u128) -> (r: Option<usize>)
        ensures
            match r {
                Some(i) => spec_find_instance(
                    self.instances@,
                    instance_id,
                    self.instances@.len() as int,
                ) == Some(i as int) && i < self.instances@.len(),
                None => spec_find_instance(
                    self.instances@,
                    instance_id,
                    self.instances@.len() as int,
                ) is None,
            },
    {
        let mut i: usize = 0;
        while i < self.instances.len()
            invariant
                0 <= i <= self.instances.len(),
                spec_find_instance(self.instances@, instance_id, i as int) is None,
            decreases self.instances.len() - i,
        {
            if self.instances[i].id == instance_id {
                proof {
                    lemma_find_step(self.instances@, instance_id, i as int);
                }
                return Some(i);
            }
            i += 1;
        }
        None
    }

    /// Redeems a ticket at the door: a reserved or purchased instance becomes
    /// redeemed. Any other status is refused, and so is an unknown id.
    pub fn redeem(&mut self, instance_id: u128) -> (r: Result<(), EngineError>)
        ensures
            final(self).reservation_window_seconds == old(self).reservation_window_seconds,
            same_instances(old(self).instances@, final(self).instances@),
            old(self).wf() ==> final(self).wf(),
            r == spec_redeem_result(old(self).instances@, instance_id),
            r is Err ==> final(self).instances@ == old(self).instances@,
            r is Ok ==> final(self).instances@ == spec_redeem(old(self).instances@, instance_id),
    {
        match self.find(instance_id) {
            None => Err(EngineError::NotFound),
            Some(i) => {
                let t = self.instances[i];
                match t.status {
                    TicketInstanceStatus::Reserved | TicketInstanceStatus::Purchased => {
                        self.instances.set(
                            i,
                            TicketInstance {
                                id: t.id,
                                ticket_type_id: t.ticket_type_id,
                                status: TicketInstanceStatus::Redeemed,
                                order_item_id: t.order_item_id,
                                reserved_until: t.reserved_until,
                            },
                        );
                        Ok(())
                    },
                    _ => Err(EngineError::InvalidStateTransition),
                }
            },
        }
    }

    /// Marks every reserved instance linked to the line item as purchased.
    pub fn mark_purchased(&mut self, order_item_id: u128)
        ensures
            final(self).reservation_window_seconds == old(self).reservation_window_seconds,
            same_instances(old(self).instances@, final(self).instances@),
            old(self).wf() ==> final(self).wf(),
            final(self).instances@ == spec_mark_purchased(old(self).instances@, order_item_id),
    {
        let ghost before = self.instances@;
        let mut i: usize = 0;
        while i < self.instances.len()
            invariant
                0 <= i <= self.instances.len(),
                self.instances@.len() == before.len(),
                self.reservation_window_seconds == old(self).reservation_window_seconds,
                forall|j: int| 0 <= j < i ==> self.instances@[j] == purchased(before[j], order_item_id),
                forall|j: int| i <= j < before.len() ==> self.instances@[j] == before[j],
            decreases self.instances.len() - i,
        {
            let t = self.instances[i];
            let hit = match t.order_item_id {
                Some(owner) => owner == order_item_id,
                None => false,
            };
            let reserved = match t.status {
                TicketInstanceStatus::Reserved => true,
                _ => false,
            };
            if hit && reserved {
                self.instances.set(
                    i,
                    TicketInstance {
                        id: t.id,
                        ticket_type_id: t.ticket_type_id,
                        status: TicketInstanceStatus::Purchased,
                        order_item_id: t.order_item_id,
                        reserved_until: t.reserved_until,
                    },
                );
            }
            i += 1;
        }
        assert(self.instances@ =~= spec_mark_purchased(before, order_item_id));
    }

    /// Clears the link of the instance at `index`; its status stays.
    pub fn unlink_at(&mut self, index: usize)
        requires
            index < old(self).instances@.len(),
        ensures
            final(self).reservation_window_seconds == old(self).reservation_window_seconds,
            same_instances(old(self).instances@, final(self).instances@),
            old(self).wf() ==> final(self).wf(),
            final(self).instances@ == old(self).instances@.update(
                index as int,
                unlinked(old(self).instances@[index as int]),
            ),
    {
        let t = self.instances[index];
        self.instances.set(
            index,
            TicketInstance {
                id: t.id,
                ticket_type_id: t.ticket_type_id,
                status: t.status,
                order_item_id: None,
                reserved_until: t.reserved_until,
            },
        );
    }
}

/// Whether a status allows redemption.
pub open spec fn redeemable(status: TicketInstanceStatus) -> bool {
    status == TicketInstanceStatus::Reserved || status == TicketInstanceStatus::Purchased
}

/// What redeeming the instance with the id answers.
pub open spec fn spec_redeem_result(s: Seq<TicketInstance>, instance_id: u128) -> Result<
    (),
    EngineError,
> {
    match spec_find_instance(s, instance_id, s.len() as int) {
        None => Err(EngineError::NotFound),
        Some(i) => if redeemable(s[i].status) {
            Ok(())
        } else {
            Err(EngineError::InvalidStateTransition)
        },
    }
}

/// The ledger after the instance with the id is redeemed.
pub open spec fn spec_redeem(s: Seq<TicketInstance>, instance_id: u128) -> Seq<TicketInstance> {
    match spec_find_instance(s, instance_id, s.len() as int) {
        None => s,
        Some(i) => s.update(i, TicketInstance { status: TicketInstanceStatus::Redeemed, ..s[i] }),
    }
}

/// Once an id is found among the first `i + 1` instances, it is found at the
/// same position among any longer prefix.
pub proof fn lemma_find_step(s: Seq<TicketInstance>, id: u128, i: int)
    requires
        0 <= i < s.len(),
        spec_find_instance(s, id, i) is None,
        s[i].id == id,
    ensures
        spec_find_instance(s, id, s.len() as int) == Some(i),
{
    lemma_find_stable(s, id, i, s.len() as int);
}

pub proof fn lemma_find_stable(s: Seq<TicketInstance>, id: u128, i: int, upto: int)
    requires
        0 <= i < upto <= s.len(),
        spec_find_instance(s, id, i) is None,
        s[i].id == id,
    ensures
        spec_find_instance(s, id, upto) == Some(i),
    decreases upto - i,
{
    if upto > i + 1 {
        lemma_find_stable(s, id, i, upto - 1);
    }
}

} // verus!
