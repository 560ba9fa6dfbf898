//! The artists that play an event.

use vstd::prelude::*;

verus! {

/// An artist on the bill of an event, as stored.
#[derive(Clone, Copy, Debug, PartialEq, Eq)]
pub struct EventArtist {
    pub id: u128,
    pub event_id: u128,
    pub artist_id: u128,
    pub rank: i32,
    pub set_time: Option<i64>,
    pub created_at: i64,
    pub updated_at: i64,
    pub importance: i32,
    pub stage_id: Option<u128>,
}

/// An artist on the bill of an event, yet to be stored.
#[derive(Clone, Copy, Debug, PartialEq, Eq)]
pub struct NewEventArtist {
    pub event_id: u128,
    pub artist_id: u128,
    pub rank: i32,
    pub set_time: Option<i64>,
    pub importance: i32,
    pub stage_id: Option<u128>,
}

/// An artist on the bill of an event, as shown: the artist in full with
/// the place on the bill.
#[derive(Clone, Debug, PartialEq)]
pub struct DisplayEventArtist<A> {
    pub event_id: u128,
    pub artist: A,
    pub rank: i32,
    pub set_time: Option<i64>,
    pub importance: i32,
    pub stage_id: Option<u128>,
}

/// The entry shown for a stored entry and its artist.
pub open spec fn spec_display<A>(row: (EventArtist, A)) -> DisplayEventArtist<A> {
    DisplayEventArtist {
        event_id: row.0.event_id,
        artist: row.1,
        rank: row.0.rank,
        set_time: row.0.set_time,
        importance: row.0.importance,
        stage_id: row.0.stage_id,
    }
}

impl EventArtist {
    /// An artist to be put on the bill of an event.
    pub fn create(
        event_id: u128,
        artist_id: u128,
        rank: i32,
        set_time: Option<i64>,
        importance: i32,
        stage_id: Option<u128>,
    ) -> (r: NewEventArtist)
        ensures
            r == (NewEventArtist { event_id, artist_id, rank, set_time, importance, stage_id }),
    {
        NewEventArtist { event_id, artist_id, rank, set_time, importance, stage_id }
    }

    /// The bill of an event as shown, from the stored entries with their
    /// artists, in the order given.
    pub fn find_all_from_event<A>(results: Vec<(EventArtist, A)>) -> (r: Vec<DisplayEventArtist<A>>)
        ensures
            r@.len() == results@.len(),
            forall|i: int| 0 <= i < results@.len() ==> r@[i] == spec_display(results@[i]),
    {
        let mut rows = results;
        let mut reversed: Vec<DisplayEventArtist<A>> = Vec::new();
        let ghost n = rows@.len();
        while rows.len() > 0
            invariant
                n == results@.len(),
                rows@.len() + reversed@.len() == n,
                forall|i: int| 0 <= i < rows@.len() ==> rows@[i] == results@[i],
                forall|i: int|
                    0 <= i < reversed@.len() ==> reversed@[i] == spec_display(results@[n - 1 - i]),
            decreases rows@.len(),
        {
            match rows.pop() {
                Some(x) => {
                    reversed.push(
                        DisplayEventArtist {
                            event_id: x.0.event_id,
                            artist: x.1,
                            rank: x.0.rank,
                            set_time: x.0.set_time,
                            importance: x.0.importance,
                            stage_id: x.0.stage_id,
                        },
                    );
                },
                None => {},
            }
        }
        let mut display_results: Vec<DisplayEventArtist<A>> = Vec::new();
        while reversed.len() > 0
            invariant
                n == results@.len(),
                reversed@.len() + display_results@.len() == n,
                forall|i: int|
                    0 <= i < reversed@.len() ==> reversed@[i] == spec_display(results@[n - 1 - i]),
                forall|i: int|
                    0 <= i < display_results@.len() ==> display_results@[i] == spec_display(
                        results@[i],
                    ),
            decreases reversed@.len(),
        {
            match reversed.pop() {
                Some(x) => {
                    display_results.push(x);
                },
                None => {},
            }
        }
        display_results
    }
}

} // verus!
