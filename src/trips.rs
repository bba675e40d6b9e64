//! Trips and legs as the upstream travel API returns them, and the two ways of
//! selecting the leg a caller should see.
use vstd::prelude::*;
use crate::timestamp::{PointInTime, later, normalized, normalize_timestamp};

verus! {

/// The origin record of a leg: station code, planned and actual departure
/// timestamps (raw upstream strings), planned and actual track.
#[derive(Clone, Debug, PartialEq, Eq)]
pub struct LegStation {
    pub station_code: String,
    pub planned_date_time: String,
    pub actual_date_time: String,
    pub planned_track: String,
    pub actual_track: String,
}

impl LegStation {
    /// A field-for-field copy.
    pub fn copied(&self) -> (r: LegStation)
        ensures
            r == *self,
    {
        LegStation {
            station_code: self.station_code.clone(),
            planned_date_time: self.planned_date_time.clone(),
            actual_date_time: self.actual_date_time.clone(),
            planned_track: self.planned_track.clone(),
            actual_track: self.actual_track.clone(),
        }
    }
}

/// One segment of a journey.
#[derive(Clone, Debug, PartialEq, Eq)]
pub struct Leg {
    pub origin: LegStation,
}

/// One journey option: its legs in order. The upstream may send none.
#[derive(Clone, Debug, PartialEq, Eq)]
pub struct Trip {
    pub legs: Vec<Leg>,
}

/// How the leg shown to a caller is chosen.
#[derive(Clone, Copy, Debug, PartialEq, Eq, Structural)]
pub enum SelectionStrategy {
    /// The first trip, in upstream order, whose first leg actually departs after
    /// the reference time.
    NextUpcoming,
    /// The first leg of the first trip, whatever its time.
    MostImmediate,
}

/// Upstream data that selection cannot work with.
#[derive(Clone, Debug, PartialEq, Eq)]
pub enum SelectError {
    /// A first leg's actual departure is no timestamp, even after repair.
    MalformedTimestamp(String),
    /// The trip to report has no legs.
    MissingLeg,
}

/// The origin of a trip's first leg, if it has one.
pub open spec fn first_origin(t: Trip) -> Option<LegStation> {
    if t.legs@.len() > 0 {
        Some(t.legs@[0].origin)
    } else {
        None
    }
}

/// Next-upcoming selection over the trips from index `i` on: trips without legs
/// are passed over, the first whose first leg departs after `reference` is taken,
/// and a timestamp that cannot be read met before that is an error.
pub open spec fn upcoming_from(trips: Seq<Trip>, reference: PointInTime, i: nat) -> Result<
    Option<LegStation>,
    SelectError,
>
    decreases trips.len() - i,
{
    if i >= trips.len() {
        Ok(None)
    } else {
        match first_origin(trips[i as int]) {
            None => upcoming_from(trips, reference, i + 1),
            Some(o) => match normalized(o.actual_date_time@) {
                None => Err(SelectError::MalformedTimestamp(o.actual_date_time)),
                Some(t) => if later(t, reference) {
                    Ok(Some(o))
                } else {
                    upcoming_from(trips, reference, i + 1)
                },
            },
        }
    }
}

/// Most-immediate selection: the first leg of the first trip; nothing for no
/// trips, an error for a first trip without legs.
pub open spec fn most_immediate(trips: Seq<Trip>) -> Result<Option<LegStation>, SelectError> {
    if trips.len() == 0 {
        Ok(None)
    } else {
        match first_origin(trips[0]) {
            None => Err(SelectError::MissingLeg),
            Some(o) => Ok(Some(o)),
        }
    }
}

/// The outcome of selection under a strategy.
pub open spec fn selection(strategy: SelectionStrategy, trips: Seq<Trip>, reference: PointInTime) -> Result<
    Option<LegStation>,
    SelectError,
> {
    match strategy {
        SelectionStrategy::NextUpcoming => upcoming_from(trips, reference, 0),
        SelectionStrategy::MostImmediate => most_immediate(trips),
    }
}

/// What next-upcoming selection reads of a trip.
#[derive(Clone, Copy, Debug, PartialEq, Eq, Structural)]
pub enum Departure {
    /// The trip has no legs.
    NoLeg,
    /// The first leg's actual departure cannot be read as a timestamp.
    Unreadable,
    /// The first leg actually departs at this point in time.
    At(PointInTime),
}

/// What next-upcoming selection reads of trip `t`.
pub open spec fn departure_of(t: Trip) -> Departure {
    match first_origin(t) {
        None => Departure::NoLeg,
        Some(o) => match normalized(o.actual_date_time@) {
            None => Departure::Unreadable,
            Some(d) => Departure::At(d),
        },
    }
}

/// Next-upcoming selection over departures from index `i` on: the index of the
/// first that lies after `reference`, with `NoLeg` passed over; `Err` with the
/// index of an `Unreadable` one met before that.
pub open spec fn upcoming_index(deps: Seq<Departure>, reference: PointInTime, i: nat) -> Result<
    Option<int>,
    int,
>
    decreases deps.len() - i,
{
    if i >= deps.len() {
        Ok(None)
    } else {
        match deps[i as int] {
            Departure::NoLeg => upcoming_index(deps, reference, i + 1),
            Departure::Unreadable => Err(i as int),
            Departure::At(t) => if later(t, reference) {
                Ok(Some(i as int))
            } else {
                upcoming_index(deps, reference, i + 1)
            },
        }
    }
}

proof fn lemma_upcoming_index_bounds(deps: Seq<Departure>, reference: PointInTime, i: nat)
    ensures
        upcoming_index(deps, reference, i) matches Ok(Some(j)) ==> i <= j < deps.len()
            && deps[j] is At,
        upcoming_index(deps, reference, i) matches Err(j) ==> i <= j < deps.len()
            && deps[j] is Unreadable,
    decreases deps.len() - i,
{
    if i < deps.len() {
        lemma_upcoming_index_bounds(deps, reference, i + 1);
    }
}

proof fn lemma_upcoming_by_departures(
    trips: Seq<Trip>,
    deps: Seq<Departure>,
    reference: PointInTime,
    i: nat,
)
    requires
        deps.len() == trips.len(),
        forall|k: int| 0 <= k < trips.len() ==> deps[k] == departure_of(#[trigger] trips[k]),
    ensures
        upcoming_from(trips, reference, i) == match upcoming_index(deps, reference, i) {
            Ok(None) => Ok(None),
            Ok(Some(j)) => Ok(Some(trips[j].legs@[0].origin)),
            Err(j) => Err(SelectError::MalformedTimestamp(trips[j].legs@[0].origin.actual_date_time)),
        },
    decreases trips.len() - i,
{
    if i < trips.len() {
        assert(deps[i as int] == departure_of(trips[i as int]));
        lemma_upcoming_by_departures(trips, deps, reference, i + 1);
    }
}

/// The index of the first departure, in the order given, that lies after
/// `reference`, trips without legs passed over; `Err` with the index of an
/// unreadable departure met before any such.
pub fn first_upcoming(deps: &Vec<Departure>, reference: PointInTime) -> (r: Result<
    Option<usize>,
    usize,
>)
    ensures
        r == match upcoming_index(deps@, reference, 0) {
            Ok(None) => Ok(None),
            Ok(Some(j)) => Ok(Some(j as usize)),
            Err(j) => Err(j as usize),
        },
{
    let mut i: usize = 0;
    while i < deps.len()
        invariant
            0 <= i <= deps@.len(),
            upcoming_index(deps@, reference, 0) == upcoming_index(deps@, reference, i as nat),
        decreases deps@.len() - i,
    {
        match deps[i] {
            Departure::NoLeg => {},
            Departure::Unreadable => {
                return Err(i);
            },
            Departure::At(t) => {
                if t.is_after(&reference) {
                    return Ok(Some(i));
                }
            },
        }
        i = i + 1;
    }
    Ok(None)
}

/// What next-upcoming selection reads of a trip: its first leg's actual
/// departure, normalized.
pub fn departure(trip: &Trip) -> (r: Departure)
    ensures
        r == departure_of(*trip),
{
    if trip.legs.len() == 0 {
        Departure::NoLeg
    } else {
        match normalize_timestamp(trip.legs[0].origin.actual_date_time.as_str()) {
            None => Departure::Unreadable,
            Some(t) => Departure::At(t),
        }
    }
}

/// The first trip, in the order given, whose first leg's actual departure lies
/// after `reference`; `Ok(None)` where there is none.
pub fn select_upcoming(trips: &Vec<Trip>, reference: PointInTime) -> (r: Result<
    Option<LegStation>,
    SelectError,
>)
    ensures
        r == upcoming_from(trips@, reference, 0),
{
    let mut deps: Vec<Departure> = Vec::new();
    let mut i: usize = 0;
    while i < trips.len()
        invariant
            0 <= i <= trips@.len(),
            deps@.len() == i,
            forall|k: int| 0 <= k < i ==> deps@[k] == departure_of(#[trigger] trips@[k]),
        decreases trips@.len() - i,
    {
        deps.push(departure(&trips[i]));
        i = i + 1;
    }
    proof {
        lemma_upcoming_by_departures(trips@, deps@, reference, 0);
        lemma_upcoming_index_bounds(deps@, reference, 0);
    }
    match first_upcoming(&deps, reference) {
        Ok(None) => Ok(None),
        Ok(Some(j)) => Ok(Some(trips[j].legs[0].origin.copied())),
        Err(j) => Err(SelectError::MalformedTimestamp(trips[j].legs[0].origin.actual_date_time.clone())),
    }
}

/// The first leg of the first trip; `Ok(None)` for no trips and
/// `Err(MissingLeg)` where the first trip has no legs.
pub fn select_most_immediate(trips: &Vec<Trip>) -> (r: Result<Option<LegStation>, SelectError>)
    ensures
        r == most_immediate(trips@),
{
    if trips.len() == 0 {
        Ok(None)
    } else if trips[0].legs.len() == 0 {
        Err(SelectError::MissingLeg)
    } else {
        Ok(Some(trips[0].legs[0].origin.copied()))
    }
}

/// Selects by `strategy`; `reference` counts for `NextUpcoming` only.
pub fn select(strategy: SelectionStrategy, trips: &Vec<Trip>, reference: PointInTime) -> (r: Result<
    Option<LegStation>,
    SelectError,
>)
    ensures
        r == selection(strategy, trips@, reference),
{
    match strategy {
        SelectionStrategy::NextUpcoming => select_upcoming(trips, reference),
        SelectionStrategy::MostImmediate => select_most_immediate(trips),
    }
}

/// Trip `t` is one that next-upcoming selection takes: its first leg departs
/// after `reference`.
pub open spec fn qualifies(t: Trip, reference: PointInTime) -> bool {
    match first_origin(t) {
        Some(o) => match normalized(o.actual_date_time@) {
            Some(d) => later(d, reference),
            None => false,
        },
        None => false,
    }
}

/// Trip `t` is one that next-upcoming selection passes over: it has no legs, or
/// its first leg departs no later than `reference`.
pub open spec fn passed_over(t: Trip, reference: PointInTime) -> bool {
    match first_origin(t) {
        Some(o) => match normalized(o.actual_date_time@) {
            Some(d) => !later(d, reference),
            None => false,
        },
        None => true,
    }
}

proof fn lemma_upcoming_reaches(trips: Seq<Trip>, reference: PointInTime, i: int, k: int)
    requires
        0 <= k <= i < trips.len(),
        qualifies(trips[i], reference),
        forall|j: int| 0 <= j < i ==> passed_over(#[trigger] trips[j], reference),
    ensures
        upcoming_from(trips, reference, k as nat) == Ok::<Option<LegStation>, SelectError>(
            Some(trips[i].legs@[0].origin),
        ),
    decreases i - k,
{
    if k < i {
        assert(passed_over(trips[k], reference));
        lemma_upcoming_reaches(trips, reference, i, k + 1);
    }
}

/// The first qualifying trip in the order given wins: where trip `i`'s first
/// leg departs after the reference time and every trip before it is passed over,
/// next-upcoming selection returns trip `i`'s first leg.
pub proof fn lemma_first_qualifying_wins(trips: Seq<Trip>, reference: PointInTime, i: int)
    requires
        0 <= i < trips.len(),
        qualifies(trips[i], reference),
        forall|j: int| 0 <= j < i ==> passed_over(#[trigger] trips[j], reference),
    ensures
        selection(SelectionStrategy::NextUpcoming, trips, reference) == Ok::<
            Option<LegStation>,
            SelectError,
        >(Some(trips[i].legs@[0].origin)),
{
    lemma_upcoming_reaches(trips, reference, i, 0);
}

/// An empty trip list selects nothing under either strategy, and is no error.
pub proof fn lemma_no_trips_no_leg(strategy: SelectionStrategy, reference: PointInTime)
    ensures
        selection(strategy, Seq::<Trip>::empty(), reference) == Ok::<
            Option<LegStation>,
            SelectError,
        >(None),
{
}

proof fn lemma_upcoming_shift(trips: Seq<Trip>, reference: PointInTime, k: nat)
    requires
        trips.len() > 0,
    ensures
        upcoming_from(trips, reference, k + 1) == upcoming_from(trips.drop_first(), reference, k),
    decreases trips.len() - k,
{
    if k + 1 < trips.len() {
        assert(trips[(k + 1) as int] == trips.drop_first()[k as int]);
        lemma_upcoming_shift(trips, reference, k + 1);
    }
}

/// A first trip without legs is skipped by next-upcoming selection, which goes
/// on with the rest, and is missing data for most-immediate selection.
pub proof fn lemma_legless_first_trip(trips: Seq<Trip>, reference: PointInTime)
    requires
        trips.len() > 0,
        trips[0].legs@.len() == 0,
    ensures
        selection(SelectionStrategy::NextUpcoming, trips, reference) == selection(
            SelectionStrategy::NextUpcoming,
            trips.drop_first(),
            reference,
        ),
        selection(SelectionStrategy::MostImmediate, trips, reference) == Err::<
            Option<LegStation>,
            SelectError,
        >(SelectError::MissingLeg),
{
    lemma_upcoming_shift(trips, reference, 0);
}

} // verus!
