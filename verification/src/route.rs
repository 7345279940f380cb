//! What is asked of the directions service and what it answers: location
//! references, routes with their legs, and the total duration of a route.

use vstd::prelude::*;
use vstd::std_specs::cmp::PartialEqSpecImpl;
use vstd::string::*;

verus! {

/// Either end of a directions query.
#[derive(Debug)]
pub enum LocationRef {
    /// A postal address in free text.
    Address(String),
    /// A place identifier as the mapping service knows it.
    PlaceId(String),
    /// A coordinate pair, each in units of a ten-millionth of a degree.
    LatLng { latitude_e7: i32, longitude_e7: i32 },
}

pub enum LocationRefView {
    Address(Seq<char>),
    PlaceId(Seq<char>),
    LatLng { latitude_e7: i32, longitude_e7: i32 },
}

impl View for LocationRef {
    type V = LocationRefView;

    open spec fn view(&self) -> LocationRefView {
        match self {
            LocationRef::Address(address) => LocationRefView::Address(address@),
            LocationRef::PlaceId(place_id) => LocationRefView::PlaceId(place_id@),
            LocationRef::LatLng { latitude_e7, longitude_e7 } => LocationRefView::LatLng {
                latitude_e7: *latitude_e7,
                longitude_e7: *longitude_e7,
            },
        }
    }
}

impl Clone for LocationRef {
    fn clone(&self) -> (copy: Self)
        ensures
            copy == *self,
    {
        match self {
            LocationRef::Address(address) => LocationRef::Address(address.clone()),
            LocationRef::PlaceId(place_id) => LocationRef::PlaceId(place_id.clone()),
            LocationRef::LatLng { latitude_e7, longitude_e7 } => LocationRef::LatLng {
                latitude_e7: *latitude_e7,
                longitude_e7: *longitude_e7,
            },
        }
    }
}

impl PartialEq for LocationRef {
    fn eq(&self, other: &Self) -> (same: bool) {
        match self {
            LocationRef::Address(mine) => match other {
                LocationRef::Address(theirs) => *mine == *theirs,
                _ => false,
            },
            LocationRef::PlaceId(mine) => match other {
                LocationRef::PlaceId(theirs) => *mine == *theirs,
                _ => false,
            },
            LocationRef::LatLng { latitude_e7, longitude_e7 } => match other {
                LocationRef::LatLng { latitude_e7: their_latitude, longitude_e7: their_longitude } => {
                    *latitude_e7 == *their_latitude && *longitude_e7 == *their_longitude
                },
                _ => false,
            },
        }
    }
}

impl Eq for LocationRef {

}

impl PartialEqSpecImpl for LocationRef {
    open spec fn obeys_eq_spec() -> bool {
        true
    }

    /// Two references are equal when they are of the same kind and hold the same value.
    open spec fn eq_spec(&self, other: &Self) -> bool {
        self@ == other@
    }
}

/// One continuous segment of a route.
#[derive(Debug, Clone, Copy, PartialEq, Eq, Structural)]
pub struct Leg {
    /// The time the leg takes, in seconds.
    pub duration_seconds: u64,
}

impl Leg {
    /// The leg of the given duration, or `None` for a negative number of
    /// seconds, which is the duration of no leg.
    pub fn from_seconds(seconds: i64) -> (leg: Option<Leg>)
        ensures
            seconds >= 0 ==> leg == Some(Leg { duration_seconds: seconds as u64 }),
            seconds < 0 ==> leg is None,
    {
        if seconds >= 0 {
            Some(Leg { duration_seconds: seconds as u64 })
        } else {
            None
        }
    }
}

/// A route as the directions service returns it: its legs in travel order.
#[derive(Debug)]
pub struct Route {
    pub legs: Vec<Leg>,
}

impl View for Route {
    type V = Seq<Leg>;

    open spec fn view(&self) -> Seq<Leg> {
        self.legs@
    }
}

/// The sum of the durations of all the legs, in seconds.
pub open spec fn total_seconds(legs: Seq<Leg>) -> nat
    decreases legs.len(),
{
    if legs.len() == 0 {
        0
    } else {
        total_seconds(legs.drop_last()) + legs.last().duration_seconds as nat
    }
}

/// The total is the same whichever way the legs are grouped: that of two
/// runs of legs one after the other is the sum of their totals.
pub proof fn lemma_total_of_concatenation(first: Seq<Leg>, second: Seq<Leg>)
    ensures
        total_seconds(first + second) == total_seconds(first) + total_seconds(second),
    decreases second.len(),
{
    if second.len() == 0 {
        assert(first + second == first);
    } else {
        lemma_total_of_concatenation(first, second.drop_last());
        assert((first + second).drop_last() == first + second.drop_last());
    }
}

/// The total of a list of legs is at most as many times the longest
/// duration a leg can have. So no list that fits in memory has a total
/// beyond 128 bits.
pub proof fn lemma_total_bound(legs: Seq<Leg>)
    ensures
        total_seconds(legs) <= legs.len() * u64::MAX,
    decreases legs.len(),
{
    if legs.len() > 0 {
        lemma_total_bound(legs.drop_last());
        assert((legs.len() - 1) * u64::MAX + u64::MAX == legs.len() * u64::MAX)
            by (nonlinear_arith);
    }
}

impl Route {
    /// The time the whole route takes: the sum over all its legs, in seconds.
    pub fn total_duration(&self) -> (total: u128)
        ensures
            total == total_seconds(self@),
    {
        let mut total: u128 = 0;
        let mut i: usize = 0;
        while i < self.legs.len()
            invariant
                i <= self.legs.len(),
                total == total_seconds(self.legs@.take(i as int)),
            decreases self.legs.len() - i,
        {
            proof {
                let next = self.legs@.take(i + 1);
                assert(next.drop_last() == self.legs@.take(i as int));
                lemma_total_bound(next);
                assert(next.len() * u64::MAX <= usize::MAX * u64::MAX) by (nonlinear_arith)
                    requires
                        next.len() <= usize::MAX,
                ;
                assert(usize::MAX * u64::MAX <= u64::MAX * u64::MAX) by (nonlinear_arith)
                    requires
                        usize::MAX <= u64::MAX,
                ;
            }
            total = total + self.legs[i].duration_seconds as u128;
            i += 1;
        }
        assert(self.legs@.take(i as int) == self.legs@);
        total
    }
}

/// What came back from the directions service for one query.
#[derive(Debug)]
pub enum Resolution {
    /// The service answered with these routes, possibly with none.
    Answered(Vec<Route>),
    /// The query failed on the way or at the service; the text says how.
    Failed(String),
}

pub enum ResolutionView {
    Answered(Seq<Seq<Leg>>),
    Failed(Seq<char>),
}

/// The views of a vector of routes.
pub open spec fn route_views(routes: Seq<Route>) -> Seq<Seq<Leg>> {
    routes.map_values(|route: Route| route@)
}

impl View for Resolution {
    type V = ResolutionView;

    open spec fn view(&self) -> ResolutionView {
        match self {
            Resolution::Answered(routes) => ResolutionView::Answered(route_views(routes@)),
            Resolution::Failed(reason) => ResolutionView::Failed(reason@),
        }
    }
}

} // verus!
