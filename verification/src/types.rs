//! The record types of the transit API: arrivals and stops.

use vstd::prelude::*;

verus! {

/// One predicted, observed or scheduled bus arrival at a stop.
///
/// The three timestamps are optional Unix times; `line_id` is a numeric
/// line code that the wire format transmits as a string.
#[derive(Debug, PartialEq)]
pub struct Arrival {
    pub estimated_arrival_unix: Option<i64>,
    pub observed_arrival_unix: Option<i64>,
    pub scheduled_arrival_unix: Option<i64>,
    pub line_id: i16,
    pub headsign: String,
    pub scheduled_arrival: Option<String>,
}

/// The mathematical view of an [`Arrival`]: the same fields with strings
/// as character sequences.
pub struct ArrivalView {
    pub estimated_arrival_unix: Option<i64>,
    pub observed_arrival_unix: Option<i64>,
    pub scheduled_arrival_unix: Option<i64>,
    pub line_id: i16,
    pub headsign: Seq<char>,
    pub scheduled_arrival: Option<Seq<char>>,
}

impl View for Arrival {
    type V = ArrivalView;

    open spec fn view(&self) -> ArrivalView {
        ArrivalView {
            estimated_arrival_unix: self.estimated_arrival_unix,
            observed_arrival_unix: self.observed_arrival_unix,
            scheduled_arrival_unix: self.scheduled_arrival_unix,
            line_id: self.line_id,
            headsign: self.headsign@,
            scheduled_arrival: match self.scheduled_arrival {
                Some(ref s) => Some(s@),
                None => None,
            },
        }
    }
}

/// A loosely typed scalar value: some administrative fields of a stop vary
/// between schema versions, so they are kept as the scalar that the wire
/// carried. Numbers are kept as their decimal text.
#[derive(Debug, PartialEq)]
pub enum LooseValue {
    Null,
    Bool(bool),
    Num(String),
    Str(String),
}

/// The view of a [`LooseValue`].
pub enum LooseValueView {
    Null,
    Bool(bool),
    Num(Seq<char>),
    Str(Seq<char>),
}

impl View for LooseValue {
    type V = LooseValueView;

    open spec fn view(&self) -> LooseValueView {
        match self {
            LooseValue::Null => LooseValueView::Null,
            LooseValue::Bool(b) => LooseValueView::Bool(*b),
            LooseValue::Num(ref s) => LooseValueView::Num(s@),
            LooseValue::Str(ref s) => LooseValueView::Str(s@),
        }
    }
}

/// A physical transit stop.
///
/// Canonical schema choice: `id`, the display names and the identifier
/// lists are strings; the administrative identifiers and `facilities`
/// entries are loose scalars, since the API disagrees on their type across
/// schema versions; the coordinates are carried as the decimal text the
/// wire transmitted, so the core never holds a floating-point value.
#[derive(Debug, PartialEq)]
pub struct Stop {
    pub id: String,
    pub lat: String,
    pub lon: String,
    pub long_name: String,
    pub short_name: LooseValue,
    pub tts_name: String,
    pub district_id: LooseValue,
    pub municipality_id: LooseValue,
    pub region_id: LooseValue,
    pub line_ids: Vec<String>,
    pub route_ids: Vec<String>,
    pub pattern_ids: Vec<String>,
    pub facilities: Vec<LooseValue>,
    pub wheelchair_boarding: bool,
}

/// The view of a [`Stop`].
pub struct StopView {
    pub id: Seq<char>,
    pub lat: Seq<char>,
    pub lon: Seq<char>,
    pub long_name: Seq<char>,
    pub short_name: LooseValueView,
    pub tts_name: Seq<char>,
    pub district_id: LooseValueView,
    pub municipality_id: LooseValueView,
    pub region_id: LooseValueView,
    pub line_ids: Seq<Seq<char>>,
    pub route_ids: Seq<Seq<char>>,
    pub pattern_ids: Seq<Seq<char>>,
    pub facilities: Seq<LooseValueView>,
    pub wheelchair_boarding: bool,
}

impl View for Stop {
    type V = StopView;

    open spec fn view(&self) -> StopView {
        StopView {
            id: self.id@,
            lat: self.lat@,
            lon: self.lon@,
            long_name: self.long_name@,
            short_name: self.short_name@,
            tts_name: self.tts_name@,
            district_id: self.district_id@,
            municipality_id: self.municipality_id@,
            region_id: self.region_id@,
            line_ids: self.line_ids@.map_values(|s: String| s@),
            route_ids: self.route_ids@.map_values(|s: String| s@),
            pattern_ids: self.pattern_ids@.map_values(|s: String| s@),
            facilities: self.facilities@.map_values(|v: LooseValue| v@),
            wheelchair_boarding: self.wheelchair_boarding,
        }
    }
}

impl Clone for LooseValue {
    fn clone(&self) -> (res: Self)
        ensures
            res == *self,
    {
        match self {
            LooseValue::Null => LooseValue::Null,
            LooseValue::Bool(b) => LooseValue::Bool(*b),
            LooseValue::Num(s) => LooseValue::Num(s.clone()),
            LooseValue::Str(s) => LooseValue::Str(s.clone()),
        }
    }
}

fn clone_string_vec(v: &Vec<String>) -> (res: Vec<String>)
    ensures
        res@ == v@,
{
    let res = v.clone();
    proof {
        assert forall|i: int| 0 <= i < v@.len() implies res@[i] == v@[i] by {
            assert(vstd::pervasive::cloned::<String>(v@[i], res@[i]));
        }
        assert(res@ =~= v@);
    }
    res
}

fn clone_loose_vec(v: &Vec<LooseValue>) -> (res: Vec<LooseValue>)
    ensures
        res@ == v@,
{
    let res = v.clone();
    proof {
        assert forall|i: int| 0 <= i < v@.len() implies res@[i] == v@[i] by {
            assert(vstd::pervasive::cloned::<LooseValue>(v@[i], res@[i]));
        }
        assert(res@ =~= v@);
    }
    res
}

impl Clone for Arrival {
    fn clone(&self) -> (res: Self)
        ensures
            res@ == self@,
    {
        Arrival {
            estimated_arrival_unix: self.estimated_arrival_unix,
            observed_arrival_unix: self.observed_arrival_unix,
            scheduled_arrival_unix: self.scheduled_arrival_unix,
            line_id: self.line_id,
            headsign: self.headsign.clone(),
            scheduled_arrival: match &self.scheduled_arrival {
                Some(s) => Some(s.clone()),
                None => None,
            },
        }
    }
}

impl Clone for Stop {
    fn clone(&self) -> (res: Self)
        ensures
            res@ == self@,
    {
        Stop {
            id: self.id.clone(),
            lat: self.lat.clone(),
            lon: self.lon.clone(),
            long_name: self.long_name.clone(),
            short_name: self.short_name.clone(),
            tts_name: self.tts_name.clone(),
            district_id: self.district_id.clone(),
            municipality_id: self.municipality_id.clone(),
            region_id: self.region_id.clone(),
            line_ids: clone_string_vec(&self.line_ids),
            route_ids: clone_string_vec(&self.route_ids),
            pattern_ids: clone_string_vec(&self.pattern_ids),
            facilities: clone_loose_vec(&self.facilities),
            wheelchair_boarding: self.wheelchair_boarding,
        }
    }
}

/// What [`best_arrival_unix`] returns: the estimated time when present,
/// else the observed time, else the scheduled time, else nothing.
pub open spec fn spec_best_arrival_unix(a: ArrivalView) -> Option<i64> {
    if a.estimated_arrival_unix is Some {
        a.estimated_arrival_unix
    } else if a.observed_arrival_unix is Some {
        a.observed_arrival_unix
    } else {
        a.scheduled_arrival_unix
    }
}

/// Picks the best available arrival timestamp of an arrival, by the
/// priority estimated, then observed, then scheduled.
pub fn best_arrival_unix(a: &Arrival) -> (r: Option<i64>)
    ensures
        r == spec_best_arrival_unix(a@),
        r is None <==> a.estimated_arrival_unix is None && a.observed_arrival_unix is None
            && a.scheduled_arrival_unix is None,
{
    if a.estimated_arrival_unix.is_some() {
        a.estimated_arrival_unix
    } else if a.observed_arrival_unix.is_some() {
        a.observed_arrival_unix
    } else {
        a.scheduled_arrival_unix
    }
}

} // verus!
