//! Display rows: the plain values a front-end list shows for stops and
//! arrivals. The widgets themselves stay with the caller.

use vstd::prelude::*;
use vstd::string::StringExecFns;
use crate::types::{Arrival, Stop};

verus! {

/// One row of the arrivals list: the line number widened for display,
/// the display time, and the headsign as the direction.
pub struct ArrivalRow {
    pub number: i32,
    pub arrival_time: String,
    pub direction: String,
}

/// The row an arrival is shown as: its line number, its scheduled
/// display time — or a placeholder where there is none — and its
/// headsign.
pub fn arrival_row(a: &Arrival) -> (r: ArrivalRow)
    ensures
        r.number == a.line_id as i32,
        r.arrival_time@ == (match a@.scheduled_arrival {
            Some(t) => t,
            None => "--:--"@,
        }),
        r.direction@ == a@.headsign,
{
    ArrivalRow {
        number: a.line_id as i32,
        arrival_time: match &a.scheduled_arrival {
            Some(s) => s.clone(),
            None => String::from_str("--:--"),
        },
        direction: a.headsign.clone(),
    }
}

/// One row of the stop list: the display text and the stop identifier a
/// selection resolves back to.
pub struct StopRow {
    pub text: String,
    pub id: String,
}

/// The rows the stop catalog is shown as: one per stop, in catalog
/// order, the long name as the text and the identifier alongside.
pub fn stop_rows(stops: &Vec<Stop>) -> (r: Vec<StopRow>)
    ensures
        r@.len() == stops@.len(),
        forall|i: int|
            0 <= i < stops@.len() ==> (#[trigger] r@[i]).text@ == stops@[i]@.long_name && r@[i].id@
                == stops@[i]@.id,
{
    let n = stops.len();
    let mut out: Vec<StopRow> = Vec::new();
    let mut i: usize = 0;
    while i < n
        invariant
            i <= n,
            n == stops@.len(),
            out@.len() == i,
            forall|k: int|
                0 <= k < i ==> (#[trigger] out@[k]).text@ == stops@[k]@.long_name && out@[k].id@
                    == stops@[k]@.id,
        decreases n - i,
    {
        let s = &stops[i];
        out.push(StopRow { text: s.long_name.clone(), id: s.id.clone() });
        i = i + 1;
    }
    out
}

} // verus!
