use carris_client::client_embedded;
use carris_client::client_embedded::Error;
use carris_client::client_std::CarrisClient;
use carris_client::display::{arrival_row, stop_rows};
use carris_client::types::{best_arrival_unix, Arrival, LooseValue, Stop};

fn arrival(est: Option<i64>, obs: Option<i64>, sch: Option<i64>) -> Arrival {
    Arrival {
        estimated_arrival_unix: est,
        observed_arrival_unix: obs,
        scheduled_arrival_unix: sch,
        line_id: 742,
        headsign: String::from("Monte"),
        scheduled_arrival: None,
    }
}

#[test]
fn best_arrival_prefers_estimated() {
    let a = arrival(Some(3), Some(2), Some(1));
    assert_eq!(best_arrival_unix(&a), Some(3));
}

#[test]
fn best_arrival_falls_back_to_observed() {
    let a = arrival(None, Some(2), Some(1));
    assert_eq!(best_arrival_unix(&a), Some(2));
}

#[test]
fn best_arrival_falls_back_to_scheduled() {
    let a = arrival(None, None, Some(1));
    assert_eq!(best_arrival_unix(&a), Some(1));
}

#[test]
fn best_arrival_none_when_all_absent() {
    let a = arrival(None, None, None);
    assert_eq!(best_arrival_unix(&a), None);
}

#[test]
fn default_base_url_is_production() {
    let c = CarrisClient::new();
    assert_eq!(c.base_url, "https://api.carrismetropolitana.pt/v2");
}

#[test]
fn arrivals_url_interpolates_stop_id() {
    let c = CarrisClient::new();
    assert_eq!(
        c.arrivals_url("020387"),
        "https://api.carrismetropolitana.pt/v2/arrivals/by_stop/020387"
    );
}

#[test]
fn stops_url_appends_path() {
    let c = CarrisClient::new_with_base_url("http://127.0.0.1:8080");
    assert_eq!(c.stops_url(), "http://127.0.0.1:8080/stops");
}

#[test]
fn embedded_url_renders_within_capacity() {
    let mut c = client_embedded::CarrisClient::new(64);
    let url = c.begin_arrivals_request::<()>("020387").unwrap();
    assert_eq!(
        url,
        "https://api.carrismetropolitana.pt/v2/arrivals/by_stop/020387"
    );
}

#[test]
fn embedded_url_too_long_fails_before_io() {
    let mut c = client_embedded::CarrisClient::new(64);
    let long_id = "x".repeat(100);
    let r = c.begin_arrivals_request::<()>(&long_id);
    assert!(matches!(r, Err(Error::TooLarge)));
}

#[test]
fn body_of_exactly_capacity_succeeds() {
    let mut c = client_embedded::CarrisClient::new(2);
    c.begin_arrivals_request::<()>("1").unwrap();
    c.push_body_chunk::<()>(b"[]").unwrap();
    let arrivals = c.finish_arrivals::<()>().unwrap();
    assert!(arrivals.is_empty());
}

#[test]
fn body_of_capacity_plus_one_fails_too_large() {
    let mut c = client_embedded::CarrisClient::new(1);
    c.begin_arrivals_request::<()>("1").unwrap();
    let r = c.push_body_chunk::<()>(b"[]");
    assert!(matches!(r, Err(Error::TooLarge)));
}

#[test]
fn body_accumulates_across_chunks() {
    let mut c = client_embedded::CarrisClient::new(2);
    c.begin_arrivals_request::<()>("1").unwrap();
    c.push_body_chunk::<()>(b"[").unwrap();
    c.push_body_chunk::<()>(b"]").unwrap();
    let r = c.push_body_chunk::<()>(b"x");
    assert!(matches!(r, Err(Error::TooLarge)));
    let arrivals = c.finish_arrivals::<()>().unwrap();
    assert!(arrivals.is_empty());
}

#[test]
fn undecodable_body_fails_with_json_error() {
    let mut c = client_embedded::CarrisClient::new(16);
    c.begin_arrivals_request::<()>("1").unwrap();
    c.push_body_chunk::<()>(b"{}").unwrap();
    let r = c.finish_arrivals::<()>();
    assert!(matches!(r, Err(Error::Json(_))));
}

#[test]
fn new_request_clears_previous_body() {
    let mut c = client_embedded::CarrisClient::new(4);
    c.begin_arrivals_request::<()>("1").unwrap();
    c.push_body_chunk::<()>(b"junk").unwrap();
    c.begin_arrivals_request::<()>("2").unwrap();
    c.push_body_chunk::<()>(b"[]").unwrap();
    assert!(c.finish_arrivals::<()>().unwrap().is_empty());
}

#[test]
fn arrival_row_uses_placeholder_without_schedule() {
    let a = arrival(None, None, None);
    let row = arrival_row(&a);
    assert_eq!(row.number, 742);
    assert_eq!(row.arrival_time, "--:--");
    assert_eq!(row.direction, "Monte");
}

#[test]
fn arrival_row_shows_scheduled_time() {
    let mut a = arrival(None, None, None);
    a.scheduled_arrival = Some(String::from("10:05"));
    let row = arrival_row(&a);
    assert_eq!(row.arrival_time, "10:05");
}

#[test]
fn stop_rows_pair_names_with_ids() {
    let stop = Stop {
        id: String::from("020387"),
        lat: String::from("0"),
        lon: String::from("0"),
        long_name: String::from("Centro"),
        short_name: LooseValue::Null,
        tts_name: String::from("Centro"),
        district_id: LooseValue::Null,
        municipality_id: LooseValue::Null,
        region_id: LooseValue::Null,
        line_ids: vec![],
        route_ids: vec![],
        pattern_ids: vec![],
        facilities: vec![],
        wheelchair_boarding: false,
    };
    let rows = stop_rows(&vec![stop]);
    assert_eq!(rows.len(), 1);
    assert_eq!(rows[0].text, "Centro");
    assert_eq!(rows[0].id, "020387");
}

#[test]
fn embedded_url_boundary_is_exact() {
    // the fixed prefix is 55 bytes, so a 73-byte stop id fills the
    // 128-byte render buffer exactly and a 74-byte one overflows it
    let mut c = client_embedded::CarrisClient::new(8);
    let at_cap = "x".repeat(73);
    assert!(c.begin_arrivals_request::<()>(&at_cap).is_ok());
    let over_cap = "x".repeat(74);
    assert!(matches!(
        c.begin_arrivals_request::<()>(&over_cap),
        Err(Error::TooLarge)
    ));
}
