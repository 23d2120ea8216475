use carris_client::cache::{
    ensure_stops_cached_with, get_all_stops_cached_with, FixedStops,
};
use carris_client::config::{cache_file_name, config_file_contents, config_file_name};
use carris_client::types::{LooseValue, Stop};

fn one_stop() -> Stop {
    Stop {
        id: String::from("020387"),
        lat: String::from("38.75"),
        lon: String::from("-9.1"),
        long_name: String::from("Centro"),
        short_name: LooseValue::Null,
        tts_name: String::from("Centro"),
        district_id: LooseValue::Null,
        municipality_id: LooseValue::Null,
        region_id: LooseValue::Null,
        line_ids: vec![String::from("1701")],
        route_ids: vec![],
        pattern_ids: vec![],
        facilities: vec![],
        wheelchair_boarding: false,
    }
}

#[test]
fn first_ensure_fetches_once_and_writes_cache() {
    let mut cache: Option<Vec<u8>> = None;
    let mut api = FixedStops::with_stops(vec![]);
    ensure_stops_cached_with(&mut cache, &mut api).unwrap();
    assert_eq!(api.count(), 1);
    assert_eq!(cache.as_deref(), Some(b"[]".as_slice()));
}

#[test]
fn second_ensure_makes_no_further_calls() {
    let mut cache: Option<Vec<u8>> = None;
    let mut api = FixedStops::with_stops(vec![one_stop()]);
    ensure_stops_cached_with(&mut cache, &mut api).unwrap();
    assert_eq!(api.count(), 1);
    let written = cache.clone();
    ensure_stops_cached_with(&mut cache, &mut api).unwrap();
    assert_eq!(api.count(), 1);
    assert_eq!(cache, written);
}

#[test]
fn ensure_with_existing_cache_never_fetches() {
    let mut cache: Option<Vec<u8>> = Some(b"[]".to_vec());
    let mut api = FixedStops::with_stops(vec![one_stop()]);
    ensure_stops_cached_with(&mut cache, &mut api).unwrap();
    assert_eq!(api.count(), 0);
    assert_eq!(cache.as_deref(), Some(b"[]".as_slice()));
}

#[test]
fn cached_catalog_round_trips_through_cache() {
    let mut cache: Option<Vec<u8>> = None;
    let mut api = FixedStops::with_stops(vec![one_stop()]);
    let stops = get_all_stops_cached_with(&mut cache, &mut api).unwrap();
    assert_eq!(api.count(), 1);
    assert_eq!(stops, vec![one_stop()]);
    let again = get_all_stops_cached_with(&mut cache, &mut api).unwrap();
    assert_eq!(api.count(), 1);
    assert_eq!(again, vec![one_stop()]);
}

#[test]
fn undecodable_cache_reports_decode_error() {
    let mut cache: Option<Vec<u8>> = Some(b"not json".to_vec());
    let mut api = FixedStops::with_stops(vec![]);
    let r = get_all_stops_cached_with(&mut cache, &mut api);
    assert!(r.is_err());
    assert_eq!(api.count(), 0);
}

#[test]
fn config_file_holds_single_line() {
    assert_eq!(config_file_contents(), "configured = 1");
}

#[test]
fn file_names_are_fixed() {
    assert_eq!(config_file_name(), "config.toml");
    assert_eq!(cache_file_name(), "all_stops.json");
}
