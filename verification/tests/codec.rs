use carris_client::decode::{decode_arrivals, decode_stops, DecodeError};
use carris_client::encode::encode_stops_pretty;
use carris_client::num::{parse_i16_bytes, parse_i64_bytes};
use carris_client::types::{LooseValue, Stop};

fn sample_stop() -> Stop {
    Stop {
        id: String::from("020387"),
        lat: String::from("38.75"),
        lon: String::from("-9.1"),
        long_name: String::from("Centro"),
        short_name: LooseValue::Null,
        tts_name: String::from("Centro"),
        district_id: LooseValue::Null,
        municipality_id: LooseValue::Str(String::from("1106")),
        region_id: LooseValue::Null,
        line_ids: vec![String::from("1701"), String::from("1704")],
        route_ids: vec![String::from("1701_0")],
        pattern_ids: vec![],
        facilities: vec![LooseValue::Str(String::from("school"))],
        wheelchair_boarding: true,
    }
}

#[test]
fn arrival_object_decodes() {
    let body = br#"[{"estimated_arrival_unix":1700000100,"observed_arrival_unix":null,"scheduled_arrival_unix":1700000000,"line_id":"742","headsign":"Monte","scheduled_arrival":"10:05"}]"#;
    let arrivals = decode_arrivals(body).unwrap();
    assert_eq!(arrivals.len(), 1);
    assert_eq!(arrivals[0].estimated_arrival_unix, Some(1700000100));
    assert_eq!(arrivals[0].observed_arrival_unix, None);
    assert_eq!(arrivals[0].scheduled_arrival_unix, Some(1700000000));
    assert_eq!(arrivals[0].line_id, 742);
    assert_eq!(arrivals[0].headsign, "Monte");
    assert_eq!(arrivals[0].scheduled_arrival, Some(String::from("10:05")));
}

#[test]
fn numeric_string_line_id_decodes_to_integer() {
    let body = br#"[{"line_id":"742","headsign":"X"}]"#;
    let arrivals = decode_arrivals(body).unwrap();
    assert_eq!(arrivals[0].line_id, 742);
    assert_eq!(arrivals[0].estimated_arrival_unix, None);
}

#[test]
fn non_numeric_line_id_fails_decoding() {
    let body = br#"[{"line_id":"abc","headsign":"X"}]"#;
    assert_eq!(decode_arrivals(body).unwrap_err(), DecodeError::Record);
}

#[test]
fn out_of_range_line_id_fails_decoding() {
    let body = br#"[{"line_id":"32768","headsign":"X"}]"#;
    assert_eq!(decode_arrivals(body).unwrap_err(), DecodeError::Record);
}

#[test]
fn bare_number_line_id_fails_decoding() {
    let body = br#"[{"line_id":742,"headsign":"X"}]"#;
    assert_eq!(decode_arrivals(body).unwrap_err(), DecodeError::Record);
}

#[test]
fn empty_array_yields_empty_sequence() {
    let arrivals = decode_arrivals(b"[]").unwrap();
    assert!(arrivals.is_empty());
}

#[test]
fn whitespace_around_empty_array_is_accepted() {
    let arrivals = decode_arrivals(b"  [ ]\n").unwrap();
    assert!(arrivals.is_empty());
}

#[test]
fn top_level_object_fails_with_syntax_error() {
    let body = br#"{"line_id":"742","headsign":"X"}"#;
    assert_eq!(decode_arrivals(body).unwrap_err(), DecodeError::Syntax);
}

#[test]
fn garbage_fails_with_syntax_error() {
    assert_eq!(decode_arrivals(b"not json").unwrap_err(), DecodeError::Syntax);
    assert_eq!(decode_arrivals(b"").unwrap_err(), DecodeError::Syntax);
    assert_eq!(decode_arrivals(b"[{}] trailing").unwrap_err(), DecodeError::Syntax);
}

#[test]
fn missing_headsign_fails_with_record_error() {
    let body = br#"[{"line_id":"7"}]"#;
    assert_eq!(decode_arrivals(body).unwrap_err(), DecodeError::Record);
}

#[test]
fn string_escapes_are_processed() {
    let body = br#"[{"line_id":"7","headsign":"a\nb\t\"c\"A"}]"#;
    let arrivals = decode_arrivals(body).unwrap();
    assert_eq!(arrivals[0].headsign, "a\nb\t\"c\"A");
}

#[test]
fn non_ascii_headsign_decodes_as_utf8() {
    let text = "[{\"line_id\":\"7\",\"headsign\":\"Café Açores\"}]";
    let arrivals = decode_arrivals(text.as_bytes()).unwrap();
    assert_eq!(arrivals[0].headsign, "Café Açores");
}

#[test]
fn invalid_utf8_in_string_fails_decoding() {
    let mut body: Vec<u8> = Vec::new();
    body.extend_from_slice(br#"[{"line_id":"7","headsign":""#);
    body.push(0xff);
    body.extend_from_slice(br#""}]"#);
    assert_eq!(decode_arrivals(&body).unwrap_err(), DecodeError::Record);
}

#[test]
fn unknown_fields_are_ignored() {
    let body = br#"[{"line_id":"7","headsign":"X","vehicle_id":"44|2758","stop_id":"020387"}]"#;
    let arrivals = decode_arrivals(body).unwrap();
    assert_eq!(arrivals[0].line_id, 7);
}

#[test]
fn stop_object_decodes() {
    let body = br#"[{"district_id":null,"facilities":["school"],"id":"020387","lat":38.75,"line_ids":["1701","1704"],"lon":-9.1,"long_name":"Centro","municipality_id":"1106","pattern_ids":[],"region_id":null,"route_ids":["1701_0"],"short_name":null,"tts_name":"Centro","wheelchair_boarding":true}]"#;
    let stops = decode_stops(body).unwrap();
    assert_eq!(stops.len(), 1);
    assert_eq!(stops[0], sample_stop());
}

#[test]
fn stop_with_missing_required_field_fails() {
    let body = br#"[{"id":"1"}]"#;
    assert_eq!(decode_stops(body).unwrap_err(), DecodeError::Record);
}

#[test]
fn encode_empty_catalog_is_empty_brackets() {
    assert_eq!(encode_stops_pretty(&vec![]), b"[]");
}

#[test]
fn encode_one_stop_pretty_layout() {
    let bytes = encode_stops_pretty(&vec![sample_stop()]);
    let expected = "[\n  {\n    \"district_id\": null,\n    \"facilities\": [\n      \"school\"\n    ],\n    \"id\": \"020387\",\n    \"lat\": 38.75,\n    \"line_ids\": [\n      \"1701\",\n      \"1704\"\n    ],\n    \"lon\": -9.1,\n    \"long_name\": \"Centro\",\n    \"municipality_id\": \"1106\",\n    \"pattern_ids\": [],\n    \"region_id\": null,\n    \"route_ids\": [\n      \"1701_0\"\n    ],\n    \"short_name\": null,\n    \"tts_name\": \"Centro\",\n    \"wheelchair_boarding\": true\n  }\n]";
    assert_eq!(String::from_utf8(bytes).unwrap(), expected);
}

#[test]
fn encoded_catalog_decodes_back() {
    let stops = vec![sample_stop()];
    let bytes = encode_stops_pretty(&stops);
    let back = decode_stops(&bytes).unwrap();
    assert_eq!(back, stops);
}

#[test]
fn parse_i16_reads_decimal_text() {
    assert_eq!(parse_i16_bytes(b"742"), Some(742));
    assert_eq!(parse_i16_bytes(b"+7"), Some(7));
    assert_eq!(parse_i16_bytes(b"-32768"), Some(-32768));
    assert_eq!(parse_i16_bytes(b"32767"), Some(32767));
    assert_eq!(parse_i16_bytes(b"32768"), None);
    assert_eq!(parse_i16_bytes(b"-32769"), None);
    assert_eq!(parse_i16_bytes(b"abc"), None);
    assert_eq!(parse_i16_bytes(b""), None);
    assert_eq!(parse_i16_bytes(b"-"), None);
    assert_eq!(parse_i16_bytes(b"007"), Some(7));
}

#[test]
fn parse_i64_reads_decimal_text() {
    assert_eq!(parse_i64_bytes(b"1700000000"), Some(1700000000));
    assert_eq!(parse_i64_bytes(b"-9223372036854775808"), Some(i64::MIN));
    assert_eq!(parse_i64_bytes(b"9223372036854775807"), Some(i64::MAX));
    assert_eq!(parse_i64_bytes(b"9223372036854775808"), None);
    assert_eq!(parse_i64_bytes(b"1.5"), None);
}
