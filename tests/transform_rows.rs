use flight_import::document::{compact_document, Document, Entry, FieldValue};
use flight_import::loader::FlightLoader;
use flight_import::lookup::{AirportLookup, CancellationLookup};
use flight_import::row::{NumberReading, RawRow};

fn reading(text: &str) -> Option<NumberReading> {
    text.trim().parse::<f64>().ok().map(|f| NumberReading { rounded: f.round() as i64, positive: f > 0.0 })
}

fn row(pairs: &[(&str, &str)]) -> RawRow {
    let headers: Vec<String> = pairs.iter().map(|p| p.0.to_string()).collect();
    let record: Vec<String> = pairs.iter().map(|p| p.1.to_string()).collect();
    let numbers: Vec<Option<NumberReading>> = pairs.iter().map(|p| reading(p.1)).collect();
    RawRow::from_record(&headers, &record, &numbers)
}

fn loader() -> FlightLoader {
    let mut airports = AirportLookup::new();
    airports.add("JFK", "40.63980103,-73.77890015".to_string());
    airports.add("lax", "33.94250107,-118.4079971".to_string());
    let mut reasons = CancellationLookup::new();
    assert!(reasons.add_record(0, 1, &vec!["b".to_string(), "Weather".to_string()]));
    FlightLoader::new("flights".to_string(), 500, false, airports, reasons)
}

fn value_of(doc: &Document, key: &str) -> Option<FieldValue> {
    doc.entries.iter().find(|e| e.key == key).map(|e| match &e.value {
        FieldValue::Null => FieldValue::Null,
        FieldValue::Text(s) => FieldValue::Text(s.clone()),
        FieldValue::Integer(i) => FieldValue::Integer(*i),
        FieldValue::Flag(b) => FieldValue::Flag(*b),
    })
}

fn cancelled(text: &str) -> Option<FieldValue> {
    let doc = loader().transform_row(&row(&[("Cancelled", text)]));
    value_of(&doc, "Cancelled")
}

#[test]
fn boolean_words_and_numbers() {
    assert_eq!(cancelled("Y"), Some(FieldValue::Flag(true)));
    assert_eq!(cancelled("yes"), Some(FieldValue::Flag(true)));
    assert_eq!(cancelled("1"), Some(FieldValue::Flag(true)));
    assert_eq!(cancelled("1.00"), Some(FieldValue::Flag(true)));
    assert_eq!(cancelled("N"), Some(FieldValue::Flag(false)));
    assert_eq!(cancelled("false"), Some(FieldValue::Flag(false)));
    assert_eq!(cancelled("0"), Some(FieldValue::Flag(false)));
    assert_eq!(cancelled(" TRUE "), Some(FieldValue::Flag(true)));
    assert_eq!(cancelled("maybe"), Some(FieldValue::Null));
    assert_eq!(cancelled("   "), Some(FieldValue::Null));
}

#[test]
fn numbers_are_rounded() {
    let doc = loader().transform_row(&row(&[("DepDelay", "12.6"), ("ArrDelay", "-3.5"), ("TaxiIn", "abc"), ("Distance", " 2475.00 ")]));
    assert_eq!(value_of(&doc, "DepDelayMin"), Some(FieldValue::Integer(13)));
    assert_eq!(value_of(&doc, "ArrDelayMin"), Some(FieldValue::Integer(-4)));
    assert_eq!(value_of(&doc, "TaxiInMin"), Some(FieldValue::Null));
    assert_eq!(value_of(&doc, "DistanceMiles"), Some(FieldValue::Integer(2475)));
}

#[test]
fn flight_id_needs_all_five_parts() {
    let full = row(&[
        ("FlightDate", "2024-03-01"),
        ("Reporting_Airline", "AA"),
        ("Flight_Number_Reporting_Airline", "100"),
        ("Origin", "JFK"),
        ("Dest", "LAX"),
    ]);
    let doc = loader().transform_row(&full);
    assert_eq!(value_of(&doc, "FlightID"), Some(FieldValue::Text("2024-03-01_AA_100_JFK_LAX".to_string())));
    assert_eq!(value_of(&doc, "@timestamp"), Some(FieldValue::Text("2024-03-01".to_string())));
    assert_eq!(value_of(&doc, "Flight_Number"), Some(FieldValue::Text("100".to_string())));
    let partial = row(&[("FlightDate", "2024-03-01"), ("Reporting_Airline", "AA"), ("Origin", "JFK")]);
    assert_eq!(value_of(&loader().transform_row(&partial), "FlightID"), Some(FieldValue::Null));
}

#[test]
fn timestamp_prefers_at_timestamp() {
    let doc = loader().transform_row(&row(&[("FlightDate", "2024-03-01"), ("@timestamp", " 2024-03-02T10:00:00Z ")]));
    assert_eq!(value_of(&doc, "@timestamp"), Some(FieldValue::Text("2024-03-02T10:00:00Z".to_string())));
}

#[test]
fn last_column_of_a_header_wins() {
    let doc = loader().transform_row(&row(&[("Origin", "JFK"), ("Origin", "LAX")]));
    assert_eq!(value_of(&doc, "Origin"), Some(FieldValue::Text("LAX".to_string())));
}

#[test]
fn airport_codes_match_in_any_case() {
    let l = loader();
    assert_eq!(l.airport_lookup.lookup_coordinates(Some("jfk")), l.airport_lookup.lookup_coordinates(Some("JFK")));
    assert_eq!(l.airport_lookup.lookup_coordinates(Some("jfk")), Some("40.63980103,-73.77890015".to_string()));
    assert_eq!(l.airport_lookup.lookup_coordinates(Some("LAX")), Some("33.94250107,-118.4079971".to_string()));
    assert_eq!(l.airport_lookup.lookup_coordinates(Some("SFO")), None);
    assert_eq!(l.airport_lookup.lookup_coordinates(None), None);
}

#[test]
fn locations_and_reason_come_from_lookups() {
    let doc = loader().transform_row(&row(&[("Origin", "jfk"), ("Dest", "SFO"), ("CancellationCode", "B")]));
    assert_eq!(value_of(&doc, "OriginLocation"), Some(FieldValue::Text("40.63980103,-73.77890015".to_string())));
    assert_eq!(value_of(&doc, "DestLocation"), Some(FieldValue::Null));
    assert_eq!(value_of(&doc, "CancellationReason"), Some(FieldValue::Text("Weather".to_string())));
    assert_eq!(value_of(&doc, "CancellationCode"), Some(FieldValue::Text("B".to_string())));
}

#[test]
fn document_has_every_field_in_key_order() {
    let doc = loader().transform_row(&row(&[]));
    assert_eq!(doc.entries.len(), 28);
    let keys: Vec<&str> = doc.entries.iter().map(|e| e.key.as_str()).collect();
    let mut sorted = keys.clone();
    sorted.sort();
    assert_eq!(keys, sorted);
    assert!(doc.entries.iter().all(|e| e.value == FieldValue::Null));
}

#[test]
fn compaction_drops_nulls_only() {
    let doc = loader().transform_row(&row(&[("Origin", "JFK"), ("DepDelay", "0"), ("Cancelled", "0")]));
    let compact = compact_document(&doc);
    assert!(compact.entries.iter().all(|e| e.value != FieldValue::Null));
    let keys: Vec<&str> = compact.entries.iter().map(|e| e.key.as_str()).collect();
    assert_eq!(keys, vec!["Cancelled", "DepDelayMin", "Origin", "OriginLocation"]);
    let text = compact.to_json().unwrap();
    assert!(!text.contains("null"));
    assert_eq!(
        text,
        "{\"Cancelled\":false,\"DepDelayMin\":0,\"Origin\":\"JFK\",\"OriginLocation\":\"40.63980103,-73.77890015\"}"
    );
}

#[test]
fn json_text_escapes_strings() {
    let doc = Document {
        entries: vec![
            Entry { key: "a".to_string(), value: FieldValue::Text("x\"y\\z\n\u{1}".to_string()) },
            Entry { key: "b".to_string(), value: FieldValue::Integer(-9223372036854775808) },
            Entry { key: "c".to_string(), value: FieldValue::Flag(true) },
            Entry { key: "d".to_string(), value: FieldValue::Null },
        ],
    };
    assert_eq!(
        doc.to_json().unwrap(),
        "{\"a\":\"x\\\"y\\\\z\\n\\u0001\",\"b\":-9223372036854775808,\"c\":true,\"d\":null}"
    );
    assert_eq!(Document { entries: vec![] }.to_json().unwrap(), "{}");
}
