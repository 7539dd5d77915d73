use flight_import::lookup::{AirportLookup, CancellationLookup};
use flight_import::loader::FlightLoader;

fn loader() -> FlightLoader {
    FlightLoader::new("flights".to_string(), 500, false, AirportLookup::new(), CancellationLookup::new())
}

#[test]
fn index_from_filename_year_and_month() {
    assert_eq!(loader().extract_index_name(None, Some("2024"), Some("03")), Some("flights-2024-03".to_string()));
}

#[test]
fn index_from_filename_year_only() {
    assert_eq!(loader().extract_index_name(None, Some("2024"), None), Some("flights-2024".to_string()));
}

#[test]
fn index_from_timestamp_year() {
    assert_eq!(
        loader().extract_index_name(Some("2023-11-01T00:00:00Z"), None, None),
        Some("flights-2023".to_string())
    );
}

#[test]
fn filename_year_wins_over_timestamp() {
    assert_eq!(
        loader().extract_index_name(Some("2023-11-01"), Some("2024"), Some("03")),
        Some("flights-2024-03".to_string())
    );
}

#[test]
fn no_index_without_usable_year() {
    let l = loader();
    assert_eq!(l.extract_index_name(None, None, None), None);
    assert_eq!(l.extract_index_name(Some("11/01/2023"), None, None), None);
    assert_eq!(l.extract_index_name(Some("202"), None, None), None);
    assert_eq!(l.extract_index_name(Some("202\u{e9}-01-01"), None, None), None);
}

#[test]
fn indices_are_created_once() {
    let mut l = loader();
    assert!(l.needs_index("flights-2024"));
    l.mark_index_ensured("flights-2024");
    assert!(!l.needs_index("flights-2024"));
    assert!(l.needs_index("flights-2023"));
    l.mark_index_ensured("flights-2024");
    assert_eq!(l.ensured_indices, vec!["flights-2024".to_string()]);
}
