use flight_import::config::{deletion_pattern, Credentials, ElasticsearchConfig};
use flight_import::error::ImportError;
use flight_import::lookup::{AirportLookup, CancellationLookup};
use flight_import::loader::FlightLoader;
use flight_import::paths::{container_format, first_csv_entry, resolve_file_path, resolve_with_project_fallback, Container, Resolution};
use flight_import::progress::{count_total_records, format_number};

#[test]
fn numbers_get_thousands_separators() {
    assert_eq!(format_number(0), "0");
    assert_eq!(format_number(999), "999");
    assert_eq!(format_number(1000), "1,000");
    assert_eq!(format_number(1234567), "1,234,567");
    assert_eq!(format_number(100000), "100,000");
}

#[test]
fn progress_with_and_without_total() {
    let mut l = FlightLoader::new("flights".to_string(), 500, false, AirportLookup::new(), CancellationLookup::new());
    l.loaded_records = 500;
    assert_eq!(l.progress_message(), "500 records loaded");
    l.total_records = 1000;
    assert_eq!(l.progress_message(), "500 of 1,000 records loaded (50.0%)");
    l.loaded_records = 1;
    l.total_records = 3;
    assert_eq!(l.progress_message(), "1 of 3 records loaded (33.3%)");
    l.loaded_records = 2;
    assert_eq!(l.progress_message(), "2 of 3 records loaded (66.7%)");
}

#[test]
fn total_counts_rows_without_headers() {
    assert_eq!(count_total_records(&vec![10, 0, 1, 5]), 13);
    assert_eq!(count_total_records(&vec![]), 0);
    assert_eq!(count_total_records(&vec![usize::MAX, 3]), usize::MAX);
}

#[test]
fn config_needs_an_endpoint() {
    let r = ElasticsearchConfig::from_settings(None, vec![], None, None, None, None);
    assert_eq!(r, Err(ImportError::MissingEndpoint));
}

#[test]
fn config_trims_and_defaults() {
    let c = ElasticsearchConfig::from_settings(
        Some("http://localhost:9200".to_string()),
        vec![("X-A".to_string(), "1".to_string())],
        Some("  elastic ".to_string()),
        Some("   ".to_string()),
        None,
        None,
    )
    .unwrap();
    assert_eq!(c.user, Some("elastic".to_string()));
    assert_eq!(c.password, None);
    assert!(c.ssl_verify);
    assert_eq!(c.credentials(), Credentials::Anonymous);
    let k = ElasticsearchConfig::from_settings(
        Some("e".to_string()),
        vec![],
        Some("u".to_string()),
        Some("p".to_string()),
        Some("key".to_string()),
        Some(false),
    )
    .unwrap();
    assert!(!k.ssl_verify);
    assert_eq!(k.credentials(), Credentials::ApiKey("key".to_string()));
    let b = ElasticsearchConfig::from_settings(Some("e".to_string()), vec![], Some("u".to_string()), Some("p".to_string()), None, None).unwrap();
    assert_eq!(b.credentials(), Credentials::Basic("u".to_string(), "p".to_string()));
}

#[test]
fn deletion_patterns() {
    assert_eq!(deletion_pattern("flights"), "flights-*");
    assert_eq!(deletion_pattern("flights*"), "flights*");
}

#[test]
fn containers_by_name() {
    assert_eq!(container_format("zip", "data/a.zip"), Container::Zip);
    assert_eq!(container_format("ZIP", "data/a.ZIP"), Container::Zip);
    assert_eq!(container_format("GZ", "data/a.csv.GZ"), Container::Gzip);
    assert_eq!(container_format("csv", "data/a.csv"), Container::Plain);
    assert_eq!(container_format("", "data/zip"), Container::Plain);
}

#[test]
fn first_csv_entry_of_archive() {
    let names = vec!["readme.txt".to_string(), "dir/Flights.CSV".to_string(), "b.csv".to_string()];
    assert_eq!(first_csv_entry(&names), Ok(1));
    assert_eq!(first_csv_entry(&vec!["readme.txt".to_string()]), Err(ImportError::NoCsvEntry));
    assert_eq!(first_csv_entry(&vec![]), Err(ImportError::NoCsvEntry));
}

#[test]
fn project_fallback_order() {
    assert_eq!(resolve_with_project_fallback(true, &vec![true, true, true]), Ok(Resolution { candidate: 0, canonicalize: false }));
    assert_eq!(resolve_with_project_fallback(false, &vec![true, true, true]), Ok(Resolution { candidate: 0, canonicalize: true }));
    assert_eq!(resolve_with_project_fallback(false, &vec![false, false, true]), Ok(Resolution { candidate: 2, canonicalize: true }));
    assert_eq!(resolve_with_project_fallback(false, &vec![false, false, false]), Err(ImportError::PathNotFound));
}

#[test]
fn file_path_order() {
    assert_eq!(resolve_file_path(false, &vec![false, true, true, true]), Ok(Resolution { candidate: 1, canonicalize: true }));
    assert_eq!(resolve_file_path(false, &vec![false, false, false, true]), Ok(Resolution { candidate: 3, canonicalize: true }));
    assert_eq!(resolve_file_path(true, &vec![true]), Ok(Resolution { candidate: 0, canonicalize: false }));
    assert_eq!(resolve_file_path(false, &vec![false, false, false, false]), Err(ImportError::FileNotFound));
}

#[test]
fn airport_records_need_code_and_coordinates() {
    let rec = |v: &[&str]| v.iter().map(|s| s.to_string()).collect::<Vec<String>>();
    let ok = AirportLookup::airport_fields(&rec(&["1", "n", "c", "US", " jfk ", "KJFK", "40.6", "-73.7"])).unwrap();
    assert_eq!(ok.code, "jfk");
    assert_eq!(ok.latitude, "40.6");
    assert!(AirportLookup::airport_fields(&rec(&["1", "n", "c", "US", "\\N", "K", "1", "2"])).is_none());
    assert!(AirportLookup::airport_fields(&rec(&["1", "n", "c", "US", "JFK", "K", " ", "2"])).is_none());
    assert!(AirportLookup::airport_fields(&rec(&["1", "n", "c", "US", "JFK", "K", "1"])).is_none());
}

#[test]
fn cancellation_columns_and_records() {
    let headers = vec!["Description".to_string(), "Code".to_string()];
    assert_eq!(CancellationLookup::column_positions(&headers), (1, 0));
    assert_eq!(CancellationLookup::column_positions(&vec!["x".to_string()]), (0, 1));
    let mut t = CancellationLookup::new();
    assert!(t.add_record(1, 0, &vec![" Carrier ".to_string(), "a".to_string()]));
    assert!(!t.add_record(1, 0, &vec!["Ignored".to_string(), " ".to_string()]));
    assert!(!t.add_record(5, 0, &vec!["Short".to_string()]));
    assert_eq!(t.lookup_reason(Some("A")), Some(&"Carrier".to_string()));
    assert_eq!(t.lookup_reason(Some("a")), Some(&"Carrier".to_string()));
    assert_eq!(t.lookup_reason(Some("B")), None);
    assert_eq!(t.lookup_reason(None), None);
}

#[test]
fn largest_numbers_format() {
    assert_eq!(format_number(usize::MAX), "18,446,744,073,709,551,615");
    let mut l = FlightLoader::new("flights".to_string(), 500, false, AirportLookup::new(), CancellationLookup::new());
    l.loaded_records = 3;
    l.total_records = 2;
    assert_eq!(l.progress_message(), "3 of 2 records loaded (150.0%)");
    l.loaded_records = usize::MAX;
    l.total_records = 1;
    assert_eq!(l.progress_message(), "18,446,744,073,709,551,615 of 1 records loaded (1844674407370955161500.0%)");
}
