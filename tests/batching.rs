use flight_import::batch::{action_line, Batch, BulkResponse, FilePass, RowStep};
use flight_import::error::ImportError;
use flight_import::loader::FlightLoader;
use flight_import::lookup::{AirportLookup, CancellationLookup};
use flight_import::row::{NumberReading, RawRow};

fn row(pairs: &[(&str, &str)]) -> RawRow {
    let headers: Vec<String> = pairs.iter().map(|p| p.0.to_string()).collect();
    let record: Vec<String> = pairs.iter().map(|p| p.1.to_string()).collect();
    let numbers: Vec<Option<NumberReading>> = vec![None; pairs.len()];
    RawRow::from_record(&headers, &record, &numbers)
}

fn loader(batch_size: usize) -> FlightLoader {
    FlightLoader::new("flights".to_string(), batch_size, false, AirportLookup::new(), CancellationLookup::new())
}

#[test]
fn action_line_names_the_index() {
    assert_eq!(action_line("flights-2024-03").unwrap(), "{\"index\":{\"_index\":\"flights-2024-03\"}}");
}

#[test]
fn undated_row_is_skipped_and_counted() {
    let l = loader(500);
    let mut pass = FilePass::new();
    let step = pass.admit_row(&l, &row(&[("Origin", "JFK"), ("FlightDate", "  ")]), None, None);
    assert_eq!(step, RowStep::Skipped);
    assert_eq!(pass.processed_rows, 1);
    assert!(pass.buffers.is_empty());
}

#[test]
fn row_with_only_a_filename_year_is_empty() {
    let l = loader(500);
    let mut pass = FilePass::new();
    assert_eq!(pass.admit_row(&l, &row(&[("Other", "x")]), Some("2024"), None), RowStep::Empty);
    assert_eq!(pass.processed_rows, 1);
}

#[test]
fn threshold_flushes_once_then_starts_fresh() {
    let mut pass = FilePass::new();
    let mut flushes: Vec<Batch> = Vec::new();
    for i in 0..500 {
        if let Some(b) = pass.buffer_lines("flights-2024", format!("a{}", i), format!("d{}", i), 500) {
            flushes.push(b);
        }
        if i < 499 {
            assert!(flushes.is_empty());
        }
    }
    assert_eq!(flushes.len(), 1);
    assert_eq!(flushes[0].lines.len(), 1000);
    assert_eq!(flushes[0].lines[998], "a499");
    assert_eq!(pass.buffers[0].count, 0);
    assert!(pass.buffers[0].lines.is_empty());
    assert!(pass.buffer_lines("flights-2024", "a500".to_string(), "d500".to_string(), 500).is_none());
    assert_eq!(pass.buffers.len(), 1);
    assert_eq!(pass.buffers[0].count, 1);
    assert_eq!(pass.buffers[0].lines, vec!["a500".to_string(), "d500".to_string()]);
}

#[test]
fn three_rows_two_years_end_to_end() {
    let mut l = loader(500);
    let mut pass = FilePass::new();
    let rows = vec![
        row(&[("FlightDate", "2022-05-01"), ("Origin", "JFK")]),
        row(&[("FlightDate", "2023-06-01"), ("Origin", "LAX")]),
        row(&[("FlightDate", "2022-07-01"), ("Origin", "SFO")]),
    ];
    let mut created: Vec<String> = Vec::new();
    let mut flushed: Vec<Batch> = Vec::new();
    for r in &rows {
        match pass.admit_row(&l, r, None, None) {
            RowStep::Routed { index, document } => {
                if l.needs_index(&index) {
                    created.push(index.clone());
                    l.mark_index_ensured(&index);
                }
                if let Some(b) = pass.buffer_document(&l, &index, &document).unwrap() {
                    flushed.push(b);
                }
            }
            other => panic!("unexpected {:?}", other),
        }
    }
    flushed.extend(pass.drain_pending());
    assert_eq!(created, vec!["flights-2022".to_string(), "flights-2023".to_string()]);
    assert_eq!(flushed.len(), 2);
    assert_eq!(flushed[0].index, "flights-2022");
    assert_eq!(
        flushed[0].lines,
        vec![
            "{\"index\":{\"_index\":\"flights-2022\"}}".to_string(),
            "{\"@timestamp\":\"2022-05-01\",\"Origin\":\"JFK\"}".to_string(),
            "{\"index\":{\"_index\":\"flights-2022\"}}".to_string(),
            "{\"@timestamp\":\"2022-07-01\",\"Origin\":\"SFO\"}".to_string(),
        ]
    );
    assert_eq!(flushed[1].index, "flights-2023");
    assert_eq!(flushed[1].lines.len(), 2);
    assert_eq!(flushed[1].lines[1], "{\"@timestamp\":\"2023-06-01\",\"Origin\":\"LAX\"}");
    assert_eq!(pass.processed_rows, 3);
    for b in &flushed {
        let ok = BulkResponse { errors: Some(false), item_errors: vec![] };
        l.record_flush(&mut pass, b, &ok).unwrap();
    }
    assert_eq!(l.loaded_records, 3);
    assert_eq!(pass.indexed_docs, 3);
    assert!(pass.drain_pending().is_empty());
}

#[test]
fn failed_flush_reports_first_item_errors() {
    let mut l = loader(500);
    let mut pass = FilePass::new();
    let batch = Batch { index: "flights-2024".to_string(), lines: vec!["a".to_string(), "d".to_string()] };
    let errors: Vec<String> = (0..7).map(|i| format!("{{\"type\":\"e{}\"}}", i)).collect();
    let response = BulkResponse { errors: Some(true), item_errors: errors.clone() };
    match l.record_flush(&mut pass, &batch, &response) {
        Err(ImportError::BulkIndexing { index, item_errors }) => {
            assert_eq!(index, "flights-2024");
            assert_eq!(item_errors, errors[..5].to_vec());
        }
        other => panic!("unexpected {:?}", other),
    }
    assert_eq!(l.loaded_records, 0);
    let one = BulkResponse { errors: Some(true), item_errors: vec!["x".to_string()] };
    match l.record_flush(&mut pass, &batch, &one) {
        Err(ImportError::BulkIndexing { item_errors, .. }) => assert_eq!(item_errors.len(), 1),
        other => panic!("unexpected {:?}", other),
    }
}

#[test]
fn successful_flush_counts_half_the_lines() {
    let mut l = loader(500);
    let mut pass = FilePass::new();
    let lines: Vec<String> = (0..10).map(|i| i.to_string()).collect();
    let batch = Batch { index: "flights-2024".to_string(), lines };
    assert_eq!(l.record_flush(&mut pass, &batch, &BulkResponse { errors: Some(false), item_errors: vec![] }), Ok(5));
    assert_eq!(l.record_flush(&mut pass, &batch, &BulkResponse { errors: None, item_errors: vec![] }), Ok(5));
    assert_eq!(l.loaded_records, 10);
    assert_eq!(pass.indexed_docs, 10);
}

#[test]
fn sample_row_names_its_index() {
    let l = loader(500);
    let doc = l.sample_row(&row(&[("FlightDate", "2023-01-02")]), None, None);
    assert_eq!(doc.to_json().unwrap(), "{\"@timestamp\":\"2023-01-02\",\"__index\":\"flights-2023\"}");
    let none = l.sample_row(&row(&[("Origin", "JFK")]), None, None);
    assert_eq!(none.to_json().unwrap(), "{\"Origin\":\"JFK\"}");
}
