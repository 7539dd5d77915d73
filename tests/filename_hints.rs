use flight_import::filename::{extract_year_month_from_filename, stem_of, strip_suffixes};

fn hint(name: &str) -> (Option<String>, Option<String>) {
    extract_year_month_from_filename(name)
}

#[test]
fn year_and_month_from_zipped_csv() {
    assert_eq!(hint("flights-2024-03.csv.zip"), (Some("2024".to_string()), Some("03".to_string())));
}

#[test]
fn year_and_month_from_gzipped_csv() {
    assert_eq!(hint("flights-2023-11.csv.gz"), (Some("2023".to_string()), Some("11".to_string())));
}

#[test]
fn year_only_from_plain_csv() {
    assert_eq!(hint("flights-2024.csv"), (Some("2024".to_string()), None));
}

#[test]
fn no_hint_without_dash() {
    assert_eq!(hint("data.csv"), (None, None));
}

#[test]
fn no_hint_for_short_month_or_year() {
    assert_eq!(hint("flights-2023-1.csv"), (None, None));
    assert_eq!(hint("flights-23-11.csv"), (None, None));
    assert_eq!(hint("On_Time_2023-11.csv.gz"), (None, None));
}

#[test]
fn no_hint_for_non_digits() {
    assert_eq!(hint("flights-20x4.csv"), (None, None));
}

#[test]
fn hidden_suffix_name_terminates() {
    assert_eq!(hint(".csv.gz"), (None, None));
    assert_eq!(hint(""), (None, None));
}

#[test]
fn stems_follow_path_rules() {
    assert_eq!(stem_of("a.csv.zip"), "a.csv");
    assert_eq!(stem_of(".hidden"), ".hidden");
    assert_eq!(stem_of(".."), "..");
    assert_eq!(stem_of("plain"), "plain");
    assert_eq!(strip_suffixes("a-2020.csv.gz"), "a-2020");
    assert_eq!(strip_suffixes("a-2020.CSV"), "a-2020.CSV");
}
