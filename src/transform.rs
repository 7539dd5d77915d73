//! The transformation of one row into a flight document.

use crate::document::{Document, Entry, FieldValue, JsonModel};
use crate::loader::FlightLoader;
use crate::lookup::last_value;
use crate::row::{boolean_field, integer_field, present, FieldModel, RawRow};
use crate::text::{opt_chars, upper_text};
use vstd::prelude::*;
use vstd::string::*;

verus! {

pub open spec fn text_model(o: Option<Seq<char>>) -> JsonModel {
    match o {
        Some(s) => JsonModel::Text(s),
        None => JsonModel::Null,
    }
}

pub open spec fn int_model(o: Option<i64>) -> JsonModel {
    match o {
        Some(i) => JsonModel::Integer(i as int),
        None => JsonModel::Null,
    }
}

pub open spec fn flag_model(o: Option<bool>) -> JsonModel {
    match o {
        Some(b) => JsonModel::Flag(b),
        None => JsonModel::Null,
    }
}

/// The row's timestamp: `@timestamp`, else `FlightDate`.
pub open spec fn timestamp_of(row: Seq<FieldModel>) -> Option<Seq<char>> {
    match present(row, "@timestamp"@) {
        Some(t) => Some(t),
        None => present(row, "FlightDate"@),
    }
}

/// Timestamp, airline, flight number, origin and destination joined by
/// underscores, when all five are there.
pub open spec fn flight_id_of(row: Seq<FieldModel>) -> Option<Seq<char>> {
    match (
        timestamp_of(row),
        present(row, "Reporting_Airline"@),
        present(row, "Flight_Number_Reporting_Airline"@),
        present(row, "Origin"@),
        present(row, "Dest"@),
    ) {
        (Some(t), Some(a), Some(n), Some(o), Some(d)) => Some(
            t + seq!['_'] + a + seq!['_'] + n + seq!['_'] + o + seq!['_'] + d,
        ),
        _ => None,
    }
}

/// The description of the row's cancellation code, when the table has one.
pub open spec fn reason_of(reasons: Seq<(Seq<char>, Seq<char>)>, row: Seq<FieldModel>) -> Option<
    Seq<char>,
> {
    match present(row, "CancellationCode"@) {
        Some(c) => last_value(reasons, upper_text(c)),
        None => None,
    }
}

/// The coordinates of the airport under `key`, when the table has them.
pub open spec fn location_of(
    airports: Seq<(Seq<char>, Seq<char>)>,
    row: Seq<FieldModel>,
    key: Seq<char>,
) -> Option<Seq<char>> {
    match present(row, key) {
        Some(c) => last_value(airports, upper_text(c)),
        None => None,
    }
}

/// The document of a row, one entry per output field in key order; a field
/// the row does not give is null.
pub open spec fn flight_entries(
    airports: Seq<(Seq<char>, Seq<char>)>,
    reasons: Seq<(Seq<char>, Seq<char>)>,
    row: Seq<FieldModel>,
) -> Seq<(Seq<char>, JsonModel)> {
    seq![
        ("@timestamp"@, text_model(timestamp_of(row))),
        ("ActualElapsedTimeMin"@, int_model(integer_field(row, "ActualElapsedTime"@))),
        ("AirTimeMin"@, int_model(integer_field(row, "AirTime"@))),
        ("ArrDelayMin"@, int_model(integer_field(row, "ArrDelay"@))),
        ("CRSArrTimeLocal"@, int_model(integer_field(row, "CRSArrTime"@))),
        ("CRSDepTimeLocal"@, int_model(integer_field(row, "CRSDepTime"@))),
        ("CancellationCode"@, text_model(present(row, "CancellationCode"@))),
        ("CancellationReason"@, text_model(reason_of(reasons, row))),
        ("Cancelled"@, flag_model(boolean_field(row, "Cancelled"@))),
        ("CarrierDelayMin"@, int_model(integer_field(row, "CarrierDelay"@))),
        ("DepDelayMin"@, int_model(integer_field(row, "DepDelay"@))),
        ("Dest"@, text_model(present(row, "Dest"@))),
        ("DestLocation"@, text_model(location_of(airports, row, "Dest"@))),
        ("DistanceMiles"@, int_model(integer_field(row, "Distance"@))),
        ("Diverted"@, flag_model(boolean_field(row, "Diverted"@))),
        ("FlightID"@, text_model(flight_id_of(row))),
        ("Flight_Number"@, text_model(present(row, "Flight_Number_Reporting_Airline"@))),
        ("Flights"@, int_model(integer_field(row, "Flights"@))),
        ("LateAircraftDelayMin"@, int_model(integer_field(row, "LateAircraftDelay"@))),
        ("NASDelayMin"@, int_model(integer_field(row, "NASDelay"@))),
        ("Origin"@, text_model(present(row, "Origin"@))),
        ("OriginLocation"@, text_model(location_of(airports, row, "Origin"@))),
        ("Reporting_Airline"@, text_model(present(row, "Reporting_Airline"@))),
        ("SecurityDelayMin"@, int_model(integer_field(row, "SecurityDelay"@))),
        ("Tail_Number"@, text_model(present(row, "Tail_Number"@))),
        ("TaxiInMin"@, int_model(integer_field(row, "TaxiIn"@))),
        ("TaxiOutMin"@, int_model(integer_field(row, "TaxiOut"@))),
        ("WeatherDelayMin"@, int_model(integer_field(row, "WeatherDelay"@))),
    ]
}

fn text_entry(key: &str, v: &Option<String>) -> (r: Entry)
    ensures
        r.model() == (key@, text_model(opt_chars(*v))),
{
    let value = match v {
        Some(s) => FieldValue::Text(s.clone()),
        None => FieldValue::Null,
    };
    Entry { key: key.to_owned(), value }
}

fn int_entry(key: &str, v: Option<i64>) -> (r: Entry)
    ensures
        r.model() == (key@, int_model(v)),
{
    let value = match v {
        Some(i) => FieldValue::Integer(i),
        None => FieldValue::Null,
    };
    Entry { key: key.to_owned(), value }
}

fn flag_entry(key: &str, v: Option<bool>) -> (r: Entry)
    ensures
        r.model() == (key@, flag_model(v)),
{
    let value = match v {
        Some(b) => FieldValue::Flag(b),
        None => FieldValue::Null,
    };
    Entry { key: key.to_owned(), value }
}

fn joined_id(t: &String, a: &String, n: &String, o: &String, d: &String) -> (r: String)
    ensures
        r@ == t@ + seq!['_'] + a@ + seq!['_'] + n@ + seq!['_'] + o@ + seq!['_'] + d@,
{
    proof {
        reveal_strlit("_");
    }
    assert("_"@ =~= seq!['_']);
    let r = t.clone().concat("_").concat(a.as_str()).concat("_").concat(n.as_str()).concat(
        "_",
    ).concat(o.as_str()).concat("_").concat(d.as_str());
    assert(r@ =~= t@ + seq!['_'] + a@ + seq!['_'] + n@ + seq!['_'] + o@ + seq!['_'] + d@);
    r
}

impl FlightLoader {
    /// The document of the row under the loader's lookup tables.
    pub open spec fn document_of(&self, row: Seq<FieldModel>) -> Seq<(Seq<char>, JsonModel)> {
        flight_entries(self.airport_lookup@, self.cancellation_lookup@, row)
    }

    /// Maps a row to its flight document: picks and renames fields, reads
    /// numbers and truth values, builds the flight id and adds the
    /// cancellation reason and airport coordinates from the lookup tables.
    pub fn transform_row(&self, row: &RawRow) -> (r: Document)
        ensures
            r@ == self.document_of(row@),
    {
        let ts = match row.present("@timestamp") {
            Some(t) => Some(t),
            None => row.present("FlightDate"),
        };
        let airline = row.present("Reporting_Airline");
        let number = row.present("Flight_Number_Reporting_Airline");
        let origin = row.present("Origin");
        let dest = row.present("Dest");
        let tail = row.present("Tail_Number");
        let code = row.present("CancellationCode");
        let flight_id = match (&ts, &airline, &number, &origin, &dest) {
            (Some(t), Some(a), Some(n), Some(o), Some(d)) => Some(joined_id(t, a, n, o, d)),
            _ => None,
        };
        let reason = match &code {
            Some(c) => match self.cancellation_lookup.lookup_reason(Some(c.as_str())) {
                Some(v) => Some(v.clone()),
                None => None,
            },
            None => None,
        };
        let origin_location = match &origin {
            Some(o) => self.airport_lookup.lookup_coordinates(Some(o.as_str())),
            None => None,
        };
        let dest_location = match &dest {
            Some(d) => self.airport_lookup.lookup_coordinates(Some(d.as_str())),
            None => None,
        };
        let mut entries: Vec<Entry> = Vec::new();
        entries.push(text_entry("@timestamp", &ts));
        entries.push(int_entry("ActualElapsedTimeMin", row.to_integer("ActualElapsedTime")));
        entries.push(int_entry("AirTimeMin", row.to_integer("AirTime")));
        entries.push(int_entry("ArrDelayMin", row.to_integer("ArrDelay")));
        entries.push(int_entry("CRSArrTimeLocal", row.to_integer("CRSArrTime")));
        entries.push(int_entry("CRSDepTimeLocal", row.to_integer("CRSDepTime")));
        entries.push(text_entry("CancellationCode", &code));
        entries.push(text_entry("CancellationReason", &reason));
        entries.push(flag_entry("Cancelled", row.to_boolean("Cancelled")));
        entries.push(int_entry("CarrierDelayMin", row.to_integer("CarrierDelay")));
        entries.push(int_entry("DepDelayMin", row.to_integer("DepDelay")));
        entries.push(text_entry("Dest", &dest));
        entries.push(text_entry("DestLocation", &dest_location));
        entries.push(int_entry("DistanceMiles", row.to_integer("Distance")));
        entries.push(flag_entry("Diverted", row.to_boolean("Diverted")));
        entries.push(text_entry("FlightID", &flight_id));
        entries.push(text_entry("Flight_Number", &number));
        entries.push(int_entry("Flights", row.to_integer("Flights")));
        entries.push(int_entry("LateAircraftDelayMin", row.to_integer("LateAircraftDelay")));
        entries.push(int_entry("NASDelayMin", row.to_integer("NASDelay")));
        entries.push(text_entry("Origin", &origin));
        entries.push(text_entry("OriginLocation", &origin_location));
        entries.push(text_entry("Reporting_Airline", &airline));
        entries.push(int_entry("SecurityDelayMin", row.to_integer("SecurityDelay")));
        entries.push(text_entry("Tail_Number", &tail));
        entries.push(int_entry("TaxiInMin", row.to_integer("TaxiIn")));
        entries.push(int_entry("TaxiOutMin", row.to_integer("TaxiOut")));
        entries.push(int_entry("WeatherDelayMin", row.to_integer("WeatherDelay")));
        let r = Document { entries };
        assert(r@ =~= self.document_of(row@));
        r
    }
}

} // verus!
