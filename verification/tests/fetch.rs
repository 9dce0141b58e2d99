use divi_sync::error::Error;
use divi_sync::fetch::{dataset_from_csv, timestamp_hint_from_url};
use divi_sync::time::{Date, Timestamp};

fn bytes(s: &str) -> Vec<u8> {
    s.as_bytes().to_vec()
}

#[test]
fn csv_bytes_become_a_dated_dataset() {
    let csv = "daten_stand,bundesland,gemeindeschluessel,anzahl_standorte,betten_frei,betten_belegt\n\
2021-03-04 09:15:00,8,08222,2,12.0,34\n\
2021-03-04 09:15:00,5,05111,1,7,8.0\n";
    let ds = dataset_from_csv(&bytes(csv), String::from("https://example.org/x.csv")).unwrap();
    assert_eq!(ds.date, Date { year: 2021, month: 3, day: 4 });
    assert_eq!(ds.source_url, "https://example.org/x.csv");
    assert_eq!(ds.rows.len(), 2);
    assert_eq!(ds.rows[0].state, 8);
    assert_eq!(ds.rows[0].ags, "08222");
    assert_eq!(ds.rows[0].beds_available, 12);
    assert_eq!(ds.rows[0].beds_occupied, 34);
    assert_eq!(ds.rows[1].state, 5);
    assert_eq!(ds.rows[1].beds_available, 7);
    assert_eq!(ds.rows[1].beds_occupied, 8);
}

#[test]
fn header_only_file_is_an_empty_dataset() {
    let csv = "daten_stand,gemeindeschluessel,anzahl_standorte,betten_frei,betten_belegt\n";
    let r = dataset_from_csv(&bytes(csv), String::from("https://example.org/x.csv"));
    assert_eq!(r.err(), Some(Error::EmptyDataSet));
}

#[test]
fn one_bad_row_aborts_the_whole_fetch() {
    let csv = "daten_stand,gemeindeschluessel,anzahl_standorte,betten_frei,betten_belegt\n\
2021-03-04 09:15:00,08222,2,12.0,34\n\
2021-03-04 09:15:00,08222,2,12.5garbage,34\n";
    let r = dataset_from_csv(&bytes(csv), String::from("https://example.org/x.csv"));
    assert_eq!(r.err(), Some(Error::InvalidRow));
}

#[test]
fn missing_required_column_is_a_decode_failure() {
    let csv = "daten_stand,gemeindeschluessel,betten_frei,betten_belegt\n\
2021-03-04 09:15:00,08222,12.0,34\n";
    let r = dataset_from_csv(&bytes(csv), String::from("https://example.org/x.csv"));
    assert_eq!(r.err(), Some(Error::Csv));
}

#[test]
fn hint_from_url_path_fills_missing_timestamps() {
    let csv = "gemeindeschluessel,anzahl_standorte,betten_frei,betten_belegt\n\
08222,2,12.0,34\n";
    let url = String::from("https://example.org/files/report-2021-03-04-09-15-download.csv");
    let ds = dataset_from_csv(&bytes(csv), url).unwrap();
    assert_eq!(
        ds.rows[0].timestamp,
        Timestamp {
            date: Date { year: 2021, month: 3, day: 4 },
            hour: 9,
            minute: 15,
            second: 0,
        }
    );
}

#[test]
fn no_hint_and_no_field_rejects_the_resource() {
    let csv = "gemeindeschluessel,anzahl_standorte,betten_frei,betten_belegt\n\
08222,2,12.0,34\n";
    let r = dataset_from_csv(&bytes(csv), String::from("https://example.org/plain.csv"));
    assert_eq!(r.err(), Some(Error::MissingTimestamp));
}

#[test]
fn hint_comes_from_the_path_alone() {
    let hint = timestamp_hint_from_url("https://example.org/a-2021-03-04-09-15.csv");
    assert_eq!(
        hint,
        Some(Timestamp {
            date: Date { year: 2021, month: 3, day: 4 },
            hour: 9,
            minute: 15,
            second: 0,
        })
    );
    assert_eq!(timestamp_hint_from_url("https://example.org/plain.csv"), None);
    assert_eq!(
        timestamp_hint_from_url("https://example.org/x.csv?d=2021-03-04-09-15"),
        None
    );
    assert_eq!(timestamp_hint_from_url("not a url"), None);
    assert_eq!(
        timestamp_hint_from_url("https://example.org/a-2021-13-99-09-15.csv"),
        None
    );
}

#[test]
fn ragged_rows_are_a_decode_failure() {
    let csv = "daten_stand,gemeindeschluessel,anzahl_standorte,betten_frei,betten_belegt\n\
2021-03-04 09:15:00,08222,2,12.0\n";
    let r = dataset_from_csv(&bytes(csv), String::from("https://example.org/x.csv"));
    assert_eq!(r.err(), Some(Error::Csv));
}
