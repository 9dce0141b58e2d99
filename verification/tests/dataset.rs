use divi_sync::dataset::DataSet;
use divi_sync::error::Error;
use divi_sync::record::Row;
use divi_sync::time::{Date, Timestamp};

fn row(y: u16, mo: u8, d: u8) -> Row {
    Row {
        state: 8,
        ags: String::from("08222"),
        num_report_areas: None,
        cases_current: None,
        cases_ventilated: None,
        num_locations: 1,
        beds_available: 10,
        beds_occupied: 5,
        timestamp: Timestamp {
            date: Date { year: y, month: mo, day: d },
            hour: 9,
            minute: 15,
            second: 0,
        },
        beds_occupied_adults: None,
        beds_available_adults: None,
    }
}

#[test]
fn empty_dataset_is_refused() {
    let r = DataSet::new(String::from("https://example.org/a.csv"), Vec::new());
    assert_eq!(r, Err(Error::EmptyDataSet));
}

#[test]
fn dataset_date_is_first_rows_date() {
    let rows = vec![row(2021, 3, 4), row(2021, 3, 5)];
    let ds = DataSet::new(String::from("https://example.org/a.csv"), rows).unwrap();
    assert_eq!(ds.date, Date { year: 2021, month: 3, day: 4 });
    assert_eq!(ds.source_url, "https://example.org/a.csv");
    assert_eq!(ds.rows.len(), 2);
}
