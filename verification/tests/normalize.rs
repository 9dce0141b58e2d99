use divi_sync::error::Error;
use divi_sync::record::{parse_decimal_to_int, RawRecord, Row};
use divi_sync::time::{parse_datetime, Date, Timestamp};

fn base_record() -> RawRecord {
    RawRecord {
        idx: Some(0),
        bundesland: None,
        gemeindeschluessel: Some(String::from("08222")),
        kreis: None,
        anzahl_meldebereiche: Some(3),
        faelle_covid_aktuell: Some(7),
        faelle_covid_aktuell_invasiv_beatmet: None,
        faelle_covid_aktuell_beatmet: None,
        faelle_cobid_aktuell_im_bundesland: None,
        anzahl_standorte: 2,
        betten_frei: String::from("12.0"),
        betten_belegt: String::from("34"),
        daten_stand: Some(String::from("2021-03-04 09:15:00")),
        betten_belegt_nur_erwachsen: None,
        betten_frei_nur_erwachsen: None,
    }
}

fn ts(y: u16, mo: u8, d: u8, h: u8, mi: u8, s: u8) -> Timestamp {
    Timestamp { date: Date { year: y, month: mo, day: d }, hour: h, minute: mi, second: s }
}

#[test]
fn normalize_is_deterministic() {
    let a = Row::from_raw(base_record(), &None);
    let b = Row::from_raw(base_record(), &None);
    assert_eq!(a, b);
    let bad = RawRecord { betten_frei: String::from("x"), ..base_record() };
    let bad2 = RawRecord { betten_frei: String::from("x"), ..base_record() };
    assert_eq!(Row::from_raw(bad, &None), Row::from_raw(bad2, &None));
}

#[test]
fn normalize_full_row() {
    let row = Row::from_raw(base_record(), &None).unwrap();
    assert_eq!(row.state, 8);
    assert_eq!(row.ags, "08222");
    assert_eq!(row.num_report_areas, Some(3));
    assert_eq!(row.cases_current, Some(7));
    assert_eq!(row.cases_ventilated, None);
    assert_eq!(row.num_locations, 2);
    assert_eq!(row.beds_available, 12);
    assert_eq!(row.beds_occupied, 34);
    assert_eq!(row.timestamp, ts(2021, 3, 4, 9, 15, 0));
}

#[test]
fn decimal_bed_counts() {
    assert_eq!(parse_decimal_to_int("12.0"), Ok(12));
    assert_eq!(parse_decimal_to_int("12"), Ok(12));
    assert_eq!(parse_decimal_to_int("12.5garbage"), Err(Error::InvalidRow));
    assert_eq!(parse_decimal_to_int(""), Err(Error::InvalidRow));
    assert_eq!(parse_decimal_to_int(".5"), Err(Error::InvalidRow));
    assert_eq!(parse_decimal_to_int("garbage"), Err(Error::InvalidRow));
    assert_eq!(parse_decimal_to_int("7."), Ok(7));
    assert_eq!(parse_decimal_to_int("0.0"), Ok(0));
}

#[test]
fn missing_region_key_is_invalid_row() {
    let rec = RawRecord { gemeindeschluessel: None, kreis: None, ..base_record() };
    assert_eq!(Row::from_raw(rec, &None), Err(Error::InvalidRow));
    let rec = RawRecord {
        gemeindeschluessel: None,
        kreis: None,
        bundesland: Some(8),
        faelle_covid_aktuell: None,
        ..base_record()
    };
    assert_eq!(Row::from_raw(rec, &None), Err(Error::InvalidRow));
}

#[test]
fn legacy_district_field_is_used() {
    let rec = RawRecord {
        gemeindeschluessel: None,
        kreis: Some(String::from("05111")),
        ..base_record()
    };
    let row = Row::from_raw(rec, &None).unwrap();
    assert_eq!(row.ags, "05111");
    assert_eq!(row.state, 5);
}

#[test]
fn missing_timestamp_and_hint() {
    let rec = RawRecord { daten_stand: None, ..base_record() };
    assert_eq!(Row::from_raw(rec, &None), Err(Error::MissingTimestamp));
}

#[test]
fn hint_is_used_verbatim() {
    let rec = RawRecord { daten_stand: None, ..base_record() };
    let hint = ts(2020, 12, 31, 23, 45, 0);
    let row = Row::from_raw(rec, &Some(hint)).unwrap();
    assert_eq!(row.timestamp, hint);
}

#[test]
fn explicit_timestamp_beats_hint() {
    let hint = ts(2020, 1, 1, 0, 0, 0);
    let row = Row::from_raw(base_record(), &Some(hint)).unwrap();
    assert_eq!(row.timestamp, ts(2021, 3, 4, 9, 15, 0));
}

#[test]
fn malformed_timestamp_field() {
    let rec = RawRecord { daten_stand: Some(String::from("2021-03-04")), ..base_record() };
    assert_eq!(Row::from_raw(rec, &None), Err(Error::DateTime));
    let rec = RawRecord {
        daten_stand: Some(String::from("2021-13-04 09:15:00")),
        ..base_record()
    };
    assert_eq!(Row::from_raw(rec, &None), Err(Error::DateTime));
}

#[test]
fn explicit_region_code_wins() {
    let rec = RawRecord { bundesland: Some(16), ..base_record() };
    let row = Row::from_raw(rec, &None).unwrap();
    assert_eq!(row.state, 16);
}

#[test]
fn unparsable_region_key_prefix() {
    let rec = RawRecord {
        gemeindeschluessel: Some(String::from("x8222")),
        ..base_record()
    };
    assert_eq!(Row::from_raw(rec, &None), Err(Error::ParseInt));
    let rec = RawRecord { gemeindeschluessel: Some(String::from("7")), ..base_record() };
    assert_eq!(Row::from_raw(rec, &None), Err(Error::ParseInt));
}

#[test]
fn ventilated_fallback() {
    let rec = RawRecord {
        faelle_covid_aktuell_invasiv_beatmet: Some(4),
        faelle_covid_aktuell_beatmet: Some(9),
        ..base_record()
    };
    assert_eq!(Row::from_raw(rec, &None).unwrap().cases_ventilated, Some(4));
    let rec = RawRecord {
        faelle_covid_aktuell_invasiv_beatmet: None,
        faelle_covid_aktuell_beatmet: Some(9),
        ..base_record()
    };
    assert_eq!(Row::from_raw(rec, &None).unwrap().cases_ventilated, Some(9));
}

#[test]
fn datetime_format_is_exact() {
    assert_eq!(parse_datetime("2021-03-04 09:15:27"), Some(ts(2021, 3, 4, 9, 15, 27)));
    assert_eq!(parse_datetime("2021-03-04T09:15:27"), None);
    assert_eq!(parse_datetime("2021-02-29 00:00:00"), None);
    assert_eq!(parse_datetime("2020-02-29 00:00:00"), Some(ts(2020, 2, 29, 0, 0, 0)));
    assert_eq!(parse_datetime("2021-03-04 24:00:00"), None);
    assert_eq!(parse_datetime(""), None);
}
