use divi_sync::dataset::DataSet;
use divi_sync::record::Row;
use divi_sync::store::{rows_file_name, Store};
use divi_sync::sync::{Orchestrator, SyncAction, SyncPolicy};
use divi_sync::time::{Date, Timestamp};

fn dataset(url: &str, y: u16, mo: u8, d: u8) -> DataSet {
    let row = Row {
        state: 8,
        ags: String::from("08222"),
        num_report_areas: None,
        cases_current: None,
        cases_ventilated: None,
        num_locations: 1,
        beds_available: 10,
        beds_occupied: 5,
        timestamp: Timestamp {
            date: Date { year: y, month: mo, day: d },
            hour: 9,
            minute: 15,
            second: 0,
        },
        beds_occupied_adults: None,
        beds_available_adults: None,
    };
    DataSet::new(String::from(url), vec![row]).unwrap()
}

#[test]
fn ledger_round_trip() {
    let mut store = Store::new();
    let ds = dataset("https://example.org/a.csv", 2021, 3, 4);
    assert!(!store.contains_dataset_source_url("https://example.org/a.csv"));
    assert!(store.get_dataset(&ds.date).is_none());
    store.put_dataset(&ds);
    assert!(store.contains_dataset_source_url("https://example.org/a.csv"));
    let loaded = store.get_dataset(&Date { year: 2021, month: 3, day: 4 }).unwrap();
    assert_eq!(loaded, ds);
}

#[test]
fn reingesting_a_date_overwrites_it() {
    let mut store = Store::new();
    store.put_dataset(&dataset("https://example.org/a.csv", 2021, 3, 4));
    let newer = dataset("https://example.org/b.csv", 2021, 3, 4);
    store.put_dataset(&newer);
    let loaded = store.get_dataset(&Date { year: 2021, month: 3, day: 4 }).unwrap();
    assert_eq!(loaded.source_url, "https://example.org/b.csv");
    assert!(store.contains_dataset_source_url("https://example.org/a.csv"));
    assert!(store.contains_dataset_source_url("https://example.org/b.csv"));
}

#[test]
fn dataset_file_names_are_date_keyed() {
    let name = rows_file_name(&Date { year: 2021, month: 3, day: 4 });
    assert_eq!(name, "2021-03-04.json");
    let name = rows_file_name(&Date { year: 987, month: 12, day: 31 });
    assert_eq!(name, "0987-12-31.json");
}

/// Runs the orchestrator over a fixed listing, fetching by the book,
/// and reports which URLs were fetched.
fn run_sync(policy: SyncPolicy, store: &mut Store, listing: &[(&str, u16, u8, u8)]) -> Vec<String> {
    let mut orchestrator = Orchestrator::new(policy);
    let mut fetched = Vec::new();
    for (url, y, mo, d) in listing {
        if orchestrator.finished() {
            break;
        }
        let known = store.contains_dataset_source_url(url);
        match orchestrator.on_url(known) {
            SyncAction::Fetch => {
                let ds = dataset(url, *y, *mo, *d);
                store.put_dataset(&ds);
                fetched.push(String::from(*url));
            }
            SyncAction::Skip => {}
            SyncAction::Stop => {}
        }
    }
    fetched
}

const LISTING: [(&str, u16, u8, u8); 4] = [
    ("https://example.org/d4.csv", 2021, 3, 4),
    ("https://example.org/d3.csv", 2021, 3, 3),
    ("https://example.org/d2.csv", 2021, 3, 2),
    ("https://example.org/d1.csv", 2021, 3, 1),
];

#[test]
fn stop_at_first_known_halts_the_run() {
    let mut store = Store::new();
    store.mark_synced(String::from("https://example.org/d3.csv"));
    let policy = SyncPolicy { check_all: false, resync_all: false };
    let fetched = run_sync(policy, &mut store, &LISTING);
    assert_eq!(fetched, vec!["https://example.org/d4.csv"]);
    assert!(!store.contains_dataset_source_url("https://example.org/d2.csv"));
}

#[test]
fn check_all_skips_known_and_fetches_the_rest() {
    let mut store = Store::new();
    store.mark_synced(String::from("https://example.org/d3.csv"));
    let policy = SyncPolicy { check_all: true, resync_all: false };
    let fetched = run_sync(policy, &mut store, &LISTING);
    assert_eq!(
        fetched,
        vec![
            "https://example.org/d4.csv",
            "https://example.org/d2.csv",
            "https://example.org/d1.csv",
        ]
    );
}

#[test]
fn resync_all_ignores_the_ledger() {
    let mut store = Store::new();
    for (url, _, _, _) in &LISTING {
        store.mark_synced(String::from(*url));
    }
    let policy = SyncPolicy { check_all: false, resync_all: true };
    let fetched = run_sync(policy, &mut store, &LISTING);
    assert_eq!(fetched.len(), 4);
}

#[test]
fn rerun_over_ingested_listing_fetches_nothing() {
    let policy = SyncPolicy { check_all: false, resync_all: false };
    let mut store = Store::new();
    let first = run_sync(policy, &mut store, &LISTING);
    assert_eq!(first.len(), 4);
    let second = run_sync(policy, &mut store, &LISTING);
    assert_eq!(second.len(), 0);
}
