//! The sync ledger: which sources were ingested, and the datasets by
//! date.
//!
//! The ledger is the set of source URLs already ingested plus one
//! dataset per calendar date; re-ingesting a date overwrites it. This
//! is the in-memory ledger the sync run works against; writing it to
//! durable storage and reading it back is the caller's concern, done
//! through `mark_synced` and `put_dataset` so every reload passes
//! through the same contracts.

use vstd::prelude::*;

use crate::dataset::{DataSet, DataSetView};
use crate::record::Row;
use crate::text::str_eq;
use crate::time::Date;

verus! {

/// The datasets a ledger holds, date-keyed; a later entry for the same
/// date overwrites an earlier one.
pub open spec fn datasets_map(ds: Seq<DataSet>) -> Map<Date, DataSetView>
    decreases ds.len(),
{
    if ds.len() == 0 {
        Map::<Date, DataSetView>::empty()
    } else {
        datasets_map(ds.drop_last()).insert(ds.last().date, ds.last()@)
    }
}

/// The mathematical reading of the ledger: a membership-only set of
/// ingested source URLs and the directory of datasets by date.
#[verifier::ext_equal]
pub ghost struct StoreView {
    pub known: Set<Seq<char>>,
    pub datasets: Map<Date, DataSetView>,
}

/// The persisted sync ledger's in-memory state.
pub struct Store {
    urls_synced: Vec<String>,
    datasets: Vec<DataSet>,
}

impl View for Store {
    type V = StoreView;

    closed spec fn view(&self) -> StoreView {
        StoreView {
            known: self.urls_synced@.map_values(|u: String| u@).to_set(),
            datasets: datasets_map(self.datasets@),
        }
    }
}

impl Row {
    /// A value-equal copy of this row.
    pub fn duplicate(&self) -> (r: Row)
        ensures
            r@ == self@,
    {
        Row {
            state: self.state,
            ags: self.ags.clone(),
            num_report_areas: self.num_report_areas,
            cases_current: self.cases_current,
            cases_ventilated: self.cases_ventilated,
            num_locations: self.num_locations,
            beds_available: self.beds_available,
            beds_occupied: self.beds_occupied,
            timestamp: self.timestamp,
            beds_occupied_adults: self.beds_occupied_adults,
            beds_available_adults: self.beds_available_adults,
        }
    }
}

impl DataSet {
    /// A value-equal copy of this dataset.
    pub fn duplicate(&self) -> (r: DataSet)
        ensures
            r@ == self@,
    {
        let mut rows: Vec<Row> = Vec::new();
        let mut i: usize = 0;
        while i < self.rows.len()
            invariant
                0 <= i <= self.rows@.len(),
                rows@.len() == i,
                forall|j: int| 0 <= j < i ==> rows@[j]@ == self.rows@[j]@,
            decreases self.rows@.len() - i,
        {
            rows.push(self.rows[i].duplicate());
            i = i + 1;
        }
        let r = DataSet { date: self.date, source_url: self.source_url.clone(), rows };
        proof {
            assert(r@.rows =~= self@.rows);
            assert(r@ =~= self@);
        }
        r
    }
}

impl Store {
    /// An empty ledger: nothing known, nothing stored.
    pub fn new() -> (s: Store)
        ensures
            s@.known == Set::<Seq<char>>::empty(),
            s@.datasets == Map::<Date, DataSetView>::empty(),
    {
        let s = Store { urls_synced: Vec::new(), datasets: Vec::new() };
        proof {
            assert(s@.known =~= Set::<Seq<char>>::empty());
        }
        s
    }

    /// Whether this source URL was already ingested: a pure membership
    /// test against the known set.
    pub fn contains_dataset_source_url(&self, source_url: &str) -> (r: bool)
        ensures
            r == self@.known.contains(source_url@),
    {
        let ghost us = self.urls_synced@.map_values(|u: String| u@);
        let mut i: usize = 0;
        while i < self.urls_synced.len()
            invariant
                0 <= i <= self.urls_synced@.len(),
                us == self.urls_synced@.map_values(|u: String| u@),
                forall|j: int| 0 <= j < i ==> us[j] != source_url@,
            decreases self.urls_synced@.len() - i,
        {
            if str_eq(self.urls_synced[i].as_str(), source_url) {
                assert(us[i as int] == source_url@);
                return true;
            }
            i = i + 1;
        }
        assert(!us.contains(source_url@));
        false
    }

    /// Marks one source URL as ingested; everything else is unchanged.
    pub fn mark_synced(&mut self, source_url: String)
        ensures
            final(self)@.known == old(self)@.known.insert(source_url@),
            final(self)@.datasets == old(self)@.datasets,
    {
        let ghost before = self.urls_synced@;
        if self.contains_dataset_source_url(source_url.as_str()) {
            proof {
                assert(self@.known.insert(source_url@) =~= self@.known);
            }
        } else {
            self.urls_synced.push(source_url);
            proof {
                let f = |u: String| u@;
                let old_seq = before.map_values(f);
                let new_seq = self.urls_synced@.map_values(f);
                let u = self.urls_synced@.last()@;
                assert(new_seq =~= old_seq.push(u));
                assert forall|x: Seq<char>| new_seq.contains(x) <==> (old_seq.contains(x)
                    || x == u) by {
                    if new_seq.contains(x) {
                        let k = choose|k: int| 0 <= k < new_seq.len() && new_seq[k] == x;
                        if k < old_seq.len() {
                            assert(old_seq[k] == x);
                        }
                    }
                    if old_seq.contains(x) {
                        let k = choose|k: int| 0 <= k < old_seq.len() && old_seq[k] == x;
                        assert(new_seq[k] == x);
                    }
                    if x == u {
                        assert(new_seq[new_seq.len() - 1] == x);
                    }
                }
                assert(self@.known =~= old(self)@.known.insert(u));
            }
        }
    }

    /// Stores a dataset under its date — overwriting that date — and
    /// marks its source URL as ingested; the dataset entry and the
    /// membership mark appear together, in that order.
    pub fn put_dataset(&mut self, dataset: &DataSet)
        ensures
            final(self)@.known == old(self)@.known.insert(dataset.source_url@),
            final(self)@.datasets == old(self)@.datasets.insert(dataset.date, dataset@),
    {
        let ghost before = self.datasets@;
        let copy = dataset.duplicate();
        proof {
            assert(copy.date == dataset.date) by {
                assert(copy@.date == dataset@.date);
            }
        }
        self.datasets.push(copy);
        proof {
            assert(self.datasets@.drop_last() =~= before);
        }
        self.mark_synced(dataset.source_url.clone());
    }

    /// Loads the dataset stored under a date, if any.
    pub fn get_dataset(&self, date: &Date) -> (r: Option<DataSet>)
        ensures
            match r {
                Some(ds) => self@.datasets.contains_key(*date) && ds@ == self@.datasets[*date],
                None => !self@.datasets.contains_key(*date),
            },
    {
        let ghost dv = self.datasets@;
        let mut i: usize = self.datasets.len();
        proof {
            assert(dv.subrange(0, dv.len() as int) =~= dv);
        }
        while i > 0
            invariant
                0 <= i <= dv.len(),
                dv == self.datasets@,
                datasets_map(dv).contains_key(*date) == datasets_map(dv.subrange(0, i as int))
                    .contains_key(*date),
                datasets_map(dv).contains_key(*date) ==> datasets_map(dv)[*date] == datasets_map(
                    dv.subrange(0, i as int),
                )[*date],
            decreases i,
        {
            proof {
                assert(dv.subrange(0, i as int).drop_last() =~= dv.subrange(0, i - 1));
                assert(dv.subrange(0, i as int).last() == dv[i - 1]);
            }
            if self.datasets[i - 1].date == *date {
                return Some(self.datasets[i - 1].duplicate());
            }
            i = i - 1;
        }
        proof {
            assert(dv.subrange(0, 0).len() == 0);
        }
        None
    }
}

/// The file name a dataset is stored under, keyed deterministically by
/// its date: `YYYY-MM-DD.json`.
pub fn rows_file_name(date: &Date) -> (r: String)
    requires
        date.valid(),
    ensures
        r@ == date.seq() + ".json"@,
{
    let mut out = date.to_text();
    out.append(".json");
    out
}

/// The ledger round trip: after a dataset is stored, the entry under
/// its date is that dataset and its source URL is known; and the known
/// set grows by that URL alone, so a URL is known only once some store
/// put it there.
pub proof fn lemma_store_round_trip(s: StoreView, ds: DataSetView)
    ensures
        (StoreView {
            known: s.known.insert(ds.source_url),
            datasets: s.datasets.insert(ds.date, ds),
        }).datasets[ds.date] == ds,
        (StoreView {
            known: s.known.insert(ds.source_url),
            datasets: s.datasets.insert(ds.date, ds),
        }).known.contains(ds.source_url),
        forall|u: Seq<char>| s.known.insert(ds.source_url).contains(u) ==> s.known.contains(u)
            || u == ds.source_url,
{
}

} // verus!
