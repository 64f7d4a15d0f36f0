//! The source store, held in memory: an append-only log of position
//! samples, a catalogue with at most one row for each dataset identifier,
//! and a history of snapshots for each source. The store stamps what it is
//! given with its own clock, which never runs backwards.

use crate::document::{opt_text_json, put, Document, Json};
use crate::domain::{
    CatalogueEntry, CatalogueEntryView, CatalogueItem, CatalogueItemView, PositionSample,
    PositionSampleView, SpaceCacheItem, SpaceCacheItemView, StoreError,
};
use crate::instant::Instant;
use vstd::prelude::*;

verus! {

/// The largest number of rows that a table can number.
pub const MAX_ROWS: u64 = 0x7fff_ffff_ffff_ffff;

/// The first `limit` of `rows`, counted from the newest, newest first.
pub open spec fn newest_first<T>(rows: Seq<T>, limit: int) -> Seq<T> {
    Seq::new(
        if limit <= 0 {
            0nat
        } else if limit < rows.len() {
            limit as nat
        } else {
            rows.len()
        },
        |i: int| rows[rows.len() - 1 - i],
    )
}

/// The newest snapshot of `source`.
pub open spec fn latest_of(cache: Seq<SpaceCacheItemView>, source: Seq<char>) -> Option<
    SpaceCacheItemView,
>
    decreases cache.len(),
{
    if cache.len() == 0 {
        None
    } else if cache.last().source == source {
        Some(cache.last())
    } else {
        latest_of(cache.drop_last(), source)
    }
}

/// Whether the catalogue has a row for the dataset `key`.
pub open spec fn has_key(catalogue: Seq<CatalogueItemView>, key: Seq<char>) -> bool {
    exists|i: int| 0 <= i < catalogue.len() && (#[trigger] catalogue[i]).entry.dataset_id == Some(key)
}

/// The place of the row for the dataset `key`.
pub open spec fn row_of(catalogue: Seq<CatalogueItemView>, key: Seq<char>) -> int {
    choose|i: int| 0 <= i < catalogue.len() && (#[trigger] catalogue[i]).entry.dataset_id == Some(key)
}

/// Whether no two rows are of the same dataset.
pub open spec fn keys_unique(catalogue: Seq<CatalogueItemView>) -> bool {
    forall|i: int, j: int|
        0 <= i < j < catalogue.len() && (#[trigger] catalogue[i]).entry.dataset_id is Some
            ==> catalogue[i].entry.dataset_id != (#[trigger] catalogue[j]).entry.dataset_id
}

/// An optional instant as a value: its text, or null.
pub open spec fn opt_instant_json(t: Option<Instant>) -> Json {
    match t {
        Some(t) => t.json(),
        None => Json::Null,
    }
}

/// A catalogue row as it is listed.
pub open spec fn row_json(row: CatalogueItemView) -> Json {
    Json::Object(
        seq![
            ("id"@, Json::Int(row.id)),
            ("dataset_id"@, opt_text_json(row.entry.dataset_id)),
            ("title"@, opt_text_json(row.entry.title)),
            ("status"@, opt_text_json(row.entry.status)),
            ("updated_at"@, opt_instant_json(row.entry.updated_at)),
            ("inserted_at"@, row.inserted_at.json()),
            ("raw"@, row.entry.raw),
        ],
    )
}

/// Rows after the last of `source` do not change which snapshot is its
/// newest.
pub proof fn lemma_latest_of_take(cache: Seq<SpaceCacheItemView>, source: Seq<char>, n: int)
    requires
        0 <= n <= cache.len(),
        forall|j: int| n <= j < cache.len() ==> (#[trigger] cache[j]).source != source,
    ensures
        latest_of(cache, source) == latest_of(cache.take(n), source),
    decreases cache.len() - n,
{
    if n == cache.len() {
        assert(cache.take(n) =~= cache);
    } else {
        let rest = cache.drop_last();
        assert(cache.last() == cache[cache.len() - 1]);
        lemma_latest_of_take(rest, source, n);
        assert(rest.take(n) =~= cache.take(n));
    }
}

/// The mathematical state of the store.
pub struct RepositoryView {
    /// The store's time.
    pub clock: Instant,
    /// The position samples, oldest first.
    pub log: Seq<PositionSampleView>,
    /// The catalogue rows, in the order in which they were inserted.
    pub catalogue: Seq<CatalogueItemView>,
    /// The snapshots of all sources, oldest first.
    pub cache: Seq<SpaceCacheItemView>,
}

impl RepositoryView {
    /// The invariant of the store: rows are numbered from one in the order
    /// of insertion, their stamps never decrease and none is later than the
    /// clock, and no two catalogue rows share a dataset identifier.
    pub open spec fn wf(self) -> bool {
        &&& self.clock.wf()
        &&& self.log.len() <= MAX_ROWS
        &&& self.catalogue.len() <= MAX_ROWS
        &&& self.cache.len() <= MAX_ROWS
        &&& forall|i: int|
            0 <= i < self.log.len() ==> {
                &&& (#[trigger] self.log[i]).id == i + 1
                &&& self.log[i].fetched_at.wf()
                &&& self.log[i].fetched_at.spec_le(self.clock)
            }
        &&& forall|i: int, j: int|
            0 <= i <= j < self.log.len() ==> (#[trigger] self.log[i]).fetched_at.spec_le(
                (#[trigger] self.log[j]).fetched_at,
            )
        &&& forall|i: int|
            0 <= i < self.catalogue.len() ==> {
                &&& (#[trigger] self.catalogue[i]).id == i + 1
                &&& self.catalogue[i].inserted_at.wf()
                &&& self.catalogue[i].inserted_at.spec_le(self.clock)
                &&& (self.catalogue[i].entry.updated_at matches Some(t) ==> t.wf())
            }
        &&& forall|i: int, j: int|
            0 <= i <= j < self.catalogue.len() ==> (
            #[trigger] self.catalogue[i]).inserted_at.spec_le(
                (#[trigger] self.catalogue[j]).inserted_at,
            )
        &&& keys_unique(self.catalogue)
        &&& forall|i: int|
            0 <= i < self.cache.len() ==> {
                &&& (#[trigger] self.cache[i]).fetched_at.wf()
                &&& self.cache[i].fetched_at.spec_le(self.clock)
            }
        &&& forall|i: int, j: int|
            0 <= i <= j < self.cache.len() ==> (#[trigger] self.cache[i]).fetched_at.spec_le(
                (#[trigger] self.cache[j]).fetched_at,
            )
    }

    /// The empty store at the epoch.
    pub open spec fn empty() -> RepositoryView {
        RepositoryView {
            clock: Instant { secs: 0, nanos: 0 },
            log: Seq::empty(),
            catalogue: Seq::empty(),
            cache: Seq::empty(),
        }
    }

    /// The store once its clock has been told that it is `now`: the later of
    /// the two times.
    pub open spec fn ticked(self, now: Instant) -> RepositoryView {
        RepositoryView {
            clock: if self.clock.spec_le(now) {
                now
            } else {
                self.clock
            },
            ..self
        }
    }

    /// The store after one more position sample.
    pub open spec fn logged(self, url: Seq<char>, payload: Json) -> RepositoryView {
        RepositoryView {
            log: self.log.push(
                PositionSampleView {
                    id: self.log.len() as int + 1,
                    fetched_at: self.clock,
                    source_url: url,
                    payload,
                },
            ),
            ..self
        }
    }

    /// The store after one more catalogue row.
    pub open spec fn inserted(self, entry: CatalogueEntryView) -> RepositoryView {
        RepositoryView {
            catalogue: self.catalogue.push(
                CatalogueItemView { id: self.catalogue.len() as int + 1, inserted_at: self.clock, entry },
            ),
            ..self
        }
    }

    /// Whether `entry` meets a row of its own dataset.
    pub open spec fn conflicts(self, entry: CatalogueEntryView) -> bool {
        entry.dataset_id matches Some(key) && has_key(self.catalogue, key)
    }

    /// The store after `entry` was written over the row of its dataset,
    /// which keeps its number and its stamp.
    pub open spec fn overwritten(self, entry: CatalogueEntryView) -> RepositoryView
        recommends
            self.conflicts(entry),
    {
        let at = row_of(self.catalogue, entry.dataset_id->0);
        RepositoryView {
            catalogue: self.catalogue.update(
                at,
                CatalogueItemView { entry, ..self.catalogue[at] },
            ),
            ..self
        }
    }

    /// The store after an upsert: an entry with the identifier of a row
    /// replaces that row's fields, any other entry becomes a new row.
    pub open spec fn upserted(self, entry: CatalogueEntryView) -> RepositoryView {
        if self.conflicts(entry) {
            self.overwritten(entry)
        } else {
            self.inserted(entry)
        }
    }

    /// The store after one more snapshot of `source`.
    pub open spec fn cached(self, source: Seq<char>, payload: Json) -> RepositoryView {
        RepositoryView {
            cache: self.cache.push(
                SpaceCacheItemView { source, fetched_at: self.clock, payload },
            ),
            ..self
        }
    }

    /// The newest position sample.
    pub open spec fn latest_position(self) -> Option<PositionSampleView> {
        if self.log.len() == 0 {
            None
        } else {
            Some(self.log.last())
        }
    }

    /// The newest snapshot of `source`.
    pub open spec fn latest_cached(self, source: Seq<char>) -> Option<SpaceCacheItemView> {
        latest_of(self.cache, source)
    }
}

/// Two entries of one dataset, written one after the other, leave exactly
/// one row of that dataset, and it holds the second entry.
pub proof fn law_upsert_same_key(
    store: RepositoryView,
    first: CatalogueEntryView,
    second: CatalogueEntryView,
)
    requires
        keys_unique(store.catalogue),
        first.dataset_id is Some,
        first.dataset_id == second.dataset_id,
    ensures
        ({
            let after = store.upserted(first).upserted(second).catalogue;
            let key = first.dataset_id->0;
            &&& has_key(after, key)
            &&& after[row_of(after, key)].entry == second
            &&& forall|i: int, j: int|
                0 <= i < after.len() && 0 <= j < after.len() && (#[trigger] after[i]).entry.dataset_id
                    == Some(key) && (#[trigger] after[j]).entry.dataset_id == Some(key) ==> i
                    == j
            &&& after.len() == store.upserted(first).catalogue.len()
        }),
{
    let key = first.dataset_id->0;
    let mid = store.upserted(first);
    lemma_upserted_row(store, first);
    let at = row_of(mid.catalogue, key);
    let after = mid.upserted(second).catalogue;
    assert(mid.conflicts(second));
    assert(after == mid.catalogue.update(at, CatalogueItemView { entry: second, ..mid.catalogue[at] }));
    assert(after[at].entry.dataset_id == Some(key));
    assert(has_key(after, key));
    assert forall|i: int, j: int|
        0 <= i < after.len() && 0 <= j < after.len() && (#[trigger] after[i]).entry.dataset_id
            == Some(key) && (#[trigger] after[j]).entry.dataset_id == Some(key) implies i == j by {
        assert(mid.catalogue[i].entry.dataset_id == Some(key));
        assert(mid.catalogue[j].entry.dataset_id == Some(key));
        if i < j {
            assert(mid.catalogue[i].entry.dataset_id != mid.catalogue[j].entry.dataset_id);
        }
        if j < i {
            assert(mid.catalogue[j].entry.dataset_id != mid.catalogue[i].entry.dataset_id);
        }
    }
    let chosen = row_of(after, key);
    assert(chosen == at);
}

/// After an upsert of an entry with a dataset identifier the catalogue has
/// a row of that dataset, which holds the entry, and no two rows share a
/// dataset.
pub proof fn lemma_upserted_row(store: RepositoryView, entry: CatalogueEntryView)
    requires
        keys_unique(store.catalogue),
        entry.dataset_id is Some,
    ensures
        has_key(store.upserted(entry).catalogue, entry.dataset_id->0),
        store.upserted(entry).catalogue[row_of(
            store.upserted(entry).catalogue,
            entry.dataset_id->0,
        )].entry == entry,
        keys_unique(store.upserted(entry).catalogue),
{
    let key = entry.dataset_id->0;
    let before = store.catalogue;
    let after = store.upserted(entry).catalogue;
    if store.conflicts(entry) {
        let at = row_of(before, key);
        assert(after[at].entry == entry);
        assert(has_key(after, key));
        assert forall|i: int, j: int|
            0 <= i < j < after.len() && (#[trigger] after[i]).entry.dataset_id is Some implies after[i].entry.dataset_id
            != (#[trigger] after[j]).entry.dataset_id by {
            assert(before[i].entry.dataset_id == after[i].entry.dataset_id);
            assert(before[j].entry.dataset_id == after[j].entry.dataset_id);
        }
        let chosen = row_of(after, key);
        if chosen < at {
            assert(after[chosen].entry.dataset_id != after[at].entry.dataset_id);
        }
        if at < chosen {
            assert(after[at].entry.dataset_id != after[chosen].entry.dataset_id);
        }
    } else {
        let n = before.len() as int;
        assert(after[n].entry == entry);
        assert(has_key(after, key));
        assert forall|i: int, j: int|
            0 <= i < j < after.len() && (#[trigger] after[i]).entry.dataset_id is Some implies after[i].entry.dataset_id
            != (#[trigger] after[j]).entry.dataset_id by {
            assert(after[i] == before[i]);
            if j < n {
                assert(after[j] == before[j]);
            } else {
                assert(!has_key(before, key));
            }
        }
        let chosen = row_of(after, key);
        if chosen < n {
            assert(after[chosen] == before[chosen]);
            assert(has_key(before, key));
        }
    }
}

/// Two entries without a dataset identifier, written one after the other,
/// become two new rows with numbers of their own, and the rows that were
/// there stay as they were.
pub proof fn law_insert_without_key(
    store: RepositoryView,
    first: CatalogueEntryView,
    second: CatalogueEntryView,
)
    requires
        first.dataset_id is None,
        second.dataset_id is None,
    ensures
        ({
            let after = store.upserted(first).upserted(second).catalogue;
            let n = store.catalogue.len() as int;
            &&& after.len() == n + 2
            &&& after[n].entry == first
            &&& after[n + 1].entry == second
            &&& after[n].id != after[n + 1].id
            &&& after[n].entry.dataset_id is None
            &&& after[n + 1].entry.dataset_id is None
            &&& after.take(n) == store.catalogue
            &&& !store.conflicts(first)
            &&& !store.upserted(first).conflicts(second)
            &&& n + 2 <= MAX_ROWS ==> n < MAX_ROWS && store.upserted(first).catalogue.len()
                < MAX_ROWS
        }),
{
    let after = store.upserted(first).upserted(second).catalogue;
    let n = store.catalogue.len() as int;
    assert(after.take(n) =~= store.catalogue);
}

/// Of two snapshots written for one source, the one written later is its
/// newest, whatever else the store holds.
pub proof fn law_latest_snapshot_wins(
    store: RepositoryView,
    source: Seq<char>,
    earlier: Json,
    later: Json,
)
    ensures
        store.cached(source, earlier).cached(source, later).latest_cached(source) == Some(
            SpaceCacheItemView { source, fetched_at: store.clock, payload: later },
        ),
{
}

/// A snapshot of one source leaves the newest snapshot of every other
/// source as it was.
pub proof fn law_snapshots_are_kept_apart(
    store: RepositoryView,
    source: Seq<char>,
    other: Seq<char>,
    payload: Json,
)
    requires
        source != other,
    ensures
        store.cached(other, payload).latest_cached(source) == store.latest_cached(source),
{
    let after = store.cached(other, payload).cache;
    assert(after.drop_last() =~= store.cache);
}

/// Each kind of write keeps to its own table: a position sample leaves the
/// catalogue and the snapshots as they were, a catalogue entry the log and
/// the snapshots, and a snapshot the log and the catalogue.
pub proof fn law_writes_keep_to_their_table(
    store: RepositoryView,
    text: Seq<char>,
    payload: Json,
    entry: CatalogueEntryView,
)
    ensures
        store.logged(text, payload).catalogue == store.catalogue,
        store.logged(text, payload).cache == store.cache,
        store.upserted(entry).log == store.log,
        store.upserted(entry).cache == store.cache,
        store.cached(text, payload).log == store.log,
        store.cached(text, payload).catalogue == store.catalogue,
{
}

/// The catalogue is listed by time of insertion, newest first.
pub proof fn law_list_is_newest_first(store: RepositoryView, limit: int, i: int, j: int)
    requires
        store.wf(),
        0 <= i <= j < newest_first(store.catalogue, limit).len(),
    ensures
        newest_first(store.catalogue, limit)[j].inserted_at.spec_le(
            newest_first(store.catalogue, limit)[i].inserted_at,
        ),
        newest_first(store.catalogue, limit)[j].id <= newest_first(store.catalogue, limit)[i].id,
{
    let n = store.catalogue.len() as int;
    assert(newest_first(store.catalogue, limit)[i] == store.catalogue[n - 1 - i]);
    assert(newest_first(store.catalogue, limit)[j] == store.catalogue[n - 1 - j]);
}

/// The source store.
pub struct IssRepository {
    clock: Instant,
    iss_fetch_log: Vec<PositionSample>,
    osdr_items: Vec<CatalogueItem>,
    space_cache: Vec<SpaceCacheItem>,
}

impl View for IssRepository {
    type V = RepositoryView;

    closed spec fn view(&self) -> RepositoryView {
        RepositoryView {
            clock: self.clock,
            log: Seq::new(self.iss_fetch_log@.len(), |i: int| self.iss_fetch_log@[i]@),
            catalogue: Seq::new(self.osdr_items@.len(), |i: int| self.osdr_items@[i]@),
            cache: Seq::new(self.space_cache@.len(), |i: int| self.space_cache@[i]@),
        }
    }
}

impl IssRepository {
    /// The store's invariant.
    pub open spec fn wf(&self) -> bool {
        self@.wf()
    }

    /// A store with three empty tables, its clock at the epoch.
    pub fn init_db() -> (r: IssRepository)
        ensures
            r.wf(),
            r@ == RepositoryView::empty(),
    {
        let r = IssRepository {
            clock: Instant { secs: 0, nanos: 0 },
            iss_fetch_log: Vec::new(),
            osdr_items: Vec::new(),
            space_cache: Vec::new(),
        };
        assert(r@.log =~= Seq::empty());
        assert(r@.catalogue =~= Seq::empty());
        assert(r@.cache =~= Seq::empty());
        r
    }

    /// Tells the store the time. An earlier time than the store's own is
    /// ignored.
    pub fn tick(&mut self, now: Instant)
        requires
            old(self).wf(),
            now.wf(),
        ensures
            final(self).wf(),
            final(self)@ == old(self)@.ticked(now),
    {
        if self.clock.le(&now) {
            self.clock = now;
        }
    }

    /// The store's time.
    pub fn clock(&self) -> (r: Instant)
        ensures
            r == self@.clock,
    {
        self.clock
    }

    /// Appends a position sample, stamped with the store's time.
    pub fn log_iss_fetch(&mut self, url: &str, payload: Document) -> (r: Result<(), StoreError>)
        requires
            old(self).wf(),
        ensures
            final(self).wf(),
            r is Ok <==> old(self)@.log.len() < MAX_ROWS,
            match r {
                Ok(_) => final(self)@ == old(self)@.logged(url@, payload@),
                Err(e) => e == StoreError::Full && final(self)@ == old(self)@,
            },
    {
        let n = self.iss_fetch_log.len();
        if n as u64 >= MAX_ROWS {
            return Err(StoreError::Full);
        }
        let row = PositionSample {
            id: (n as u64 + 1) as i64,
            fetched_at: self.clock,
            source_url: String::from_str(url),
            payload,
        };
        self.iss_fetch_log.push(row);
        assert(self@.log =~= old(self)@.log.push(row@));
        assert(self@.catalogue =~= old(self)@.catalogue);
        assert(self@.cache =~= old(self)@.cache);
        Ok(())
    }

    /// The newest position sample: its number, its stamp, where it was
    /// fetched from and what was fetched.
    pub fn get_last_iss(&self) -> (r: Option<(i64, Instant, String, Document)>)
        requires
            self.wf(),
        ensures
            r matches Some(row) ==> row.1.wf(),
            match r {
                Some(row) => self@.latest_position() == Some(
                    PositionSampleView {
                        id: row.0 as int,
                        fetched_at: row.1,
                        source_url: row.2@,
                        payload: row.3@,
                    },
                ),
                None => self@.latest_position() is None,
            },
    {
        let n = self.iss_fetch_log.len();
        if n == 0 {
            return None;
        }
        let row = &self.iss_fetch_log[n - 1];
        assert(self@.log[n - 1] == row@);
        Some((row.id, row.fetched_at, row.source_url.clone(), row.payload.duplicate()))
    }

    /// The stamps and payloads of the two newest position samples, newest
    /// first.
    pub fn get_iss_trend_data(&self) -> (r: Vec<(Instant, Document)>)
        requires
            self.wf(),
        ensures
            forall|i: int| 0 <= i < r@.len() ==> (#[trigger] r@[i]).0.wf(),
            Seq::new(r@.len(), |i: int| (r@[i].0, r@[i].1@)) == newest_first(
                Seq::new(self@.log.len(), |i: int| (self@.log[i].fetched_at, self@.log[i].payload)),
                2,
            ),
    {
        let n = self.iss_fetch_log.len();
        let mut out: Vec<(Instant, Document)> = Vec::new();
        if n >= 1 {
            let row = &self.iss_fetch_log[n - 1];
            assert(self@.log[n - 1] == row@);
            out.push((row.fetched_at, row.payload.duplicate()));
        }
        if n >= 2 {
            let row = &self.iss_fetch_log[n - 2];
            assert(self@.log[n - 2] == row@);
            out.push((row.fetched_at, row.payload.duplicate()));
        }
        assert(Seq::new(out@.len(), |i: int| (out@[i].0, out@[i].1@)) =~= newest_first(
            Seq::new(self@.log.len(), |i: int| (self@.log[i].fetched_at, self@.log[i].payload)),
            2,
        ));
        out
    }

    /// The number of catalogue rows.
    pub fn get_osdr_count(&self) -> (r: i64)
        requires
            self.wf(),
        ensures
            r == self@.catalogue.len(),
    {
        self.osdr_items.len() as i64
    }

    /// Writes `entry` to the catalogue: over the row of its dataset where
    /// there is one, which keeps its number and its stamp, and else as a new
    /// row stamped with the store's time. An entry without a dataset
    /// identifier always becomes a new row.
    pub fn upsert_osdr_item(
        &mut self,
        dataset_id: Option<String>,
        title: Option<String>,
        status: Option<String>,
        updated_at: Option<Instant>,
        raw: Document,
    ) -> (r: Result<(), StoreError>)
        requires
            old(self).wf(),
            updated_at matches Some(t) ==> t.wf(),
        ensures
            final(self).wf(),
            ({
                let entry = (CatalogueEntry { dataset_id, title, status, updated_at, raw })@;
                &&& r is Ok <==> old(self)@.conflicts(entry) || old(self)@.catalogue.len()
                    < MAX_ROWS
                &&& match r {
                    Ok(_) => final(self)@ == old(self)@.upserted(entry),
                    Err(e) => e == StoreError::Full && final(self)@ == old(self)@,
                }
            }),
    {
        let entry = CatalogueEntry { dataset_id, title, status, updated_at, raw };
        let n = self.osdr_items.len();
        let mut found: Option<usize> = None;
        if let Some(key) = &entry.dataset_id {
            let mut i: usize = 0;
            while i < n
                invariant_except_break
                    found is None,
                    forall|j: int|
                        0 <= j < i ==> (#[trigger] self@.catalogue[j]).entry.dataset_id != Some(
                            key@,
                        ),
                invariant
                    0 <= i <= n,
                    n == self.osdr_items@.len(),
                    entry.dataset_id == Some(*key),
                ensures
                    match found {
                        Some(at) => at < n && self@.catalogue[at as int].entry.dataset_id == Some(
                            key@,
                        ),
                        None => forall|j: int|
                            0 <= j < n ==> (#[trigger] self@.catalogue[j]).entry.dataset_id
                                != Some(key@),
                    },
                decreases n - i,
            {
                let hit = match &self.osdr_items[i].entry.dataset_id {
                    Some(k) => *k == *key,
                    None => false,
                };
                if hit {
                    found = Some(i);
                    break ;
                }
                i += 1;
            }
        }
        match found {
            Some(at) => {
                let ghost key = entry@.dataset_id->0;
                proof {
                    assert(old(self)@.catalogue[at as int].entry.dataset_id == Some(key));
                    assert(has_key(old(self)@.catalogue, key));
                    let chosen = row_of(old(self)@.catalogue, key);
                    assert(chosen == at);
                }
                let row = CatalogueItem {
                    id: self.osdr_items[at].id,
                    inserted_at: self.osdr_items[at].inserted_at,
                    entry,
                };
                self.osdr_items.set(at, row);
                proof {
                    assert(self@.catalogue =~= old(self)@.catalogue.update(at as int, row@));
                    assert(self@.log =~= old(self)@.log);
                    assert(self@.cache =~= old(self)@.cache);
                    assert(keys_unique(self@.catalogue)) by {
                        assert forall|i: int, j: int|
                            0 <= i < j < self@.catalogue.len() && (
                            #[trigger] self@.catalogue[i]).entry.dataset_id is Some implies self@.catalogue[i].entry.dataset_id
                            != (#[trigger] self@.catalogue[j]).entry.dataset_id by {
                            let before = old(self)@.catalogue;
                            assert(before[i].entry.dataset_id == self@.catalogue[i].entry.dataset_id);
                            assert(before[j].entry.dataset_id == self@.catalogue[j].entry.dataset_id);
                        }
                    }
                }
                Ok(())
            },
            None => {
                proof {
                    if entry@.dataset_id is Some {
                        assert(!has_key(old(self)@.catalogue, entry@.dataset_id->0));
                    }
                    assert(!old(self)@.conflicts(entry@));
                }
                if n as u64 >= MAX_ROWS {
                    return Err(StoreError::Full);
                }
                let row = CatalogueItem {
                    id: (n as u64 + 1) as i64,
                    inserted_at: self.clock,
                    entry,
                };
                self.osdr_items.push(row);
                proof {
                    assert(self@.catalogue =~= old(self)@.catalogue.push(row@));
                    assert(self@.log =~= old(self)@.log);
                    assert(self@.cache =~= old(self)@.cache);
                }
                Ok(())
            },
        }
    }

    /// The `limit` newest catalogue rows as they are listed, newest first. A
    /// negative limit is refused.
    pub fn get_osdr_list(&self, limit: i64) -> (r: Result<Vec<Document>, StoreError>)
        requires
            self.wf(),
        ensures
            r is Ok <==> limit >= 0,
            match r {
                Ok(list) => crate::document::item_views(list@) == newest_first(
                    self@.catalogue,
                    limit as int,
                ).map_values(|row: CatalogueItemView| row_json(row)),
                Err(e) => e == StoreError::Failed,
            },
    {
        if limit < 0 {
            return Err(StoreError::Failed);
        }
        let n = self.osdr_items.len();
        let count: usize = if (limit as u64) < (n as u64) {
            limit as usize
        } else {
            n
        };
        let ghost want = newest_first(self@.catalogue, limit as int).map_values(
            |row: CatalogueItemView| row_json(row),
        );
        let mut list: Vec<Document> = Vec::new();
        let mut i: usize = 0;
        while i < count
            invariant
                0 <= i <= count <= n,
                n == self.osdr_items@.len(),
                self.wf(),
                want.len() == count,
                want == newest_first(self@.catalogue, limit as int).map_values(
                    |row: CatalogueItemView| row_json(row),
                ),
                list@.len() == i,
                forall|j: int| 0 <= j < i ==> (#[trigger] list@[j])@ == want[j],
            decreases count - i,
        {
            let row = &self.osdr_items[n - 1 - i];
            proof {
                assert(self@.catalogue[n - 1 - i] == row@);
                assert(want[i as int] == row_json(row@));
            }
            list.push(Self::row_document(row));
            i += 1;
        }
        assert(crate::document::item_views(list@) =~= want);
        Ok(list)
    }

    /// A catalogue row as it is listed.
    pub fn row_document(row: &CatalogueItem) -> (r: Document)
        requires
            row@.inserted_at.wf(),
            row@.entry.updated_at matches Some(t) ==> t.wf(),
        ensures
            r@ == row_json(row@),
    {
        let mut members: Vec<(String, Document)> = Vec::new();
        put(&mut members, "id", Document::whole(row.id));
        put(&mut members, "dataset_id", Document::opt_text(&row.entry.dataset_id));
        put(&mut members, "title", Document::opt_text(&row.entry.title));
        put(&mut members, "status", Document::opt_text(&row.entry.status));
        let updated = match row.entry.updated_at {
            Some(t) => t.document(),
            None => Document::Null,
        };
        put(&mut members, "updated_at", updated);
        put(&mut members, "inserted_at", row.inserted_at.document());
        put(&mut members, "raw", row.entry.raw.duplicate());
        let r = Document::object(members);
        assert(r@->Object_0 =~= row_json(row@)->Object_0);
        r
    }

    /// The newest snapshot of `source`.
    pub fn get_latest_space_cache(&self, source: &str) -> (r: Option<SpaceCacheItem>)
        requires
            self.wf(),
        ensures
            r matches Some(item) ==> item.fetched_at.wf(),
            match r {
                Some(item) => self@.latest_cached(source@) == Some(item@),
                None => self@.latest_cached(source@) is None,
            },
    {
        let wanted = String::from_str(source);
        let mut i: usize = self.space_cache.len();
        while i > 0
            invariant
                0 <= i <= self.space_cache@.len(),
                wanted@ == source@,
                self.wf(),
                forall|j: int|
                    i <= j < self.space_cache@.len() ==> (#[trigger] self@.cache[j]).source
                        != source@,
            decreases i,
        {
            let row = &self.space_cache[i - 1];
            if row.source == wanted {
                proof {
                    lemma_latest_of_take(self@.cache, source@, i as int);
                    assert(self@.cache.take(i as int).last() == row@);
                    assert(self@.cache[i - 1] == row@);
                }
                return Some(
                    SpaceCacheItem {
                        source: row.source.clone(),
                        fetched_at: row.fetched_at,
                        payload: row.payload.duplicate(),
                    },
                );
            }
            i -= 1;
        }
        proof {
            lemma_latest_of_take(self@.cache, source@, 0);
        }
        None
    }

    /// Appends a snapshot of `source`, stamped with the store's time.
    pub fn write_space_cache(&mut self, source: &str, payload: Document) -> (r: Result<
        (),
        StoreError,
    >)
        requires
            old(self).wf(),
        ensures
            final(self).wf(),
            r is Ok <==> old(self)@.cache.len() < MAX_ROWS,
            match r {
                Ok(_) => final(self)@ == old(self)@.cached(source@, payload@),
                Err(e) => e == StoreError::Full && final(self)@ == old(self)@,
            },
    {
        if self.space_cache.len() as u64 >= MAX_ROWS {
            return Err(StoreError::Full);
        }
        let row = SpaceCacheItem {
            source: String::from_str(source),
            fetched_at: self.clock,
            payload,
        };
        self.space_cache.push(row);
        assert(self@.cache =~= old(self)@.cache.push(row@));
        assert(self@.log =~= old(self)@.log);
        assert(self@.catalogue =~= old(self)@.catalogue);
        Ok(())
    }
}

} // verus!
