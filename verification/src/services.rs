//! The write side: reading the fields of a fetched document, and what each
//! source's fetch cycle asks for and stores.

use crate::config::AppState;
use crate::document::{item_views, Document, Json};
use crate::domain::{opt_text, CatalogueEntry, CatalogueEntryView, FetchError, StoreError};
use crate::instant::Instant;
use crate::repositories::{IssRepository, RepositoryView, MAX_ROWS};
use vstd::prelude::*;

verus! {

/// The names by their characters.
pub open spec fn key_texts(keys: Seq<&str>) -> Seq<Seq<char>> {
    Seq::new(keys.len(), |i: int| keys[i]@)
}

/// What the first name gives for which `read` gives anything.
pub open spec fn first_hit<T>(keys: Seq<Seq<char>>, read: spec_fn(Seq<char>) -> Option<T>) -> Option<
    T,
>
    decreases keys.len(),
{
    if keys.len() == 0 {
        None
    } else if read(keys[0]) is Some {
        read(keys[0])
    } else {
        first_hit(keys.drop_first(), read)
    }
}

/// Names that give nothing can be passed over.
pub proof fn lemma_first_hit_skip<T>(
    keys: Seq<Seq<char>>,
    read: spec_fn(Seq<char>) -> Option<T>,
    n: int,
)
    requires
        0 <= n <= keys.len(),
        forall|j: int| 0 <= j < n ==> read(#[trigger] keys[j]) is None,
    ensures
        first_hit(keys, read) == first_hit(keys.skip(n), read),
    decreases n,
{
    if n == 0 {
        assert(keys.skip(0) =~= keys);
    } else {
        let rest = keys.drop_first();
        assert(read(keys[0]) is None);
        assert forall|j: int| 0 <= j < n - 1 implies read(#[trigger] rest[j]) is None by {
            assert(rest[j] == keys[j + 1]);
        }
        lemma_first_hit_skip(rest, read, n - 1);
        assert(rest.skip(n - 1) =~= keys.skip(n));
    }
}

/// The text that a value offers as a scalar field: text that is not empty,
/// or a number as it is printed.
pub open spec fn scalar_text(value: Json) -> Option<Seq<char>> {
    match value {
        Json::Text(s) => if s.len() > 0 {
            Some(s)
        } else {
            None
        },
        Json::Int(_) | Json::Real(_) => Some(value.number_text()),
        _ => None,
    }
}

/// The scalar text of the member `key` of `doc`.
pub open spec fn field_text(doc: Json, key: Seq<char>) -> Option<Seq<char>> {
    match doc.get(key) {
        Some(value) => scalar_text(value),
        None => None,
    }
}

/// The scalar text of the first of `keys` under which `doc` has one.
pub open spec fn spec_s_pick(doc: Json, keys: Seq<Seq<char>>) -> Option<Seq<char>> {
    first_hit(keys, |key: Seq<char>| field_text(doc, key))
}

/// The instant that a value offers: text in one of the two accepted forms,
/// or a whole number of seconds since the epoch that lies in the range of
/// instants. Anything else offers none.
pub open spec fn scalar_instant(value: Json) -> Option<Instant> {
    match value {
        Json::Text(s) => match Instant::spec_parse_rfc3339(s) {
            Some(t) => Some(t),
            None => Instant::spec_parse_naive(s),
        },
        _ => match value.as_i64() {
            Some(n) => Instant::spec_from_epoch(n),
            None => None,
        },
    }
}

/// The instant of the member `key` of `doc`.
pub open spec fn field_instant(doc: Json, key: Seq<char>) -> Option<Instant> {
    match doc.get(key) {
        Some(value) => scalar_instant(value),
        None => None,
    }
}

/// The instant of the first of `keys` under which `doc` has one.
pub open spec fn spec_t_pick(doc: Json, keys: Seq<Seq<char>>) -> Option<Instant> {
    first_hit(keys, |key: Seq<char>| field_instant(doc, key))
}

/// The sources whose answers are kept as snapshots.
#[derive(Clone, Copy, Debug, PartialEq, Eq, Structural)]
pub enum CacheTag {
    Apod,
    Neo,
    Flr,
    Cme,
    Spacex,
}

/// The tag that a word names.
pub open spec fn spec_tag_of(word: Seq<char>) -> Option<CacheTag> {
    if word == "apod"@ {
        Some(CacheTag::Apod)
    } else if word == "neo"@ {
        Some(CacheTag::Neo)
    } else if word == "flr"@ {
        Some(CacheTag::Flr)
    } else if word == "cme"@ {
        Some(CacheTag::Cme)
    } else if word == "spacex"@ {
        Some(CacheTag::Spacex)
    } else {
        None
    }
}

impl CacheTag {
    /// The name under which the tag's snapshots are kept.
    pub open spec fn name(self) -> Seq<char> {
        match self {
            CacheTag::Apod => "apod"@,
            CacheTag::Neo => "neo"@,
            CacheTag::Flr => "flr"@,
            CacheTag::Cme => "cme"@,
            CacheTag::Spacex => "spacex"@,
        }
    }

    /// The name under which the tag's snapshots are kept.
    pub fn as_str(&self) -> (r: &'static str)
        ensures
            r@ == self.name(),
    {
        match self {
            CacheTag::Apod => "apod",
            CacheTag::Neo => "neo",
            CacheTag::Flr => "flr",
            CacheTag::Cme => "cme",
            CacheTag::Spacex => "spacex",
        }
    }

    /// The tag that a word names.
    pub fn from_word(word: &str) -> (r: Option<CacheTag>)
        ensures
            r == spec_tag_of(word@),
    {
        let word = String::from_str(word);
        if word == String::from_str("apod") {
            Some(CacheTag::Apod)
        } else if word == String::from_str("neo") {
            Some(CacheTag::Neo)
        } else if word == String::from_str("flr") {
            Some(CacheTag::Flr)
        } else if word == String::from_str("cme") {
            Some(CacheTag::Cme)
        } else if word == String::from_str("spacex") {
            Some(CacheTag::Spacex)
        } else {
            None
        }
    }

    /// The fetch cycle that brings the tag's snapshots. Flares and mass
    /// ejections come with one cycle, that of the solar events.
    pub fn cycle(self) -> (r: Source)
        ensures
            r == spec_cycle(self),
    {
        match self {
            CacheTag::Apod => Source::Apod,
            CacheTag::Neo => Source::Neo,
            CacheTag::Flr => Source::Donki,
            CacheTag::Cme => Source::Donki,
            CacheTag::Spacex => Source::Spacex,
        }
    }
}

/// The six fetch cycles.
#[derive(Clone, Copy, Debug, PartialEq, Eq, Structural)]
pub enum Source {
    Osdr,
    Iss,
    Apod,
    Neo,
    Donki,
    Spacex,
}

/// The fetch cycle that brings a tag's snapshots.
pub open spec fn spec_cycle(tag: CacheTag) -> Source {
    match tag {
        CacheTag::Apod => Source::Apod,
        CacheTag::Neo => Source::Neo,
        CacheTag::Flr => Source::Donki,
        CacheTag::Cme => Source::Donki,
        CacheTag::Spacex => Source::Spacex,
    }
}

/// What follows a fetch cycle: a failure to report, if there was one, and
/// the rest before the next cycle.
#[derive(Clone, Copy, Debug, PartialEq, Eq, Structural)]
pub struct Pause {
    pub report: Option<FetchError>,
    pub sleep_secs: u64,
}

/// The seconds that the cycle of `source` rests.
pub open spec fn spec_interval(st: AppState, source: Source) -> u64 {
    match source {
        Source::Osdr => st.every_osdr,
        Source::Iss => st.every_iss,
        Source::Apod => st.every_apod,
        Source::Neo => st.every_neo,
        Source::Donki => st.every_donki,
        Source::Spacex => st.every_spacex,
    }
}

/// One outgoing request: where to, with which query parameters, and how
/// many seconds to wait for the answer.
#[derive(Debug, PartialEq, Eq)]
pub struct Request {
    pub url: String,
    pub query: Vec<(String, String)>,
    pub timeout_secs: u64,
}

pub struct RequestView {
    pub url: Seq<char>,
    pub query: Seq<(Seq<char>, Seq<char>)>,
    pub timeout_secs: u64,
}

/// The parameters by their characters.
pub open spec fn query_views(query: Seq<(String, String)>) -> Seq<(Seq<char>, Seq<char>)> {
    Seq::new(query.len(), |i: int| (query[i].0@, query[i].1@))
}

impl View for Request {
    type V = RequestView;

    open spec fn view(&self) -> RequestView {
        RequestView {
            url: self.url@,
            query: query_views(self.query@),
            timeout_secs: self.timeout_secs,
        }
    }
}

/// What came back for a request.
#[derive(Debug, PartialEq, Eq)]
pub enum Reply {
    /// Nothing: the source could not be reached or did not answer in time.
    Failed,
    /// An answer with its status, and its body if that was a document.
    Answered { status: u16, body: Option<Document> },
}

/// What a reply is worth: its document, where the status is one of success
/// and the body could be read.
pub open spec fn spec_accept(reply: Reply) -> Result<Json, FetchError> {
    match reply {
        Reply::Failed => Err(FetchError::Transport),
        Reply::Answered { status, body } => if !(200 <= status < 300) {
            Err(FetchError::UpstreamStatus(status))
        } else {
            match body {
                Some(doc) => Ok(doc@),
                None => Err(FetchError::Parse),
            }
        },
    }
}

/// The key parameter, where a key is configured.
pub open spec fn with_key(query: Seq<(Seq<char>, Seq<char>)>, key: Seq<char>) -> Seq<
    (Seq<char>, Seq<char>),
> {
    if key.len() > 0 {
        query.push(("api_key"@, key))
    } else {
        query
    }
}

/// The pair of dates that spans the last `days` days up to `now`.
pub open spec fn spec_last_days(now: Instant, days: u64) -> (Seq<char>, Seq<char>) {
    (now.spec_date_text(days), now.spec_date_text(0))
}

/// The datasets of a catalogue answer: the answer itself where it is a list,
/// else its list `items`, else its list `results`, else the answer as the
/// only dataset.
pub open spec fn spec_catalogue_elements(body: Json) -> Seq<Json> {
    if body is Array {
        body->Array_0
    } else if list_under(body, "items"@) is Some {
        list_under(body, "items"@)->0
    } else if list_under(body, "results"@) is Some {
        list_under(body, "results"@)->0
    } else {
        seq![body]
    }
}

/// The list that `body` holds under `key`.
pub open spec fn list_under(body: Json, key: Seq<char>) -> Option<Seq<Json>> {
    match body.get(key) {
        Some(value) => value.as_array(),
        None => None,
    }
}

pub open spec fn id_keys() -> Seq<Seq<char>> {
    seq!["dataset_id"@, "id"@, "uuid"@, "studyId"@, "accession"@, "osdr_id"@]
}

pub open spec fn title_keys() -> Seq<Seq<char>> {
    seq!["title"@, "name"@, "label"@]
}

pub open spec fn status_keys() -> Seq<Seq<char>> {
    seq!["status"@, "state"@, "lifecycle"@]
}

pub open spec fn updated_keys() -> Seq<Seq<char>> {
    seq!["updated"@, "updated_at"@, "modified"@, "lastUpdated"@, "timestamp"@]
}

/// The catalogue entry that a dataset gives.
pub open spec fn spec_catalogue_entry(item: Json) -> CatalogueEntryView {
    CatalogueEntryView {
        dataset_id: spec_s_pick(item, id_keys()),
        title: spec_s_pick(item, title_keys()),
        status: spec_s_pick(item, status_keys()),
        updated_at: spec_t_pick(item, updated_keys()),
        raw: item,
    }
}

/// Whether the store takes `entry`: it meets a row of its dataset, or the
/// catalogue has a number left.
pub open spec fn takes(store: RepositoryView, entry: CatalogueEntryView) -> bool {
    store.conflicts(entry) || store.catalogue.len() < MAX_ROWS
}

/// The store after the entries were written in order, up to the first that
/// the store does not take, and the number written.
pub open spec fn upsert_run(store: RepositoryView, entries: Seq<CatalogueEntryView>) -> (
    RepositoryView,
    nat,
)
    decreases entries.len(),
{
    if entries.len() == 0 || !takes(store, entries[0]) {
        (store, 0)
    } else {
        let rest = upsert_run(store.upserted(entries[0]), entries.drop_first());
        (rest.0, rest.1 + 1)
    }
}

/// The entries that a catalogue answer gives, in its order.
pub open spec fn spec_catalogue_entries(body: Json) -> Seq<CatalogueEntryView> {
    spec_catalogue_elements(body).map_values(|item: Json| spec_catalogue_entry(item))
}

/// The entries by their views.
pub open spec fn entry_views(entries: Seq<CatalogueEntry>) -> Seq<CatalogueEntryView> {
    Seq::new(entries.len(), |i: int| entries[i]@)
}

/// The documents by their views.
pub open spec fn ref_views(items: Seq<&Document>) -> Seq<Json> {
    Seq::new(items.len(), |i: int| items[i]@)
}

/// The store after a reply was to be kept as a snapshot of `source`: with
/// the snapshot, where the reply is worth a document and the store has room
/// for it, and unchanged otherwise.
pub open spec fn snapshot_attempt(store: RepositoryView, source: Seq<char>, reply: Reply) -> RepositoryView {
    match spec_accept(reply) {
        Ok(body) => if store.cache.len() < MAX_ROWS {
            store.cached(source, body)
        } else {
            store
        },
        Err(_) => store,
    }
}

/// What an attempt to keep a reply as a snapshot reports.
pub open spec fn snapshot_result(store: RepositoryView, reply: Reply) -> Result<(), FetchError> {
    match spec_accept(reply) {
        Ok(_) => if store.cache.len() < MAX_ROWS {
            Ok(())
        } else {
            Err(FetchError::Store(StoreError::Full))
        },
        Err(e) => Err(e),
    }
}

/// The fetch cycles of the sources.
pub struct IssService;

impl IssService {
    /// The scalar text of one member.
    fn field_text(v: &Document, key: &str) -> (r: Option<String>)
        ensures
            opt_text(r) == field_text(v@, key@),
    {
        match v.get(key) {
            Some(Document::Text(s)) => {
                if !s.as_str().is_empty() {
                    Some(s.clone())
                } else {
                    None
                }
            },
            Some(Document::Number(n)) => Some(n.to_text()),
            _ => None,
        }
    }

    /// The instant of one member.
    fn field_instant(v: &Document, key: &str) -> (r: Option<Instant>)
        ensures
            r == field_instant(v@, key@),
            r matches Some(t) ==> t.wf(),
    {
        match v.get(key) {
            Some(Document::Text(s)) => {
                match Instant::parse_rfc3339(s.as_str()) {
                    Some(t) => Some(t),
                    None => Instant::parse_naive(s.as_str()),
                }
            },
            Some(Document::Number(n)) => {
                match n.as_i64() {
                    Some(secs) => Instant::from_epoch(secs),
                    None => None,
                }
            },
            _ => None,
        }
    }

    /// The first of the members named by `keys`, in their order, that holds
    /// text that is not empty or a number; a number is given as it is
    /// printed.
    pub fn s_pick(v: &Document, keys: &[&str]) -> (r: Option<String>)
        ensures
            opt_text(r) == spec_s_pick(v@, key_texts(keys@)),
    {
        let ghost names = key_texts(keys@);
        let ghost read = |key: Seq<char>| field_text(v@, key);
        let mut i: usize = 0;
        while i < keys.len()
            invariant
                0 <= i <= keys.len(),
                names == key_texts(keys@),
                read == |key: Seq<char>| field_text(v@, key),
                forall|j: int| 0 <= j < i ==> read(#[trigger] names[j]) is None,
            decreases keys.len() - i,
        {
            let found = Self::field_text(v, keys[i]);
            if found.is_some() {
                proof {
                    lemma_first_hit_skip(names, read, i as int);
                    assert(names.skip(i as int)[0] == keys@[i as int]@);
                }
                return found;
            }
            i += 1;
        }
        proof {
            lemma_first_hit_skip(names, read, i as int);
            assert(names.skip(i as int).len() == 0);
        }
        None
    }

    /// The first of the members named by `keys`, in their order, that holds
    /// a time: text as a date and time with an offset, or as
    /// `YYYY-MM-DD HH:MM:SS` in UTC, or a whole number of seconds since the
    /// epoch. A member that holds no time, or one out of range, is passed
    /// over.
    pub fn t_pick(v: &Document, keys: &[&str]) -> (r: Option<Instant>)
        ensures
            r == spec_t_pick(v@, key_texts(keys@)),
            r matches Some(t) ==> t.wf(),
    {
        let ghost names = key_texts(keys@);
        let ghost read = |key: Seq<char>| field_instant(v@, key);
        let mut i: usize = 0;
        while i < keys.len()
            invariant
                0 <= i <= keys.len(),
                names == key_texts(keys@),
                read == |key: Seq<char>| field_instant(v@, key),
                forall|j: int| 0 <= j < i ==> read(#[trigger] names[j]) is None,
            decreases keys.len() - i,
        {
            let found = Self::field_instant(v, keys[i]);
            if found.is_some() {
                proof {
                    lemma_first_hit_skip(names, read, i as int);
                    assert(names.skip(i as int)[0] == keys@[i as int]@);
                }
                return found;
            }
            i += 1;
        }
        proof {
            lemma_first_hit_skip(names, read, i as int);
            assert(names.skip(i as int).len() == 0);
        }
        None
    }

    /// The seconds that the cycle of `source` rests.
    pub fn interval(st: &AppState, source: Source) -> (r: u64)
        ensures
            r == spec_interval(*st, source),
    {
        match source {
            Source::Osdr => st.every_osdr,
            Source::Iss => st.every_iss,
            Source::Apod => st.every_apod,
            Source::Neo => st.every_neo,
            Source::Donki => st.every_donki,
            Source::Spacex => st.every_spacex,
        }
    }

    /// What follows a cycle of `source` that ended with `outcome`. A failure
    /// is reported and changes nothing else: the cycle rests for its
    /// interval, as after a success, and runs again.
    pub fn after_cycle<T>(st: &AppState, source: Source, outcome: &Result<T, FetchError>) -> (r:
        Pause)
        ensures
            r.sleep_secs == spec_interval(*st, source),
            r.report == match *outcome {
                Ok(_) => None::<FetchError>,
                Err(e) => Some(e),
            },
    {
        let report = match outcome {
            Ok(_) => None,
            Err(e) => Some(*e),
        };
        Pause { report, sleep_secs: Self::interval(st, source) }
    }

    /// The document of a reply, or why the reply counts as a failed fetch.
    pub fn accept(reply: Reply) -> (r: Result<Document, FetchError>)
        ensures
            match r {
                Ok(doc) => spec_accept(reply) == Ok::<Json, FetchError>(doc@),
                Err(e) => spec_accept(reply) == Err::<Json, FetchError>(e),
            },
    {
        match reply {
            Reply::Failed => Err(FetchError::Transport),
            Reply::Answered { status, body } => {
                if status < 200 || status >= 300 {
                    return Err(FetchError::UpstreamStatus(status));
                }
                match body {
                    Some(doc) => Ok(doc),
                    None => Err(FetchError::Parse),
                }
            },
        }
    }

    /// The calendar dates of the day `days` days ago and of today.
    pub fn last_days(now: &Instant, days: u64) -> (r: (String, String))
        requires
            now.wf(),
            now.reaches_back(days),
        ensures
            (r.0@, r.1@) == spec_last_days(*now, days),
    {
        (now.date_text(days), now.date_text(0))
    }

    /// Adds the key parameter, where a key is configured.
    fn add_key(query: &mut Vec<(String, String)>, key: &String)
        ensures
            query_views(final(query)@) == with_key(query_views(old(query)@), key@),
    {
        if !key.as_str().is_empty() {
            query.push((String::from_str("api_key"), key.clone()));
            assert(query_views(query@) =~= query_views(old(query)@).push(("api_key"@, key@)));
        }
    }

    /// Adds a parameter.
    fn add_param(query: &mut Vec<(String, String)>, name: &str, value: String)
        ensures
            query_views(final(query)@) == query_views(old(query)@).push((name@, value@)),
    {
        query.push((String::from_str(name), value));
        assert(query_views(query@) =~= query_views(old(query)@).push((name@, value@)));
    }

    /// The request for the satellite position.
    pub fn iss_request(url: &str) -> (r: Request)
        ensures
            r@ == (RequestView { url: url@, query: Seq::empty(), timeout_secs: 20 }),
    {
        let r = Request { url: String::from_str(url), query: Vec::new(), timeout_secs: 20 };
        assert(r@.query =~= Seq::empty());
        r
    }

    /// The request for the catalogue.
    pub fn osdr_request(st: &AppState) -> (r: Request)
        ensures
            r@ == (RequestView { url: st.nasa_url@, query: Seq::empty(), timeout_secs: 30 }),
    {
        let r = Request { url: st.nasa_url.clone(), query: Vec::new(), timeout_secs: 30 };
        assert(r@.query =~= Seq::empty());
        r
    }

    /// The request for the astronomy picture of the day.
    pub fn apod_request(st: &AppState) -> (r: Request)
        ensures
            r@ == (RequestView {
                url: "https://api.nasa.gov/planetary/apod"@,
                query: with_key(seq![("thumbs"@, "true"@)], st.nasa_key@),
                timeout_secs: 30,
            }),
    {
        let mut query: Vec<(String, String)> = Vec::new();
        Self::add_param(&mut query, "thumbs", String::from_str("true"));
        assert(query_views(query@) =~= seq![("thumbs"@, "true"@)]);
        Self::add_key(&mut query, &st.nasa_key);
        Request {
            url: String::from_str("https://api.nasa.gov/planetary/apod"),
            query,
            timeout_secs: 30,
        }
    }

    /// The request for the near-earth objects of the last two days.
    pub fn neo_request(st: &AppState, now: &Instant) -> (r: Request)
        requires
            now.wf(),
            now.reaches_back(2),
        ensures
            r@ == (RequestView {
                url: "https://api.nasa.gov/neo/rest/v1/feed"@,
                query: with_key(
                    seq![
                        ("start_date"@, now.spec_date_text(2)),
                        ("end_date"@, now.spec_date_text(0)),
                    ],
                    st.nasa_key@,
                ),
                timeout_secs: 30,
            }),
    {
        let (from, to) = Self::last_days(now, 2);
        let mut query: Vec<(String, String)> = Vec::new();
        Self::add_param(&mut query, "start_date", from);
        Self::add_param(&mut query, "end_date", to);
        assert(query_views(query@) =~= seq![
            ("start_date"@, now.spec_date_text(2)),
            ("end_date"@, now.spec_date_text(0)),
        ]);
        Self::add_key(&mut query, &st.nasa_key);
        Request {
            url: String::from_str("https://api.nasa.gov/neo/rest/v1/feed"),
            query,
            timeout_secs: 30,
        }
    }

    /// A request for the solar events of the last five days.
    fn donki_request(st: &AppState, now: &Instant, url: &str) -> (r: Request)
        requires
            now.wf(),
            now.reaches_back(5),
        ensures
            r@ == (RequestView {
                url: url@,
                query: with_key(
                    seq![
                        ("startDate"@, now.spec_date_text(5)),
                        ("endDate"@, now.spec_date_text(0)),
                    ],
                    st.nasa_key@,
                ),
                timeout_secs: 30,
            }),
    {
        let (from, to) = Self::last_days(now, 5);
        let mut query: Vec<(String, String)> = Vec::new();
        Self::add_param(&mut query, "startDate", from);
        Self::add_param(&mut query, "endDate", to);
        assert(query_views(query@) =~= seq![
            ("startDate"@, now.spec_date_text(5)),
            ("endDate"@, now.spec_date_text(0)),
        ]);
        Self::add_key(&mut query, &st.nasa_key);
        Request { url: String::from_str(url), query, timeout_secs: 30 }
    }

    /// The request for the solar flares of the last five days.
    pub fn donki_flr_request(st: &AppState, now: &Instant) -> (r: Request)
        requires
            now.wf(),
            now.reaches_back(5),
        ensures
            r@ == (RequestView {
                url: "https://api.nasa.gov/DONKI/FLR"@,
                query: with_key(
                    seq![
                        ("startDate"@, now.spec_date_text(5)),
                        ("endDate"@, now.spec_date_text(0)),
                    ],
                    st.nasa_key@,
                ),
                timeout_secs: 30,
            }),
    {
        Self::donki_request(st, now, "https://api.nasa.gov/DONKI/FLR")
    }

    /// The request for the coronal mass ejections of the last five days.
    pub fn donki_cme_request(st: &AppState, now: &Instant) -> (r: Request)
        requires
            now.wf(),
            now.reaches_back(5),
        ensures
            r@ == (RequestView {
                url: "https://api.nasa.gov/DONKI/CME"@,
                query: with_key(
                    seq![
                        ("startDate"@, now.spec_date_text(5)),
                        ("endDate"@, now.spec_date_text(0)),
                    ],
                    st.nasa_key@,
                ),
                timeout_secs: 30,
            }),
    {
        Self::donki_request(st, now, "https://api.nasa.gov/DONKI/CME")
    }

    /// The request for the next launch.
    pub fn spacex_request() -> (r: Request)
        ensures
            r@ == (RequestView {
                url: "https://api.spacexdata.com/v4/launches/next"@,
                query: Seq::empty(),
                timeout_secs: 30,
            }),
    {
        let r = Request {
            url: String::from_str("https://api.spacexdata.com/v4/launches/next"),
            query: Vec::new(),
            timeout_secs: 30,
        };
        assert(r@.query =~= Seq::empty());
        r
    }

    /// The list that `body` holds under `key`.
    fn list_under<'a>(body: &'a Document, key: &str) -> (r: Option<&'a Vec<Document>>)
        ensures
            match r {
                Some(items) => list_under(body@, key@) == Some(item_views(items@)),
                None => list_under(body@, key@) is None,
            },
    {
        match body.get(key) {
            Some(value) => value.as_array(),
            None => None,
        }
    }

    /// The datasets of a catalogue answer, in its order.
    pub fn catalogue_elements(body: &Document) -> (r: Vec<&Document>)
        ensures
            ref_views(r@) == spec_catalogue_elements(body@),
    {
        let found = match body.as_array() {
            Some(items) => Some(items),
            None => match Self::list_under(body, "items") {
                Some(items) => Some(items),
                None => Self::list_under(body, "results"),
            },
        };
        let mut out: Vec<&Document> = Vec::new();
        match found {
            Some(items) => {
                let mut i: usize = 0;
                while i < items.len()
                    invariant
                        0 <= i <= items.len(),
                        out@.len() == i,
                        forall|j: int| 0 <= j < i ==> (#[trigger] out@[j])@ == items@[j]@,
                    decreases items.len() - i,
                {
                    out.push(&items[i]);
                    i += 1;
                }
                assert(ref_views(out@) =~= item_views(items@));
            },
            None => {
                out.push(body);
                assert(ref_views(out@) =~= seq![body@]);
            },
        }
        out
    }

    /// The catalogue entry that a dataset gives.
    pub fn catalogue_entry(item: &Document) -> (r: CatalogueEntry)
        ensures
            r@ == spec_catalogue_entry(item@),
            r.updated_at matches Some(t) ==> t.wf(),
    {
        let id_names: [&str; 6] = ["dataset_id", "id", "uuid", "studyId", "accession", "osdr_id"];
        let title_names: [&str; 3] = ["title", "name", "label"];
        let status_names: [&str; 3] = ["status", "state", "lifecycle"];
        let updated_names: [&str; 5] = [
            "updated",
            "updated_at",
            "modified",
            "lastUpdated",
            "timestamp",
        ];
        proof {
            assert(key_texts(id_names@) =~= id_keys());
            assert(key_texts(title_names@) =~= title_keys());
            assert(key_texts(status_names@) =~= status_keys());
            assert(key_texts(updated_names@) =~= updated_keys());
        }
        let dataset_id = Self::s_pick(item, id_names.as_slice());
        let title = Self::s_pick(item, title_names.as_slice());
        let status = Self::s_pick(item, status_names.as_slice());
        let updated_at = Self::t_pick(item, updated_names.as_slice());
        CatalogueEntry { dataset_id, title, status, updated_at, raw: item.duplicate() }
    }

    /// One cycle of the satellite position: the reply's document is logged
    /// as it came.
    pub fn fetch_and_store_iss(repo: &mut IssRepository, url: &str, reply: Reply) -> (r: Result<
        (),
        FetchError,
    >)
        requires
            old(repo).wf(),
        ensures
            final(repo).wf(),
            match spec_accept(reply) {
                Ok(body) => if old(repo)@.log.len() < MAX_ROWS {
                    r is Ok && final(repo)@ == old(repo)@.logged(url@, body)
                } else {
                    r == Err::<(), FetchError>(FetchError::Store(StoreError::Full)) && final(repo)@
                        == old(repo)@
                },
                Err(e) => r == Err::<(), FetchError>(e) && final(repo)@ == old(repo)@,
            },
    {
        let body = match Self::accept(reply) {
            Ok(doc) => doc,
            Err(e) => {
                return Err(e);
            },
        };
        match repo.log_iss_fetch(url, body) {
            Ok(_) => Ok(()),
            Err(e) => Err(FetchError::Store(e)),
        }
    }

    /// The catalogue entries that a catalogue answer gives, in its order.
    pub fn catalogue_entries(body: &Document) -> (r: Vec<CatalogueEntry>)
        ensures
            entry_views(r@) == spec_catalogue_entries(body@),
            forall|i: int|
                0 <= i < r@.len() ==> ((#[trigger] r@[i]).updated_at matches Some(t) ==> t.wf()),
    {
        let items = Self::catalogue_elements(body);
        let ghost want = spec_catalogue_entries(body@);
        let mut entries: Vec<CatalogueEntry> = Vec::new();
        let mut i: usize = 0;
        while i < items.len()
            invariant
                0 <= i <= items.len(),
                ref_views(items@) == spec_catalogue_elements(body@),
                want == spec_catalogue_entries(body@),
                entries@.len() == i,
                forall|j: int| 0 <= j < i ==> (#[trigger] entries@[j])@ == want[j],
                forall|j: int|
                    0 <= j < i ==> ((#[trigger] entries@[j]).updated_at matches Some(t)
                        ==> t.wf()),
            decreases items.len() - i,
        {
            proof {
                assert(ref_views(items@)[i as int] == items@[i as int]@);
            }
            entries.push(Self::catalogue_entry(items[i]));
            i += 1;
        }
        assert(entry_views(entries@) =~= want);
        entries
    }

    /// One cycle of the catalogue: every dataset of the reply is written to
    /// the catalogue, in the reply's order, and their number is returned.
    /// The first dataset that the store does not take ends the cycle.
    pub fn fetch_and_store_osdr(repo: &mut IssRepository, reply: Reply) -> (r: Result<
        usize,
        FetchError,
    >)
        requires
            old(repo).wf(),
        ensures
            final(repo).wf(),
            match spec_accept(reply) {
                Ok(body) => ({
                    let entries = spec_catalogue_entries(body);
                    let run = upsert_run(old(repo)@, entries);
                    &&& final(repo)@ == run.0
                    &&& run.1 <= entries.len()
                    &&& if run.1 == entries.len() {
                        r matches Ok(written) && written == run.1
                    } else {
                        r == Err::<usize, FetchError>(FetchError::Store(StoreError::Full))
                    }
                }),
                Err(e) => r == Err::<usize, FetchError>(e) && final(repo)@ == old(repo)@,
            },
    {
        let body = match Self::accept(reply) {
            Ok(doc) => doc,
            Err(e) => {
                return Err(e);
            },
        };
        let found = Self::catalogue_entries(&body);
        let ghost entries = spec_catalogue_entries(body@);
        let ghost all = found@;
        let count = found.len();
        let mut written: usize = 0;
        proof {
            assert(entries.skip(0) =~= entries);
        }
        for entry in it: found
            invariant
                it.seq() == all,
                written == it.index(),
                all.len() == count,
                repo.wf(),
                spec_accept(reply) == Ok::<Json, FetchError>(body@),
                entries == spec_catalogue_entries(body@),
                entry_views(all) == entries,
                forall|i: int|
                    0 <= i < all.len() ==> ((#[trigger] all[i]).updated_at matches Some(t)
                        ==> t.wf()),
                upsert_run(old(repo)@, entries).0 == upsert_run(
                    repo@,
                    entries.skip(written as int),
                ).0,
                upsert_run(old(repo)@, entries).1 == upsert_run(
                    repo@,
                    entries.skip(written as int),
                ).1 + written,
        {
            let ghost rest = entries.skip(written as int);
            proof {
                assert(entry_views(all)[written as int] == all[written as int]@);
                assert(rest[0] == entries[written as int]);
                assert(entry@ == rest[0]);
                assert(rest.drop_first() =~= entries.skip(written + 1));
            }
            let ghost before = repo@;
            let CatalogueEntry { dataset_id, title, status, updated_at, raw } = entry;
            match repo.upsert_osdr_item(dataset_id, title, status, updated_at, raw) {
                Ok(_) => {
                    proof {
                        assert(takes(before, rest[0]));
                        assert(repo@ == before.upserted(rest[0]));
                    }
                },
                Err(e) => {
                    proof {
                        assert(!takes(before, rest[0]));
                        assert(upsert_run(before, rest) == (before, 0nat));
                    }
                    return Err(FetchError::Store(e));
                },
            }
            written += 1;
        }
        proof {
            assert(entries.skip(written as int).len() == 0);
        }
        Ok(written)
    }

    /// Keeps a reply as a snapshot of `source`.
    fn store_snapshot(repo: &mut IssRepository, source: &str, reply: Reply) -> (r: Result<
        (),
        FetchError,
    >)
        requires
            old(repo).wf(),
        ensures
            final(repo).wf(),
            final(repo)@ == snapshot_attempt(old(repo)@, source@, reply),
            r == snapshot_result(old(repo)@, reply),
    {
        let body = match Self::accept(reply) {
            Ok(doc) => doc,
            Err(e) => {
                return Err(e);
            },
        };
        match repo.write_space_cache(source, body) {
            Ok(_) => Ok(()),
            Err(e) => Err(FetchError::Store(e)),
        }
    }

    /// One cycle of the astronomy picture: the reply is kept under `apod`.
    pub fn fetch_apod(repo: &mut IssRepository, reply: Reply) -> (r: Result<(), FetchError>)
        requires
            old(repo).wf(),
        ensures
            final(repo).wf(),
            final(repo)@ == snapshot_attempt(old(repo)@, "apod"@, reply),
            r == snapshot_result(old(repo)@, reply),
    {
        Self::store_snapshot(repo, "apod", reply)
    }

    /// One cycle of the near-earth objects: the reply is kept under `neo`.
    pub fn fetch_neo_feed(repo: &mut IssRepository, reply: Reply) -> (r: Result<(), FetchError>)
        requires
            old(repo).wf(),
        ensures
            final(repo).wf(),
            final(repo)@ == snapshot_attempt(old(repo)@, "neo"@, reply),
            r == snapshot_result(old(repo)@, reply),
    {
        Self::store_snapshot(repo, "neo", reply)
    }

    /// The solar flares' half of the solar-event cycle: the reply is kept
    /// under `flr`.
    pub fn fetch_donki_flr(repo: &mut IssRepository, reply: Reply) -> (r: Result<(), FetchError>)
        requires
            old(repo).wf(),
        ensures
            final(repo).wf(),
            final(repo)@ == snapshot_attempt(old(repo)@, "flr"@, reply),
            r == snapshot_result(old(repo)@, reply),
    {
        Self::store_snapshot(repo, "flr", reply)
    }

    /// The mass ejections' half of the solar-event cycle: the reply is kept
    /// under `cme`.
    pub fn fetch_donki_cme(repo: &mut IssRepository, reply: Reply) -> (r: Result<(), FetchError>)
        requires
            old(repo).wf(),
        ensures
            final(repo).wf(),
            final(repo)@ == snapshot_attempt(old(repo)@, "cme"@, reply),
            r == snapshot_result(old(repo)@, reply),
    {
        Self::store_snapshot(repo, "cme", reply)
    }

    /// One cycle of the solar events: flares first, then mass ejections.
    /// Neither half's failure stops the other, and the cycle itself never
    /// fails.
    pub fn fetch_donki(repo: &mut IssRepository, flr: Reply, cme: Reply) -> (r: Result<
        (),
        FetchError,
    >)
        requires
            old(repo).wf(),
        ensures
            final(repo).wf(),
            r is Ok,
            final(repo)@ == snapshot_attempt(
                snapshot_attempt(old(repo)@, "flr"@, flr),
                "cme"@,
                cme,
            ),
    {
        let _ = Self::fetch_donki_flr(repo, flr);
        let _ = Self::fetch_donki_cme(repo, cme);
        Ok(())
    }

    /// One cycle of the next launch: the reply is kept under `spacex`.
    pub fn fetch_spacex_next(repo: &mut IssRepository, reply: Reply) -> (r: Result<
        (),
        FetchError,
    >)
        requires
            old(repo).wf(),
        ensures
            final(repo).wf(),
            final(repo)@ == snapshot_attempt(old(repo)@, "spacex"@, reply),
            r == snapshot_result(old(repo)@, reply),
    {
        Self::store_snapshot(repo, "spacex", reply)
    }
}

} // verus!
