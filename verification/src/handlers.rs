//! The read side: what the service answers, computed from what the store
//! returned.

use crate::document::{item_views, put, Document, Json, Number};
use crate::domain::{
    opt_reading, FetchError, Health, PositionSampleView, Reading, SpaceCacheItem,
    SpaceCacheItemView, StoreError, Trend, TrendReadings, TrendReadingsView,
};
use crate::instant::Instant;
use crate::repositories::{IssRepository, MAX_ROWS};
use crate::services::{
    spec_accept, spec_catalogue_entries, spec_tag_of, upsert_run, CacheTag, IssService, Reply,
};
use crate::text::{
    lower_text, lowercased, parse_i64, spec_parse_i64, spec_split_on, split_on, texts, trim_text,
    trimmed,
};
use vstd::prelude::*;

verus! {

/// The member `key` of `payload`, if it is a number or text.
pub open spec fn spec_reading(payload: Json, key: Seq<char>) -> Option<Json> {
    match payload.get(key) {
        Some(x) => if x.is_number() || x is Text {
            Some(x)
        } else {
            None
        },
        None => None,
    }
}

/// The member `key` of `payload`, if it is a number or text.
pub fn reading(payload: &Document, key: &str) -> (r: Option<Reading>)
    ensures
        opt_reading(r) == spec_reading(payload@, key@),
{
    match payload.get(key) {
        Some(Document::Number(n)) => Some(Reading::Number(n.duplicate())),
        Some(Document::Text(s)) => Some(Reading::Text(s.clone())),
        _ => None,
    }
}

/// The trend between an older and a newer sample.
pub open spec fn trend_between(older: (Instant, Json), newer: (Instant, Json)) -> TrendReadingsView {
    TrendReadingsView {
        dt_millis: newer.0.spec_millis_since(older.0),
        velocity: spec_reading(newer.1, "velocity"@),
        from_time: Some(older.0),
        to_time: Some(newer.0),
        from_lat: spec_reading(older.1, "latitude"@),
        from_lon: spec_reading(older.1, "longitude"@),
        to_lat: spec_reading(newer.1, "latitude"@),
        to_lon: spec_reading(newer.1, "longitude"@),
    }
}

/// The trend over samples given newest first: between the second and the
/// first, or empty where there are fewer than two.
pub open spec fn spec_trend(rows: Seq<(Instant, Json)>) -> TrendReadingsView {
    if rows.len() < 2 {
        TrendReadingsView::empty()
    } else {
        trend_between(rows[1], rows[0])
    }
}

/// The samples by their views.
pub open spec fn sample_views(rows: Seq<(Instant, Document)>) -> Seq<(Instant, Json)> {
    Seq::new(rows.len(), |i: int| (rows[i].0, rows[i].1@))
}

/// What the two newest of the samples, given newest first, say.
pub fn trend_readings(rows: &Vec<(Instant, Document)>) -> (r: TrendReadings)
    requires
        forall|i: int| 0 <= i < rows@.len() ==> (#[trigger] rows@[i]).0.wf(),
    ensures
        r@ == spec_trend(sample_views(rows@)),
        rows@.len() < 2 ==> r@ == TrendReadingsView::empty(),
{
    if rows.len() < 2 {
        return TrendReadings {
            dt_millis: 0,
            velocity: None,
            from_time: None,
            to_time: None,
            from_lat: None,
            from_lon: None,
            to_lat: None,
            to_lon: None,
        };
    }
    let newer = &rows[0];
    let older = &rows[1];
    let lat1 = reading(&older.1, "latitude");
    let lon1 = reading(&older.1, "longitude");
    let lat2 = reading(&newer.1, "latitude");
    let lon2 = reading(&newer.1, "longitude");
    let v2 = reading(&newer.1, "velocity");
    let dt_millis = newer.0.millis_since(&older.0);
    TrendReadings {
        dt_millis,
        velocity: v2,
        from_time: Some(older.0),
        to_time: Some(newer.0),
        from_lat: lat1,
        from_lon: lon1,
        to_lat: lat2,
        to_lon: lon2,
    }
}

/// What `num` made of an optional reading: nothing of nothing, and of a
/// reading what `num` answers for it.
pub open spec fn measured<F, C: Fn(&Reading) -> Option<F>>(
    num: C,
    reading: Option<Reading>,
    out: Option<F>,
) -> bool {
    match reading {
        Some(x) => num.ensures((&x,), out),
        None => out is None,
    }
}

/// Whether `r` is the trend that the readings give, where `num` reads a
/// measurement, `haversine_km` takes the distance between two positions,
/// `moved` says whether a distance counts as movement and `seconds` turns
/// milliseconds into seconds: the distance is taken only between two
/// complete positions, and without it there is no movement and the distance
/// is `zero`.
pub open spec fn reported<F, C, H, X, S>(
    basis: TrendReadings,
    num: C,
    haversine_km: H,
    moved: X,
    seconds: S,
    zero: F,
    r: Trend<F>,
) -> bool where
    C: Fn(&Reading) -> Option<F>,
    H: Fn(F, F, F, F) -> F,
    X: Fn(F) -> bool,
    S: Fn(i64) -> F,
{
    &&& r.from_time == basis.from_time
    &&& r.to_time == basis.to_time
    &&& seconds.ensures((basis.dt_millis,), r.dt_sec)
    &&& measured(num, basis.velocity, r.velocity_kmh)
    &&& measured(num, basis.from_lat, r.from_lat)
    &&& measured(num, basis.from_lon, r.from_lon)
    &&& measured(num, basis.to_lat, r.to_lat)
    &&& measured(num, basis.to_lon, r.to_lon)
    &&& if r.complete() {
        &&& haversine_km.ensures(
            (r.from_lat->0, r.from_lon->0, r.to_lat->0, r.to_lon->0),
            r.delta_km,
        )
        &&& moved.ensures((r.delta_km,), r.movement)
    } else {
        r.delta_km == zero && !r.movement
    }
}

/// Reads an optional reading as a measurement.
fn measure<F, C: Fn(&Reading) -> Option<F>>(num: &C, reading: &Option<Reading>) -> (r: Option<F>)
    requires
        forall|x: &Reading| #[trigger] num.requires((x,)),
    ensures
        measured(*num, *reading, r),
{
    match reading {
        Some(x) => num(x),
        None => None,
    }
}

/// The trend that the readings of two samples give.
pub fn trend_report<F: Copy, C, H, X, S>(
    basis: &TrendReadings,
    num: C,
    haversine_km: H,
    moved: X,
    seconds: S,
    zero: F,
) -> (r: Trend<F>) where
    C: Fn(&Reading) -> Option<F>,
    H: Fn(F, F, F, F) -> F,
    X: Fn(F) -> bool,
    S: Fn(i64) -> F,

    requires
        forall|x: &Reading| #[trigger] num.requires((x,)),
        forall|a: F, b: F, c: F, d: F| #[trigger] haversine_km.requires((a, b, c, d)),
        forall|d: F| #[trigger] moved.requires((d,)),
        forall|ms: i64| #[trigger] seconds.requires((ms,)),
    ensures
        reported(*basis, num, haversine_km, moved, seconds, zero, r),
{
    let lat1 = measure(&num, &basis.from_lat);
    let lon1 = measure(&num, &basis.from_lon);
    let lat2 = measure(&num, &basis.to_lat);
    let lon2 = measure(&num, &basis.to_lon);
    let v2 = measure(&num, &basis.velocity);

    let mut delta_km = zero;
    let mut movement = false;
    match (lat1, lon1, lat2, lon2) {
        (Some(a1), Some(o1), Some(a2), Some(o2)) => {
            delta_km = haversine_km(a1, o1, a2, o2);
            movement = moved(delta_km);
        },
        _ => {},
    }
    let dt_sec = seconds(basis.dt_millis);

    Trend {
        movement,
        delta_km,
        dt_sec,
        velocity_kmh: v2,
        from_time: basis.from_time,
        to_time: basis.to_time,
        from_lat: lat1,
        from_lon: lon1,
        to_lat: lat2,
        to_lon: lon2,
    }
}

/// The trend over the newest samples, given newest first. With fewer than
/// two samples nothing moved: the distance and the time are `zero` and every
/// other field is absent. With two or more, the trend is the report on the
/// readings of the two newest.
pub fn iss_trend<F: Copy, C, H, X, S>(
    rows: &Vec<(Instant, Document)>,
    num: C,
    haversine_km: H,
    moved: X,
    seconds: S,
    zero: F,
) -> (r: Trend<F>) where
    C: Fn(&Reading) -> Option<F>,
    H: Fn(F, F, F, F) -> F,
    X: Fn(F) -> bool,
    S: Fn(i64) -> F,

    requires
        forall|i: int| 0 <= i < rows@.len() ==> (#[trigger] rows@[i]).0.wf(),
        forall|x: &Reading| #[trigger] num.requires((x,)),
        forall|a: F, b: F, c: F, d: F| #[trigger] haversine_km.requires((a, b, c, d)),
        forall|d: F| #[trigger] moved.requires((d,)),
        forall|ms: i64| #[trigger] seconds.requires((ms,)),
    ensures
        rows@.len() < 2 ==> r == Trend::still(zero),
        rows@.len() >= 2 ==> exists|basis: TrendReadings|
            basis@ == trend_between(sample_views(rows@)[1], sample_views(rows@)[0]) && reported(
                basis,
                num,
                haversine_km,
                moved,
                seconds,
                zero,
                r,
            ),
{
    if rows.len() < 2 {
        return Trend {
            movement: false,
            delta_km: zero,
            dt_sec: zero,
            velocity_kmh: None,
            from_time: None,
            to_time: None,
            from_lat: None,
            from_lon: None,
            to_lat: None,
            to_lon: None,
        };
    }
    let basis = trend_readings(rows);
    trend_report(&basis, num, haversine_km, moved, seconds, zero)
}

/// A trend without two complete positions reports no movement and the
/// distance `zero`, whatever else was read and whatever the time between
/// the samples.
pub proof fn law_incomplete_position_means_no_movement<F, C, H, X, S>(
    basis: TrendReadings,
    num: C,
    haversine_km: H,
    moved: X,
    seconds: S,
    zero: F,
    r: Trend<F>,
) where
    C: Fn(&Reading) -> Option<F>,
    H: Fn(F, F, F, F) -> F,
    X: Fn(F) -> bool,
    S: Fn(i64) -> F,

    requires
        reported(basis, num, haversine_km, moved, seconds, zero, r),
        !basis@.complete(),
    ensures
        !r.movement,
        r.delta_km == zero,
{
}

/// Identical positions do not move, where the functions handed in are what
/// they are meant to be: if the two positions were read from fields of the
/// same value, `num` reads fields of one value in one way only,
/// `haversine_km` gives `zero` from a point to itself, and `moved` says no
/// to `zero`, then the trend reports no movement and the distance `zero`.
pub proof fn law_identical_positions_do_not_move<F, C, H, X, S>(
    basis: TrendReadings,
    num: C,
    haversine_km: H,
    moved: X,
    seconds: S,
    zero: F,
    r: Trend<F>,
) where
    C: Fn(&Reading) -> Option<F>,
    H: Fn(F, F, F, F) -> F,
    X: Fn(F) -> bool,
    S: Fn(i64) -> F,

    requires
        reported(basis, num, haversine_km, moved, seconds, zero, r),
        basis@.from_lat == basis@.to_lat,
        basis@.from_lon == basis@.to_lon,
        forall|x: &Reading, y: &Reading, a: Option<F>, b: Option<F>|
            #![trigger num.ensures((x,), a), num.ensures((y,), b)]
            x@ == y@ && num.ensures((x,), a) && num.ensures((y,), b) ==> a == b,
        forall|lat: F, lon: F, d: F| #[trigger]
            haversine_km.ensures((lat, lon, lat, lon), d) ==> d == zero,
        forall|m: bool| #[trigger] moved.ensures((zero,), m) ==> !m,
    ensures
        !r.movement,
        r.delta_km == zero,
{
    if r.complete() {
        assert(basis.from_lat is Some && basis.to_lat is Some);
        assert(basis.from_lon is Some && basis.to_lon is Some);
        assert(basis.from_lat->0@ == basis.to_lat->0@);
        assert(basis.from_lon->0@ == basis.to_lon->0@);
        assert(num.ensures((&basis.from_lat->0,), r.from_lat));
        assert(num.ensures((&basis.to_lat->0,), r.to_lat));
        assert(num.ensures((&basis.from_lon->0,), r.from_lon));
        assert(num.ensures((&basis.to_lon->0,), r.to_lon));
        assert(r.from_lat == r.to_lat);
        assert(r.from_lon == r.to_lon);
    }
}

/// Over two samples whose payloads hold the same latitude and the same
/// longitude the trend reports no movement and the distance `zero`, where
/// the functions handed in are what they are meant to be.
pub proof fn law_same_position_in_both_samples_does_not_move<F, C, H, X, S>(
    older: (Instant, Json),
    newer: (Instant, Json),
    basis: TrendReadings,
    num: C,
    haversine_km: H,
    moved: X,
    seconds: S,
    zero: F,
    r: Trend<F>,
) where
    C: Fn(&Reading) -> Option<F>,
    H: Fn(F, F, F, F) -> F,
    X: Fn(F) -> bool,
    S: Fn(i64) -> F,

    requires
        basis@ == trend_between(older, newer),
        reported(basis, num, haversine_km, moved, seconds, zero, r),
        older.1.get("latitude"@) == newer.1.get("latitude"@),
        older.1.get("longitude"@) == newer.1.get("longitude"@),
        forall|x: &Reading, y: &Reading, a: Option<F>, b: Option<F>|
            #![trigger num.ensures((x,), a), num.ensures((y,), b)]
            x@ == y@ && num.ensures((x,), a) && num.ensures((y,), b) ==> a == b,
        forall|lat: F, lon: F, d: F| #[trigger]
            haversine_km.ensures((lat, lon, lat, lon), d) ==> d == zero,
        forall|m: bool| #[trigger] moved.ensures((zero,), m) ==> !m,
    ensures
        !r.movement,
        r.delta_km == zero,
{
    law_identical_positions_do_not_move(basis, num, haversine_km, moved, seconds, zero, r);
}

/// Two samples with the same payload give the same position at both ends,
/// whatever the payload holds and whenever the samples were taken.
pub proof fn law_same_payload_same_position(older: Instant, newer: Instant, payload: Json)
    ensures
        trend_between((older, payload), (newer, payload)).from_lat == trend_between(
            (older, payload),
            (newer, payload),
        ).to_lat,
        trend_between((older, payload), (newer, payload)).from_lon == trend_between(
            (older, payload),
            (newer, payload),
        ).to_lon,
{
}

/// The time between two samples is a matter of their timestamps alone:
/// whatever the payloads hold, the trend reports the time from the older
/// instant to the newer.
pub proof fn law_trend_time_ignores_payloads(older: (Instant, Json), newer: (Instant, Json))
    ensures
        spec_trend(seq![newer, older]).dt_millis == newer.0.spec_millis_since(older.0),
{
}

/// Where the newer instant lies a whole number of seconds after the older
/// and no leap second is counted between them, the trend reports that many
/// thousand milliseconds, whatever the payloads hold.
pub proof fn law_trend_time_of_whole_seconds(
    older: (Instant, Json),
    newer: (Instant, Json),
    k: int,
)
    requires
        newer.0.secs == older.0.secs + k,
        newer.0.nanos == older.0.nanos,
        newer.0.leap_correction(older.0) == 0,
    ensures
        spec_trend(seq![newer, older]).dt_millis == k * 1000,
{
    let d = newer.0.spec_nanos_since(older.0);
    assert(d == k * 1_000_000_000);
    if k >= 0 {
        assert((k * 1_000_000_000) / 1_000_000 == k * 1000) by (nonlinear_arith)
            requires
                k >= 0,
        ;
    } else {
        assert((-(k * 1_000_000_000)) / 1_000_000 == (-k) * 1000) by (nonlinear_arith)
            requires
                k < 0,
        ;
    }
}

/// The liveness answer at `now`.
pub fn health_check(now: Instant) -> (r: Health)
    ensures
        r.status@ == "ok"@,
        r.now == now,
{
    Health { status: "ok", now }
}

/// The answer where there is nothing to show.
pub open spec fn no_data() -> Json {
    Json::Object(seq![("message"@, Json::Text("no data"@))])
}

/// A position sample as it is shown.
pub open spec fn position_json(row: PositionSampleView) -> Json {
    Json::Object(
        seq![
            ("id"@, Json::Int(row.id)),
            ("fetched_at"@, row.fetched_at.json()),
            ("source_url"@, Json::Text(row.source_url)),
            ("payload"@, row.payload),
        ],
    )
}

/// The view of a row as the store hands it out.
pub open spec fn position_view(row: (i64, Instant, String, Document)) -> PositionSampleView {
    PositionSampleView {
        id: row.0 as int,
        fetched_at: row.1,
        source_url: row.2@,
        payload: row.3@,
    }
}

/// The view of an optional row.
pub open spec fn opt_position(row: Option<(i64, Instant, String, Document)>) -> Option<
    PositionSampleView,
> {
    match row {
        Some(r) => Some(position_view(r)),
        None => None,
    }
}

/// The view of an optional snapshot.
pub open spec fn opt_snapshot(item: Option<SpaceCacheItem>) -> Option<SpaceCacheItemView> {
    match item {
        Some(i) => Some(i@),
        None => None,
    }
}

/// The answer to "latest position".
pub open spec fn spec_last_iss(row: Option<PositionSampleView>) -> Json {
    match row {
        Some(r) => position_json(r),
        None => no_data(),
    }
}

/// The newest position sample as it is shown, or the marker that there is
/// none.
pub fn last_iss(row: Option<(i64, Instant, String, Document)>) -> (r: Document)
    requires
        row matches Some(x) ==> x.1.wf(),
    ensures
        r@ == spec_last_iss(opt_position(row)),
{
    let mut members: Vec<(String, Document)> = Vec::new();
    match row {
        Some((id, fetched_at, source_url, payload)) => {
            put(&mut members, "id", Document::whole(id));
            put(&mut members, "fetched_at", fetched_at.document());
            put(&mut members, "source_url", Document::Text(source_url));
            put(&mut members, "payload", payload);
            let r = Document::object(members);
            assert(r@->Object_0 =~= position_json(opt_position(row)->0)->Object_0);
            r
        },
        None => {
            put(&mut members, "message", Document::text("no data"));
            let r = Document::object(members);
            assert(r@->Object_0 =~= no_data()->Object_0);
            r
        },
    }
}

/// One position cycle on demand, then the newest sample as it is shown.
pub fn trigger_iss(repo: &mut IssRepository, url: &str, reply: Reply) -> (r: Result<
    Document,
    FetchError,
>)
    requires
        old(repo).wf(),
    ensures
        final(repo).wf(),
        match spec_accept(reply) {
            Ok(body) => if old(repo)@.log.len() < MAX_ROWS {
                &&& final(repo)@ == old(repo)@.logged(url@, body)
                &&& r matches Ok(doc)
                &&& doc@ == spec_last_iss(final(repo)@.latest_position())
            } else {
                r == Err::<Document, FetchError>(FetchError::Store(StoreError::Full))
                    && final(repo)@ == old(repo)@
            },
            Err(e) => r == Err::<Document, FetchError>(e) && final(repo)@ == old(repo)@,
        },
{
    match IssService::fetch_and_store_iss(repo, url, reply) {
        Ok(_) => {},
        Err(e) => {
            return Err(e);
        },
    }
    Ok(last_iss(repo.get_last_iss()))
}

/// The answer to a catalogue cycle on demand.
pub open spec fn spec_sync_report(written: int) -> Json {
    Json::Object(seq![("written"@, Json::Int(written))])
}

/// The number of datasets that a catalogue cycle wrote, as it is shown.
pub fn sync_report(written: usize) -> (r: Document)
    ensures
        r@ == spec_sync_report(written as int),
{
    let mut members: Vec<(String, Document)> = Vec::new();
    put(&mut members, "written", Document::Number(Number::PosInt(written as u64)));
    let r = Document::object(members);
    assert(r@->Object_0 =~= spec_sync_report(written as int)->Object_0);
    r
}

/// One catalogue cycle on demand, then the number of datasets written as
/// it is shown. A failure of the cycle is passed on, with what was written
/// before it left in the store.
pub fn osdr_sync(repo: &mut IssRepository, reply: Reply) -> (r: Result<Document, FetchError>)
    requires
        old(repo).wf(),
    ensures
        final(repo).wf(),
        match spec_accept(reply) {
            Ok(body) => ({
                let entries = spec_catalogue_entries(body);
                let run = upsert_run(old(repo)@, entries);
                &&& final(repo)@ == run.0
                &&& if run.1 == entries.len() {
                    r matches Ok(doc) && doc@ == spec_sync_report(run.1 as int)
                } else {
                    r == Err::<Document, FetchError>(FetchError::Store(StoreError::Full))
                }
            }),
            Err(e) => r == Err::<Document, FetchError>(e) && final(repo)@ == old(repo)@,
        },
{
    match IssService::fetch_and_store_osdr(repo, reply) {
        Ok(written) => Ok(sync_report(written)),
        Err(e) => Err(e),
    }
}

/// How many catalogue rows to list: the number that the setting spells, or
/// twenty where it is absent or spells none.
pub open spec fn spec_list_limit(value: Option<Seq<char>>) -> i64 {
    match value {
        Some(text) => match spec_parse_i64(text) {
            Some(n) => n,
            None => 20,
        },
        None => 20,
    }
}

/// How many catalogue rows to list.
pub fn list_limit(value: Option<&str>) -> (r: i64)
    ensures
        r == spec_list_limit(opt_str(value)),
{
    match value {
        Some(text) => match parse_i64(text) {
            Some(n) => n,
            None => 20,
        },
        None => 20,
    }
}

/// The answer to "list the catalogue".
pub open spec fn spec_osdr_list(items: Seq<Json>) -> Json {
    Json::Object(seq![("items"@, Json::Array(items))])
}

/// The listed catalogue rows as they are shown.
pub fn osdr_list(items: Vec<Document>) -> (r: Document)
    ensures
        r@ == spec_osdr_list(item_views(items@)),
{
    let mut members: Vec<(String, Document)> = Vec::new();
    put(&mut members, "items", Document::array(items));
    let r = Document::object(members);
    assert(r@->Object_0 =~= spec_osdr_list(item_views(items@))->Object_0);
    r
}

/// The answer to "latest snapshot of a source".
pub open spec fn spec_space_latest(src: Seq<char>, item: Option<SpaceCacheItemView>) -> Json {
    match item {
        Some(i) => Json::Object(
            seq![
                ("source"@, Json::Text(i.source)),
                ("fetched_at"@, i.fetched_at.json()),
                ("payload"@, i.payload),
            ],
        ),
        None => Json::Object(
            seq![("source"@, Json::Text(src)), ("message"@, Json::Text("no data"@))],
        ),
    }
}

/// The newest snapshot of the source `src` as it is shown, or the marker
/// that there is none.
pub fn space_latest(src: &str, item: Option<SpaceCacheItem>) -> (r: Document)
    requires
        item matches Some(i) ==> i.fetched_at.wf(),
    ensures
        r@ == spec_space_latest(src@, opt_snapshot(item)),
{
    let mut members: Vec<(String, Document)> = Vec::new();
    match item {
        Some(i) => {
            let ghost shown = spec_space_latest(src@, Some(i@));
            put(&mut members, "source", Document::Text(i.source));
            put(&mut members, "fetched_at", i.fetched_at.document());
            put(&mut members, "payload", i.payload);
            let r = Document::object(members);
            assert(r@->Object_0 =~= shown->Object_0);
            r
        },
        None => {
            put(&mut members, "source", Document::text(src));
            put(&mut members, "message", Document::text("no data"));
            let r = Document::object(members);
            assert(r@->Object_0 =~= spec_space_latest(src@, None)->Object_0);
            r
        },
    }
}

/// The tags that the words name, in the order of the words. A word counts
/// without the white space around it and in lower case; a word that names
/// no tag is passed over.
pub open spec fn tags_of(words: Seq<Seq<char>>) -> Seq<CacheTag>
    decreases words.len(),
{
    if words.len() == 0 {
        Seq::empty()
    } else {
        let before = tags_of(words.drop_last());
        match spec_tag_of(lowercased(trimmed(words.last()))) {
            Some(tag) => before.push(tag),
            None => before,
        }
    }
}

/// The five tags, in the order in which they are refreshed.
pub open spec fn all_tags() -> Seq<CacheTag> {
    seq![CacheTag::Apod, CacheTag::Neo, CacheTag::Flr, CacheTag::Cme, CacheTag::Spacex]
}

/// The tags to refresh: those named in the comma-separated list, or all
/// five where no list is given.
pub open spec fn spec_space_refresh(src: Option<Seq<char>>) -> Seq<CacheTag> {
    match src {
        Some(list) => tags_of(spec_split_on(list, ',')),
        None => all_tags(),
    }
}

/// The view of an optional text slice.
pub open spec fn opt_str(s: Option<&str>) -> Option<Seq<char>> {
    match s {
        Some(t) => Some(t@),
        None => None,
    }
}

/// The tags to refresh, in the order in which the list names them.
pub fn space_refresh(src: Option<&str>) -> (r: Vec<CacheTag>)
    ensures
        r@ == spec_space_refresh(opt_str(src)),
{
    let list = match src {
        Some(s) => s,
        None => {
            let all = vec![
                CacheTag::Apod,
                CacheTag::Neo,
                CacheTag::Flr,
                CacheTag::Cme,
                CacheTag::Spacex,
            ];
            assert(all@ =~= all_tags());
            return all;
        },
    };
    let words = split_on(list, ',');
    let mut done: Vec<CacheTag> = Vec::new();
    let mut i: usize = 0;
    assert(texts(words@).take(0) =~= Seq::empty());
    while i < words.len()
        invariant
            0 <= i <= words.len(),
            done@ == tags_of(texts(words@).take(i as int)),
        decreases words.len() - i,
    {
        let word = lower_text(trim_text(words[i].as_str()));
        proof {
            let upto = texts(words@).take(i + 1);
            assert(upto.drop_last() =~= texts(words@).take(i as int));
            assert(upto.last() == words@[i as int]@);
        }
        match CacheTag::from_word(word.as_str()) {
            Some(tag) => {
                done.push(tag);
            },
            None => {},
        }
        i += 1;
    }
    assert(texts(words@).take(words@.len() as int) =~= texts(words@));
    done
}

/// The names of the tags.
pub open spec fn tag_names(tags: Seq<CacheTag>) -> Seq<Json> {
    Seq::new(tags.len(), |i: int| Json::Text(tags[i].name()))
}

/// The answer to "refresh": the tags that were attempted.
pub open spec fn spec_refreshed(tags: Seq<CacheTag>) -> Json {
    Json::Object(seq![("refreshed"@, Json::Array(tag_names(tags)))])
}

/// The tags that were attempted, as they are shown.
pub fn refreshed(tags: &Vec<CacheTag>) -> (r: Document)
    ensures
        r@ == spec_refreshed(tags@),
{
    let mut names: Vec<Document> = Vec::new();
    let mut i: usize = 0;
    while i < tags.len()
        invariant
            0 <= i <= tags.len(),
            names@.len() == i,
            forall|j: int| 0 <= j < i ==> (#[trigger] names@[j])@ == Json::Text(tags@[j].name()),
        decreases tags.len() - i,
    {
        names.push(Document::text(tags[i].as_str()));
        i += 1;
    }
    assert(item_views(names@) =~= tag_names(tags@));
    let mut members: Vec<(String, Document)> = Vec::new();
    put(&mut members, "refreshed", Document::array(names));
    let r = Document::object(members);
    assert(r@->Object_0 =~= spec_refreshed(tags@)->Object_0);
    r
}

/// The placeholder for a field that has nothing to show.
pub open spec fn placeholder() -> Json {
    Json::Object(Seq::empty())
}

/// A stamped payload as the summary shows it.
pub open spec fn stamped(at: Instant, payload: Json) -> Json {
    Json::Object(seq![("at"@, at.json()), ("payload"@, payload)])
}

/// What a lookup of a snapshot found: nothing where the lookup failed.
pub open spec fn found_snapshot(lookup: Result<Option<SpaceCacheItem>, StoreError>) -> Option<
    SpaceCacheItemView,
> {
    match lookup {
        Ok(Some(item)) => Some(item@),
        _ => None,
    }
}

/// What a lookup of the newest position found: nothing where the lookup
/// failed.
pub open spec fn found_position(
    lookup: Result<Option<(i64, Instant, String, Document)>, StoreError>,
) -> Option<PositionSampleView> {
    match lookup {
        Ok(Some(row)) => Some(position_view(row)),
        _ => None,
    }
}

/// What a lookup of the catalogue's size found: zero where the lookup
/// failed.
pub open spec fn found_count(lookup: Result<i64, StoreError>) -> int {
    match lookup {
        Ok(n) => n as int,
        Err(_) => 0,
    }
}

/// A snapshot as the summary shows it.
pub open spec fn snapshot_slot(item: Option<SpaceCacheItemView>) -> Json {
    match item {
        Some(i) => stamped(i.fetched_at, i.payload),
        None => placeholder(),
    }
}

/// The newest position as the summary shows it.
pub open spec fn position_slot(row: Option<PositionSampleView>) -> Json {
    match row {
        Some(r) => stamped(r.fetched_at, r.payload),
        None => placeholder(),
    }
}

/// The summary: the newest snapshot of each of the five sources, the newest
/// position and the size of the catalogue.
pub open spec fn spec_space_summary(
    apod: Option<SpaceCacheItemView>,
    neo: Option<SpaceCacheItemView>,
    flr: Option<SpaceCacheItemView>,
    cme: Option<SpaceCacheItemView>,
    spacex: Option<SpaceCacheItemView>,
    iss: Option<PositionSampleView>,
    osdr_count: int,
) -> Json {
    Json::Object(
        seq![
            ("apod"@, snapshot_slot(apod)),
            ("neo"@, snapshot_slot(neo)),
            ("flr"@, snapshot_slot(flr)),
            ("cme"@, snapshot_slot(cme)),
            ("spacex"@, snapshot_slot(spacex)),
            ("iss"@, position_slot(iss)),
            ("osdr_count"@, Json::Int(osdr_count)),
        ],
    )
}

/// A stamped payload as the summary shows it.
fn stamped_document(at: Instant, payload: Document) -> (r: Document)
    requires
        at.wf(),
    ensures
        r@ == stamped(at, payload@),
{
    let mut members: Vec<(String, Document)> = Vec::new();
    put(&mut members, "at", at.document());
    put(&mut members, "payload", payload);
    let r = Document::object(members);
    assert(r@->Object_0 =~= stamped(at, payload@)->Object_0);
    r
}

/// The placeholder for a field that has nothing to show.
fn placeholder_document() -> (r: Document)
    ensures
        r@ == placeholder(),
{
    let r = Document::object(Vec::new());
    assert(r@->Object_0 =~= Seq::empty());
    r
}

/// A looked-up snapshot as the summary shows it.
fn snapshot_document(lookup: Result<Option<SpaceCacheItem>, StoreError>) -> (r: Document)
    requires
        lookup matches Ok(Some(item)) ==> item.fetched_at.wf(),
    ensures
        r@ == snapshot_slot(found_snapshot(lookup)),
{
    match lookup {
        Ok(Some(item)) => stamped_document(item.fetched_at, item.payload),
        _ => placeholder_document(),
    }
}

/// The summary of what the store holds. A lookup that failed leaves the
/// placeholder in its field, and the count zero; the summary itself is
/// always given.
pub fn space_summary(
    apod: Result<Option<SpaceCacheItem>, StoreError>,
    neo: Result<Option<SpaceCacheItem>, StoreError>,
    flr: Result<Option<SpaceCacheItem>, StoreError>,
    cme: Result<Option<SpaceCacheItem>, StoreError>,
    spacex: Result<Option<SpaceCacheItem>, StoreError>,
    iss_last: Result<Option<(i64, Instant, String, Document)>, StoreError>,
    osdr_count: Result<i64, StoreError>,
) -> (r: Document)
    requires
        apod matches Ok(Some(item)) ==> item.fetched_at.wf(),
        neo matches Ok(Some(item)) ==> item.fetched_at.wf(),
        flr matches Ok(Some(item)) ==> item.fetched_at.wf(),
        cme matches Ok(Some(item)) ==> item.fetched_at.wf(),
        spacex matches Ok(Some(item)) ==> item.fetched_at.wf(),
        iss_last matches Ok(Some(row)) ==> row.1.wf(),
    ensures
        r@ == spec_space_summary(
            found_snapshot(apod),
            found_snapshot(neo),
            found_snapshot(flr),
            found_snapshot(cme),
            found_snapshot(spacex),
            found_position(iss_last),
            found_count(osdr_count),
        ),
{
    let ghost want = spec_space_summary(
        found_snapshot(apod),
        found_snapshot(neo),
        found_snapshot(flr),
        found_snapshot(cme),
        found_snapshot(spacex),
        found_position(iss_last),
        found_count(osdr_count),
    );
    let mut members: Vec<(String, Document)> = Vec::new();
    put(&mut members, "apod", snapshot_document(apod));
    put(&mut members, "neo", snapshot_document(neo));
    put(&mut members, "flr", snapshot_document(flr));
    put(&mut members, "cme", snapshot_document(cme));
    put(&mut members, "spacex", snapshot_document(spacex));
    let iss = match iss_last {
        Ok(Some((_, at, _, payload))) => stamped_document(at, payload),
        _ => placeholder_document(),
    };
    put(&mut members, "iss", iss);
    let count: i64 = match osdr_count {
        Ok(n) => n,
        Err(_) => 0,
    };
    put(&mut members, "osdr_count", Document::whole(count));
    let r = Document::object(members);
    assert(r@->Object_0 =~= want->Object_0);
    r
}

/// The summary is complete whatever was found: it has its seven fields in
/// their order, a field whose lookup found nothing holds the placeholder,
/// and one whose lookup found something holds that, stamped.
pub proof fn law_summary_is_complete(
    apod: Option<SpaceCacheItemView>,
    neo: Option<SpaceCacheItemView>,
    flr: Option<SpaceCacheItemView>,
    cme: Option<SpaceCacheItemView>,
    spacex: Option<SpaceCacheItemView>,
    iss: Option<PositionSampleView>,
    osdr_count: int,
)
    ensures
        ({
            let doc = spec_space_summary(apod, neo, flr, cme, spacex, iss, osdr_count);
            &&& doc is Object
            &&& doc->Object_0.len() == 7
            &&& doc->Object_0[0].0 == "apod"@
            &&& doc->Object_0[1].0 == "neo"@
            &&& doc->Object_0[2].0 == "flr"@
            &&& doc->Object_0[3].0 == "cme"@
            &&& doc->Object_0[4].0 == "spacex"@
            &&& doc->Object_0[5].0 == "iss"@
            &&& doc->Object_0[6] == ("osdr_count"@, Json::Int(osdr_count))
            &&& apod is None ==> doc->Object_0[0].1 == placeholder()
            &&& neo is None ==> doc->Object_0[1].1 == placeholder()
            &&& flr is None ==> doc->Object_0[2].1 == placeholder()
            &&& cme is None ==> doc->Object_0[3].1 == placeholder()
            &&& spacex is None ==> doc->Object_0[4].1 == placeholder()
            &&& iss is None ==> doc->Object_0[5].1 == placeholder()
            &&& apod matches Some(i) ==> doc->Object_0[0].1 == stamped(i.fetched_at, i.payload)
            &&& neo matches Some(i) ==> doc->Object_0[1].1 == stamped(i.fetched_at, i.payload)
            &&& flr matches Some(i) ==> doc->Object_0[2].1 == stamped(i.fetched_at, i.payload)
            &&& cme matches Some(i) ==> doc->Object_0[3].1 == stamped(i.fetched_at, i.payload)
            &&& spacex matches Some(i) ==> doc->Object_0[4].1 == stamped(i.fetched_at, i.payload)
            &&& iss matches Some(i) ==> doc->Object_0[5].1 == stamped(i.fetched_at, i.payload)
        }),
{
}

/// A lookup that failed is shown as one that found nothing.
pub proof fn law_failed_lookup_is_empty(e: StoreError)
    ensures
        found_snapshot(Err(e)) is None,
        found_position(Err(e)) is None,
        found_count(Err(e)) == 0,
{
}

} // verus!
