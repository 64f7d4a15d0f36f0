use rust_iss::document::{Document, Number};
use rust_iss::domain::{FetchError, Health, Reading, SpaceCacheItem, StoreError};
use rust_iss::handlers::{
    health_check, last_iss, list_limit, osdr_list, osdr_sync, reading, refreshed, space_latest,
    space_refresh, space_summary, sync_report, trigger_iss,
};
use rust_iss::instant::Instant;
use rust_iss::repositories::IssRepository;
use rust_iss::services::{CacheTag, Reply};

fn obj(members: Vec<(&str, Document)>) -> Document {
    Document::Object(members.into_iter().map(|(k, v)| (k.to_string(), v)).collect())
}

fn text(s: &str) -> Document {
    Document::Text(s.to_string())
}

fn num(n: i64) -> Document {
    Document::Number(Number::from_i64(n))
}

fn float(s: &str) -> Document {
    Document::Number(Number::Float(s.to_string()))
}

fn at(secs: i64) -> Instant {
    Instant { secs, nanos: 0 }
}

fn snapshot(source: &str, secs: i64, payload: Document) -> SpaceCacheItem {
    SpaceCacheItem { source: source.to_string(), fetched_at: at(secs), payload }
}

fn position(lat: Document, lon: Document) -> Document {
    obj(vec![("latitude", lat), ("longitude", lon), ("velocity", float("27600.5"))])
}

const NOON: i64 = 1_709_287_200;

#[test]
fn health_check_says_ok() {
    assert_eq!(health_check(at(NOON)), Health { status: "ok", now: at(NOON) });
}

#[test]
fn last_iss_shows_the_sample() {
    let row = (7, at(NOON), "https://iss.example".to_string(), obj(vec![("latitude", num(1))]));
    assert_eq!(
        last_iss(Some(row)),
        obj(vec![
            ("id", num(7)),
            ("fetched_at", text("2024-03-01T10:00:00Z")),
            ("source_url", text("https://iss.example")),
            ("payload", obj(vec![("latitude", num(1))])),
        ])
    );
}

#[test]
fn last_iss_without_a_sample_says_no_data() {
    assert_eq!(last_iss(None), obj(vec![("message", text("no data"))]));
}

#[test]
fn trigger_iss_reports_what_it_just_fetched() {
    let mut repo = IssRepository::init_db();
    repo.tick(at(NOON));
    repo.log_iss_fetch("old", num(0)).unwrap();
    let reply = Reply::Answered { status: 200, body: Some(num(1)) };
    assert_eq!(
        trigger_iss(&mut repo, "https://iss.example", reply),
        Ok(obj(vec![
            ("id", num(2)),
            ("fetched_at", text("2024-03-01T10:00:00Z")),
            ("source_url", text("https://iss.example")),
            ("payload", num(1)),
        ]))
    );
}

#[test]
fn trigger_iss_passes_the_failure_on() {
    let mut repo = IssRepository::init_db();
    repo.log_iss_fetch("old", num(0)).unwrap();
    assert_eq!(trigger_iss(&mut repo, "u", Reply::Failed), Err(FetchError::Transport));
    assert_eq!(
        trigger_iss(&mut repo, "u", Reply::Answered { status: 404, body: None }),
        Err(FetchError::UpstreamStatus(404))
    );
    assert_eq!(
        trigger_iss(&mut repo, "u", Reply::Answered { status: 200, body: None }),
        Err(FetchError::Parse)
    );
    assert_eq!(repo.get_last_iss().unwrap().0, 1);
}

#[test]
fn reading_takes_numbers_and_text() {
    let doc = obj(vec![
        ("a", num(-3)),
        ("b", text("12.5")),
        ("c", text("")),
        ("d", Document::Bool(true)),
        ("e", Document::Null),
        ("f", Document::Array(vec![num(1)])),
    ]);
    assert_eq!(reading(&doc, "a"), Some(Reading::Number(Number::NegInt(-3))));
    assert_eq!(reading(&doc, "b"), Some(Reading::Text("12.5".to_string())));
    assert_eq!(reading(&doc, "c"), Some(Reading::Text(String::new())));
    assert_eq!(reading(&doc, "d"), None);
    assert_eq!(reading(&doc, "e"), None);
    assert_eq!(reading(&doc, "f"), None);
    assert_eq!(reading(&doc, "g"), None);
    assert_eq!(reading(&num(1), "a"), None);
}

#[test]
fn sync_report_shows_the_number_written() {
    assert_eq!(sync_report(0), obj(vec![("written", num(0))]));
    assert_eq!(sync_report(25), obj(vec![("written", num(25))]));
}

#[test]
fn osdr_sync_writes_and_reports() {
    let mut repo = IssRepository::init_db();
    let body = Document::Array(vec![
        obj(vec![("id", num(1))]),
        obj(vec![("id", num(2))]),
        obj(vec![("id", num(1))]),
    ]);
    let reply = Reply::Answered { status: 200, body: Some(body) };
    assert_eq!(osdr_sync(&mut repo, reply), Ok(obj(vec![("written", num(3))])));
    assert_eq!(repo.get_osdr_count(), 2);
}

#[test]
fn osdr_sync_passes_the_failure_on() {
    let mut repo = IssRepository::init_db();
    assert_eq!(osdr_sync(&mut repo, Reply::Failed), Err(FetchError::Transport));
    assert_eq!(
        osdr_sync(&mut repo, Reply::Answered { status: 500, body: None }),
        Err(FetchError::UpstreamStatus(500))
    );
    assert_eq!(
        osdr_sync(&mut repo, Reply::Answered { status: 200, body: None }),
        Err(FetchError::Parse)
    );
    assert_eq!(repo.get_osdr_count(), 0);
}

#[test]
fn osdr_list_wraps_the_rows() {
    assert_eq!(osdr_list(vec![]), obj(vec![("items", Document::Array(vec![]))]));
    assert_eq!(
        osdr_list(vec![num(1), text("two")]),
        obj(vec![("items", Document::Array(vec![num(1), text("two")]))])
    );
}

#[test]
fn list_limit_defaults_to_twenty() {
    assert_eq!(list_limit(None), 20);
    assert_eq!(list_limit(Some("")), 20);
    assert_eq!(list_limit(Some("many")), 20);
    assert_eq!(list_limit(Some("9223372036854775808")), 20);
}

#[test]
fn list_limit_reads_the_setting() {
    assert_eq!(list_limit(Some("5")), 5);
    assert_eq!(list_limit(Some("+50")), 50);
    assert_eq!(list_limit(Some("0")), 0);
    assert_eq!(list_limit(Some("-1")), -1);
}

#[test]
fn space_latest_shows_the_snapshot() {
    assert_eq!(
        space_latest("apod", Some(snapshot("apod", NOON, text("picture")))),
        obj(vec![
            ("source", text("apod")),
            ("fetched_at", text("2024-03-01T10:00:00Z")),
            ("payload", text("picture")),
        ])
    );
}

#[test]
fn space_latest_without_a_snapshot_says_no_data() {
    assert_eq!(
        space_latest("neo", None),
        obj(vec![("source", text("neo")), ("message", text("no data"))])
    );
    assert_eq!(
        space_latest("", None),
        obj(vec![("source", text("")), ("message", text("no data"))])
    );
}

#[test]
fn space_refresh_without_a_list_names_all_five() {
    assert_eq!(
        space_refresh(None),
        vec![CacheTag::Apod, CacheTag::Neo, CacheTag::Flr, CacheTag::Cme, CacheTag::Spacex]
    );
}

#[test]
fn space_refresh_keeps_the_order_of_the_list() {
    assert_eq!(space_refresh(Some("spacex,apod")), vec![CacheTag::Spacex, CacheTag::Apod]);
    assert_eq!(space_refresh(Some("cme")), vec![CacheTag::Cme]);
}

#[test]
fn space_refresh_trims_and_lowers_the_words() {
    assert_eq!(
        space_refresh(Some(" APOD , Neo,\tflr\n,  SpaceX  ")),
        vec![CacheTag::Apod, CacheTag::Neo, CacheTag::Flr, CacheTag::Spacex]
    );
}

#[test]
fn space_refresh_passes_over_unknown_words() {
    assert_eq!(space_refresh(Some("apod,donki,,neo,ap od")), vec![CacheTag::Apod, CacheTag::Neo]);
    assert_eq!(space_refresh(Some("")), vec![]);
    assert_eq!(space_refresh(Some(",,,")), vec![]);
    assert_eq!(space_refresh(Some("apod;neo")), vec![]);
}

#[test]
fn space_refresh_repeats_what_the_list_repeats() {
    assert_eq!(
        space_refresh(Some("flr,cme,flr")),
        vec![CacheTag::Flr, CacheTag::Cme, CacheTag::Flr]
    );
}

#[test]
fn refreshed_lists_the_names() {
    assert_eq!(
        refreshed(&vec![CacheTag::Apod, CacheTag::Flr]),
        obj(vec![("refreshed", Document::Array(vec![text("apod"), text("flr")]))])
    );
    assert_eq!(refreshed(&vec![]), obj(vec![("refreshed", Document::Array(vec![]))]));
}

#[test]
fn summary_of_a_full_store() {
    let stamped = |payload: Document| {
        obj(vec![("at", text("2024-03-01T10:00:00Z")), ("payload", payload)])
    };
    assert_eq!(
        space_summary(
            Ok(Some(snapshot("apod", NOON, text("a")))),
            Ok(Some(snapshot("neo", NOON, text("n")))),
            Ok(Some(snapshot("flr", NOON, text("f")))),
            Ok(Some(snapshot("cme", NOON, text("c")))),
            Ok(Some(snapshot("spacex", NOON, text("s")))),
            Ok(Some((3, at(NOON), "u".to_string(), text("i")))),
            Ok(12),
        ),
        obj(vec![
            ("apod", stamped(text("a"))),
            ("neo", stamped(text("n"))),
            ("flr", stamped(text("f"))),
            ("cme", stamped(text("c"))),
            ("spacex", stamped(text("s"))),
            ("iss", stamped(text("i"))),
            ("osdr_count", num(12)),
        ])
    );
}

#[test]
fn summary_with_one_tag_failing_is_still_complete() {
    let stamped = |payload: Document| {
        obj(vec![("at", text("2024-03-01T10:00:00Z")), ("payload", payload)])
    };
    assert_eq!(
        space_summary(
            Ok(Some(snapshot("apod", NOON, text("a")))),
            Err(StoreError::Failed),
            Ok(Some(snapshot("flr", NOON, text("f")))),
            Ok(Some(snapshot("cme", NOON, text("c")))),
            Ok(Some(snapshot("spacex", NOON, text("s")))),
            Ok(Some((3, at(NOON), "u".to_string(), text("i")))),
            Ok(12),
        ),
        obj(vec![
            ("apod", stamped(text("a"))),
            ("neo", obj(vec![])),
            ("flr", stamped(text("f"))),
            ("cme", stamped(text("c"))),
            ("spacex", stamped(text("s"))),
            ("iss", stamped(text("i"))),
            ("osdr_count", num(12)),
        ])
    );
}

#[test]
fn summary_of_an_empty_store_is_all_placeholders() {
    assert_eq!(
        space_summary(Ok(None), Ok(None), Ok(None), Ok(None), Ok(None), Ok(None), Ok(0)),
        obj(vec![
            ("apod", obj(vec![])),
            ("neo", obj(vec![])),
            ("flr", obj(vec![])),
            ("cme", obj(vec![])),
            ("spacex", obj(vec![])),
            ("iss", obj(vec![])),
            ("osdr_count", num(0)),
        ])
    );
}

#[test]
fn summary_with_everything_failing_is_all_placeholders() {
    let e = StoreError::Failed;
    assert_eq!(
        space_summary(Err(e), Err(e), Err(e), Err(e), Err(e), Err(e), Err(e)),
        space_summary(Ok(None), Ok(None), Ok(None), Ok(None), Ok(None), Ok(None), Ok(0))
    );
}

#[test]
fn summary_over_the_store() {
    let mut repo = IssRepository::init_db();
    repo.tick(at(NOON));
    repo.write_space_cache("apod", text("old")).unwrap();
    repo.write_space_cache("apod", text("new")).unwrap();
    repo.upsert_osdr_item(None, None, None, None, num(1)).unwrap();
    let doc = space_summary(
        Ok(repo.get_latest_space_cache("apod")),
        Ok(repo.get_latest_space_cache("neo")),
        Ok(repo.get_latest_space_cache("flr")),
        Ok(repo.get_latest_space_cache("cme")),
        Ok(repo.get_latest_space_cache("spacex")),
        Ok(repo.get_last_iss()),
        Ok(repo.get_osdr_count()),
    );
    assert_eq!(
        doc.get("apod"),
        Some(&obj(vec![("at", text("2024-03-01T10:00:00Z")), ("payload", text("new"))]))
    );
    assert_eq!(doc.get("neo"), Some(&obj(vec![])));
    assert_eq!(doc.get("iss"), Some(&obj(vec![])));
    assert_eq!(doc.get("osdr_count"), Some(&num(1)));
}

#[test]
fn space_refresh_without_a_list_is_the_same_as_naming_all_five() {
    assert_eq!(space_refresh(None), space_refresh(Some("apod,neo,flr,cme,spacex")));
}
