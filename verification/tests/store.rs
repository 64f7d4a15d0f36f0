use rust_iss::document::{Document, Number};
use rust_iss::domain::{SpaceCacheItem, StoreError};
use rust_iss::instant::Instant;
use rust_iss::repositories::IssRepository;

fn obj(members: Vec<(&str, Document)>) -> Document {
    Document::Object(members.into_iter().map(|(k, v)| (k.to_string(), v)).collect())
}

fn text(s: &str) -> Document {
    Document::Text(s.to_string())
}

fn num(n: i64) -> Document {
    Document::Number(Number::from_i64(n))
}

fn at(secs: i64) -> Instant {
    Instant { secs, nanos: 0 }
}

fn some(s: &str) -> Option<String> {
    Some(s.to_string())
}

fn listed(
    id: i64,
    key: Document,
    title: Document,
    status: Document,
    updated: Document,
    inserted: &str,
    raw: Document,
) -> Document {
    obj(vec![
        ("id", num(id)),
        ("dataset_id", key),
        ("title", title),
        ("status", status),
        ("updated_at", updated),
        ("inserted_at", text(inserted)),
        ("raw", raw),
    ])
}

#[test]
fn init_db_is_empty() {
    let repo = IssRepository::init_db();
    assert_eq!(repo.get_last_iss(), None);
    assert_eq!(repo.get_iss_trend_data(), vec![]);
    assert_eq!(repo.get_osdr_count(), 0);
    assert_eq!(repo.get_osdr_list(20), Ok(vec![]));
    assert_eq!(repo.get_latest_space_cache("apod"), None);
    assert_eq!(repo.clock(), at(0));
}

#[test]
fn tick_moves_the_clock_forward_only() {
    let mut repo = IssRepository::init_db();
    repo.tick(at(100));
    assert_eq!(repo.clock(), at(100));
    repo.tick(at(50));
    assert_eq!(repo.clock(), at(100));
    repo.tick(Instant { secs: 100, nanos: 1 });
    assert_eq!(repo.clock(), Instant { secs: 100, nanos: 1 });
    repo.tick(at(100));
    assert_eq!(repo.clock(), Instant { secs: 100, nanos: 1 });
}

#[test]
fn log_numbers_samples_from_one() {
    let mut repo = IssRepository::init_db();
    repo.tick(at(10));
    assert_eq!(repo.log_iss_fetch("http://a", num(1)), Ok(()));
    assert_eq!(repo.get_last_iss(), Some((1, at(10), "http://a".to_string(), num(1))));
    repo.tick(at(20));
    assert_eq!(repo.log_iss_fetch("http://b", num(2)), Ok(()));
    assert_eq!(repo.get_last_iss(), Some((2, at(20), "http://b".to_string(), num(2))));
}

#[test]
fn trend_data_is_the_two_newest_newest_first() {
    let mut repo = IssRepository::init_db();
    repo.tick(at(10));
    repo.log_iss_fetch("u", num(1)).unwrap();
    assert_eq!(repo.get_iss_trend_data(), vec![(at(10), num(1))]);
    repo.tick(at(20));
    repo.log_iss_fetch("u", num(2)).unwrap();
    assert_eq!(repo.get_iss_trend_data(), vec![(at(20), num(2)), (at(10), num(1))]);
    repo.tick(at(30));
    repo.log_iss_fetch("u", num(3)).unwrap();
    assert_eq!(repo.get_iss_trend_data(), vec![(at(30), num(3)), (at(20), num(2))]);
}

#[test]
fn upsert_with_the_same_key_leaves_one_row_with_the_second_values() {
    let mut repo = IssRepository::init_db();
    repo.tick(at(1_709_287_200));
    assert_eq!(
        repo.upsert_osdr_item(some("OSD-1"), some("first"), some("draft"), Some(at(5)), num(1)),
        Ok(())
    );
    repo.tick(at(1_709_287_320));
    assert_eq!(
        repo.upsert_osdr_item(some("OSD-1"), some("second"), None, Some(at(60)), text("raw two")),
        Ok(())
    );
    assert_eq!(repo.get_osdr_count(), 1);
    assert_eq!(
        repo.get_osdr_list(20),
        Ok(vec![listed(
            1,
            text("OSD-1"),
            text("second"),
            Document::Null,
            text("1970-01-01T00:01:00Z"),
            "2024-03-01T10:00:00Z",
            text("raw two"),
        )])
    );
}

#[test]
fn upsert_without_a_key_makes_two_rows() {
    let mut repo = IssRepository::init_db();
    assert_eq!(repo.upsert_osdr_item(None, some("same"), None, None, num(1)), Ok(()));
    assert_eq!(repo.upsert_osdr_item(None, some("same"), None, None, num(1)), Ok(()));
    assert_eq!(repo.get_osdr_count(), 2);
    let rows = repo.get_osdr_list(20).unwrap();
    assert_eq!(rows.len(), 2);
    assert_eq!(rows[0].get("id"), Some(&num(2)));
    assert_eq!(rows[1].get("id"), Some(&num(1)));
    assert_eq!(rows[0].get("dataset_id"), Some(&Document::Null));
}

#[test]
fn upsert_with_different_keys_makes_rows_of_their_own() {
    let mut repo = IssRepository::init_db();
    repo.upsert_osdr_item(some("a"), None, None, None, num(1)).unwrap();
    repo.upsert_osdr_item(some("b"), None, None, None, num(2)).unwrap();
    repo.upsert_osdr_item(some("A"), None, None, None, num(3)).unwrap();
    assert_eq!(repo.get_osdr_count(), 3);
}

#[test]
fn upsert_leaves_the_other_rows_alone() {
    let mut repo = IssRepository::init_db();
    repo.upsert_osdr_item(some("a"), some("one"), None, None, num(1)).unwrap();
    repo.upsert_osdr_item(None, some("two"), None, None, num(2)).unwrap();
    repo.upsert_osdr_item(some("c"), some("three"), None, None, num(3)).unwrap();
    repo.upsert_osdr_item(some("a"), some("uno"), None, None, num(10)).unwrap();
    let rows = repo.get_osdr_list(20).unwrap();
    assert_eq!(rows.len(), 3);
    assert_eq!(rows[0].get("title"), Some(&text("three")));
    assert_eq!(rows[1].get("title"), Some(&text("two")));
    assert_eq!(rows[2].get("title"), Some(&text("uno")));
    assert_eq!(rows[2].get("id"), Some(&num(1)));
    assert_eq!(rows[2].get("raw"), Some(&num(10)));
}

#[test]
fn upsert_keeps_the_stamp_of_the_first_insertion() {
    let mut repo = IssRepository::init_db();
    repo.tick(at(60));
    repo.upsert_osdr_item(some("a"), None, None, None, num(1)).unwrap();
    repo.tick(at(120));
    repo.upsert_osdr_item(some("a"), None, None, None, num(2)).unwrap();
    let rows = repo.get_osdr_list(1).unwrap();
    assert_eq!(rows[0].get("inserted_at"), Some(&text("1970-01-01T00:01:00Z")));
}

#[test]
fn list_is_newest_first_and_obeys_the_limit() {
    let mut repo = IssRepository::init_db();
    for i in 1..=5 {
        repo.tick(at(i * 60));
        repo.upsert_osdr_item(None, None, None, None, num(i)).unwrap();
    }
    let ids = |rows: Vec<Document>| -> Vec<Document> {
        rows.iter().map(|r| r.get("id").unwrap().duplicate()).collect()
    };
    assert_eq!(ids(repo.get_osdr_list(2).unwrap()), vec![num(5), num(4)]);
    assert_eq!(ids(repo.get_osdr_list(5).unwrap()), vec![num(5), num(4), num(3), num(2), num(1)]);
    assert_eq!(ids(repo.get_osdr_list(50).unwrap()).len(), 5);
    assert_eq!(ids(repo.get_osdr_list(i64::MAX).unwrap()).len(), 5);
    assert_eq!(repo.get_osdr_list(0), Ok(vec![]));
}

#[test]
fn list_refuses_a_negative_limit() {
    let mut repo = IssRepository::init_db();
    repo.upsert_osdr_item(None, None, None, None, num(1)).unwrap();
    assert_eq!(repo.get_osdr_list(-1), Err(StoreError::Failed));
    assert_eq!(repo.get_osdr_list(i64::MIN), Err(StoreError::Failed));
}

#[test]
fn latest_by_source_is_the_one_written_last() {
    let mut repo = IssRepository::init_db();
    repo.tick(at(100));
    repo.write_space_cache("apod", text("A")).unwrap();
    repo.tick(at(200));
    repo.write_space_cache("apod", text("B")).unwrap();
    assert_eq!(
        repo.get_latest_space_cache("apod"),
        Some(SpaceCacheItem { source: "apod".to_string(), fetched_at: at(200), payload: text("B") })
    );
}

#[test]
fn latest_by_source_goes_by_insertion_not_by_stamp() {
    let mut repo = IssRepository::init_db();
    repo.tick(at(100));
    repo.write_space_cache("neo", text("A")).unwrap();
    repo.write_space_cache("neo", text("B")).unwrap();
    assert_eq!(repo.get_latest_space_cache("neo").unwrap().payload, text("B"));
}

#[test]
fn latest_by_source_keeps_sources_apart() {
    let mut repo = IssRepository::init_db();
    repo.write_space_cache("apod", text("picture")).unwrap();
    repo.write_space_cache("neo", text("rocks")).unwrap();
    repo.write_space_cache("spacex", text("launch")).unwrap();
    assert_eq!(repo.get_latest_space_cache("apod").unwrap().payload, text("picture"));
    assert_eq!(repo.get_latest_space_cache("neo").unwrap().payload, text("rocks"));
    assert_eq!(repo.get_latest_space_cache("flr"), None);
    assert_eq!(repo.get_latest_space_cache("APOD"), None);
    assert_eq!(repo.get_latest_space_cache(""), None);
}

#[test]
fn the_three_tables_do_not_touch_each_other() {
    let mut repo = IssRepository::init_db();
    repo.log_iss_fetch("u", num(1)).unwrap();
    assert_eq!(repo.get_osdr_count(), 0);
    assert_eq!(repo.get_latest_space_cache("u"), None);
    repo.write_space_cache("apod", num(2)).unwrap();
    assert_eq!(repo.get_osdr_count(), 0);
    assert_eq!(repo.get_last_iss().unwrap().3, num(1));
    repo.upsert_osdr_item(some("apod"), None, None, None, num(3)).unwrap();
    assert_eq!(repo.get_last_iss().unwrap().3, num(1));
    assert_eq!(repo.get_latest_space_cache("apod").unwrap().payload, num(2));
    assert_eq!(repo.get_osdr_count(), 1);
}
