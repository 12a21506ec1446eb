use newscache::item::{NewsItem, RawItem};
use newscache::merge::merge;

fn raw(id: u32, title: &str, url: Option<&str>, score: u32) -> RawItem {
    RawItem { id, title: title.to_owned(), url: url.map(|u| u.to_owned()), score }
}

fn item(id: u32, title: &str, url: Option<&str>, score: u32, seen: u64) -> NewsItem {
    NewsItem { id, title: title.to_owned(), url: url.map(|u| u.to_owned()), score, seen }
}

#[test]
fn merge_example_scenario() {
    let prev = vec![item(1, "first", None, 300, 1000)];
    let fetched = vec![raw(1, "first", None, 300), raw(2, "second", None, 50)];
    let merged = merge(&prev, &fetched, 2000);
    assert_eq!(merged.len(), 2);
    assert_eq!(merged[0].id, 1);
    assert_eq!(merged[0].score, 300);
    assert_eq!(merged[0].seen, 1000);
    assert_eq!(merged[1].id, 2);
    assert_eq!(merged[1].score, 50);
    assert_eq!(merged[1].seen, 2000);
}

#[test]
fn merge_preserves_timestamp_of_persisting_id() {
    let prev = vec![item(7, "a", None, 10, 111), item(8, "b", None, 20, 222)];
    let fetched = vec![raw(8, "b2", Some("http://x"), 25)];
    let merged = merge(&prev, &fetched, 999);
    assert_eq!(merged.len(), 1);
    assert_eq!(merged[0].id, 8);
    assert_eq!(merged[0].seen, 222);
    assert_eq!(merged[0].title, "b2");
    assert_eq!(merged[0].url.as_deref(), Some("http://x"));
    assert_eq!(merged[0].score, 25);
}

#[test]
fn merge_stamps_new_id_with_fetch_time() {
    let prev = vec![item(1, "a", None, 10, 111)];
    let fetched = vec![raw(2, "b", None, 20)];
    let merged = merge(&prev, &fetched, 555);
    assert_eq!(merged[0].seen, 555);
}

#[test]
fn merge_drops_id_absent_from_fetch() {
    let prev = vec![item(1, "a", None, 10, 111), item(2, "b", None, 20, 222)];
    let fetched = vec![raw(2, "b", None, 20)];
    let merged = merge(&prev, &fetched, 555);
    assert_eq!(merged.len(), 1);
    assert!(merged.iter().all(|m| m.id != 1));
}

#[test]
fn merge_keeps_fetched_order_and_membership() {
    let prev: Vec<NewsItem> = Vec::new();
    let fetched = vec![raw(3, "c", None, 1), raw(1, "a", None, 2), raw(2, "b", None, 3)];
    let merged = merge(&prev, &fetched, 10);
    let ids: Vec<u32> = merged.iter().map(|m| m.id).collect();
    assert_eq!(ids, vec![3, 1, 2]);
}

#[test]
fn merge_of_empty_fetch_is_empty() {
    let prev = vec![item(1, "a", None, 10, 111)];
    let fetched: Vec<RawItem> = Vec::new();
    let merged = merge(&prev, &fetched, 555);
    assert!(merged.is_empty());
}

#[test]
fn merge_is_deterministic() {
    let prev = vec![item(1, "a", Some("u"), 10, 111)];
    let fetched = vec![raw(1, "a", Some("u"), 10), raw(2, "b", None, 20)];
    let once = merge(&prev, &fetched, 42);
    let twice = merge(&prev, &fetched, 42);
    assert_eq!(once.len(), twice.len());
    for (x, y) in once.iter().zip(twice.iter()) {
        assert_eq!(x.id, y.id);
        assert_eq!(x.title, y.title);
        assert_eq!(x.url, y.url);
        assert_eq!(x.score, y.score);
        assert_eq!(x.seen, y.seen);
    }
}
