use newscache::classify::{get_classes, render_classes};
use newscache::item::NewsItem;

fn item(score: u32, seen: u64) -> NewsItem {
    NewsItem { id: 1, title: "t".to_owned(), url: None, score, seen }
}

#[test]
fn hot_item_without_visit_marker_is_just_hot() {
    assert_eq!(get_classes(&item(300, 10), &None), "hot");
}

#[test]
fn cold_item_without_visit_marker_has_no_class() {
    assert_eq!(get_classes(&item(50, 10), &None), "");
}

#[test]
fn threshold_is_inclusive() {
    assert_eq!(get_classes(&item(250, 10), &None), "hot");
    assert_eq!(get_classes(&item(249, 10), &None), "");
}

#[test]
fn item_seen_before_visit_is_old() {
    assert_eq!(get_classes(&item(50, 10), &Some(20)), "old");
}

#[test]
fn item_seen_at_or_after_visit_is_new() {
    assert_eq!(get_classes(&item(50, 20), &Some(20)), "new");
    assert_eq!(get_classes(&item(50, 30), &Some(20)), "new");
}

#[test]
fn hot_and_old_compose_with_a_space() {
    assert_eq!(get_classes(&item(300, 10), &Some(20)), "hot old");
    assert_eq!(get_classes(&item(300, 25), &Some(20)), "hot new");
}

#[test]
fn classification_is_deterministic() {
    let it = item(300, 10);
    let last = Some(20);
    let a = get_classes(&it, &last);
    let b = get_classes(&it, &last);
    assert_eq!(a, b);
}

#[test]
fn render_classes_matches_rank_order() {
    let items = vec![item(300, 10), item(50, 30), item(250, 15)];
    let classes = render_classes(&items, &Some(20));
    assert_eq!(classes, vec!["hot old", "new", "hot old"]);
}

#[test]
fn render_classes_without_marker() {
    let items = vec![item(300, 10), item(50, 30)];
    let classes = render_classes(&items, &None);
    assert_eq!(classes, vec!["hot", ""]);
}
