use newscache::item::SourceError;
use newscache::source::{assemble_item, parse_item_details, parse_top_ids};

#[test]
fn top_ids_are_read_and_capped() {
    let r = parse_top_ids("[11, 22, 33, 44]", 3).unwrap();
    assert_eq!(r, vec![11, 22, 33]);
}

#[test]
fn short_top_id_list_is_taken_whole() {
    let r = parse_top_ids("[7]", 30).unwrap();
    assert_eq!(r, vec![7]);
}

#[test]
fn top_ids_of_non_array_fail_to_parse() {
    assert_eq!(parse_top_ids("{\"a\": 1}", 5).unwrap_err(), SourceError::Parse);
    assert_eq!(parse_top_ids("12", 5).unwrap_err(), SourceError::Parse);
}

#[test]
fn top_ids_with_a_non_number_fail_to_parse() {
    assert_eq!(parse_top_ids("[1, \"x\", 3]", 5).unwrap_err(), SourceError::Parse);
}

#[test]
fn top_ids_of_broken_text_fail_to_parse() {
    assert_eq!(parse_top_ids("[1, 2", 5).unwrap_err(), SourceError::Parse);
}

#[test]
fn item_details_are_read() {
    let text = "{\"id\": 9, \"title\": \"A story\", \"url\": \"http://e/x\", \"score\": 77}";
    let raw = parse_item_details(text).unwrap();
    assert_eq!(raw.id, 9);
    assert_eq!(raw.title, "A story");
    assert_eq!(raw.url.as_deref(), Some("http://e/x"));
    assert_eq!(raw.score, 77);
}

#[test]
fn item_without_url_is_read() {
    let text = "{\"id\": 9, \"title\": \"A story\", \"score\": 77}";
    let raw = parse_item_details(text).unwrap();
    assert_eq!(raw.url, None);
}

#[test]
fn item_missing_title_fails_to_parse() {
    let text = "{\"id\": 9, \"score\": 77}";
    assert_eq!(parse_item_details(text).unwrap_err(), SourceError::Parse);
}

#[test]
fn item_with_wrongly_typed_url_fails_to_parse() {
    let text = "{\"id\": 9, \"title\": \"t\", \"url\": 5, \"score\": 77}";
    assert_eq!(parse_item_details(text).unwrap_err(), SourceError::Parse);
}

#[test]
fn item_that_is_no_object_fails_to_parse() {
    assert_eq!(parse_item_details("[1, 2]").unwrap_err(), SourceError::Parse);
    assert_eq!(parse_item_details("not json").unwrap_err(), SourceError::Parse);
}

#[test]
fn assemble_requires_id_title_and_score() {
    let r = assemble_item(Some(1), Some("t".to_owned()), false, None, Some(2)).unwrap();
    assert_eq!(r.id, 1);
    assert_eq!(r.title, "t");
    assert_eq!(r.url, None);
    assert_eq!(r.score, 2);
    assert_eq!(
        assemble_item(None, Some("t".to_owned()), false, None, Some(2)).unwrap_err(),
        SourceError::Parse
    );
    assert_eq!(assemble_item(Some(1), None, false, None, Some(2)).unwrap_err(), SourceError::Parse);
    assert_eq!(
        assemble_item(Some(1), Some("t".to_owned()), false, None, None).unwrap_err(),
        SourceError::Parse
    );
}

#[test]
fn assemble_requires_text_for_a_present_url() {
    assert_eq!(
        assemble_item(Some(1), Some("t".to_owned()), true, None, Some(2)).unwrap_err(),
        SourceError::Parse
    );
    let r = assemble_item(Some(1), Some("t".to_owned()), true, Some("u".to_owned()), Some(2))
        .unwrap();
    assert_eq!(r.url.as_deref(), Some("u"));
}
