use newscache::cookie::get_seen_from_cookies;

#[test]
fn plain_visit_marker_is_read() {
    assert_eq!(get_seen_from_cookies(b"visit=123"), Some(123));
}

#[test]
fn marker_inside_a_larger_header_is_read() {
    assert_eq!(get_seen_from_cookies(b"theme=dark; visit=42; lang=en"), Some(42));
}

#[test]
fn last_of_several_markers_wins() {
    assert_eq!(get_seen_from_cookies(b"visit=1; visit=2"), Some(2));
}

#[test]
fn digit_run_is_read_greedily() {
    assert_eq!(get_seen_from_cookies(b"visit=00450abc"), Some(450));
}

#[test]
fn header_without_marker_yields_nothing() {
    assert_eq!(get_seen_from_cookies(b"theme=dark"), None);
    assert_eq!(get_seen_from_cookies(b""), None);
}

#[test]
fn marker_without_digits_yields_nothing() {
    assert_eq!(get_seen_from_cookies(b"visit="), None);
    assert_eq!(get_seen_from_cookies(b"visit=x9"), None);
}

#[test]
fn largest_value_still_fits() {
    assert_eq!(get_seen_from_cookies(b"visit=18446744073709551615"), Some(u64::MAX));
}

#[test]
fn overflowing_value_yields_nothing() {
    assert_eq!(get_seen_from_cookies(b"visit=18446744073709551616"), None);
    assert_eq!(get_seen_from_cookies(b"visit=99999999999999999999999"), None);
}

#[test]
fn incomplete_marker_yields_nothing() {
    assert_eq!(get_seen_from_cookies(b"visi=5; vis it=7"), None);
}

#[test]
fn later_malformed_marker_does_not_hide_an_earlier_one() {
    assert_eq!(get_seen_from_cookies(b"visit=31; visit=x"), Some(31));
}
