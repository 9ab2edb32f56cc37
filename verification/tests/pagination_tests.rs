use sentry_mobi::pagination::get_next_link;

#[test]
fn exact_header_yields_cursor() {
    let h = "<https://x/y?cursor=2>; rel=\"next\"; results=\"true\"";
    assert_eq!(get_next_link(Some(h)), Some("https://x/y?cursor=2".to_string()));
}

#[test]
fn results_false_yields_no_cursor() {
    let h = "<https://x/y?cursor=2>; rel=\"next\"; results=\"false\"";
    assert_eq!(get_next_link(Some(h)), None);
}

#[test]
fn missing_results_attribute_yields_no_cursor() {
    let h = "<https://x/y?cursor=2>; rel=\"next\"";
    assert_eq!(get_next_link(Some(h)), None);
}

#[test]
fn absent_header_yields_no_cursor() {
    assert_eq!(get_next_link(None), None);
}

#[test]
fn previous_relation_alone_yields_no_cursor() {
    let h = "<https://x/y?cursor=0>; rel=\"previous\"; results=\"false\"";
    assert_eq!(get_next_link(Some(h)), None);
}

#[test]
fn match_is_case_sensitive() {
    let h = "<https://x/y?cursor=2>; rel=\"NEXT\"; results=\"true\"";
    assert_eq!(get_next_link(Some(h)), None);
    let h2 = "<https://x/y?cursor=2>; rel=\"next\"; results=\"True\"";
    assert_eq!(get_next_link(Some(h2)), None);
}

#[test]
fn first_of_two_matches_wins() {
    let h = "<https://a>; rel=\"next\"; results=\"true\", <https://b>; rel=\"next\"; results=\"true\"";
    assert_eq!(get_next_link(Some(h)), Some("https://a".to_string()));
}

#[test]
fn capture_is_shortest_at_leftmost_start() {
    let h = "<<x>; rel=\"next\"; results=\"true\"";
    assert_eq!(get_next_link(Some(h)), Some("<x".to_string()));
}

#[test]
fn capture_never_spans_a_line_break() {
    let h = "<a\nb>; rel=\"next\"; results=\"true\"";
    assert_eq!(get_next_link(Some(h)), None);
}

#[test]
fn empty_capture_is_no_match() {
    let h = "<>; rel=\"next\"; results=\"true\"";
    assert_eq!(get_next_link(Some(h)), None);
}
