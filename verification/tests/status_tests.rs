use sentry_mobi::status::{ApiUpdate, StatusParam, UpdateParams, status_from_form};

fn to_api(status: StatusParam) -> ApiUpdate {
    UpdateParams { status }.to_api()
}

#[test]
fn encode_unresolved() {
    let u = to_api(StatusParam::Unresolved);
    assert_eq!(u.status, "unresolved");
    assert_eq!(u.substatus, None);
    assert!(u.status_details.is_empty());
}

#[test]
fn encode_resolved() {
    let u = to_api(StatusParam::Resolved);
    assert_eq!(u.status, "resolved");
    assert_eq!(u.substatus, None);
    assert!(u.status_details.is_empty());
}

#[test]
fn encode_resolved_in_next_release() {
    let u = to_api(StatusParam::ResolvedInNextRelease);
    assert_eq!(u.status, "resolved");
    assert_eq!(u.substatus, None);
    assert_eq!(u.status_details, vec![("inNextRelease".to_string(), true)]);
}

#[test]
fn encode_archived_until_escalating() {
    let u = to_api(StatusParam::ArchivedUntilEscalating);
    assert_eq!(u.status, "ignored");
    assert_eq!(u.substatus, Some("archived_until_escalating".to_string()));
    assert!(u.status_details.is_empty());
}

#[test]
fn encode_archived_forever() {
    let u = to_api(StatusParam::ArchivedForever);
    assert_eq!(u.status, "ignored");
    assert_eq!(u.substatus, Some("archived_forever".to_string()));
    assert!(u.status_details.is_empty());
}

#[test]
fn payload_json_without_substatus() {
    let u = to_api(StatusParam::Unresolved);
    assert_eq!(u.payload_json(), "{\"status\":\"unresolved\",\"statusDetails\":{}}");
}

#[test]
fn payload_json_with_details() {
    let u = to_api(StatusParam::ResolvedInNextRelease);
    assert_eq!(
        u.payload_json(),
        "{\"status\":\"resolved\",\"statusDetails\":{\"inNextRelease\":true}}"
    );
}

#[test]
fn payload_json_with_substatus() {
    let u = to_api(StatusParam::ArchivedForever);
    assert_eq!(
        u.payload_json(),
        "{\"status\":\"ignored\",\"substatus\":\"archived_forever\",\"statusDetails\":{}}"
    );
}

#[test]
fn form_values_parse() {
    assert_eq!(status_from_form("unresolved"), Some(StatusParam::Unresolved));
    assert_eq!(status_from_form("resolved"), Some(StatusParam::Resolved));
    assert_eq!(
        status_from_form("resolved_in_next_release"),
        Some(StatusParam::ResolvedInNextRelease)
    );
    assert_eq!(
        status_from_form("archived_until_escalating"),
        Some(StatusParam::ArchivedUntilEscalating)
    );
    assert_eq!(status_from_form("archived_forever"), Some(StatusParam::ArchivedForever));
}

#[test]
fn unknown_form_value_is_rejected() {
    assert_eq!(status_from_form("muted"), None);
    assert_eq!(status_from_form(""), None);
    assert_eq!(status_from_form("Resolved"), None);
}
