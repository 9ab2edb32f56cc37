use sentry_mobi::auth::Error;
use sentry_mobi::decode::{EventEntry, decode_entry};
use sentry_mobi::fetch::{event_page, issue_page, issues_page, organizations_page, projects_page};
use sentry_mobi::json::JsonValue;

fn obj(fields: Vec<(&str, JsonValue)>) -> JsonValue {
    JsonValue::Object(fields.into_iter().map(|(k, v)| (k.to_string(), v)).collect())
}

fn s(text: &str) -> JsonValue {
    JsonValue::Str(text.to_string())
}

#[test]
fn organizations_decode_with_defaults() {
    let body = r#"[
        {"name": "Acme", "slug": "acme", "links": {"regionUrl": "https://us.sentry.io"}, "isBookmarked": true},
        {"name": "Beta", "slug": "beta", "links": {}}
    ]"#;
    let (orgs, next) = organizations_page(200, None, body).unwrap();
    assert_eq!(next, None);
    assert_eq!(orgs.len(), 2);
    assert_eq!(orgs[0].name, "Acme");
    assert_eq!(orgs[0].slug, "acme");
    assert!(orgs[0].is_bookmarked);
    assert_eq!(orgs[0].links.region_url, "https://us.sentry.io");
    assert_eq!(orgs[0].region_domain(), "us.sentry.io");
    assert!(!orgs[1].is_bookmarked);
    assert_eq!(orgs[1].links.region_url, "");
    assert_eq!(orgs[1].region_domain(), "");
}

#[test]
fn region_domain_of_malformed_url_is_empty() {
    let body = r#"[{"name": "A", "slug": "a", "links": {"regionUrl": "http://plain.example"}}]"#;
    let (orgs, _) = organizations_page(200, None, body).unwrap();
    assert_eq!(orgs[0].region_domain(), "");
}

#[test]
fn organization_missing_links_is_an_error() {
    let body = r#"[{"name": "A", "slug": "a"}]"#;
    match organizations_page(200, None, body) {
        Err(Error::Decode { context }) => assert_eq!(context, "organization"),
        other => panic!("expected a decode error, got {:?}", other),
    }
}

#[test]
fn organization_bad_bookmark_type_is_an_error() {
    let body = r#"[{"name": "A", "slug": "a", "links": {}, "isBookmarked": "yes"}]"#;
    assert!(organizations_page(200, None, body).is_err());
}

#[test]
fn malformed_json_is_an_error() {
    match organizations_page(200, None, "not json") {
        Err(Error::Decode { context }) => assert_eq!(context, "json"),
        other => panic!("expected a decode error, got {:?}", other),
    }
}

#[test]
fn non_success_status_is_upstream_error() {
    match organizations_page(503, None, "oops") {
        Err(Error::Upstream { status, body }) => {
            assert_eq!(status, 503);
            assert_eq!(body, "oops");
        },
        other => panic!("expected an upstream error, got {:?}", other),
    }
}

#[test]
fn projects_decode_and_forward_cursor() {
    let body = r#"[{"name": "API", "slug": "api", "isBookmarked": true}]"#;
    let link = "<https://sentry.io/api/0/p?cursor=3>; rel=\"next\"; results=\"true\"";
    let (projects, next) = projects_page(200, Some(link), body).unwrap();
    assert_eq!(projects.len(), 1);
    assert_eq!(projects[0].name, "API");
    assert!(projects[0].is_bookmarked);
    assert_eq!(next, Some("https://sentry.io/api/0/p?cursor=3".to_string()));
}

#[test]
fn issues_decode_with_defaults() {
    let body = r#"[{
        "title": "boom", "firstSeen": "2024-01-01T00:00:00Z", "lastSeen": "2024-01-02T00:00:00Z",
        "status": "unresolved", "level": "error", "permalink": "https://s/1", "shortId": "PRJ-1",
        "count": "12345678901234567890123", "id": "99"
    }]"#;
    let (issues, next) = issues_page(200, None, body).unwrap();
    assert_eq!(next, None);
    let x = &issues[0];
    assert_eq!(x.title, "boom");
    assert_eq!(x.culprit, "");
    assert_eq!(x.logger, None);
    assert_eq!(x.count, "12345678901234567890123");
    assert_eq!(x.id, "99");
}

#[test]
fn issue_null_logger_reads_as_absent() {
    let body = r#"{
        "title": "t", "culprit": "handler", "firstSeen": "a", "lastSeen": "b",
        "status": "resolved", "level": "warning", "permalink": "p", "shortId": "S-1",
        "logger": null, "count": "3", "id": "7"
    }"#;
    let x = issue_page(200, body).unwrap();
    assert_eq!(x.culprit, "handler");
    assert_eq!(x.logger, None);
    assert_eq!(x.status, "resolved");
}

#[test]
fn issue_missing_title_is_an_error() {
    let body = r#"{"firstSeen": "a", "lastSeen": "b", "status": "s", "level": "l",
        "permalink": "p", "shortId": "i", "count": "1", "id": "2"}"#;
    match issue_page(200, body) {
        Err(Error::Decode { context }) => assert_eq!(context, "issue"),
        other => panic!("expected a decode error, got {:?}", other),
    }
}

#[test]
fn event_with_message_entry() {
    let body = r#"{
        "dateCreated": "2024-05-01T10:00:00Z",
        "tags": [{"key": "env", "value": "prod"}],
        "entries": [{"type": "message", "data": {"formatted": "it broke"}}]
    }"#;
    let ev = event_page(200, body).unwrap();
    assert_eq!(ev.timestamp, "2024-05-01T10:00:00Z");
    assert_eq!(ev.tags.len(), 1);
    assert_eq!(ev.tags[0].key, "env");
    assert_eq!(ev.tags[0].value, "prod");
    assert_eq!(ev.entries.len(), 1);
    match &ev.entries[0] {
        EventEntry::Message { formatted } => assert_eq!(formatted, "it broke"),
        other => panic!("expected a message entry, got {:?}", other),
    }
}

#[test]
fn event_tags_default_to_empty() {
    let body = r#"{"dateCreated": "now", "entries": []}"#;
    let ev = event_page(200, body).unwrap();
    assert!(ev.tags.is_empty());
    assert!(ev.entries.is_empty());
}

#[test]
fn unknown_entry_kind_keeps_fields_verbatim() {
    let body = r#"{
        "dateCreated": "now",
        "entries": [{"type": "spanstream", "alpha": 1, "beta": {"x": null}}]
    }"#;
    let ev = event_page(200, body).unwrap();
    match &ev.entries[0] {
        EventEntry::Unknown { ty, attributes } => {
            assert_eq!(ty, "spanstream");
            assert_eq!(
                attributes,
                &vec![
                    ("alpha".to_string(), JsonValue::Number("1".to_string())),
                    (
                        "beta".to_string(),
                        JsonValue::Object(vec![("x".to_string(), JsonValue::Null)]),
                    ),
                ]
            );
        },
        other => panic!("expected the unknown fallback, got {:?}", other),
    }
}

#[test]
fn known_tag_with_bad_payload_falls_back_to_unknown() {
    let entry = obj(vec![("type", s("message")), ("data", obj(vec![("formatted", JsonValue::Null)]))]);
    match decode_entry(entry).unwrap() {
        EventEntry::Unknown { ty, attributes } => {
            assert_eq!(ty, "message");
            assert_eq!(attributes.len(), 1);
            assert_eq!(attributes[0].0, "data");
        },
        other => panic!("expected the unknown fallback, got {:?}", other),
    }
}

#[test]
fn entry_without_type_is_a_hard_error() {
    let body = r#"{"dateCreated": "now", "entries": [{"data": {}}]}"#;
    match event_page(200, body) {
        Err(Error::Decode { context }) => assert_eq!(context, "event entry"),
        other => panic!("expected a decode error, got {:?}", other),
    }
}

#[test]
fn entry_with_non_string_type_is_a_hard_error() {
    let entry = obj(vec![("type", JsonValue::Number("3".to_string()))]);
    assert!(decode_entry(entry).is_err());
}

#[test]
fn breadcrumbs_entry_decodes_in_order() {
    let body = r#"{
        "dateCreated": "now",
        "entries": [{"type": "breadcrumbs", "data": {"values": [
            {"timestamp": "t1", "level": "info", "message": "one"},
            {"timestamp": "t2", "level": "error", "message": "two"}
        ]}}]
    }"#;
    let ev = event_page(200, body).unwrap();
    match &ev.entries[0] {
        EventEntry::Breadcrumbs { values } => {
            assert_eq!(values.len(), 2);
            assert_eq!(values[0].message, "one");
            assert_eq!(values[1].level, "error");
        },
        other => panic!("expected breadcrumbs, got {:?}", other),
    }
}

#[test]
fn threads_entry_with_stacktrace() {
    let body = r#"{
        "dateCreated": "now",
        "entries": [{"type": "threads", "data": {"values": [
            {"crashed": true, "stacktrace": {"frames": [
                {"function": "main", "filename": "app.py", "lineNo": 10, "inApp": true},
                {"function": "lib"}
            ]}},
            {"current": true, "stacktrace": null},
            {}
        ]}}]
    }"#;
    let ev = event_page(200, body).unwrap();
    match &ev.entries[0] {
        EventEntry::Threads { values } => {
            assert_eq!(values.len(), 3);
            assert!(values[0].crashed && !values[0].current);
            let st = values[0].stacktrace.as_ref().unwrap();
            assert_eq!(st.frames.len(), 2);
            assert_eq!(st.frames[0].function, Some("main".to_string()));
            assert_eq!(st.frames[0].line_no, Some(10));
            assert!(st.frames[0].in_app);
            assert_eq!(st.frames[1].filename, None);
            assert!(!st.frames[1].in_app);
            assert_eq!(values[1].stacktrace, None);
            assert!(!values[2].crashed && !values[2].current);
        },
        other => panic!("expected threads, got {:?}", other),
    }
}

#[test]
fn fractional_line_number_falls_back_to_unknown() {
    let body = r#"{
        "dateCreated": "now",
        "entries": [{"type": "threads", "data": {"values": [
            {"stacktrace": {"frames": [{"lineNo": 1.5}]}}
        ]}}]
    }"#;
    let ev = event_page(200, body).unwrap();
    assert!(matches!(&ev.entries[0], EventEntry::Unknown { ty, .. } if ty == "threads"));
}

#[test]
fn exception_entry_with_defaults() {
    let body = r#"{
        "dateCreated": "now",
        "entries": [{"type": "exception", "data": {"values": [
            {"type": "ValueError", "value": "bad input"},
            {}
        ]}}]
    }"#;
    let ev = event_page(200, body).unwrap();
    match &ev.entries[0] {
        EventEntry::Exception { values } => {
            assert_eq!(values[0].ty, "ValueError");
            assert_eq!(values[0].value, "bad input");
            assert_eq!(values[1].ty, "");
            assert_eq!(values[1].value, "");
        },
        other => panic!("expected exceptions, got {:?}", other),
    }
}

#[test]
fn request_entry_decodes_all_sections() {
    let body = r#"{
        "dateCreated": "now",
        "entries": [{"type": "request", "data": {
            "method": "POST",
            "url": "https://api.example/orders",
            "headers": [["Accept", "text/html"], ["Host", "api.example"]],
            "cookies": [["sid", "123"]],
            "env": {"REMOTE_ADDR": "10.0.0.1"},
            "data": {"order": "42"}
        }}]
    }"#;
    let ev = event_page(200, body).unwrap();
    match &ev.entries[0] {
        EventEntry::Request { data } => {
            assert_eq!(data.method, "POST");
            assert_eq!(data.url, "https://api.example/orders");
            assert_eq!(data.headers.len(), 2);
            assert_eq!(data.headers[0], ("Accept".to_string(), "text/html".to_string()));
            assert_eq!(data.cookies, vec![("sid".to_string(), "123".to_string())]);
            assert_eq!(data.env, vec![("REMOTE_ADDR".to_string(), "10.0.0.1".to_string())]);
            assert_eq!(
                data.body,
                Some(JsonValue::Object(vec![(
                    "order".to_string(),
                    JsonValue::Str("42".to_string()),
                )]))
            );
        },
        other => panic!("expected a request entry, got {:?}", other),
    }
}

#[test]
fn request_entry_without_body_or_lists() {
    let body = r#"{
        "dateCreated": "now",
        "entries": [{"type": "request", "data": {"method": "GET", "url": "u", "data": null}}]
    }"#;
    let ev = event_page(200, body).unwrap();
    match &ev.entries[0] {
        EventEntry::Request { data } => {
            assert!(data.headers.is_empty());
            assert!(data.cookies.is_empty());
            assert!(data.env.is_empty());
            assert_eq!(data.body, None);
        },
        other => panic!("expected a request entry, got {:?}", other),
    }
}

#[test]
fn entry_order_is_preserved() {
    let body = r#"{
        "dateCreated": "now",
        "entries": [
            {"type": "zeta", "n": 1},
            {"type": "message", "data": {"formatted": "m"}},
            {"type": "alpha", "n": 2}
        ]
    }"#;
    let ev = event_page(200, body).unwrap();
    assert_eq!(ev.entries.len(), 3);
    assert!(matches!(&ev.entries[0], EventEntry::Unknown { ty, .. } if ty == "zeta"));
    assert!(matches!(&ev.entries[1], EventEntry::Message { .. }));
    assert!(matches!(&ev.entries[2], EventEntry::Unknown { ty, .. } if ty == "alpha"));
}

#[test]
fn extra_unknown_fields_on_records_are_ignored() {
    let body = r#"[{"name": "A", "slug": "a", "links": {}, "dateJoined": "2020", "features": []}]"#;
    let (orgs, _) = organizations_page(200, None, body).unwrap();
    assert_eq!(orgs[0].name, "A");
}

#[test]
fn request_header_pair_of_wrong_arity_falls_back_to_unknown() {
    let body = r#"{
        "dateCreated": "now",
        "entries": [{"type": "request", "data": {
            "method": "GET", "url": "u", "headers": [["only-one"]]
        }}]
    }"#;
    let ev = event_page(200, body).unwrap();
    assert!(matches!(&ev.entries[0], EventEntry::Unknown { ty, .. } if ty == "request"));
}

#[test]
fn inactive_next_link_is_not_followed() {
    let body = r#"[{"name": "API", "slug": "api"}]"#;
    let link = "<https://sentry.io/api/0/p?cursor=3>; rel=\"next\"; results=\"false\"";
    let (_, next) = projects_page(200, Some(link), body).unwrap();
    assert_eq!(next, None);
}
