use sentry_mobi::auth::{
    AuthParams, Error, IndexPage, RedirectTo, SentryToken, auth_redirect, index_page,
    needs_auth_location,
};
use sentry_mobi::fetch::{
    combine_issue_event, default_issue_query, event_page, issue_page, issue_url,
    issues_query_params, issues_url, latest_event_url, organizations_url, plan_fetch,
    projects_url, region_domains, update_outcome,
};
use sentry_mobi::status::{StatusParam, UpdateParams};

fn token(value: &str) -> SentryToken {
    SentryToken { token: value.to_string(), redirect_to: "/acme/api".to_string() }
}

/// A stand-in transport that counts how often it is asked to send.
struct CountingTransport {
    calls: usize,
}

impl CountingTransport {
    fn send(&mut self, _url: &str) -> (u16, String) {
        self.calls += 1;
        (200, "[]".to_string())
    }
}

#[test]
fn empty_token_yields_needs_auth_without_any_network_call() {
    let mut transport = CountingTransport { calls: 0 };
    let t = token("");
    let outcome = match t.client() {
        Ok(handle) => {
            let (status, body) = transport.send(&organizations_url("us.sentry.io"));
            let _ = handle;
            organizations_status(status, &body)
        },
        Err(e) => Err(e),
    };
    match outcome {
        Err(Error::NeedsAuth { redirect_to }) => {
            assert_eq!(redirect_to, Some("/acme/api".to_string()));
        },
        other => panic!("expected a needs-auth outcome, got {:?}", other),
    }
    assert_eq!(transport.calls, 0);
}

fn organizations_status(status: u16, body: &str) -> Result<(), Error> {
    sentry_mobi::fetch::organizations_page(status, None, body).map(|_| ())
}

#[test]
fn non_empty_token_builds_an_authorized_handle() {
    let t = token("abc123");
    let handle = t.client().unwrap();
    assert_eq!(handle.authorization(), "Bearer abc123");
}

#[test]
fn needs_auth_redirects_back_to_login() {
    assert_eq!(needs_auth_location(&Some("/a/b".to_string())), "/?redirect_to=/a/b");
    assert_eq!(needs_auth_location(&None), "/");
}

#[test]
fn login_redirect_target() {
    let params = AuthParams { token: "t".to_string(), redirect_to: Some("/back".to_string()) };
    assert_eq!(auth_redirect(params.redirect_to), "/back");
    assert_eq!(auth_redirect(None), "/");
}

#[test]
fn index_shows_login_only_without_token() {
    let login = index_page(&token(""), RedirectTo { redirect_to: Some("/x".to_string()) });
    assert_eq!(login, IndexPage::Login { redirect_to: Some("/x".to_string()) });
    let home = index_page(&token("tok"), RedirectTo { redirect_to: None });
    assert_eq!(home, IndexPage::Organizations);
}

#[test]
fn cursor_is_used_verbatim_and_parameters_dropped() {
    let base = issues_url("acme", "api");
    let params = issues_query_params("is:unresolved");
    let plan = plan_fetch(base, params, Some("https://next.page/x?cursor=9".to_string()));
    assert_eq!(plan.url, "https://next.page/x?cursor=9");
    assert!(plan.query.is_empty());
}

#[test]
fn without_cursor_base_and_parameters_are_kept() {
    let base = issues_url("acme", "api");
    let params = issues_query_params("is:unresolved");
    let plan = plan_fetch(base, params, None);
    assert_eq!(plan.url, "https://sentry.io/api/0/projects/acme/api/issues/");
    assert_eq!(
        plan.query,
        vec![
            ("query".to_string(), "is:unresolved".to_string()),
            ("limit".to_string(), "25".to_string()),
        ]
    );
}

#[test]
fn endpoint_urls() {
    assert_eq!(organizations_url("de.sentry.io"), "https://de.sentry.io/api/0/organizations/");
    assert_eq!(projects_url("acme"), "https://sentry.io/api/0/organizations/acme/projects/");
    assert_eq!(issue_url("acme", "42"), "https://sentry.io/api/0/organizations/acme/issues/42/");
    assert_eq!(
        latest_event_url("acme", "42"),
        "https://sentry.io/api/0/organizations/acme/issues/42/events/latest/"
    );
    let domains = region_domains();
    assert_eq!(domains, vec!["us.sentry.io".to_string(), "de.sentry.io".to_string()]);
    assert_eq!(default_issue_query(), "is:unresolved issue.priority:[high, medium]");
}

const ISSUE_BODY: &str = r#"{
    "title": "t", "firstSeen": "a", "lastSeen": "b", "status": "unresolved",
    "level": "error", "permalink": "p", "shortId": "S-1", "count": "1", "id": "9"
}"#;

const EVENT_BODY: &str = r#"{"dateCreated": "now", "entries": []}"#;

#[test]
fn combined_fetch_succeeds_when_both_succeed() {
    let issue = issue_page(200, ISSUE_BODY);
    let event = event_page(200, EVENT_BODY);
    let (x, ev) = combine_issue_event(issue, event).unwrap();
    assert_eq!(x.title, "t");
    assert_eq!(ev.timestamp, "now");
}

#[test]
fn combined_fetch_fails_as_a_whole_on_one_upstream_failure() {
    let issue = issue_page(200, ISSUE_BODY);
    let event = event_page(502, "bad gateway");
    match combine_issue_event(issue, event) {
        Err(Error::Upstream { status, body }) => {
            assert_eq!(status, 502);
            assert_eq!(body, "bad gateway");
        },
        other => panic!("expected the upstream failure, got {:?}", other),
    }
}

#[test]
fn combined_fetch_reports_the_issue_failure_first() {
    let issue = issue_page(404, "missing");
    let event = event_page(500, "broken");
    match combine_issue_event(issue, event) {
        Err(Error::Upstream { status, .. }) => assert_eq!(status, 404),
        other => panic!("expected the upstream failure, got {:?}", other),
    }
}

#[test]
fn update_outcome_reports_the_sent_status() {
    let update = UpdateParams { status: StatusParam::ArchivedForever }.to_api();
    assert_eq!(update_outcome(&update, 200, "").unwrap(), "ignored");
    match update_outcome(&update, 400, "nope") {
        Err(Error::Upstream { status, body }) => {
            assert_eq!(status, 400);
            assert_eq!(body, "nope");
        },
        other => panic!("expected the upstream failure, got {:?}", other),
    }
}
