//! Fetch planning and response handling for the paginated list endpoints
//! and the issue detail pair. The transport performs the actual requests;
//! everything decided here — which URL, which query parameters, how a
//! response is read — is verified. A continuation cursor is used verbatim
//! as the full request URL, and query parameters are then not re-applied.

use vstd::prelude::*;
use vstd::string::StringExecFns;
use crate::auth::Error;
use crate::decode::{
    ApiOrganization, ApiProject, ApiIssue, ApiEvent, decode_organizations, decode_projects,
    decode_issues, decode_issue, decode_event, org_list_ok, orgs_match, project_list_ok,
    projects_match, issue_list_ok, issues_match, issue_ok, issue_matches, event_ok, event_matches,
};
use crate::json::{json_doc, parse_json};
use crate::pagination::{cursor_matches, get_next_link};
use crate::status::ApiUpdate;
use crate::text::clone_string;

verus! {

/// Query parameters of the project listing page.
#[derive(Debug, PartialEq, Eq)]
pub struct Params {
    pub next_link: Option<String>,
}

/// Query parameters of the issue stream page.
#[derive(Debug, PartialEq, Eq)]
pub struct SearchQuery {
    pub query: Option<String>,
    pub next_link: Option<String>,
}

/// One planned GET: the URL to fetch and the query parameters to attach.
#[derive(Debug, PartialEq, Eq)]
pub struct FetchPlan {
    pub url: String,
    pub query: Vec<(String, String)>,
}

/// The region hosts whose organizations the overview merges.
pub fn region_domains() -> (r: Vec<String>)
    ensures
        r@.len() == 2,
        r@[0]@ == "us.sentry.io"@,
        r@[1]@ == "de.sentry.io"@,
{
    let mut v: Vec<String> = Vec::new();
    v.push(String::from_str("us.sentry.io"));
    v.push(String::from_str("de.sentry.io"));
    v
}

pub fn organizations_url(domain: &str) -> (r: String)
    ensures
        r@ == "https://"@ + domain@ + "/api/0/organizations/"@,
{
    let mut s = String::from_str("https://");
    s.append(domain);
    s.append("/api/0/organizations/");
    s
}

pub fn projects_url(org: &str) -> (r: String)
    ensures
        r@ == "https://sentry.io/api/0/organizations/"@ + org@ + "/projects/"@,
{
    let mut s = String::from_str("https://sentry.io/api/0/organizations/");
    s.append(org);
    s.append("/projects/");
    s
}

pub fn issues_url(org: &str, proj: &str) -> (r: String)
    ensures
        r@ == "https://sentry.io/api/0/projects/"@ + org@ + "/"@ + proj@ + "/issues/"@,
{
    let mut s = String::from_str("https://sentry.io/api/0/projects/");
    s.append(org);
    s.append("/");
    s.append(proj);
    s.append("/issues/");
    s
}

pub fn issue_url(org: &str, issue_id: &str) -> (r: String)
    ensures
        r@ == "https://sentry.io/api/0/organizations/"@ + org@ + "/issues/"@ + issue_id@ + "/"@,
{
    let mut s = String::from_str("https://sentry.io/api/0/organizations/");
    s.append(org);
    s.append("/issues/");
    s.append(issue_id);
    s.append("/");
    s
}

pub fn latest_event_url(org: &str, issue_id: &str) -> (r: String)
    ensures
        r@ == "https://sentry.io/api/0/organizations/"@ + org@ + "/issues/"@ + issue_id@
            + "/events/latest/"@,
{
    let mut s = String::from_str("https://sentry.io/api/0/organizations/");
    s.append(org);
    s.append("/issues/");
    s.append(issue_id);
    s.append("/events/latest/");
    s
}

/// The issue filter used when the caller supplies none.
pub fn default_issue_query() -> (r: String)
    ensures
        r@ == "is:unresolved issue.priority:[high, medium]"@,
{
    String::from_str("is:unresolved issue.priority:[high, medium]")
}

/// The query parameters of the issue stream: the free-text filter passed
/// through verbatim, and the page size.
pub fn issues_query_params(query: &str) -> (r: Vec<(String, String)>)
    ensures
        r@.len() == 2,
        r@[0].0@ == "query"@ && r@[0].1@ == query@,
        r@[1].0@ == "limit"@ && r@[1].1@ == "25"@,
{
    let mut v: Vec<(String, String)> = Vec::new();
    v.push((String::from_str("query"), String::from_str(query)));
    v.push((String::from_str("limit"), String::from_str("25")));
    v
}

/// Plans one list GET. A cursor from a prior page is the full request URL
/// and the query parameters are dropped: the cursor already encodes them.
pub fn plan_fetch(base: String, query: Vec<(String, String)>, cursor: Option<String>) -> (r:
    FetchPlan)
    ensures
        match cursor {
            Some(c) => r.url == c && r.query@.len() == 0,
            None => r.url == base && r.query == query,
        },
{
    match cursor {
        Some(c) => FetchPlan { url: c, query: Vec::new() },
        None => FetchPlan { url: base, query },
    }
}

/// A successful HTTP status.
pub open spec fn ok_status(status: u16) -> bool {
    200 <= status < 300
}

/// How the forwarded cursor relates to the response's link header.
pub open spec fn next_of(link_header: Option<&str>, out: Option<String>) -> bool {
    match link_header {
        None => out is None,
        Some(h) => match out {
            None => cursor_matches(h@, None),
            Some(c) => cursor_matches(h@, Some(c@)),
        },
    }
}

/// Reads one organization list response: a non-2xx status is a hard
/// failure, a malformed or ill-shaped body is a decode failure, and a good
/// page yields the items in server order with the forwarded cursor.
pub fn organizations_page(status: u16, link_header: Option<&str>, body: &str) -> (r: Result<
    (Vec<ApiOrganization>, Option<String>),
    Error,
>)
    ensures
        !ok_status(status) ==> (r matches Err(Error::Upstream { status: st, body: b }) && st
            == status && b@ == body@),
        ok_status(status) ==> (json_doc(body@) is None ==> (r matches Err(Error::Decode { context })
            && context@ == "json"@)),
        ok_status(status) ==> (json_doc(body@) matches Some(doc) ==> {
            &&& r is Ok <==> org_list_ok(doc)
            &&& (r matches Ok(p) ==> orgs_match(p.0@, doc) && next_of(link_header, p.1))
            &&& (r matches Err(e) ==> (e matches Error::Decode { context } && (context@
                == "organization list"@ || context@ == "organization"@)))
        }),
{
    if !(status >= 200 && status < 300) {
        return Err(Error::Upstream { status, body: String::from_str(body) });
    }
    let doc = match parse_json(body) {
        Some(doc) => doc,
        None => {
            return Err(Error::Decode { context: String::from_str("json") });
        },
    };
    let items = match decode_organizations(&doc) {
        Ok(items) => items,
        Err(e) => {
            return Err(Error::Decode { context: e.context });
        },
    };
    let next = get_next_link(link_header);
    Ok((items, next))
}

/// Reads one project list response; the same shape as the organizations
/// page.
pub fn projects_page(status: u16, link_header: Option<&str>, body: &str) -> (r: Result<
    (Vec<ApiProject>, Option<String>),
    Error,
>)
    ensures
        !ok_status(status) ==> (r matches Err(Error::Upstream { status: st, body: b }) && st
            == status && b@ == body@),
        ok_status(status) ==> (json_doc(body@) is None ==> (r matches Err(Error::Decode { context })
            && context@ == "json"@)),
        ok_status(status) ==> (json_doc(body@) matches Some(doc) ==> {
            &&& r is Ok <==> project_list_ok(doc)
            &&& (r matches Ok(p) ==> projects_match(p.0@, doc) && next_of(link_header, p.1))
            &&& (r matches Err(e) ==> (e matches Error::Decode { context } && (context@
                == "project list"@ || context@ == "project"@)))
        }),
{
    if !(status >= 200 && status < 300) {
        return Err(Error::Upstream { status, body: String::from_str(body) });
    }
    let doc = match parse_json(body) {
        Some(doc) => doc,
        None => {
            return Err(Error::Decode { context: String::from_str("json") });
        },
    };
    let items = match decode_projects(&doc) {
        Ok(items) => items,
        Err(e) => {
            return Err(Error::Decode { context: e.context });
        },
    };
    let next = get_next_link(link_header);
    Ok((items, next))
}

/// Reads one issue list response; the same shape as the organizations
/// page.
pub fn issues_page(status: u16, link_header: Option<&str>, body: &str) -> (r: Result<
    (Vec<ApiIssue>, Option<String>),
    Error,
>)
    ensures
        !ok_status(status) ==> (r matches Err(Error::Upstream { status: st, body: b }) && st
            == status && b@ == body@),
        ok_status(status) ==> (json_doc(body@) is None ==> (r matches Err(Error::Decode { context })
            && context@ == "json"@)),
        ok_status(status) ==> (json_doc(body@) matches Some(doc) ==> {
            &&& r is Ok <==> issue_list_ok(doc)
            &&& (r matches Ok(p) ==> issues_match(p.0@, doc) && next_of(link_header, p.1))
            &&& (r matches Err(e) ==> (e matches Error::Decode { context } && (context@
                == "issue list"@ || context@ == "issue"@)))
        }),
{
    if !(status >= 200 && status < 300) {
        return Err(Error::Upstream { status, body: String::from_str(body) });
    }
    let doc = match parse_json(body) {
        Some(doc) => doc,
        None => {
            return Err(Error::Decode { context: String::from_str("json") });
        },
    };
    let items = match decode_issues(&doc) {
        Ok(items) => items,
        Err(e) => {
            return Err(Error::Decode { context: e.context });
        },
    };
    let next = get_next_link(link_header);
    Ok((items, next))
}

/// Reads the single-issue response of the detail view.
pub fn issue_page(status: u16, body: &str) -> (r: Result<ApiIssue, Error>)
    ensures
        !ok_status(status) ==> (r matches Err(Error::Upstream { status: st, body: b }) && st
            == status && b@ == body@),
        ok_status(status) ==> (json_doc(body@) is None ==> (r matches Err(Error::Decode { context })
            && context@ == "json"@)),
        ok_status(status) ==> (json_doc(body@) matches Some(doc) ==> {
            &&& r is Ok <==> issue_ok(doc)
            &&& (r matches Ok(x) ==> issue_matches(x, doc))
            &&& (r matches Err(e) ==> (e matches Error::Decode { context } && context@
                == "issue"@))
        }),
{
    if !(status >= 200 && status < 300) {
        return Err(Error::Upstream { status, body: String::from_str(body) });
    }
    let doc = match parse_json(body) {
        Some(doc) => doc,
        None => {
            return Err(Error::Decode { context: String::from_str("json") });
        },
    };
    match decode_issue(&doc) {
        Ok(x) => Ok(x),
        Err(e) => Err(Error::Decode { context: e.context }),
    }
}

/// Reads the latest-event response of the detail view.
pub fn event_page(status: u16, body: &str) -> (r: Result<ApiEvent, Error>)
    ensures
        !ok_status(status) ==> (r matches Err(Error::Upstream { status: st, body: b }) && st
            == status && b@ == body@),
        ok_status(status) ==> (json_doc(body@) is None ==> (r matches Err(Error::Decode { context })
            && context@ == "json"@)),
        ok_status(status) ==> (json_doc(body@) matches Some(doc) ==> {
            &&& r is Ok <==> event_ok(doc)
            &&& (r matches Ok(ev) ==> event_matches(ev, doc))
            &&& (r matches Err(e) ==> (e matches Error::Decode { context } && (context@
                == "event"@ || context@ == "event entry"@)))
        }),
{
    if !(status >= 200 && status < 300) {
        return Err(Error::Upstream { status, body: String::from_str(body) });
    }
    let doc = match parse_json(body) {
        Some(doc) => doc,
        None => {
            return Err(Error::Decode { context: String::from_str("json") });
        },
    };
    match decode_event(doc) {
        Ok(ev) => Ok(ev),
        Err(e) => Err(Error::Decode { context: e.context }),
    }
}

/// Joins the two independent fetches of the detail view. Both must have
/// succeeded for the pair to exist: failure of either fails the whole
/// call, and no partial result is produced.
pub fn combine_issue_event(issue: Result<ApiIssue, Error>, event: Result<ApiEvent, Error>) -> (r:
    Result<(ApiIssue, ApiEvent), Error>)
    ensures
        issue matches Ok(x) ==> (event matches Ok(ev) ==> (r matches Ok(p) && p.0 == x && p.1
            == ev)),
        issue matches Err(e) ==> r == Result::<(ApiIssue, ApiEvent), Error>::Err(e),
        issue is Ok ==> (event matches Err(e) ==> r == Result::<(ApiIssue, ApiEvent), Error>::Err(
            e,
        )),
{
    match issue {
        Ok(x) => match event {
            Ok(ev) => Ok((x, ev)),
            Err(e) => Err(e),
        },
        Err(e) => Err(e),
    }
}

/// Reads the response of the status-update `PUT`: on success the caller
/// shows the status word that was sent.
pub fn update_outcome(update: &ApiUpdate, status: u16, body: &str) -> (r: Result<String, Error>)
    ensures
        !ok_status(status) ==> (r matches Err(Error::Upstream { status: st, body: b }) && st
            == status && b@ == body@),
        ok_status(status) ==> (r matches Ok(s) && s@ == update.status@),
{
    if status >= 200 && status < 300 {
        Ok(clone_string(&update.status))
    } else {
        Err(Error::Upstream { status, body: String::from_str(body) })
    }
}

} // verus!
