//! Decoders from the JSON document model into typed records: organizations,
//! projects, issues, events, and the polymorphic event-entry union. Field
//! names arrive in camelCase; optional fields have documented defaults. A
//! missing required field of a known record is a hard decode error, while an
//! event entry of unknown or ill-shaped kind falls back to `Unknown` and
//! keeps its fields verbatim.

use vstd::prelude::*;
use vstd::string::StrSliceExecFns;
use crate::json::{JsonValue, lookup, find_first, extract_first, lemma_lookup_add};
use crate::text::{clone_string, str_eq, all_digits, dec_val, parse_u64};

verus! {

/// A malformed response body for a known record shape: surfaced to the
/// caller as a hard failure.
#[derive(Debug, PartialEq, Eq)]
pub struct DecodeError {
    pub context: String,
}

fn decode_err(context: &str) -> (r: DecodeError)
    ensures
        r.context@ == context@,
{
    DecodeError { context: String::from_str(context) }
}

// ---------------------------------------------------------------------------
// Field shapes over an object's bindings.
// ---------------------------------------------------------------------------

/// A required string field: present, with a string value.
pub open spec fn str_field(fs: Seq<(String, JsonValue)>, key: Seq<char>) -> Option<String> {
    match lookup(fs, key) {
        Some(JsonValue::Str(s)) => Some(s),
        _ => None,
    }
}

/// An optional string field is well-shaped when absent, null, or a string.
pub open spec fn opt_str_ok(fs: Seq<(String, JsonValue)>, key: Seq<char>) -> bool {
    match lookup(fs, key) {
        None => true,
        Some(JsonValue::Null) => true,
        Some(JsonValue::Str(_)) => true,
        _ => false,
    }
}

pub open spec fn opt_str_view(fs: Seq<(String, JsonValue)>, key: Seq<char>) -> Option<Seq<char>> {
    match lookup(fs, key) {
        Some(JsonValue::Str(s)) => Some(s@),
        _ => None,
    }
}

/// A string field that defaults to empty when absent.
pub open spec fn dft_str_ok(fs: Seq<(String, JsonValue)>, key: Seq<char>) -> bool {
    match lookup(fs, key) {
        None => true,
        Some(JsonValue::Str(_)) => true,
        _ => false,
    }
}

pub open spec fn dft_str_view(fs: Seq<(String, JsonValue)>, key: Seq<char>) -> Seq<char> {
    match lookup(fs, key) {
        Some(JsonValue::Str(s)) => s@,
        _ => Seq::empty(),
    }
}

/// A boolean field that defaults to false when absent.
pub open spec fn dft_bool_ok(fs: Seq<(String, JsonValue)>, key: Seq<char>) -> bool {
    match lookup(fs, key) {
        None => true,
        Some(JsonValue::Bool(_)) => true,
        _ => false,
    }
}

pub open spec fn dft_bool_view(fs: Seq<(String, JsonValue)>, key: Seq<char>) -> bool {
    match lookup(fs, key) {
        Some(JsonValue::Bool(b)) => b,
        _ => false,
    }
}

/// An optional line-number field: absent or null, or a number with a `u64`
/// value.
pub open spec fn opt_u64_ok(fs: Seq<(String, JsonValue)>, key: Seq<char>) -> bool {
    match lookup(fs, key) {
        None => true,
        Some(JsonValue::Null) => true,
        Some(JsonValue::Number(t)) => t@.len() > 0 && all_digits(t@) && dec_val(t@) <= u64::MAX,
        _ => false,
    }
}

pub open spec fn opt_u64_view(fs: Seq<(String, JsonValue)>, key: Seq<char>) -> Option<u64> {
    match lookup(fs, key) {
        Some(JsonValue::Number(t)) => if t@.len() > 0 && all_digits(t@) && dec_val(t@)
            <= u64::MAX {
            Some(dec_val(t@) as u64)
        } else {
            None
        },
        _ => None,
    }
}

// ---------------------------------------------------------------------------
// Executable field readers.
// ---------------------------------------------------------------------------

fn read_req_str(fs: &Vec<(String, JsonValue)>, key: &str) -> (r: Option<String>)
    ensures
        match r {
            Some(s) => str_field(fs@, key@) matches Some(t) && s@ == t@,
            None => str_field(fs@, key@) is None,
        },
{
    match find_first(fs, key) {
        Some(i) => match &fs[i].1 {
            JsonValue::Str(s) => Some(clone_string(s)),
            _ => None,
        },
        None => None,
    }
}

fn read_opt_str(fs: &Vec<(String, JsonValue)>, key: &str) -> (r: Result<Option<String>, ()>)
    ensures
        match r {
            Ok(v) => opt_str_ok(fs@, key@) && (match v {
                Some(s) => opt_str_view(fs@, key@) matches Some(t) && s@ == t,
                None => opt_str_view(fs@, key@) is None,
            }),
            Err(_) => !opt_str_ok(fs@, key@),
        },
{
    match find_first(fs, key) {
        Some(i) => match &fs[i].1 {
            JsonValue::Str(s) => Ok(Some(clone_string(s))),
            JsonValue::Null => Ok(None),
            _ => Err(()),
        },
        None => Ok(None),
    }
}

fn read_dft_str(fs: &Vec<(String, JsonValue)>, key: &str) -> (r: Result<String, ()>)
    ensures
        match r {
            Ok(s) => dft_str_ok(fs@, key@) && s@ == dft_str_view(fs@, key@),
            Err(_) => !dft_str_ok(fs@, key@),
        },
{
    match find_first(fs, key) {
        Some(i) => match &fs[i].1 {
            JsonValue::Str(s) => Ok(clone_string(s)),
            _ => Err(()),
        },
        None => Ok(String::new()),
    }
}

fn read_dft_bool(fs: &Vec<(String, JsonValue)>, key: &str) -> (r: Result<bool, ()>)
    ensures
        match r {
            Ok(b) => dft_bool_ok(fs@, key@) && b == dft_bool_view(fs@, key@),
            Err(_) => !dft_bool_ok(fs@, key@),
        },
{
    match find_first(fs, key) {
        Some(i) => match &fs[i].1 {
            JsonValue::Bool(b) => Ok(*b),
            _ => Err(()),
        },
        None => Ok(false),
    }
}

fn read_opt_u64(fs: &Vec<(String, JsonValue)>, key: &str) -> (r: Result<Option<u64>, ()>)
    ensures
        match r {
            Ok(v) => opt_u64_ok(fs@, key@) && v == opt_u64_view(fs@, key@),
            Err(_) => !opt_u64_ok(fs@, key@),
        },
{
    match find_first(fs, key) {
        Some(i) => match &fs[i].1 {
            JsonValue::Number(t) => match parse_u64(t.as_str()) {
                Some(n) => Ok(Some(n)),
                None => Err(()),
            },
            JsonValue::Null => Ok(None),
            _ => Err(()),
        },
        None => Ok(None),
    }
}

// ---------------------------------------------------------------------------
// Organizations.
// ---------------------------------------------------------------------------

#[derive(Debug, PartialEq, Eq)]
pub struct Links {
    pub region_url: String,
}

#[derive(Debug, PartialEq, Eq)]
pub struct ApiOrganization {
    pub name: String,
    pub slug: String,
    pub links: Links,
    pub is_bookmarked: bool,
}

pub open spec fn org_ok(v: JsonValue) -> bool {
    &&& v matches JsonValue::Object(fs)
    &&& str_field(fs@, "name"@) is Some
    &&& str_field(fs@, "slug"@) is Some
    &&& dft_bool_ok(fs@, "isBookmarked"@)
    &&& (lookup(fs@, "links"@) matches Some(JsonValue::Object(lfs)) && dft_str_ok(
        lfs@,
        "regionUrl"@,
    ))
}

pub open spec fn org_matches(o: ApiOrganization, v: JsonValue) -> bool {
    &&& v matches JsonValue::Object(fs)
    &&& (str_field(fs@, "name"@) matches Some(s) && o.name@ == s@)
    &&& (str_field(fs@, "slug"@) matches Some(s) && o.slug@ == s@)
    &&& o.is_bookmarked == dft_bool_view(fs@, "isBookmarked"@)
    &&& (lookup(fs@, "links"@) matches Some(JsonValue::Object(lfs)) && o.links.region_url@
        == dft_str_view(lfs@, "regionUrl"@))
}

pub fn decode_organization(v: &JsonValue) -> (r: Result<ApiOrganization, DecodeError>)
    ensures
        r is Ok <==> org_ok(*v),
        r matches Ok(o) ==> org_matches(o, *v),
        r matches Err(e) ==> e.context@ == "organization"@,
{
    let fs = match v {
        JsonValue::Object(fs) => fs,
        _ => {
            return Err(decode_err("organization"));
        },
    };
    let name = match read_req_str(fs, "name") {
        Some(s) => s,
        None => {
            return Err(decode_err("organization"));
        },
    };
    let slug = match read_req_str(fs, "slug") {
        Some(s) => s,
        None => {
            return Err(decode_err("organization"));
        },
    };
    let is_bookmarked = match read_dft_bool(fs, "isBookmarked") {
        Ok(b) => b,
        Err(_) => {
            return Err(decode_err("organization"));
        },
    };
    let region_url = match find_first(fs, "links") {
        Some(i) => match &fs[i].1 {
            JsonValue::Object(lfs) => match read_dft_str(lfs, "regionUrl") {
                Ok(s) => s,
                Err(_) => {
                    return Err(decode_err("organization"));
                },
            },
            _ => {
                return Err(decode_err("organization"));
            },
        },
        None => {
            return Err(decode_err("organization"));
        },
    };
    Ok(ApiOrganization { name, slug, links: Links { region_url }, is_bookmarked })
}

pub open spec fn org_list_ok(v: JsonValue) -> bool {
    v matches JsonValue::Array(es) && (forall|i: int|
        0 <= i < es@.len() ==> org_ok(#[trigger] es@[i]))
}

pub open spec fn orgs_match(out: Seq<ApiOrganization>, v: JsonValue) -> bool {
    v matches JsonValue::Array(es) && out.len() == es@.len() && (forall|i: int|
        0 <= i < out.len() ==> org_matches(#[trigger] out[i], es@[i]))
}

pub fn decode_organizations(v: &JsonValue) -> (r: Result<Vec<ApiOrganization>, DecodeError>)
    ensures
        r is Ok <==> org_list_ok(*v),
        r matches Ok(out) ==> orgs_match(out@, *v),
        !(v matches JsonValue::Array(_)) && r is Err ==> r->Err_0.context@
            == "organization list"@,
        v matches JsonValue::Array(_) && r is Err ==> r->Err_0.context@ == "organization"@,
{
    let es = match v {
        JsonValue::Array(es) => es,
        _ => {
            return Err(decode_err("organization list"));
        },
    };
    let n = es.len();
    let mut out: Vec<ApiOrganization> = Vec::new();
    let mut i: usize = 0;
    while i < n
        invariant
            *v == JsonValue::Array(*es),
            n == es@.len(),
            i <= n,
            out@.len() == i,
            forall|k: int| 0 <= k < i ==> org_ok(#[trigger] es@[k]),
            forall|k: int| 0 <= k < i ==> org_matches(#[trigger] out@[k], es@[k]),
        decreases n - i,
    {
        match decode_organization(&es[i]) {
            Ok(o) => out.push(o),
            Err(e) => {
                proof {
                    let elems = (*v)->Array_0;
                    assert(elems == *es);
                    assert(!org_ok(elems@[i as int]));
                    assert(!org_list_ok(*v));
                }
                return Err(e);
            },
        }
        i = i + 1;
    }
    Ok(out)
}

// ---------------------------------------------------------------------------
// Projects.
// ---------------------------------------------------------------------------

#[derive(Debug, PartialEq, Eq)]
pub struct ApiProject {
    pub name: String,
    pub slug: String,
    pub is_bookmarked: bool,
}

pub open spec fn project_ok(v: JsonValue) -> bool {
    &&& v matches JsonValue::Object(fs)
    &&& str_field(fs@, "name"@) is Some
    &&& str_field(fs@, "slug"@) is Some
    &&& dft_bool_ok(fs@, "isBookmarked"@)
}

pub open spec fn project_matches(p: ApiProject, v: JsonValue) -> bool {
    &&& v matches JsonValue::Object(fs)
    &&& (str_field(fs@, "name"@) matches Some(s) && p.name@ == s@)
    &&& (str_field(fs@, "slug"@) matches Some(s) && p.slug@ == s@)
    &&& p.is_bookmarked == dft_bool_view(fs@, "isBookmarked"@)
}

pub fn decode_project(v: &JsonValue) -> (r: Result<ApiProject, DecodeError>)
    ensures
        r is Ok <==> project_ok(*v),
        r matches Ok(p) ==> project_matches(p, *v),
        r matches Err(e) ==> e.context@ == "project"@,
{
    let fs = match v {
        JsonValue::Object(fs) => fs,
        _ => {
            return Err(decode_err("project"));
        },
    };
    let name = match read_req_str(fs, "name") {
        Some(s) => s,
        None => {
            return Err(decode_err("project"));
        },
    };
    let slug = match read_req_str(fs, "slug") {
        Some(s) => s,
        None => {
            return Err(decode_err("project"));
        },
    };
    let is_bookmarked = match read_dft_bool(fs, "isBookmarked") {
        Ok(b) => b,
        Err(_) => {
            return Err(decode_err("project"));
        },
    };
    Ok(ApiProject { name, slug, is_bookmarked })
}

pub open spec fn project_list_ok(v: JsonValue) -> bool {
    v matches JsonValue::Array(es) && (forall|i: int|
        0 <= i < es@.len() ==> project_ok(#[trigger] es@[i]))
}

pub open spec fn projects_match(out: Seq<ApiProject>, v: JsonValue) -> bool {
    v matches JsonValue::Array(es) && out.len() == es@.len() && (forall|i: int|
        0 <= i < out.len() ==> project_matches(#[trigger] out[i], es@[i]))
}

pub fn decode_projects(v: &JsonValue) -> (r: Result<Vec<ApiProject>, DecodeError>)
    ensures
        r is Ok <==> project_list_ok(*v),
        r matches Ok(out) ==> projects_match(out@, *v),
        !(v matches JsonValue::Array(_)) && r is Err ==> r->Err_0.context@ == "project list"@,
        v matches JsonValue::Array(_) && r is Err ==> r->Err_0.context@ == "project"@,
{
    let es = match v {
        JsonValue::Array(es) => es,
        _ => {
            return Err(decode_err("project list"));
        },
    };
    let n = es.len();
    let mut out: Vec<ApiProject> = Vec::new();
    let mut i: usize = 0;
    while i < n
        invariant
            *v == JsonValue::Array(*es),
            n == es@.len(),
            i <= n,
            out@.len() == i,
            forall|k: int| 0 <= k < i ==> project_ok(#[trigger] es@[k]),
            forall|k: int| 0 <= k < i ==> project_matches(#[trigger] out@[k], es@[k]),
        decreases n - i,
    {
        match decode_project(&es[i]) {
            Ok(p) => out.push(p),
            Err(e) => {
                proof {
                    let elems = (*v)->Array_0;
                    assert(elems == *es);
                    assert(!project_ok(elems@[i as int]));
                    assert(!project_list_ok(*v));
                }
                return Err(e);
            },
        }
        i = i + 1;
    }
    Ok(out)
}

// ---------------------------------------------------------------------------
// Issues.
// ---------------------------------------------------------------------------

#[derive(Debug, PartialEq, Eq)]
pub struct ApiIssue {
    pub title: String,
    pub culprit: String,
    pub first_seen: String,
    pub last_seen: String,
    pub status: String,
    pub level: String,
    pub permalink: String,
    pub short_id: String,
    pub logger: Option<String>,
    pub count: String,
    pub id: String,
}

pub open spec fn issue_ok(v: JsonValue) -> bool {
    &&& v matches JsonValue::Object(fs)
    &&& str_field(fs@, "title"@) is Some
    &&& dft_str_ok(fs@, "culprit"@)
    &&& str_field(fs@, "firstSeen"@) is Some
    &&& str_field(fs@, "lastSeen"@) is Some
    &&& str_field(fs@, "status"@) is Some
    &&& str_field(fs@, "level"@) is Some
    &&& str_field(fs@, "permalink"@) is Some
    &&& str_field(fs@, "shortId"@) is Some
    &&& opt_str_ok(fs@, "logger"@)
    &&& str_field(fs@, "count"@) is Some
    &&& str_field(fs@, "id"@) is Some
}

pub open spec fn issue_matches(x: ApiIssue, v: JsonValue) -> bool {
    &&& v matches JsonValue::Object(fs)
    &&& (str_field(fs@, "title"@) matches Some(s) && x.title@ == s@)
    &&& x.culprit@ == dft_str_view(fs@, "culprit"@)
    &&& (str_field(fs@, "firstSeen"@) matches Some(s) && x.first_seen@ == s@)
    &&& (str_field(fs@, "lastSeen"@) matches Some(s) && x.last_seen@ == s@)
    &&& (str_field(fs@, "status"@) matches Some(s) && x.status@ == s@)
    &&& (str_field(fs@, "level"@) matches Some(s) && x.level@ == s@)
    &&& (str_field(fs@, "permalink"@) matches Some(s) && x.permalink@ == s@)
    &&& (str_field(fs@, "shortId"@) matches Some(s) && x.short_id@ == s@)
    &&& (match x.logger {
        Some(s) => opt_str_view(fs@, "logger"@) matches Some(t) && s@ == t,
        None => opt_str_view(fs@, "logger"@) is None,
    })
    &&& (str_field(fs@, "count"@) matches Some(s) && x.count@ == s@)
    &&& (str_field(fs@, "id"@) matches Some(s) && x.id@ == s@)
}

pub fn decode_issue(v: &JsonValue) -> (r: Result<ApiIssue, DecodeError>)
    ensures
        r is Ok <==> issue_ok(*v),
        r matches Ok(x) ==> issue_matches(x, *v),
        r matches Err(e) ==> e.context@ == "issue"@,
{
    let fs = match v {
        JsonValue::Object(fs) => fs,
        _ => {
            return Err(decode_err("issue"));
        },
    };
    let title = match read_req_str(fs, "title") {
        Some(s) => s,
        None => {
            return Err(decode_err("issue"));
        },
    };
    let culprit = match read_dft_str(fs, "culprit") {
        Ok(s) => s,
        Err(_) => {
            return Err(decode_err("issue"));
        },
    };
    let first_seen = match read_req_str(fs, "firstSeen") {
        Some(s) => s,
        None => {
            return Err(decode_err("issue"));
        },
    };
    let last_seen = match read_req_str(fs, "lastSeen") {
        Some(s) => s,
        None => {
            return Err(decode_err("issue"));
        },
    };
    let status = match read_req_str(fs, "status") {
        Some(s) => s,
        None => {
            return Err(decode_err("issue"));
        },
    };
    let level = match read_req_str(fs, "level") {
        Some(s) => s,
        None => {
            return Err(decode_err("issue"));
        },
    };
    let permalink = match read_req_str(fs, "permalink") {
        Some(s) => s,
        None => {
            return Err(decode_err("issue"));
        },
    };
    let short_id = match read_req_str(fs, "shortId") {
        Some(s) => s,
        None => {
            return Err(decode_err("issue"));
        },
    };
    let logger = match read_opt_str(fs, "logger") {
        Ok(v) => v,
        Err(_) => {
            return Err(decode_err("issue"));
        },
    };
    let count = match read_req_str(fs, "count") {
        Some(s) => s,
        None => {
            return Err(decode_err("issue"));
        },
    };
    let id = match read_req_str(fs, "id") {
        Some(s) => s,
        None => {
            return Err(decode_err("issue"));
        },
    };
    Ok(
        ApiIssue {
            title,
            culprit,
            first_seen,
            last_seen,
            status,
            level,
            permalink,
            short_id,
            logger,
            count,
            id,
        },
    )
}

pub open spec fn issue_list_ok(v: JsonValue) -> bool {
    v matches JsonValue::Array(es) && (forall|i: int|
        0 <= i < es@.len() ==> issue_ok(#[trigger] es@[i]))
}

pub open spec fn issues_match(out: Seq<ApiIssue>, v: JsonValue) -> bool {
    v matches JsonValue::Array(es) && out.len() == es@.len() && (forall|i: int|
        0 <= i < out.len() ==> issue_matches(#[trigger] out[i], es@[i]))
}

pub fn decode_issues(v: &JsonValue) -> (r: Result<Vec<ApiIssue>, DecodeError>)
    ensures
        r is Ok <==> issue_list_ok(*v),
        r matches Ok(out) ==> issues_match(out@, *v),
        !(v matches JsonValue::Array(_)) && r is Err ==> r->Err_0.context@ == "issue list"@,
        v matches JsonValue::Array(_) && r is Err ==> r->Err_0.context@ == "issue"@,
{
    let es = match v {
        JsonValue::Array(es) => es,
        _ => {
            return Err(decode_err("issue list"));
        },
    };
    let n = es.len();
    let mut out: Vec<ApiIssue> = Vec::new();
    let mut i: usize = 0;
    while i < n
        invariant
            *v == JsonValue::Array(*es),
            n == es@.len(),
            i <= n,
            out@.len() == i,
            forall|k: int| 0 <= k < i ==> issue_ok(#[trigger] es@[k]),
            forall|k: int| 0 <= k < i ==> issue_matches(#[trigger] out@[k], es@[k]),
        decreases n - i,
    {
        match decode_issue(&es[i]) {
            Ok(x) => out.push(x),
            Err(e) => {
                proof {
                    let elems = (*v)->Array_0;
                    assert(elems == *es);
                    assert(!issue_ok(elems@[i as int]));
                    assert(!issue_list_ok(*v));
                }
                return Err(e);
            },
        }
        i = i + 1;
    }
    Ok(out)
}


// ---------------------------------------------------------------------------
// Events: tags, stack traces, and the polymorphic entry union.
// ---------------------------------------------------------------------------

#[derive(Debug, PartialEq, Eq)]
pub struct ApiTag {
    pub key: String,
    pub value: String,
}

#[derive(Debug, PartialEq, Eq)]
pub struct Breadcrumb {
    pub timestamp: String,
    pub level: String,
    pub message: String,
}

#[derive(Debug, PartialEq, Eq)]
pub struct Frame {
    pub in_app: bool,
    pub filename: Option<String>,
    pub function: Option<String>,
    pub line_no: Option<u64>,
}

#[derive(Debug, PartialEq, Eq)]
pub struct Stacktrace {
    pub frames: Vec<Frame>,
}

#[derive(Debug, PartialEq, Eq)]
pub struct ApiThread {
    pub crashed: bool,
    pub current: bool,
    pub stacktrace: Option<Stacktrace>,
}

#[derive(Debug, PartialEq, Eq)]
pub struct ApiException {
    pub ty: String,
    pub value: String,
    pub stacktrace: Option<Stacktrace>,
}

#[derive(Debug, PartialEq, Eq)]
pub struct RequestData {
    pub method: String,
    pub url: String,
    pub headers: Vec<(String, String)>,
    pub cookies: Vec<(String, String)>,
    pub env: Vec<(String, String)>,
    pub body: Option<JsonValue>,
}

/// One typed section of an event's detail payload. Decoding is closed-world
/// for behavior but open-world for shape: an unrecognized or ill-shaped kind
/// becomes `Unknown`, keeping the type tag and all sibling fields verbatim.
#[derive(Debug, PartialEq, Eq)]
pub enum EventEntry {
    Message { formatted: String },
    Breadcrumbs { values: Vec<Breadcrumb> },
    Threads { values: Vec<ApiThread> },
    Exception { values: Vec<ApiException> },
    Request { data: RequestData },
    Unknown { ty: String, attributes: Vec<(String, JsonValue)> },
}

#[derive(Debug, PartialEq, Eq)]
pub struct ApiEvent {
    pub timestamp: String,
    pub tags: Vec<ApiTag>,
    pub entries: Vec<EventEntry>,
}

// ---- tags ----

pub open spec fn tag_ok(t: JsonValue) -> bool {
    &&& t matches JsonValue::Object(fs)
    &&& str_field(fs@, "key"@) is Some
    &&& str_field(fs@, "value"@) is Some
}

pub open spec fn tag_matches(out: ApiTag, t: JsonValue) -> bool {
    &&& t matches JsonValue::Object(fs)
    &&& (str_field(fs@, "key"@) matches Some(s) && out.key@ == s@)
    &&& (str_field(fs@, "value"@) matches Some(s) && out.value@ == s@)
}

pub open spec fn tags_ok(fs: Seq<(String, JsonValue)>) -> bool {
    match lookup(fs, "tags"@) {
        None => true,
        Some(JsonValue::Array(ts)) => forall|i: int|
            0 <= i < ts@.len() ==> tag_ok(#[trigger] ts@[i]),
        Some(_) => false,
    }
}

pub open spec fn tags_match(out: Seq<ApiTag>, fs: Seq<(String, JsonValue)>) -> bool {
    match lookup(fs, "tags"@) {
        None => out.len() == 0,
        Some(JsonValue::Array(ts)) => out.len() == ts@.len() && (forall|i: int|
            0 <= i < out.len() ==> tag_matches(#[trigger] out[i], ts@[i])),
        Some(_) => false,
    }
}

fn tag_of(v: &JsonValue) -> (r: Option<ApiTag>)
    ensures
        r is Some <==> tag_ok(*v),
        r matches Some(t) ==> tag_matches(t, *v),
{
    let fs = match v {
        JsonValue::Object(fs) => fs,
        _ => {
            return None;
        },
    };
    let key = match read_req_str(fs, "key") {
        Some(s) => s,
        None => {
            return None;
        },
    };
    let value = match read_req_str(fs, "value") {
        Some(s) => s,
        None => {
            return None;
        },
    };
    Some(ApiTag { key, value })
}

fn read_tags(fs: &Vec<(String, JsonValue)>) -> (r: Result<Vec<ApiTag>, ()>)
    ensures
        match r {
            Ok(out) => tags_ok(fs@) && tags_match(out@, fs@),
            Err(_) => !tags_ok(fs@),
        },
{
    let i = match find_first(fs, "tags") {
        Some(i) => i,
        None => {
            return Ok(Vec::new());
        },
    };
    let ts = match &fs[i].1 {
        JsonValue::Array(ts) => ts,
        _ => {
            return Err(());
        },
    };
    let n = ts.len();
    let mut out: Vec<ApiTag> = Vec::new();
    let mut k: usize = 0;
    while k < n
        invariant
            lookup(fs@, "tags"@) == Some(JsonValue::Array(*ts)),
            n == ts@.len(),
            k <= n,
            out@.len() == k,
            forall|j: int| 0 <= j < k ==> tag_ok(#[trigger] ts@[j]),
            forall|j: int| 0 <= j < k ==> tag_matches(#[trigger] out@[j], ts@[j]),
        decreases n - k,
    {
        match tag_of(&ts[k]) {
            Some(t) => out.push(t),
            None => {
                proof {
                    let tsg = lookup(fs@, "tags"@)->0->Array_0;
                    assert(tsg == *ts);
                    assert(!tag_ok(tsg@[k as int]));
                }
                return Err(());
            },
        }
        k = k + 1;
    }
    Ok(out)
}

// ---- stack traces ----

pub open spec fn frame_ok(v: JsonValue) -> bool {
    &&& v matches JsonValue::Object(fs)
    &&& dft_bool_ok(fs@, "inApp"@)
    &&& opt_str_ok(fs@, "filename"@)
    &&& opt_str_ok(fs@, "function"@)
    &&& opt_u64_ok(fs@, "lineNo"@)
}

pub open spec fn frame_matches(out: Frame, v: JsonValue) -> bool {
    &&& v matches JsonValue::Object(fs)
    &&& out.in_app == dft_bool_view(fs@, "inApp"@)
    &&& (match out.filename {
        Some(s) => opt_str_view(fs@, "filename"@) matches Some(t) && s@ == t,
        None => opt_str_view(fs@, "filename"@) is None,
    })
    &&& (match out.function {
        Some(s) => opt_str_view(fs@, "function"@) matches Some(t) && s@ == t,
        None => opt_str_view(fs@, "function"@) is None,
    })
    &&& out.line_no == opt_u64_view(fs@, "lineNo"@)
}

pub open spec fn stack_ok(v: JsonValue) -> bool {
    &&& v matches JsonValue::Object(fs)
    &&& (lookup(fs@, "frames"@) matches Some(JsonValue::Array(frs)) && (forall|i: int|
        0 <= i < frs@.len() ==> frame_ok(#[trigger] frs@[i])))
}

pub open spec fn stack_matches(out: Stacktrace, v: JsonValue) -> bool {
    &&& v matches JsonValue::Object(fs)
    &&& (lookup(fs@, "frames"@) matches Some(JsonValue::Array(frs)) && out.frames@.len()
        == frs@.len() && (forall|i: int|
        0 <= i < out.frames@.len() ==> frame_matches(#[trigger] out.frames@[i], frs@[i])))
}

pub open spec fn opt_stack_ok(fs: Seq<(String, JsonValue)>, key: Seq<char>) -> bool {
    match lookup(fs, key) {
        None => true,
        Some(JsonValue::Null) => true,
        Some(x) => stack_ok(x),
    }
}

pub open spec fn opt_stack_matches(
    out: Option<Stacktrace>,
    fs: Seq<(String, JsonValue)>,
    key: Seq<char>,
) -> bool {
    match lookup(fs, key) {
        None => out is None,
        Some(JsonValue::Null) => out is None,
        Some(x) => out matches Some(st) && stack_matches(st, x),
    }
}

fn frame_of(v: &JsonValue) -> (r: Option<Frame>)
    ensures
        r is Some <==> frame_ok(*v),
        r matches Some(f) ==> frame_matches(f, *v),
{
    let fs = match v {
        JsonValue::Object(fs) => fs,
        _ => {
            return None;
        },
    };
    let in_app = match read_dft_bool(fs, "inApp") {
        Ok(b) => b,
        Err(_) => {
            return None;
        },
    };
    let filename = match read_opt_str(fs, "filename") {
        Ok(x) => x,
        Err(_) => {
            return None;
        },
    };
    let function = match read_opt_str(fs, "function") {
        Ok(x) => x,
        Err(_) => {
            return None;
        },
    };
    let line_no = match read_opt_u64(fs, "lineNo") {
        Ok(x) => x,
        Err(_) => {
            return None;
        },
    };
    Some(Frame { in_app, filename, function, line_no })
}

fn stack_of(v: &JsonValue) -> (r: Option<Stacktrace>)
    ensures
        r is Some <==> stack_ok(*v),
        r matches Some(st) ==> stack_matches(st, *v),
{
    let fs = match v {
        JsonValue::Object(fs) => fs,
        _ => {
            return None;
        },
    };
    let i = match find_first(fs, "frames") {
        Some(i) => i,
        None => {
            return None;
        },
    };
    let frs = match &fs[i].1 {
        JsonValue::Array(frs) => frs,
        _ => {
            return None;
        },
    };
    let n = frs.len();
    let mut out: Vec<Frame> = Vec::new();
    let mut k: usize = 0;
    while k < n
        invariant
            *v == JsonValue::Object(*fs),
            lookup(fs@, "frames"@) == Some(JsonValue::Array(*frs)),
            n == frs@.len(),
            k <= n,
            out@.len() == k,
            forall|j: int| 0 <= j < k ==> frame_ok(#[trigger] frs@[j]),
            forall|j: int| 0 <= j < k ==> frame_matches(#[trigger] out@[j], frs@[j]),
        decreases n - k,
    {
        match frame_of(&frs[k]) {
            Some(f) => out.push(f),
            None => {
                proof {
                    let frsg = lookup(fs@, "frames"@)->0->Array_0;
                    assert(frsg == *frs);
                    assert(!frame_ok(frsg@[k as int]));
                }
                return None;
            },
        }
        k = k + 1;
    }
    Some(Stacktrace { frames: out })
}

fn read_opt_stack(fs: &Vec<(String, JsonValue)>, key: &str) -> (r: Result<Option<Stacktrace>, ()>)
    ensures
        match r {
            Ok(v) => opt_stack_ok(fs@, key@) && opt_stack_matches(v, fs@, key@),
            Err(_) => !opt_stack_ok(fs@, key@),
        },
{
    let i = match find_first(fs, key) {
        Some(i) => i,
        None => {
            return Ok(None);
        },
    };
    match &fs[i].1 {
        JsonValue::Null => Ok(None),
        x => match stack_of(x) {
            Some(st) => Ok(Some(st)),
            None => Err(()),
        },
    }
}

// ---- entry payloads ----

/// The entry's `data` member, when it is an object.
pub open spec fn data_obj(fs: Seq<(String, JsonValue)>) -> Option<Seq<(String, JsonValue)>> {
    match lookup(fs, "data"@) {
        Some(JsonValue::Object(d)) => Some(d@),
        _ => None,
    }
}

/// The entry's `data.values` member, when it is an array.
pub open spec fn values_arr(fs: Seq<(String, JsonValue)>) -> Option<Seq<JsonValue>> {
    match data_obj(fs) {
        Some(d) => match lookup(d, "values"@) {
            Some(JsonValue::Array(vs)) => Some(vs@),
            _ => None,
        },
        None => None,
    }
}

pub open spec fn message_ok(fs: Seq<(String, JsonValue)>) -> bool {
    data_obj(fs) matches Some(d) && str_field(d, "formatted"@) is Some
}

pub open spec fn message_view(fs: Seq<(String, JsonValue)>) -> Seq<char> {
    match data_obj(fs) {
        Some(d) => match str_field(d, "formatted"@) {
            Some(s) => s@,
            None => Seq::empty(),
        },
        None => Seq::empty(),
    }
}

pub open spec fn crumb_ok(v: JsonValue) -> bool {
    &&& v matches JsonValue::Object(fs)
    &&& str_field(fs@, "timestamp"@) is Some
    &&& str_field(fs@, "level"@) is Some
    &&& str_field(fs@, "message"@) is Some
}

pub open spec fn crumb_matches(out: Breadcrumb, v: JsonValue) -> bool {
    &&& v matches JsonValue::Object(fs)
    &&& (str_field(fs@, "timestamp"@) matches Some(s) && out.timestamp@ == s@)
    &&& (str_field(fs@, "level"@) matches Some(s) && out.level@ == s@)
    &&& (str_field(fs@, "message"@) matches Some(s) && out.message@ == s@)
}

pub open spec fn breadcrumbs_ok(fs: Seq<(String, JsonValue)>) -> bool {
    values_arr(fs) matches Some(vs) && (forall|i: int|
        0 <= i < vs.len() ==> crumb_ok(#[trigger] vs[i]))
}

pub open spec fn crumbs_list_match(out: Seq<Breadcrumb>, vs: Seq<JsonValue>) -> bool {
    out.len() == vs.len() && (forall|i: int|
        0 <= i < out.len() ==> crumb_matches(#[trigger] out[i], vs[i]))
}

pub open spec fn thread_ok(v: JsonValue) -> bool {
    &&& v matches JsonValue::Object(fs)
    &&& dft_bool_ok(fs@, "crashed"@)
    &&& dft_bool_ok(fs@, "current"@)
    &&& opt_stack_ok(fs@, "stacktrace"@)
}

pub open spec fn thread_matches(out: ApiThread, v: JsonValue) -> bool {
    &&& v matches JsonValue::Object(fs)
    &&& out.crashed == dft_bool_view(fs@, "crashed"@)
    &&& out.current == dft_bool_view(fs@, "current"@)
    &&& opt_stack_matches(out.stacktrace, fs@, "stacktrace"@)
}

pub open spec fn threads_ok(fs: Seq<(String, JsonValue)>) -> bool {
    values_arr(fs) matches Some(vs) && (forall|i: int|
        0 <= i < vs.len() ==> thread_ok(#[trigger] vs[i]))
}

pub open spec fn threads_list_match(out: Seq<ApiThread>, vs: Seq<JsonValue>) -> bool {
    out.len() == vs.len() && (forall|i: int|
        0 <= i < out.len() ==> thread_matches(#[trigger] out[i], vs[i]))
}

pub open spec fn exc_ok(v: JsonValue) -> bool {
    &&& v matches JsonValue::Object(fs)
    &&& dft_str_ok(fs@, "type"@)
    &&& dft_str_ok(fs@, "value"@)
    &&& opt_stack_ok(fs@, "stacktrace"@)
}

pub open spec fn exc_matches(out: ApiException, v: JsonValue) -> bool {
    &&& v matches JsonValue::Object(fs)
    &&& out.ty@ == dft_str_view(fs@, "type"@)
    &&& out.value@ == dft_str_view(fs@, "value"@)
    &&& opt_stack_matches(out.stacktrace, fs@, "stacktrace"@)
}

pub open spec fn exception_ok(fs: Seq<(String, JsonValue)>) -> bool {
    values_arr(fs) matches Some(vs) && (forall|i: int|
        0 <= i < vs.len() ==> exc_ok(#[trigger] vs[i]))
}

pub open spec fn excs_list_match(out: Seq<ApiException>, vs: Seq<JsonValue>) -> bool {
    out.len() == vs.len() && (forall|i: int|
        0 <= i < out.len() ==> exc_matches(#[trigger] out[i], vs[i]))
}

fn crumb_of(v: &JsonValue) -> (r: Option<Breadcrumb>)
    ensures
        r is Some <==> crumb_ok(*v),
        r matches Some(c) ==> crumb_matches(c, *v),
{
    let fs = match v {
        JsonValue::Object(fs) => fs,
        _ => {
            return None;
        },
    };
    let timestamp = match read_req_str(fs, "timestamp") {
        Some(s) => s,
        None => {
            return None;
        },
    };
    let level = match read_req_str(fs, "level") {
        Some(s) => s,
        None => {
            return None;
        },
    };
    let message = match read_req_str(fs, "message") {
        Some(s) => s,
        None => {
            return None;
        },
    };
    Some(Breadcrumb { timestamp, level, message })
}

fn thread_of(v: &JsonValue) -> (r: Option<ApiThread>)
    ensures
        r is Some <==> thread_ok(*v),
        r matches Some(t) ==> thread_matches(t, *v),
{
    let fs = match v {
        JsonValue::Object(fs) => fs,
        _ => {
            return None;
        },
    };
    let crashed = match read_dft_bool(fs, "crashed") {
        Ok(b) => b,
        Err(_) => {
            return None;
        },
    };
    let current = match read_dft_bool(fs, "current") {
        Ok(b) => b,
        Err(_) => {
            return None;
        },
    };
    let stacktrace = match read_opt_stack(fs, "stacktrace") {
        Ok(x) => x,
        Err(_) => {
            return None;
        },
    };
    Some(ApiThread { crashed, current, stacktrace })
}

fn exc_of(v: &JsonValue) -> (r: Option<ApiException>)
    ensures
        r is Some <==> exc_ok(*v),
        r matches Some(x) ==> exc_matches(x, *v),
{
    let fs = match v {
        JsonValue::Object(fs) => fs,
        _ => {
            return None;
        },
    };
    let ty = match read_dft_str(fs, "type") {
        Ok(s) => s,
        Err(_) => {
            return None;
        },
    };
    let value = match read_dft_str(fs, "value") {
        Ok(s) => s,
        Err(_) => {
            return None;
        },
    };
    let stacktrace = match read_opt_stack(fs, "stacktrace") {
        Ok(x) => x,
        Err(_) => {
            return None;
        },
    };
    Some(ApiException { ty, value, stacktrace })
}

/// The `data.values` array, by reference.
fn values_ref<'a>(fs: &'a Vec<(String, JsonValue)>) -> (r: Option<&'a Vec<JsonValue>>)
    ensures
        match r {
            Some(vs) => values_arr(fs@) == Some(vs@),
            None => values_arr(fs@) is None,
        },
{
    let i = match find_first(fs, "data") {
        Some(i) => i,
        None => {
            return None;
        },
    };
    let d = match &fs[i].1 {
        JsonValue::Object(d) => d,
        _ => {
            return None;
        },
    };
    let j = match find_first(d, "values") {
        Some(j) => j,
        None => {
            return None;
        },
    };
    match &d[j].1 {
        JsonValue::Array(vs) => Some(vs),
        _ => None,
    }
}

fn message_payload(fs: &Vec<(String, JsonValue)>) -> (r: Option<String>)
    ensures
        r is Some <==> message_ok(fs@),
        r matches Some(f) ==> f@ == message_view(fs@),
{
    let i = match find_first(fs, "data") {
        Some(i) => i,
        None => {
            return None;
        },
    };
    let d = match &fs[i].1 {
        JsonValue::Object(d) => d,
        _ => {
            return None;
        },
    };
    read_req_str(d, "formatted")
}

fn breadcrumbs_payload(fs: &Vec<(String, JsonValue)>) -> (r: Option<Vec<Breadcrumb>>)
    ensures
        r is Some <==> breadcrumbs_ok(fs@),
        r matches Some(out) ==> (values_arr(fs@) matches Some(vs) && crumbs_list_match(out@, vs)),
{
    let vs = match values_ref(fs) {
        Some(vs) => vs,
        None => {
            return None;
        },
    };
    let n = vs.len();
    let mut out: Vec<Breadcrumb> = Vec::new();
    let mut k: usize = 0;
    while k < n
        invariant
            values_arr(fs@) == Some(vs@),
            n == vs@.len(),
            k <= n,
            out@.len() == k,
            forall|j: int| 0 <= j < k ==> crumb_ok(#[trigger] vs@[j]),
            forall|j: int| 0 <= j < k ==> crumb_matches(#[trigger] out@[j], vs@[j]),
        decreases n - k,
    {
        match crumb_of(&vs[k]) {
            Some(c) => out.push(c),
            None => {
                proof {
                    let vsg = values_arr(fs@)->0;
                    assert(vsg == vs@);
                    assert(!crumb_ok(vsg[k as int]));
                }
                return None;
            },
        }
        k = k + 1;
    }
    Some(out)
}

fn threads_payload(fs: &Vec<(String, JsonValue)>) -> (r: Option<Vec<ApiThread>>)
    ensures
        r is Some <==> threads_ok(fs@),
        r matches Some(out) ==> (values_arr(fs@) matches Some(vs) && threads_list_match(out@, vs)),
{
    let vs = match values_ref(fs) {
        Some(vs) => vs,
        None => {
            return None;
        },
    };
    let n = vs.len();
    let mut out: Vec<ApiThread> = Vec::new();
    let mut k: usize = 0;
    while k < n
        invariant
            values_arr(fs@) == Some(vs@),
            n == vs@.len(),
            k <= n,
            out@.len() == k,
            forall|j: int| 0 <= j < k ==> thread_ok(#[trigger] vs@[j]),
            forall|j: int| 0 <= j < k ==> thread_matches(#[trigger] out@[j], vs@[j]),
        decreases n - k,
    {
        match thread_of(&vs[k]) {
            Some(t) => out.push(t),
            None => {
                proof {
                    let vsg = values_arr(fs@)->0;
                    assert(vsg == vs@);
                    assert(!thread_ok(vsg[k as int]));
                }
                return None;
            },
        }
        k = k + 1;
    }
    Some(out)
}

fn exception_payload(fs: &Vec<(String, JsonValue)>) -> (r: Option<Vec<ApiException>>)
    ensures
        r is Some <==> exception_ok(fs@),
        r matches Some(out) ==> (values_arr(fs@) matches Some(vs) && excs_list_match(out@, vs)),
{
    let vs = match values_ref(fs) {
        Some(vs) => vs,
        None => {
            return None;
        },
    };
    let n = vs.len();
    let mut out: Vec<ApiException> = Vec::new();
    let mut k: usize = 0;
    while k < n
        invariant
            values_arr(fs@) == Some(vs@),
            n == vs@.len(),
            k <= n,
            out@.len() == k,
            forall|j: int| 0 <= j < k ==> exc_ok(#[trigger] vs@[j]),
            forall|j: int| 0 <= j < k ==> exc_matches(#[trigger] out@[j], vs@[j]),
        decreases n - k,
    {
        match exc_of(&vs[k]) {
            Some(x) => out.push(x),
            None => {
                proof {
                    let vsg = values_arr(fs@)->0;
                    assert(vsg == vs@);
                    assert(!exc_ok(vsg[k as int]));
                }
                return None;
            },
        }
        k = k + 1;
    }
    Some(out)
}


// ---- request payload ----

pub open spec fn pair_ok(p: JsonValue) -> bool {
    &&& p matches JsonValue::Array(xy)
    &&& xy@.len() == 2
    &&& xy@[0] matches JsonValue::Str(_)
    &&& xy@[1] matches JsonValue::Str(_)
}

pub open spec fn pair_key_view(p: JsonValue) -> Seq<char> {
    p->Array_0@[0]->Str_0@
}

pub open spec fn pair_val_view(p: JsonValue) -> Seq<char> {
    p->Array_0@[1]->Str_0@
}

pub open spec fn pairs_ok(d: Seq<(String, JsonValue)>, key: Seq<char>) -> bool {
    match lookup(d, key) {
        None => true,
        Some(JsonValue::Array(ps)) => forall|i: int|
            0 <= i < ps@.len() ==> pair_ok(#[trigger] ps@[i]),
        Some(_) => false,
    }
}

pub open spec fn pairs_match(
    out: Seq<(String, String)>,
    d: Seq<(String, JsonValue)>,
    key: Seq<char>,
) -> bool {
    match lookup(d, key) {
        None => out.len() == 0,
        Some(JsonValue::Array(ps)) => out.len() == ps@.len() && (forall|i: int|
            0 <= i < out.len() ==> (#[trigger] out[i]).0@ == pair_key_view(ps@[i]) && out[i].1@
                == pair_val_view(ps@[i])),
        Some(_) => false,
    }
}

pub open spec fn envmap_ok(d: Seq<(String, JsonValue)>, key: Seq<char>) -> bool {
    match lookup(d, key) {
        None => true,
        Some(JsonValue::Object(m)) => forall|i: int|
            0 <= i < m@.len() ==> (#[trigger] m@[i]).1 matches JsonValue::Str(_),
        Some(_) => false,
    }
}

pub open spec fn envmap_match(
    out: Seq<(String, String)>,
    d: Seq<(String, JsonValue)>,
    key: Seq<char>,
) -> bool {
    match lookup(d, key) {
        None => out.len() == 0,
        Some(JsonValue::Object(m)) => out.len() == m@.len() && (forall|i: int|
            0 <= i < out.len() ==> (#[trigger] out[i]).0@ == m@[i].0@ && out[i].1@
                == m@[i].1->Str_0@),
        Some(_) => false,
    }
}

/// The request body member, absent and null reading as `None`.
pub open spec fn body_view(d: Seq<(String, JsonValue)>) -> Option<JsonValue> {
    match lookup(d, "data"@) {
        None => None,
        Some(JsonValue::Null) => None,
        Some(x) => Some(x),
    }
}

pub open spec fn request_ok(fs: Seq<(String, JsonValue)>) -> bool {
    &&& data_obj(fs) matches Some(d)
    &&& str_field(d, "method"@) is Some
    &&& str_field(d, "url"@) is Some
    &&& pairs_ok(d, "headers"@)
    &&& pairs_ok(d, "cookies"@)
    &&& envmap_ok(d, "env"@)
}

pub open spec fn request_matches(out: RequestData, fs: Seq<(String, JsonValue)>) -> bool {
    &&& data_obj(fs) matches Some(d)
    &&& (str_field(d, "method"@) matches Some(s) && out.method@ == s@)
    &&& (str_field(d, "url"@) matches Some(s) && out.url@ == s@)
    &&& pairs_match(out.headers@, d, "headers"@)
    &&& pairs_match(out.cookies@, d, "cookies"@)
    &&& envmap_match(out.env@, d, "env"@)
    &&& out.body == body_view(d)
}

fn pair_check(p: &JsonValue) -> (r: bool)
    ensures
        r == pair_ok(*p),
{
    match p {
        JsonValue::Array(xy) => {
            if xy.len() != 2 {
                return false;
            }
            let a = match &xy[0] {
                JsonValue::Str(_) => true,
                _ => false,
            };
            let b = match &xy[1] {
                JsonValue::Str(_) => true,
                _ => false,
            };
            a && b
        },
        _ => false,
    }
}

fn pairs_check(d: &Vec<(String, JsonValue)>, key: &str) -> (r: bool)
    ensures
        r == pairs_ok(d@, key@),
{
    let i = match find_first(d, key) {
        Some(i) => i,
        None => {
            return true;
        },
    };
    let ps = match &d[i].1 {
        JsonValue::Array(ps) => ps,
        _ => {
            return false;
        },
    };
    let n = ps.len();
    let mut k: usize = 0;
    while k < n
        invariant
            lookup(d@, key@) == Some(JsonValue::Array(*ps)),
            n == ps@.len(),
            k <= n,
            forall|j: int| 0 <= j < k ==> pair_ok(#[trigger] ps@[j]),
        decreases n - k,
    {
        if !pair_check(&ps[k]) {
            proof {
                let psg = lookup(d@, key@)->0->Array_0;
                assert(psg == *ps);
                assert(!pair_ok(psg@[k as int]));
            }
            return false;
        }
        k = k + 1;
    }
    proof {
        let psg = lookup(d@, key@)->0->Array_0;
        assert(psg == *ps);
    }
    true
}

fn envmap_check(d: &Vec<(String, JsonValue)>, key: &str) -> (r: bool)
    ensures
        r == envmap_ok(d@, key@),
{
    let i = match find_first(d, key) {
        Some(i) => i,
        None => {
            return true;
        },
    };
    let m = match &d[i].1 {
        JsonValue::Object(m) => m,
        _ => {
            return false;
        },
    };
    let n = m.len();
    let mut k: usize = 0;
    while k < n
        invariant
            lookup(d@, key@) == Some(JsonValue::Object(*m)),
            n == m@.len(),
            k <= n,
            forall|j: int| 0 <= j < k ==> (#[trigger] m@[j]).1 matches JsonValue::Str(_),
        decreases n - k,
    {
        match &m[k].1 {
            JsonValue::Str(_) => {},
            _ => {
                proof {
                    let mg = lookup(d@, key@)->0->Object_0;
                    assert(mg == *m);
                    assert(!((mg@[k as int]).1 matches JsonValue::Str(_)));
                }
                return false;
            },
        }
        k = k + 1;
    }
    proof {
        let mg = lookup(d@, key@)->0->Object_0;
        assert(mg == *m);
    }
    true
}

fn request_check(fs: &Vec<(String, JsonValue)>) -> (r: bool)
    ensures
        r == request_ok(fs@),
{
    let i = match find_first(fs, "data") {
        Some(i) => i,
        None => {
            return false;
        },
    };
    let d = match &fs[i].1 {
        JsonValue::Object(d) => d,
        _ => {
            return false;
        },
    };
    let ok_method = match find_first(d, "method") {
        Some(j) => match &d[j].1 {
            JsonValue::Str(_) => true,
            _ => false,
        },
        None => false,
    };
    if !ok_method {
        return false;
    }
    let ok_url = match find_first(d, "url") {
        Some(j) => match &d[j].1 {
            JsonValue::Str(_) => true,
            _ => false,
        },
        None => false,
    };
    if !ok_url {
        return false;
    }
    if !pairs_check(d, "headers") {
        return false;
    }
    if !pairs_check(d, "cookies") {
        return false;
    }
    if !envmap_check(d, "env") {
        return false;
    }
    true
}

fn build_pairs(d: &Vec<(String, JsonValue)>, key: &str) -> (r: Vec<(String, String)>)
    requires
        pairs_ok(d@, key@),
    ensures
        pairs_match(r@, d@, key@),
{
    let i = match find_first(d, key) {
        Some(i) => i,
        None => {
            return Vec::new();
        },
    };
    let ps = match &d[i].1 {
        JsonValue::Array(ps) => ps,
        _ => {
            return vstd::pervasive::unreached();
        },
    };
    let n = ps.len();
    let mut out: Vec<(String, String)> = Vec::new();
    let mut k: usize = 0;
    while k < n
        invariant
            pairs_ok(d@, key@),
            lookup(d@, key@) == Some(JsonValue::Array(*ps)),
            n == ps@.len(),
            k <= n,
            out@.len() == k,
            forall|j: int|
                0 <= j < k ==> (#[trigger] out@[j]).0@ == pair_key_view(ps@[j]) && out@[j].1@
                    == pair_val_view(ps@[j]),
        decreases n - k,
    {
        proof {
            let psg = lookup(d@, key@)->0->Array_0;
            assert(psg == *ps);
            assert(pair_ok(psg@[k as int]));
        }
        let xy = match &ps[k] {
            JsonValue::Array(xy) => xy,
            _ => {
                return vstd::pervasive::unreached();
            },
        };
        let a = match &xy[0] {
            JsonValue::Str(s) => clone_string(s),
            _ => {
                return vstd::pervasive::unreached();
            },
        };
        let b = match &xy[1] {
            JsonValue::Str(s) => clone_string(s),
            _ => {
                return vstd::pervasive::unreached();
            },
        };
        out.push((a, b));
        k = k + 1;
    }
    proof {
        let psg = lookup(d@, key@)->0->Array_0;
        assert(psg == *ps);
    }
    out
}

fn build_env(d: &Vec<(String, JsonValue)>, key: &str) -> (r: Vec<(String, String)>)
    requires
        envmap_ok(d@, key@),
    ensures
        envmap_match(r@, d@, key@),
{
    let i = match find_first(d, key) {
        Some(i) => i,
        None => {
            return Vec::new();
        },
    };
    let m = match &d[i].1 {
        JsonValue::Object(m) => m,
        _ => {
            return vstd::pervasive::unreached();
        },
    };
    let n = m.len();
    let mut out: Vec<(String, String)> = Vec::new();
    let mut k: usize = 0;
    while k < n
        invariant
            envmap_ok(d@, key@),
            lookup(d@, key@) == Some(JsonValue::Object(*m)),
            n == m@.len(),
            k <= n,
            out@.len() == k,
            forall|j: int|
                0 <= j < k ==> (#[trigger] out@[j]).0@ == m@[j].0@ && out@[j].1@
                    == m@[j].1->Str_0@,
        decreases n - k,
    {
        proof {
            let mg = lookup(d@, key@)->0->Object_0;
            assert(mg == *m);
            assert((mg@[k as int]).1 matches JsonValue::Str(_));
        }
        let name = clone_string(&m[k].0);
        let val = match &m[k].1 {
            JsonValue::Str(s) => clone_string(s),
            _ => {
                return vstd::pervasive::unreached();
            },
        };
        out.push((name, val));
        k = k + 1;
    }
    proof {
        let mg = lookup(d@, key@)->0->Object_0;
        assert(mg == *m);
    }
    out
}

fn build_request(fs: Vec<(String, JsonValue)>) -> (r: RequestData)
    requires
        request_ok(fs@),
    ensures
        request_matches(r, fs@),
{
    let mut fields = fs;
    let data = extract_first(&mut fields, "data");
    let mut d = match data {
        Some(JsonValue::Object(d)) => d,
        _ => {
            return vstd::pervasive::unreached();
        },
    };
    let method = match read_req_str(&d, "method") {
        Some(s) => s,
        None => {
            return vstd::pervasive::unreached();
        },
    };
    let url = match read_req_str(&d, "url") {
        Some(s) => s,
        None => {
            return vstd::pervasive::unreached();
        },
    };
    let headers = build_pairs(&d, "headers");
    let cookies = build_pairs(&d, "cookies");
    let env = build_env(&d, "env");
    let body = match extract_first(&mut d, "data") {
        Some(JsonValue::Null) => None,
        Some(x) => Some(x),
        None => None,
    };
    RequestData { method, url, headers, cookies, env, body }
}

// ---- the entry union ----

/// An entry is decodable at all exactly when it is an object with a string
/// `type` discriminator; everything else about its shape only selects
/// between a known variant and the `Unknown` fallback.
pub open spec fn entry_ok(e: JsonValue) -> bool {
    e matches JsonValue::Object(fs) && str_field(fs@, "type"@) is Some
}

/// The entry's fields with every `type` binding removed: what `Unknown`
/// keeps alongside the tag.
pub open spec fn sans_type(fs: Seq<(String, JsonValue)>) -> Seq<(String, JsonValue)> {
    fs.filter(|p: (String, JsonValue)| p.0@ != "type"@)
}

proof fn lemma_sans_type_push(s: Seq<(String, JsonValue)>, x: (String, JsonValue))
    ensures
        sans_type(s.push(x)) == if x.0@ != "type"@ {
            sans_type(s).push(x)
        } else {
            sans_type(s)
        },
{
    reveal(Seq::filter);
    assert(s.push(x).drop_last() =~= s);
    assert(s.push(x).last() == x);
}

/// The five known entry tags are pairwise distinct strings.
proof fn lemma_known_tags_distinct()
    ensures
        "message"@ != "breadcrumbs"@,
        "message"@ != "threads"@,
        "message"@ != "exception"@,
        "message"@ != "request"@,
        "breadcrumbs"@ != "threads"@,
        "breadcrumbs"@ != "exception"@,
        "breadcrumbs"@ != "request"@,
        "threads"@ != "exception"@,
        "threads"@ != "request"@,
        "exception"@ != "request"@,
{
    reveal_strlit("message");
    reveal_strlit("breadcrumbs");
    reveal_strlit("threads");
    reveal_strlit("exception");
    reveal_strlit("request");
    assert("message"@.len() == 7);
    assert("breadcrumbs"@.len() == 11);
    assert("threads"@.len() == 7);
    assert("exception"@.len() == 9);
    assert("request"@.len() == 7);
    assert("message"@[0] == 'm' && "threads"@[0] == 't' && "request"@[0] == 'r');
}

pub open spec fn entry_matches_fields(
    out: EventEntry,
    ty: String,
    fs: Seq<(String, JsonValue)>,
) -> bool {
    if ty@ == "message"@ && message_ok(fs) {
        out matches EventEntry::Message { formatted } && formatted@ == message_view(fs)
    } else if ty@ == "breadcrumbs"@ && breadcrumbs_ok(fs) {
        out matches EventEntry::Breadcrumbs { values } && (values_arr(fs) matches Some(vs)
            && crumbs_list_match(values@, vs))
    } else if ty@ == "threads"@ && threads_ok(fs) {
        out matches EventEntry::Threads { values } && (values_arr(fs) matches Some(vs)
            && threads_list_match(values@, vs))
    } else if ty@ == "exception"@ && exception_ok(fs) {
        out matches EventEntry::Exception { values } && (values_arr(fs) matches Some(vs)
            && excs_list_match(values@, vs))
    } else if ty@ == "request"@ && request_ok(fs) {
        out matches EventEntry::Request { data } && request_matches(data, fs)
    } else {
        out matches EventEntry::Unknown { ty: t, attributes } && t@ == ty@ && attributes@
            == sans_type(fs)
    }
}

pub open spec fn entry_matches(out: EventEntry, e: JsonValue) -> bool {
    &&& e matches JsonValue::Object(fs)
    &&& (str_field(fs@, "type"@) matches Some(ty) && entry_matches_fields(out, ty, fs@))
}

/// The `Unknown` fallback: keeps the tag and all sibling fields verbatim.
fn unknown_entry(fs: Vec<(String, JsonValue)>) -> (r: EventEntry)
    requires
        str_field(fs@, "type"@) is Some,
    ensures
        r matches EventEntry::Unknown { ty, attributes } && Some(ty) == str_field(fs@, "type"@)
            && attributes@ == sans_type(fs@),
{
    let ghost orig = fs@;
    let mut rest = fs;
    let mut ty: Option<String> = None;
    let mut attrs: Vec<(String, JsonValue)> = Vec::new();
    let ghost mut done: Seq<(String, JsonValue)> = Seq::empty();
    proof {
        assert(orig =~= done + rest@);
        assert(attrs@ =~= sans_type(done)) by {
            reveal(Seq::filter);
        }
    }
    while rest.len() > 0
        invariant
            str_field(orig, "type"@) is Some,
            orig == done + rest@,
            attrs@ == sans_type(done),
            match lookup(done, "type"@) {
                None => ty is None,
                Some(x) => Some(x) == lookup(orig, "type"@) && (x matches JsonValue::Str(s0)
                    && ty == Some(s0)),
            },
        decreases rest@.len(),
    {
        let ghost pre = rest@;
        let kv = rest.remove(0);
        proof {
            assert(kv == pre[0]);
            assert(rest@ =~= pre.drop_first());
            assert(done.push(kv) + rest@ =~= orig);
            assert(done.push(kv) =~= done + seq![kv]);
            lemma_lookup_add(done, seq![kv], "type"@);
            lemma_sans_type_push(done, kv);
            if kv.0@ == "type"@ {
                assert(lookup(seq![kv], "type"@) == Some(kv.1));
            } else {
                assert(seq![kv].drop_first() =~= Seq::<(String, JsonValue)>::empty());
                assert(lookup(Seq::<(String, JsonValue)>::empty(), "type"@) is None);
                assert(lookup(seq![kv], "type"@) is None);
            }
        }
        if str_eq(kv.0.as_str(), "type") {
            if ty.is_none() {
                proof {
                    lemma_lookup_add(done, pre, "type"@);
                    assert(lookup(pre, "type"@) == Some(kv.1));
                    assert(lookup(orig, "type"@) == Some(kv.1));
                }
                let s = match kv.1 {
                    JsonValue::Str(s) => s,
                    _ => {
                        return vstd::pervasive::unreached();
                    },
                };
                ty = Some(s);
            }
            proof {
                done = done.push(kv);
            }
        } else {
            proof {
                done = done.push(kv);
            }
            attrs.push(kv);
        }
    }
    proof {
        assert(done =~= orig);
    }
    let t = match ty {
        Some(t) => t,
        None => {
            return vstd::pervasive::unreached();
        },
    };
    EventEntry::Unknown { ty: t, attributes: attrs }
}

/// Decodes one event entry. The discriminator must be a string; a known tag
/// with a well-shaped payload yields its variant, anything else yields
/// `Unknown` with the tag and the sibling fields kept verbatim.
pub fn decode_entry(e: JsonValue) -> (r: Result<EventEntry, DecodeError>)
    ensures
        r is Ok <==> entry_ok(e),
        r matches Ok(out) ==> entry_matches(out, e),
        r matches Err(er) ==> er.context@ == "event entry"@,
{
    proof {
        lemma_known_tags_distinct();
    }
    let fs = match e {
        JsonValue::Object(fs) => fs,
        _ => {
            return Err(decode_err("event entry"));
        },
    };
    let ti = match find_first(&fs, "type") {
        Some(i) => i,
        None => {
            return Err(decode_err("event entry"));
        },
    };
    let kind: u8 = match &fs[ti].1 {
        JsonValue::Str(s) => {
            if str_eq(s.as_str(), "message") {
                1
            } else if str_eq(s.as_str(), "breadcrumbs") {
                2
            } else if str_eq(s.as_str(), "threads") {
                3
            } else if str_eq(s.as_str(), "exception") {
                4
            } else if str_eq(s.as_str(), "request") {
                5
            } else {
                0
            }
        },
        _ => {
            return Err(decode_err("event entry"));
        },
    };
    if kind == 1 {
        if let Some(formatted) = message_payload(&fs) {
            return Ok(EventEntry::Message { formatted });
        }
    } else if kind == 2 {
        if let Some(values) = breadcrumbs_payload(&fs) {
            return Ok(EventEntry::Breadcrumbs { values });
        }
    } else if kind == 3 {
        if let Some(values) = threads_payload(&fs) {
            return Ok(EventEntry::Threads { values });
        }
    } else if kind == 4 {
        if let Some(values) = exception_payload(&fs) {
            return Ok(EventEntry::Exception { values });
        }
    } else if kind == 5 {
        if request_check(&fs) {
            let data = build_request(fs);
            return Ok(EventEntry::Request { data });
        }
    }
    Ok(unknown_entry(fs))
}

// ---- events ----

pub open spec fn event_ok(v: JsonValue) -> bool {
    &&& v matches JsonValue::Object(fs)
    &&& str_field(fs@, "dateCreated"@) is Some
    &&& tags_ok(fs@)
    &&& (lookup(fs@, "entries"@) matches Some(JsonValue::Array(es)) && (forall|i: int|
        0 <= i < es@.len() ==> entry_ok(#[trigger] es@[i])))
}

pub open spec fn event_matches(ev: ApiEvent, v: JsonValue) -> bool {
    &&& v matches JsonValue::Object(fs)
    &&& (str_field(fs@, "dateCreated"@) matches Some(s) && ev.timestamp@ == s@)
    &&& tags_match(ev.tags@, fs@)
    &&& (lookup(fs@, "entries"@) matches Some(JsonValue::Array(es)) && ev.entries@.len()
        == es@.len() && (forall|i: int|
        0 <= i < es@.len() ==> entry_matches(#[trigger] ev.entries@[i], es@[i])))
}

/// Decodes an event: its creation time, its tags (defaulting to none), and
/// its entry list in received order. Entry order is significant and is
/// preserved.
pub fn decode_event(v: JsonValue) -> (r: Result<ApiEvent, DecodeError>)
    ensures
        r is Ok <==> event_ok(v),
        r matches Ok(ev) ==> event_matches(ev, v),
        r matches Err(e) ==> (e.context@ == "event"@ || e.context@ == "event entry"@),
{
    let mut fs = match v {
        JsonValue::Object(fs) => fs,
        _ => {
            return Err(decode_err("event"));
        },
    };
    let ghost orig = fs@;
    let timestamp = match read_req_str(&fs, "dateCreated") {
        Some(s) => s,
        None => {
            return Err(decode_err("event"));
        },
    };
    let tags = match read_tags(&fs) {
        Ok(t) => t,
        Err(_) => {
            return Err(decode_err("event"));
        },
    };
    let entries_val = extract_first(&mut fs, "entries");
    let es = match entries_val {
        Some(JsonValue::Array(es)) => es,
        _ => {
            return Err(decode_err("event"));
        },
    };
    let ghost esg = es@;
    let n = es.len();
    let mut entries: Vec<EventEntry> = Vec::new();
    let mut rest = es;
    let mut i: usize = 0;
    proof {
        assert(rest@ =~= esg.skip(0));
    }
    while rest.len() > 0
        invariant
            v matches JsonValue::Object(f0) && f0@ == orig,
            lookup(orig, "entries"@) matches Some(ev0) && ev0 matches JsonValue::Array(esv)
                && esv@ == esg,
            n == esg.len(),
            i + rest@.len() == esg.len(),
            entries@.len() == i,
            rest@ == esg.skip(i as int),
            forall|k: int| 0 <= k < i ==> entry_ok(#[trigger] esg[k]),
            forall|k: int| 0 <= k < i ==> entry_matches(#[trigger] entries@[k], esg[k]),
        decreases rest@.len(),
    {
        let ghost pre = rest@;
        let x = rest.remove(0);
        proof {
            assert(x == pre[0]);
            assert(pre[0] == esg[i as int]);
            assert(rest@ =~= pre.drop_first());
            assert(pre.drop_first() =~= esg.skip(i as int + 1));
        }
        match decode_entry(x) {
            Ok(out) => entries.push(out),
            Err(er) => {
                proof {
                    let entv = lookup(orig, "entries"@)->0;
                    assert(entv->Array_0@ == esg);
                    assert(!entry_ok(esg[i as int]));
                    assert(!event_ok(v));
                }
                return Err(er);
            },
        }
        i = i + 1;
    }
    proof {
        let entv = lookup(orig, "entries"@)->0;
        assert(entv->Array_0@ == esg);
        assert(v->Object_0@ == orig);
    }
    Ok(ApiEvent { timestamp, tags, entries })
}


/// The host part of the region URL: what remains after the scheme prefix,
/// empty when the field is missing or malformed — never an error.
pub open spec fn region_domain_view(u: Seq<char>) -> Seq<char> {
    if u.len() >= 8 && u.subrange(0, 8) == "https://"@ {
        u.subrange(8, u.len() as int)
    } else {
        Seq::empty()
    }
}

impl ApiOrganization {
    /// The organization's region host, derived by stripping the URL scheme
    /// from the remote-supplied link field.
    pub fn region_domain(&self) -> (r: &str)
        ensures
            r@ == region_domain_view(self.links.region_url@),
    {
        let s = self.links.region_url.as_str();
        let n = s.unicode_len();
        if n >= 8 && str_eq(s.substring_char(0, 8), "https://") {
            s.substring_char(8, n)
        } else {
            let empty = "";
            proof {
                reveal_strlit("");
                assert(empty@ =~= Seq::<char>::empty());
            }
            empty
        }
    }
}

} // verus!
