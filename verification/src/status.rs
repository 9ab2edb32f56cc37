//! The issue mutation encoder: a small closed status enum mapped to the
//! remote API's update record. The mapping is a fixed table; the archived
//! pair uses the newer `substatus` field while `ResolvedInNextRelease`
//! still travels in `statusDetails`.

use vstd::prelude::*;
use vstd::string::StringExecFns;
use crate::text::str_eq;

verus! {

/// The status a client can ask for, as sent from the frontend.
#[derive(Debug, Clone, Copy, PartialEq, Eq, Structural)]
pub enum StatusParam {
    Unresolved,
    Resolved,
    ResolvedInNextRelease,
    ArchivedUntilEscalating,
    ArchivedForever,
}

/// The remote-shaped update record: a status word, an optional substatus,
/// and a map of boolean status details.
#[derive(Debug, PartialEq, Eq)]
pub struct ApiUpdate {
    pub status: String,
    pub substatus: Option<String>,
    pub status_details: Vec<(String, bool)>,
}

/// The form payload of a status update request.
#[derive(Debug, Clone, Copy, PartialEq, Eq, Structural)]
pub struct UpdateParams {
    pub status: StatusParam,
}

impl UpdateParams {
    /// The fixed lookup table from the client-facing enum to the remote
    /// update record. The enum is closed, so the mapping is total and no
    /// other field combination is reachable.
    pub fn to_api(self) -> (r: ApiUpdate)
        ensures
            self.status == StatusParam::Unresolved ==> r.status@ == "unresolved"@ && r.substatus
                is None && r.status_details@ == Seq::<(String, bool)>::empty(),
            self.status == StatusParam::Resolved ==> r.status@ == "resolved"@ && r.substatus
                is None && r.status_details@ == Seq::<(String, bool)>::empty(),
            self.status == StatusParam::ResolvedInNextRelease ==> r.status@ == "resolved"@
                && r.substatus is None && r.status_details@.len() == 1 && r.status_details@[0].0@
                == "inNextRelease"@ && r.status_details@[0].1 == true,
            self.status == StatusParam::ArchivedUntilEscalating ==> r.status@ == "ignored"@ && (
            r.substatus matches Some(s) && s@ == "archived_until_escalating"@)
                && r.status_details@ == Seq::<(String, bool)>::empty(),
            self.status == StatusParam::ArchivedForever ==> r.status@ == "ignored"@ && (r.substatus
                matches Some(s) && s@ == "archived_forever"@) && r.status_details@ == Seq::<
                (String, bool),
            >::empty(),
    {
        match self.status {
            StatusParam::Unresolved => ApiUpdate {
                status: String::from_str("unresolved"),
                substatus: None,
                status_details: Vec::new(),
            },
            StatusParam::Resolved => ApiUpdate {
                status: String::from_str("resolved"),
                substatus: None,
                status_details: Vec::new(),
            },
            StatusParam::ResolvedInNextRelease => {
                let mut details: Vec<(String, bool)> = Vec::new();
                details.push((String::from_str("inNextRelease"), true));
                ApiUpdate {
                    status: String::from_str("resolved"),
                    substatus: None,
                    status_details: details,
                }
            },
            StatusParam::ArchivedUntilEscalating => ApiUpdate {
                status: String::from_str("ignored"),
                substatus: Some(String::from_str("archived_until_escalating")),
                status_details: Vec::new(),
            },
            StatusParam::ArchivedForever => ApiUpdate {
                status: String::from_str("ignored"),
                substatus: Some(String::from_str("archived_forever")),
                status_details: Vec::new(),
            },
        }
    }
}

/// The status named by a form value, mirroring the values the status
/// buttons post.
pub open spec fn status_of_form(s: Seq<char>) -> Option<StatusParam> {
    if s == "unresolved"@ {
        Some(StatusParam::Unresolved)
    } else if s == "resolved"@ {
        Some(StatusParam::Resolved)
    } else if s == "resolved_in_next_release"@ {
        Some(StatusParam::ResolvedInNextRelease)
    } else if s == "archived_until_escalating"@ {
        Some(StatusParam::ArchivedUntilEscalating)
    } else if s == "archived_forever"@ {
        Some(StatusParam::ArchivedForever)
    } else {
        None
    }
}

/// Parses a posted status value; any other string is rejected.
pub fn status_from_form(s: &str) -> (r: Option<StatusParam>)
    ensures
        r == status_of_form(s@),
{
    if str_eq(s, "unresolved") {
        Some(StatusParam::Unresolved)
    } else if str_eq(s, "resolved") {
        Some(StatusParam::Resolved)
    } else if str_eq(s, "resolved_in_next_release") {
        Some(StatusParam::ResolvedInNextRelease)
    } else if str_eq(s, "archived_until_escalating") {
        Some(StatusParam::ArchivedUntilEscalating)
    } else if str_eq(s, "archived_forever") {
        Some(StatusParam::ArchivedForever)
    } else {
        None
    }
}

/// One `"key":bool` member of the status-details object.
pub open spec fn detail_item(p: (String, bool)) -> Seq<char> {
    "\""@ + p.0@ + "\":"@ + (if p.1 {
        "true"@
    } else {
        "false"@
    })
}

/// The members of the status-details object, joined with commas.
pub open spec fn detail_items(s: Seq<(String, bool)>) -> Seq<char>
    decreases s.len(),
{
    if s.len() == 0 {
        Seq::empty()
    } else if s.len() == 1 {
        detail_item(s[0])
    } else {
        detail_items(s.drop_last()) + ","@ + detail_item(s.last())
    }
}

/// The JSON text of an update record, exactly as the remote API expects
/// it: `status`, then `substatus` only when present, then `statusDetails`.
/// Values are taken verbatim; the table's fixed words need no escaping.
pub open spec fn update_payload_view(u: ApiUpdate) -> Seq<char> {
    "{\"status\":\""@ + u.status@ + "\""@ + (match u.substatus {
        Some(s) => ",\"substatus\":\""@ + s@ + "\""@,
        None => Seq::<char>::empty(),
    }) + ",\"statusDetails\":{"@ + detail_items(u.status_details@) + "}}"@
}

impl ApiUpdate {
    /// Renders the update as the JSON body of the outbound `PUT`.
    pub fn payload_json(&self) -> (r: String)
        ensures
            r@ == update_payload_view(*self),
    {
        let mut out = String::from_str("{\"status\":\"");
        out.append(self.status.as_str());
        out.append("\"");
        match &self.substatus {
            Some(s) => {
                out.append(",\"substatus\":\"");
                out.append(s.as_str());
                out.append("\"");
            },
            None => {},
        }
        out.append(",\"statusDetails\":{");
        let n = self.status_details.len();
        let mut k: usize = 0;
        while k < n
            invariant
                n == self.status_details@.len(),
                k <= n,
                out@ == update_payload_prefix(*self) + detail_items(
                    self.status_details@.take(k as int),
                ),
            decreases n - k,
        {
            if k > 0 {
                out.append(",");
            }
            out.append("\"");
            out.append(self.status_details[k].0.as_str());
            out.append("\":");
            if self.status_details[k].1 {
                out.append("true");
            } else {
                out.append("false");
            }
            proof {
                let pre = self.status_details@.take(k as int);
                let cur = self.status_details@.take(k as int + 1);
                assert(cur.drop_last() =~= pre);
                assert(cur.last() == self.status_details@[k as int]);
                if k == 0 {
                    assert(detail_items(cur) == detail_item(self.status_details@[0]));
                    assert(Seq::<char>::empty() + "\""@ =~= "\""@);
                }
            }
            k = k + 1;
        }
        out.append("}}");
        proof {
            assert(self.status_details@.take(n as int) =~= self.status_details@);
        }
        out
    }
}

/// Everything of the payload before the status-details members.
pub open spec fn update_payload_prefix(u: ApiUpdate) -> Seq<char> {
    "{\"status\":\""@ + u.status@ + "\""@ + (match u.substatus {
        Some(s) => ",\"substatus\":\""@ + s@ + "\""@,
        None => Seq::<char>::empty(),
    }) + ",\"statusDetails\":{"@
}

} // verus!
