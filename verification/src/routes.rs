//! The app-local routes and their path rendering. The HTTP router itself
//! lives outside the core; these records carry the path parameters and
//! render the local hrefs the views link to.

use vstd::prelude::*;
use vstd::string::StringExecFns;

verus! {

/// The index route.
#[derive(Debug, PartialEq, Eq)]
pub struct Index;

/// The login form target.
#[derive(Debug, PartialEq, Eq)]
pub struct Auth;

/// The logout form target.
#[derive(Debug, PartialEq, Eq)]
pub struct Logout;

/// One organization's project listing.
#[derive(Debug, PartialEq, Eq)]
pub struct OrganizationDetails {
    pub org: String,
}

/// One project's issue stream.
#[derive(Debug, PartialEq, Eq)]
pub struct ProjectDetails {
    pub org: String,
    pub proj: String,
}

/// One issue with its latest event.
#[derive(Debug, PartialEq, Eq)]
pub struct IssueDetails {
    pub org: String,
    pub proj: String,
    pub issue_id: String,
}

impl OrganizationDetails {
    pub fn path(&self) -> (r: String)
        ensures
            r@ == "/"@ + self.org@,
    {
        let mut s = String::from_str("/");
        s.append(self.org.as_str());
        s
    }
}

impl ProjectDetails {
    pub fn path(&self) -> (r: String)
        ensures
            r@ == "/"@ + self.org@ + "/"@ + self.proj@,
    {
        let mut s = String::from_str("/");
        s.append(self.org.as_str());
        s.append("/");
        s.append(self.proj.as_str());
        s
    }
}

impl IssueDetails {
    pub fn path(&self) -> (r: String)
        ensures
            r@ == "/"@ + self.org@ + "/"@ + self.proj@ + "/issues/"@ + self.issue_id@,
    {
        let mut s = String::from_str("/");
        s.append(self.org.as_str());
        s.append("/");
        s.append(self.proj.as_str());
        s.append("/issues/");
        s.append(self.issue_id.as_str());
        s
    }
}

} // verus!
