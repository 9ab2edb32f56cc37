use sentry_mobi::routes::{Auth, Index, IssueDetails, Logout, OrganizationDetails, ProjectDetails};

#[test]
fn route_paths_render() {
    let _ = (Index, Auth, Logout);
    let org = OrganizationDetails { org: "acme".to_string() };
    assert_eq!(org.path(), "/acme");
    let proj = ProjectDetails { org: "acme".to_string(), proj: "api".to_string() };
    assert_eq!(proj.path(), "/acme/api");
    let issue = IssueDetails {
        org: "acme".to_string(),
        proj: "api".to_string(),
        issue_id: "1234".to_string(),
    };
    assert_eq!(issue.path(), "/acme/api/issues/1234");
}
