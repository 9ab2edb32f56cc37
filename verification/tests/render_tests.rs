use sentry_mobi::decode::{
    ApiOrganization, ApiProject, ApiThread, Breadcrumb, Frame, Links, Stacktrace,
};
use sentry_mobi::render::{
    breadcrumb_display, merge_region_organizations, sort_organizations, sort_projects,
    stacktrace_display, threads_display,
};
use sentry_mobi::text::{event_count, parse_u64, u64_to_dec};

fn org(name: &str, bookmarked: bool) -> ApiOrganization {
    ApiOrganization {
        name: name.to_string(),
        slug: name.to_lowercase(),
        links: Links { region_url: String::new() },
        is_bookmarked: bookmarked,
    }
}

fn proj(name: &str, bookmarked: bool) -> ApiProject {
    ApiProject { name: name.to_string(), slug: name.to_lowercase(), is_bookmarked: bookmarked }
}

fn crumb(n: usize) -> Breadcrumb {
    Breadcrumb {
        timestamp: format!("t{}", n),
        level: "info".to_string(),
        message: format!("m{}", n),
    }
}

#[test]
fn organizations_sort_bookmarked_first_and_stable() {
    let input = vec![org("A", false), org("B", true), org("C", false), org("D", true)];
    let out = sort_organizations(input);
    let names: Vec<&str> = out.iter().map(|o| o.name.as_str()).collect();
    assert_eq!(names, vec!["B", "D", "A", "C"]);
}

#[test]
fn projects_sort_bookmarked_first_and_stable() {
    let input = vec![proj("p1", false), proj("p2", false), proj("p3", true)];
    let out = sort_projects(input);
    let names: Vec<&str> = out.iter().map(|p| p.name.as_str()).collect();
    assert_eq!(names, vec!["p3", "p1", "p2"]);
}

#[test]
fn all_bookmarked_keeps_input_order() {
    let input = vec![org("A", true), org("B", true)];
    let out = sort_organizations(input);
    let names: Vec<&str> = out.iter().map(|o| o.name.as_str()).collect();
    assert_eq!(names, vec!["A", "B"]);
}

#[test]
fn region_pages_merge_in_page_order_then_sort() {
    let pages = vec![
        vec![org("us1", false), org("us2", true)],
        vec![org("de1", true), org("de2", false)],
    ];
    let out = merge_region_organizations(pages);
    let names: Vec<&str> = out.iter().map(|o| o.name.as_str()).collect();
    assert_eq!(names, vec!["us2", "de1", "us1", "de2"]);
}

#[test]
fn threads_show_only_crashed_or_current() {
    let t = |crashed: bool, current: bool| ApiThread { crashed, current, stacktrace: None };
    let out = threads_display(vec![t(false, false), t(true, false), t(false, true)]);
    assert_eq!(out.len(), 2);
    assert!(out[0].crashed);
    assert!(out[1].current);
}

#[test]
fn twenty_five_breadcrumbs_show_twenty_most_recent_first() {
    let crumbs: Vec<Breadcrumb> = (0..25).map(crumb).collect();
    let d = breadcrumb_display(crumbs);
    assert_eq!(d.total, 25);
    assert_eq!(d.shown.len(), 20);
    assert_eq!(d.shown[0].message, "m24");
    assert_eq!(d.shown[19].message, "m5");
    assert_eq!(d.notice, Some("showed 20 out of 25 breadcrumbs".to_string()));
}

#[test]
fn twenty_breadcrumbs_show_without_notice() {
    let crumbs: Vec<Breadcrumb> = (0..20).map(crumb).collect();
    let d = breadcrumb_display(crumbs);
    assert_eq!(d.shown.len(), 20);
    assert_eq!(d.notice, None);
}

#[test]
fn few_breadcrumbs_are_reversed() {
    let crumbs: Vec<Breadcrumb> = (0..3).map(crumb).collect();
    let d = breadcrumb_display(crumbs);
    assert_eq!(d.total, 3);
    assert_eq!(d.notice, None);
    let msgs: Vec<&str> = d.shown.iter().map(|c| c.message.as_str()).collect();
    assert_eq!(msgs, vec!["m2", "m1", "m0"]);
}

#[test]
fn stack_frames_display_in_reverse_with_flags() {
    let st = Stacktrace {
        frames: vec![
            Frame {
                in_app: false,
                filename: None,
                function: Some("start".to_string()),
                line_no: None,
            },
            Frame {
                in_app: true,
                filename: Some("app.py".to_string()),
                function: Some("handle".to_string()),
                line_no: Some(42),
            },
        ],
    };
    let out = stacktrace_display(&st);
    assert_eq!(out.len(), 2);
    assert_eq!(out[0].function, "handle");
    assert_eq!(out[0].location, Some("app.py:42".to_string()));
    assert!(!out[0].system);
    assert_eq!(out[1].function, "start");
    assert_eq!(out[1].location, None);
    assert!(out[1].system);
}

#[test]
fn frame_with_filename_but_no_line_keeps_colon() {
    let st = Stacktrace {
        frames: vec![Frame {
            in_app: true,
            filename: Some("mod.rs".to_string()),
            function: None,
            line_no: None,
        }],
    };
    let out = stacktrace_display(&st);
    assert_eq!(out[0].function, "");
    assert_eq!(out[0].location, Some("mod.rs:".to_string()));
}

#[test]
fn event_count_formats_numbers() {
    assert_eq!(event_count("1234"), "1234 events");
    assert_eq!(event_count("0012"), "12 events");
}

#[test]
fn event_count_falls_back_to_raw_string() {
    assert_eq!(event_count("99999999999999999999999"), "99999999999999999999999 events");
    assert_eq!(event_count("approx 3k"), "approx 3k events");
    assert_eq!(event_count(""), " events");
}

#[test]
fn u64_parsing_edges() {
    assert_eq!(parse_u64("18446744073709551615"), Some(u64::MAX));
    assert_eq!(parse_u64("18446744073709551616"), None);
    assert_eq!(parse_u64("0"), Some(0));
    assert_eq!(parse_u64("-3"), None);
    assert_eq!(parse_u64(""), None);
}

#[test]
fn u64_rendering_is_canonical() {
    assert_eq!(u64_to_dec(0), "0");
    assert_eq!(u64_to_dec(907), "907");
    assert_eq!(u64_to_dec(u64::MAX), "18446744073709551615");
}
