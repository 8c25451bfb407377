use squaremap_server::serve::{
    cache_control, etag_matches, etag_text, missing_status, open_failure_status, proxies_to_frontend, served_path,
};

#[test]
fn root_serves_index() {
    assert_eq!(served_path(""), "index.html");
    assert_eq!(served_path("tiles/a.png"), "tiles/a.png");
}

#[test]
fn missing_and_failed_files() {
    assert_eq!(missing_status(true, true), 200);
    assert_eq!(missing_status(true, false), 404);
    assert_eq!(missing_status(false, true), 404);
    assert_eq!(open_failure_status(true), 404);
    assert_eq!(open_failure_status(false), 403);
    assert_eq!(cache_control(true), Some("max-age=0, must-revalidate, no-cache"));
    assert_eq!(cache_control(false), None);
}

#[test]
fn frontend_proxying() {
    assert!(proxies_to_frontend(true, "index.html"));
    assert!(!proxies_to_frontend(true, "tiles/settings.json"));
    assert!(!proxies_to_frontend(false, "index.html"));
}

#[test]
fn entity_tags() {
    assert_eq!(etag_text(0, 0), "\"0-0\"");
    assert_eq!(etag_text(255, 4096), "\"ff-1000\"");
    assert_eq!(etag_text(u128::MAX, u64::MAX), format!("\"{:x}-{:x}\"", u128::MAX, u64::MAX));
}

#[test]
fn if_none_match() {
    let tag = "\"ff-10\"";
    assert!(etag_matches(" * ", tag));
    assert!(etag_matches("\"ff-10\"", tag));
    assert!(etag_matches("\"a-1\", W/\"ff-10\" ", tag));
    assert!(!etag_matches("\"a-1\", \"b-2\"", tag));
    assert!(!etag_matches("", tag));
    assert!(!etag_matches("*,", tag));
}
