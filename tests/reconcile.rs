use wallsync::catalog::{catalog_from_listing, decode_listing, is_success_status, parse_catalog, CatalogError};
use wallsync::config::{has_http_scheme, listing_url, read_auth, read_endpoint, read_image_directory};
use wallsync::plan::{plan_reconciliation, ImageRecord};

fn record(name: &str) -> ImageRecord {
    ImageRecord {
        filename: name.to_string(),
        download_link: format!("https://host/images/{name}"),
    }
}

fn names(records: &[ImageRecord]) -> Vec<String> {
    records.iter().map(|r| r.filename.clone()).collect()
}

#[test]
fn plan_example_downloads_missing_and_deletes_extra() {
    let remote = vec![record("a.png"), record("b.png"), record("c.png")];
    let local = vec!["b.png".to_string(), "c.png".to_string(), "d.png".to_string()];
    let plan = plan_reconciliation(&remote, &local);
    assert_eq!(names(&plan.to_download), vec!["a.png".to_string()]);
    assert_eq!(plan.to_download[0].download_link, "https://host/images/a.png");
    assert_eq!(plan.to_delete, vec!["d.png".to_string()]);
}

#[test]
fn plan_sets_are_disjoint() {
    let remote = vec![record("x.jpg"), record("y.jpg")];
    let local = vec!["y.jpg".to_string(), "z.jpg".to_string(), "w.jpg".to_string()];
    let plan = plan_reconciliation(&remote, &local);
    for r in &plan.to_download {
        assert!(!plan.to_delete.contains(&r.filename));
        assert!(!local.contains(&r.filename));
    }
    assert_eq!(plan.to_delete, vec!["z.jpg".to_string(), "w.jpg".to_string()]);
}

#[test]
fn plan_on_empty_directory_downloads_everything() {
    let remote = vec![record("a.png"), record("b.png")];
    let plan = plan_reconciliation(&remote, &Vec::new());
    assert_eq!(names(&plan.to_download), vec!["a.png".to_string(), "b.png".to_string()]);
    assert!(plan.to_delete.is_empty());
}

#[test]
fn plan_with_empty_catalog_deletes_everything() {
    let local = vec!["a.png".to_string()];
    let plan = plan_reconciliation(&Vec::new(), &local);
    assert!(plan.to_download.is_empty());
    assert_eq!(plan.to_delete, local);
}

#[test]
fn second_reconciliation_is_empty() {
    let remote = vec![record("a.png"), record("b.png"), record("c.png")];
    let local = vec!["b.png".to_string(), "c.png".to_string(), "d.png".to_string()];
    let plan = plan_reconciliation(&remote, &local);
    let mut after: Vec<String> = local
        .iter()
        .filter(|n| !plan.to_delete.contains(n))
        .cloned()
        .collect();
    after.extend(names(&plan.to_download));
    let again = plan_reconciliation(&remote, &after);
    assert!(again.to_download.is_empty());
    assert!(again.to_delete.is_empty());
}

#[test]
fn names_match_exactly() {
    let remote = vec![record("A.png")];
    let local = vec!["a.png".to_string()];
    let plan = plan_reconciliation(&remote, &local);
    assert_eq!(names(&plan.to_download), vec!["A.png".to_string()]);
    assert_eq!(plan.to_delete, vec!["a.png".to_string()]);
}

#[test]
fn endpoint_is_trimmed_and_loses_one_slash() {
    assert_eq!(read_endpoint("  https://wall.example.org/ \n"), "https://wall.example.org");
    assert_eq!(read_endpoint("http://h//"), "http://h/");
    assert_eq!(read_endpoint("\u{3000}http://h\u{3000}"), "http://h");
    assert_eq!(read_endpoint(""), "");
}

#[test]
fn directory_is_trimmed_and_loses_one_slash() {
    assert_eq!(read_image_directory(" /home/me/walls/ "), "/home/me/walls");
    assert_eq!(read_image_directory("walls"), "walls");
    assert_eq!(read_image_directory("/"), "");
}

#[test]
fn auth_needs_both_parts() {
    let a = read_auth(Some("u".to_string()), Some("p".to_string())).unwrap();
    assert_eq!(a.user, "u");
    assert_eq!(a.password, "p");
    assert!(read_auth(Some("u".to_string()), None).is_none());
    assert!(read_auth(None, Some("p".to_string())).is_none());
    assert!(read_auth(None, None).is_none());
}

#[test]
fn http_scheme_detection() {
    assert!(has_http_scheme("http://a"));
    assert!(has_http_scheme("https://a"));
    assert!(!has_http_scheme("ftp://a"));
    assert!(!has_http_scheme("wall.example.org"));
    assert!(!has_http_scheme("http:/"));
}

#[test]
fn listing_url_appends_images() {
    assert_eq!(listing_url("https://h"), "https://h/images");
}

#[test]
fn catalog_from_listing_body() {
    let body = br#"{"images": ["a.png", "b.jpg"]}"#;
    let records = parse_catalog("https://h/images", body).unwrap();
    assert_eq!(records.len(), 2);
    assert_eq!(records[0].filename, "a.png");
    assert_eq!(records[0].download_link, "https://h/images/a.png");
    assert_eq!(records[1].filename, "b.jpg");
    assert_eq!(records[1].download_link, "https://h/images/b.jpg");
}

#[test]
fn catalog_of_empty_listing_is_empty() {
    let records = parse_catalog("https://h/images", br#"{"images": []}"#).unwrap();
    assert!(records.is_empty());
}

#[test]
fn catalog_parse_errors() {
    assert_eq!(parse_catalog("u", b"not json").err(), Some(CatalogError::Parse));
    assert_eq!(parse_catalog("u", br#"{"files": []}"#).err(), Some(CatalogError::Parse));
    assert_eq!(parse_catalog("u", br#"{"images": "a.png"}"#).err(), Some(CatalogError::Parse));
    assert_eq!(parse_catalog("u", br#"{"images": ["a.png", 3]}"#).err(), Some(CatalogError::Parse));
    assert_eq!(parse_catalog("u", br#"["a.png"]"#).err(), Some(CatalogError::Parse));
}

#[test]
fn catalog_from_decoded_entries() {
    let ok = catalog_from_listing("L", Some(vec![Some("x.png".to_string())])).unwrap();
    assert_eq!(ok[0].download_link, "L/x.png");
    assert_eq!(catalog_from_listing("L", None).err(), Some(CatalogError::Parse));
    assert_eq!(
        catalog_from_listing("L", Some(vec![Some("x.png".to_string()), None])).err(),
        Some(CatalogError::Parse)
    );
}

#[test]
fn success_statuses() {
    assert!(is_success_status(200));
    assert!(is_success_status(204));
    assert!(!is_success_status(199));
    assert!(!is_success_status(300));
    assert!(!is_success_status(404));
}

#[test]
fn listing_entries_are_decoded_in_order() {
    let entries = decode_listing(br#"{"other": 1, "images": ["b.png", 2, null, "a.jpg"]}"#);
    assert_eq!(
        entries,
        Some(vec![Some("b.png".to_string()), None, None, Some("a.jpg".to_string())])
    );
    assert_eq!(decode_listing(br#"{"images": {"a": "b"}}"#), None);
    assert_eq!(decode_listing(b"{"), None);
}

#[test]
fn non_string_entry_yields_no_partial_catalog() {
    let r = parse_catalog("u", br#"{"images": ["a.png", "b.png", false]}"#);
    assert_eq!(r.err(), Some(CatalogError::Parse));
}
