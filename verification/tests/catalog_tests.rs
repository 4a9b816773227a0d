use bookos_store::catalog::{
    app_pkg, can_take_members, catalog_apps, catalog_url, fetch_catalog, fetch_release, find_app,
    insecure_tls, list_apps, mark_stale, open_release_page, stale_catalog, stale_document,
    CatalogStep, Fetch,
};
use bookos_store::json::{parse, Json};
use bookos_store::packages::parse_installed;
use bookos_store::process::Output;

const DOC: &str = r#"{"apps":[{"pkg":"a","available":"2","html_url":"https://a/"},{"pkg":"b"}]}"#;

fn apps() -> Vec<Json> {
    catalog_apps(&parse(DOC).unwrap())
}

fn text(s: &str) -> Json {
    Json::Str(s.to_string())
}

fn brought(code: i32, body: &str) -> Option<Output> {
    Some(Output { code: Some(code), stdout: body.as_bytes().to_vec(), stderr: Vec::new() })
}

fn start(age: Option<u64>, url: &str) -> CatalogStep {
    fetch_catalog(true, age, url.to_string(), false)
}

fn fetch(step: CatalogStep) -> Fetch {
    match step {
        CatalogStep::Run(f) => f,
        other => panic!("{:?}", other),
    }
}

#[test]
fn the_address_can_be_overridden() {
    assert_eq!(catalog_url(None), "https://bookos.es/api/store.json");
    assert_eq!(catalog_url(Some("http://x".to_string())), "http://x");
    assert!(insecure_tls(&Some("1".to_string())));
    assert!(!insecure_tls(&Some("true".to_string())));
    assert!(!insecure_tls(&None));
}

#[test]
fn a_current_cache_spares_the_fetch() {
    for (age, reads) in [(Some(0), true), (Some(599), true), (Some(600), false), (None, false)] {
        assert_eq!(matches!(start(age, "u"), CatalogStep::ReadFresh(_)), reads);
    }
    match start(Some(1), "u") {
        CatalogStep::ReadFresh(c) => match c.loaded(&Some(DOC.to_string())) {
            CatalogStep::Done(found) => assert_eq!(found, apps()),
            other => panic!("{:?}", other),
        },
        other => panic!("{:?}", other),
    }
}

#[test]
fn an_unreadable_cache_leads_to_the_fetch() {
    for cached in [None, Some("{".to_string())] {
        match start(Some(1), "http://x/s.json") {
            CatalogStep::ReadFresh(c) => {
                let f = fetch(c.loaded(&cached));
                assert_eq!(f.url, "http://x/s.json");
                assert_eq!(f.fallback, Some("http://x/s.json.php".to_string()));
            }
            other => panic!("{:?}", other),
        }
    }
}

#[test]
fn the_fetch_checks_certificates_unless_told() {
    let f = fetch(start(None, "u"));
    assert_eq!(f.command().program, "curl");
    assert_eq!(
        f.command().args,
        vec![
            "-fsSL", "--max-time", "15", "-H", "Accept: application/json", "-H",
            "User-Agent: bookos-store", "u"
        ]
    );
    let f = fetch(fetch_catalog(true, None, "u".to_string(), true));
    assert_eq!(f.command().args[7..], ["-k".to_string(), "u".to_string()]);
}

#[test]
fn a_body_that_reads_is_published() {
    match fetch(start(None, "u")).finished(&brought(0, DOC)) {
        CatalogStep::Publish { body, apps: found } => {
            assert_eq!(body, DOC);
            assert_eq!(found, apps());
        }
        other => panic!("{:?}", other),
    }
}

#[test]
fn failures_lead_to_the_fallback_and_then_to_the_old_cache() {
    for out in [None, brought(22, DOC), brought(0, "<html>")] {
        let second = fetch(fetch(start(None, "u.json")).finished(&out));
        assert_eq!(second.url, "u.json.php");
        assert_eq!(second.fallback, None);
        assert!(matches!(second.finished(&out), CatalogStep::ReadStale));
        assert!(matches!(fetch(start(None, "u")).finished(&out), CatalogStep::ReadStale));
    }
}

#[test]
fn an_old_cache_is_marked() {
    let old = stale_catalog(&Some(DOC.to_string()));
    assert_eq!(old.len(), 2);
    assert_eq!(old[0].get("_stale"), Some(&Json::Bool(true)));
    assert_eq!(old[1].get("_stale"), Some(&Json::Bool(true)));
    assert_eq!(old[0].get("pkg"), Some(&text("a")));
    assert!(stale_catalog(&None).is_empty());
    assert!(stale_catalog(&Some("x".to_string())).is_empty());
    assert!(stale_document(None).is_empty());
    assert_eq!(mark_stale(vec![Json::Null]), vec![Json::Null]);
}

#[test]
fn a_document_without_apps_lists_none() {
    for doc in ["{}", "[]", "null", r#"{"apps":{}}"#, r#"{"apps":"x"}"#] {
        assert!(catalog_apps(&parse(doc).unwrap()).is_empty(), "{}", doc);
    }
}

#[test]
fn listing_adds_the_installed_version() {
    let mut all = apps();
    all.push(Json::Null);
    let listed = list_apps(all, &parse_installed("a 1-1\n"), &vec![false, true, false]);
    assert_eq!(listed[0].get("installed"), Some(&text("1-1")));
    assert_eq!(listed[0].get("available"), Some(&text("2")));
    assert_eq!(listed[1].get("installed"), Some(&text("manual")));
    assert_eq!(listed[2], Json::Object(vec![("installed".to_string(), Json::Null)]));
    assert!(can_take_members(&Json::Null));
    assert!(!can_take_members(&text("x")));
    assert_eq!(app_pkg(&apps()[1]), "b");
    assert_eq!(app_pkg(&Json::Null), "");
}

#[test]
fn listing_replaces_a_version_that_the_catalogue_brings() {
    let app = parse(r#"{"installed":"9","pkg":"z"}"#).unwrap();
    let listed = list_apps(vec![app], &parse_installed(""), &vec![false]);
    assert_eq!(listed[0], parse(r#"{"installed":null,"pkg":"z"}"#).unwrap());
}

#[test]
fn an_application_is_found_by_the_last_segment() {
    let all = apps();
    assert_eq!(open_release_page(&all, "owner/a").program, "xdg-open");
    assert_eq!(open_release_page(&all, "owner/a").args, vec!["https://a/"]);
    assert_eq!(open_release_page(&all, "b").args, vec!["https://bookos.es/"]);
    assert_eq!(open_release_page(&all, "c").args, vec!["https://bookos.es/"]);
    assert!(find_app(&all, "b").is_some());
    assert!(find_app(&all, "c").is_none());
}

#[test]
fn a_release_has_the_shape_of_github() {
    let all = apps();
    let r = fetch_release(&all, "owner/a").unwrap();
    assert_eq!(r.get("tag_name"), Some(&text("2")));
    assert_eq!(r.get("html_url"), Some(&text("https://a/")));
    assert_eq!(r.get("assets"), Some(&Json::Array(vec![])));
    assert_eq!(r.get("body"), Some(&text("")));
    assert_eq!(fetch_release(&all, "b").unwrap().get("tag_name"), Some(&Json::Null));
    assert_eq!(
        fetch_release(&all, "x/zz"),
        Err("App 'zz' no está en el catálogo.".to_string())
    );
}

#[test]
fn without_a_cache_directory_nothing_is_fetched() {
    for age in [None, Some(1), Some(9000)] {
        match fetch_catalog(false, age, "http://x/s.json".to_string(), false) {
            CatalogStep::Done(found) => assert!(found.is_empty()),
            other => panic!("{:?}", other),
        }
    }
}
