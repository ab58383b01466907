use apogee_host::config::{Config, ServiceDescription};

fn desc(name: &str) -> ServiceDescription {
    ServiceDescription { name: String::from(name) }
}

fn api_config() -> Config {
    let mut c = Config::new();
    c.add_route(b"/api", desc("svcA"));
    c.add_route(b"/api/v2", desc("svcB"));
    c
}

#[test]
fn route_prefix_match_selects_owner() {
    let c = api_config();
    let r = c.route(b"/api/x").expect("should route");
    assert_eq!(r.name, "svcA");
}

#[test]
fn route_longest_prefix_wins() {
    let c = api_config();
    let r = c.route(b"/api/v2/y").expect("should route");
    assert_eq!(r.name, "svcB");
}

#[test]
fn route_exact_match() {
    let c = api_config();
    let r = c.route(b"/api").expect("should route");
    assert_eq!(r.name, "svcA");
    let r2 = c.route(b"/api/v2").expect("should route");
    assert_eq!(r2.name, "svcB");
}

#[test]
fn route_boundary_rejection() {
    let c = api_config();
    assert!(c.route(b"/apix").is_none());
}

#[test]
fn route_boundary_rejection_shadows_shorter_key() {
    // The longest textual prefix decides alone: when it fails the boundary
    // check the lookup yields nothing, even though "/api" would have aligned.
    let c = api_config();
    assert!(c.route(b"/api/v2x").is_none());
}

#[test]
fn route_empty_table_matches_nothing() {
    let c = Config::new();
    assert!(c.route(b"/api").is_none());
    assert!(c.route(b"").is_none());
}

#[test]
fn route_trailing_slash_stripped_on_insert() {
    let mut c = Config::new();
    c.add_route(b"/files/", desc("files"));
    let r = c.route(b"/files").expect("normalized key should match exact path");
    assert_eq!(r.name, "files");
    let r2 = c.route(b"/files/readme").expect("should route");
    assert_eq!(r2.name, "files");
}

#[test]
fn route_every_trailing_slash_stripped() {
    let mut c = Config::new();
    c.add_route(b"/files///", desc("files"));
    let r = c.route(b"/files").expect("normalized key should match exact path");
    assert_eq!(r.name, "files");
}

#[test]
fn route_root_prefix_catches_all() {
    let mut c = Config::new();
    c.add_route(b"/", desc("root"));
    let r = c.route(b"/anything/else").expect("root route should match");
    assert_eq!(r.name, "root");
}

#[test]
fn route_later_insert_replaces_equal_key() {
    let mut c = Config::new();
    c.add_route(b"/api", desc("old"));
    c.add_route(b"/api/", desc("new"));
    let r = c.route(b"/api/x").expect("should route");
    assert_eq!(r.name, "new");
}

#[test]
fn route_no_match_without_prefix() {
    let c = api_config();
    assert!(c.route(b"/other").is_none());
}

#[test]
fn build_constructs_table_in_order() {
    let entries = vec![
        (b"/api".to_vec(), desc("svcA")),
        (b"/api/v2".to_vec(), desc("svcB")),
    ];
    let c = Config::build(entries);
    assert_eq!(c.route(b"/api/x").unwrap().name, "svcA");
    assert_eq!(c.route(b"/api/v2/y").unwrap().name, "svcB");
    assert!(c.route(b"/apix").is_none());
}
