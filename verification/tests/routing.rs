use netpup::errors::HttpCode;
use netpup::request::Methods;
use netpup::routes::{allows, unwrap_or_error, url_resolve, url_resolve_mult, Route, RouteEntry};

fn route(name: &str, url: &str, path: &str, methods: Vec<Methods>, script: bool) -> Route {
    Route {
        name: name.to_string(),
        path: path.to_string(),
        url: url.to_string(),
        methods,
        path_is_script: script,
    }
}

fn entry(
    path: Option<&str>,
    script: Option<&str>,
    url: Option<&str>,
    method: Option<&str>,
    methods: Option<Vec<Option<&str>>>,
) -> RouteEntry {
    RouteEntry {
        path: path.map(|s| s.to_string()),
        script: script.map(|s| s.to_string()),
        url: url.map(|s| s.to_string()),
        method: method.map(|s| s.to_string()),
        methods: methods.map(|v| v.into_iter().map(|o| o.map(|s| s.to_string())).collect()),
    }
}

#[test]
fn exact_route_matches_only_its_own_path_and_methods() {
    let r = route("home", "/index", "www/index.html", vec![Methods::GET], false);
    let hit = url_resolve(&r, "/index", &Methods::GET).unwrap();
    assert_eq!(hit.path, "www/index.html");
    assert_eq!(hit.name, "home");
    assert_eq!(hit.url, "/index");
    assert_eq!(hit.methods, vec![Methods::GET]);
    assert!(!hit.path_is_script);
    assert!(url_resolve(&r, "/index", &Methods::POST).is_err());
    assert!(url_resolve(&r, "/index/", &Methods::GET).is_err());
    assert!(url_resolve(&r, "/inde", &Methods::GET).is_err());
    assert!(url_resolve(&r, "", &Methods::GET).is_err());
    assert!(url_resolve(&r, "/INDEX", &Methods::GET).is_err());
}

#[test]
fn wildcard_route_substitutes_the_captured_segment() {
    let r = route("files", "/files/*", "/data/*.html", vec![Methods::GET], false);
    let hit = url_resolve(&r, "/files/report", &Methods::GET).unwrap();
    assert_eq!(hit.path, "/data/report.html");
    assert!(url_resolve(&r, "/files/report", &Methods::POST).is_err());
    assert!(url_resolve(&r, "/file/report", &Methods::GET).is_err());
}

#[test]
fn wildcard_may_capture_nothing() {
    let r = route("files", "/files/*", "/data/*.html", vec![Methods::GET], false);
    let hit = url_resolve(&r, "/files/", &Methods::GET).unwrap();
    assert_eq!(hit.path, "/data/.html");
}

#[test]
fn wildcard_with_suffix_and_repeated_target_stars() {
    let r = route("doc", "/doc/*/view", "docs/*/*.md", vec![Methods::GET, Methods::POST], false);
    let hit = url_resolve(&r, "/doc/intro/view", &Methods::POST).unwrap();
    assert_eq!(hit.path, "docs/intro/intro.md");
    assert!(url_resolve(&r, "/doc/intro/edit", &Methods::POST).is_err());
}

#[test]
fn overlapping_prefix_and_suffix_do_not_match() {
    let r = route("odd", "/a*a", "x*", vec![Methods::GET], false);
    assert!(url_resolve(&r, "/a", &Methods::GET).is_err());
    let hit = url_resolve(&r, "/aa", &Methods::GET).unwrap();
    assert_eq!(hit.path, "x");
    let hit = url_resolve(&r, "/abca", &Methods::GET).unwrap();
    assert_eq!(hit.path, "xbc");
}

#[test]
fn pattern_with_two_wildcards_matches_nothing() {
    let r = route("bad", "/*/*", "x", vec![Methods::GET], false);
    assert!(url_resolve(&r, "/a/b", &Methods::GET).is_err());
    assert!(url_resolve(&r, "/*/*", &Methods::GET).is_err());
}

#[test]
fn script_route_keeps_its_path() {
    let r = route("api", "/api/*", "scripts/*.lua", vec![Methods::POST], true);
    let hit = url_resolve(&r, "/api/users", &Methods::POST).unwrap();
    assert_eq!(hit.path, "scripts/*.lua");
    assert!(hit.path_is_script);
    assert_eq!(hit.name, "api");
}

#[test]
fn route_without_methods_matches_nothing() {
    let r = route("none", "/x", "x.html", vec![], false);
    assert!(url_resolve(&r, "/x", &Methods::GET).is_err());
    assert!(!allows(&r.methods, &Methods::GET));
}

#[test]
fn first_declared_route_wins() {
    let routes = vec![
        route("first", "/page/*", "first/*.html", vec![Methods::GET], false),
        route("second", "/page/about", "second/about.html", vec![Methods::GET], false),
    ];
    let hit = url_resolve_mult(&routes, "/page/about", Methods::GET).unwrap();
    assert_eq!(hit.name, "first");
    assert_eq!(hit.path, "first/about.html");
    let swapped = vec![routes[1].clone(), routes[0].clone()];
    let hit = url_resolve_mult(&swapped, "/page/about", Methods::GET).unwrap();
    assert_eq!(hit.name, "second");
    assert_eq!(hit.path, "second/about.html");
}

#[test]
fn later_route_answers_when_earlier_ones_do_not_match() {
    let routes = vec![
        route("a", "/a", "a.html", vec![Methods::GET], false),
        route("b", "/b", "b.html", vec![Methods::POST], false),
        route("c", "/b", "c.html", vec![Methods::GET], false),
    ];
    let hit = url_resolve_mult(&routes, "/b", Methods::GET).unwrap();
    assert_eq!(hit.name, "c");
}

#[test]
fn no_matching_route_is_not_found() {
    let routes = vec![route("a", "/a", "a.html", vec![Methods::GET], false)];
    let err = url_resolve_mult(&routes, "/missing", Methods::GET).unwrap_err();
    assert_eq!(err.erc, HttpCode::NotFound);
    assert_eq!(err.details, "No matching route found");
    let err = url_resolve_mult(&[], "/a", Methods::GET).unwrap_err();
    assert_eq!(err.erc, HttpCode::NotFound);
}

#[test]
fn unwrap_or_error_keeps_all_or_nothing() {
    assert_eq!(unwrap_or_error(vec![Some(1), Some(2), Some(3)]), Some(vec![1, 2, 3]));
    assert_eq!(unwrap_or_error(vec![Some(1), None, Some(3)]), None);
    assert_eq!(unwrap_or_error::<u8>(vec![]), Some(vec![]));
}

#[test]
fn route_declaration_with_path_and_method() {
    let r = Route::new(
        "home".to_string(),
        &entry(Some("www/index.html"), None, Some("/"), Some("get"), None),
    )
    .unwrap();
    assert_eq!(r.name, "home");
    assert_eq!(r.path, "www/index.html");
    assert_eq!(r.url, "/");
    assert_eq!(r.methods, vec![Methods::GET]);
    assert!(!r.path_is_script);
}

#[test]
fn route_declaration_with_script_and_methods() {
    let r = Route::new(
        "api".to_string(),
        &entry(None, Some("api.lua"), Some("/api/*"), None, Some(vec![Some("GET"), Some("Post")])),
    )
    .unwrap();
    assert_eq!(r.path, "api.lua");
    assert!(r.path_is_script);
    assert_eq!(r.methods, vec![Methods::GET, Methods::POST]);
}

#[test]
fn route_declaration_prefers_path_and_method() {
    let r = Route::new(
        "both".to_string(),
        &entry(Some("a.html"), Some("a.lua"), Some("/a"), Some("POST"), Some(vec![Some("GET")])),
    )
    .unwrap();
    assert_eq!(r.path, "a.html");
    assert!(!r.path_is_script);
    assert_eq!(r.methods, vec![Methods::POST]);
}

#[test]
fn route_declaration_faults() {
    let cases: Vec<(RouteEntry, &str)> = vec![
        (entry(None, None, Some("/"), Some("GET"), None), "Missing key 'path' or 'script'"),
        (entry(Some("a"), None, None, Some("GET"), None), "Missing key 'url'"),
        (entry(Some("a"), None, Some("/"), Some("FETCH"), None), "Ill formatted key 'method'"),
        (
            entry(Some("a"), None, Some("/"), None, Some(vec![Some("GET"), None])),
            "Ill formatted key 'methods'",
        ),
        (
            entry(Some("a"), None, Some("/"), None, Some(vec![Some("GET"), Some("PUT")])),
            "Ill formatted key 'methods'",
        ),
        (entry(Some("a"), None, Some("/"), None, Some(vec![])), "Ill formatted key 'methods'"),
        (entry(Some("a"), None, Some("/"), None, None), "Missing key 'method' or 'methods'"),
        (entry(Some("a"), None, Some("/*/*"), Some("GET"), None), "Ill formatted key 'url'"),
        (entry(None, None, None, None, None), "Missing key 'path' or 'script'"),
        (entry(Some("a"), None, None, Some("FETCH"), None), "Missing key 'url'"),
        (entry(Some("a"), None, Some("/*/*"), Some("FETCH"), None), "Ill formatted key 'method'"),
    ];
    for (e, details) in cases {
        let err = Route::new("r".to_string(), &e).unwrap_err();
        assert_eq!(err.name, "usr-cfgensure-cfgld");
        assert_eq!(err.details, details);
        assert!(!err.is_fatal());
    }
}

#[test]
fn route_table_keeps_declaration_order_and_lists_scripts() {
    let entries = vec![
        ("zeta".to_string(), entry(Some("z.html"), None, Some("/z"), Some("GET"), None)),
        ("alpha".to_string(), entry(None, Some("a.lua"), Some("/a"), Some("POST"), None)),
        ("mid".to_string(), entry(None, Some("m.lua"), Some("/m/*"), Some("GET"), None)),
    ];
    let (routes, scripts) = Route::tbljob(&entries).unwrap();
    let names: Vec<&str> = routes.iter().map(|r| r.name.as_str()).collect();
    assert_eq!(names, vec!["zeta", "alpha", "mid"]);
    assert_eq!(
        scripts,
        vec![
            ("alpha".to_string(), "a.lua".to_string()),
            ("mid".to_string(), "m.lua".to_string())
        ]
    );
}

#[test]
fn route_table_reports_the_first_fault() {
    let entries = vec![
        ("ok".to_string(), entry(Some("z.html"), None, Some("/z"), Some("GET"), None)),
        ("nourl".to_string(), entry(Some("a.html"), None, None, Some("GET"), None)),
        ("notarget".to_string(), entry(None, None, Some("/a"), Some("GET"), None)),
    ];
    let err = Route::tbljob(&entries).unwrap_err();
    assert_eq!(err.details, "Missing key 'url'");
    let (routes, scripts) = Route::tbljob(&vec![]).unwrap();
    assert!(routes.is_empty());
    assert!(scripts.is_empty());
}
