use netpup::errors::{DogError, HttpCode, NetError};
use netpup::logger::Logger;
use netpup::request::{Headers, HttpRequest, Methods};
use netpup::response::{ContentType, HttpResponse};
use netpup::routes::RouteEntry;
use netpup::script::{ScriptLoader, ScriptTable};
use netpup::system::{
    ConfigToml, DispatchState, ErrorEntry, ErrorRoute, LoggerCfg, Outcome, System,
};

fn file_route(url: &str, path: &str) -> RouteEntry {
    RouteEntry {
        path: Some(path.to_string()),
        script: None,
        url: Some(url.to_string()),
        method: Some("GET".to_string()),
        methods: None,
    }
}

fn script_route(url: &str, script: &str) -> RouteEntry {
    RouteEntry {
        path: None,
        script: Some(script.to_string()),
        url: Some(url.to_string()),
        method: None,
        methods: Some(vec![Some("GET".to_string()), Some("POST".to_string())]),
    }
}

fn config(errors: Option<Vec<(u16, ErrorEntry)>>) -> ConfigToml {
    ConfigToml {
        ip: "127.0.0.1".to_string(),
        cwd: None,
        port: None,
        max_cons: None,
        logger: None,
        routes: vec![
            ("files".to_string(), file_route("/files/*", "/data/*.html")),
            ("report".to_string(), file_route("/files/report", "special.html")),
            ("home".to_string(), file_route("/", "www/index.html")),
            ("api".to_string(), script_route("/api/*", "scripts/api.lua")),
        ],
        errors,
    }
}

fn system(errors: Option<Vec<(u16, ErrorEntry)>>) -> System {
    System::new(config(errors), Logger::default(), true).unwrap()
}

fn pages() -> Option<Vec<(u16, ErrorEntry)>> {
    Some(vec![
        (404, ErrorEntry { path: Some("errors/404.html".to_string()) }),
        (403, ErrorEntry { path: Some("errors/403.txt".to_string()) }),
    ])
}

fn request(method: Methods, path: &str) -> HttpRequest {
    HttpRequest {
        method,
        protocol_v: "HTTP/1.1".to_string(),
        path: path.to_string(),
        headers: Headers::new(),
        body: vec![],
        host: None,
    }
}

fn responding(s: DispatchState) -> HttpResponse {
    match s {
        DispatchState::Responding(r) => r,
        other => panic!("no response yet: {:?}", other),
    }
}

fn same_response(a: &HttpResponse, b: &HttpResponse) {
    assert_eq!(a.protocol_v, b.protocol_v);
    assert_eq!(a.response, b.response);
    assert_eq!(a.headers.entries, b.headers.entries);
    assert_eq!(a.content, b.content);
    assert_eq!(a.has_content, b.has_content);
    assert_eq!(a.reroute, b.reroute);
    assert_eq!(a.make(), b.make());
}

#[test]
fn system_defaults() {
    let sys = system(None);
    assert_eq!(sys.ip, "127.0.0.1");
    assert_eq!(sys.port, 8080);
    assert_eq!(sys.max_cons, 100);
    assert_eq!(sys.address(), "127.0.0.1:8080");
    assert_eq!(sys.routes.len(), 4);
    assert_eq!(sys.routes[0].name, "files");
    assert_eq!(sys.routes[3].name, "api");
    assert!(sys.errors.is_empty());
    assert_eq!(
        sys.script_loader.scripts,
        vec![("api".to_string(), "scripts/api.lua".to_string())]
    );
}

#[test]
fn system_takes_declared_settings() {
    let mut cfg = config(pages());
    cfg.port = Some(9000);
    cfg.max_cons = Some(4);
    let sys = System::new(cfg, Logger::default(), true).unwrap();
    assert_eq!(sys.port, 9000);
    assert_eq!(sys.max_cons, 4);
    assert_eq!(sys.address(), "127.0.0.1:9000");
    assert_eq!(sys.errors.len(), 2);
    assert_eq!(sys.errors[&404].path, "errors/404.html");
    assert_eq!(sys.errors[&404]._erc, 404);
    assert_eq!(sys.errors[&403].path, "errors/403.txt");
}

#[test]
fn system_reports_faults_in_order() {
    let mut cfg = config(Some(vec![(404, ErrorEntry { path: None })]));
    cfg.routes.push(("bad".to_string(), file_route("/*/*", "x")));
    let e = System::new(cfg, Logger::default(), false).unwrap_err();
    assert_eq!(e.name, "usr-cfgensure-cfgld");
    assert_eq!(e.details, "Missing key 'path'");

    let mut cfg = config(pages());
    cfg.routes.push(("bad".to_string(), file_route("/*/*", "x")));
    let e = System::new(cfg, Logger::default(), false).unwrap_err();
    assert_eq!(e.details, "Ill formatted key 'url'");

    let e = System::new(config(pages()), Logger::default(), false).unwrap_err();
    assert_eq!(e.name, "usr-scripts-ensloc");
    assert_eq!(e.details, "Could not ensure that all scripts exist");
}

#[test]
fn error_pages_from_declarations() {
    let r = ErrorRoute::new(404, &ErrorEntry { path: Some("e.html".to_string()) }).unwrap();
    assert_eq!(r._erc, 404);
    assert_eq!(r.path, "e.html");
    let e = ErrorRoute::new(404, &ErrorEntry { path: None }).unwrap_err();
    assert_eq!(e.details, "Missing key 'path'");
    let e = ErrorRoute::new(299, &ErrorEntry { path: Some("e.html".to_string()) }).unwrap_err();
    assert_eq!(e.name, "usr-cfgensure-cfgld");
    assert_eq!(e.details, "Unknown status code");
    let m = ErrorRoute::tbljob(&vec![
        (404, ErrorEntry { path: Some("a.html".to_string()) }),
        (500, ErrorEntry { path: Some("b.html".to_string()) }),
        (404, ErrorEntry { path: Some("c.html".to_string()) }),
    ])
    .unwrap();
    assert_eq!(m.len(), 2);
    assert_eq!(m[&404].path, "c.html");
    assert_eq!(m[&500].path, "b.html");
    let e = ErrorRoute::tbljob(&vec![
        (404, ErrorEntry { path: Some("a.html".to_string()) }),
        (1, ErrorEntry { path: Some("b.html".to_string()) }),
        (500, ErrorEntry { path: None }),
    ])
    .unwrap_err();
    assert_eq!(e.details, "Unknown status code");
}

#[test]
fn logger_settings() {
    let d = LoggerCfg::default();
    assert_eq!(d.print, Some(true));
    assert_eq!(d.log_file, None);
    assert!(d.prints());
    assert!(!LoggerCfg { print: None, log_file: None }.prints());
    assert!(!LoggerCfg { print: Some(false), log_file: None }.prints());
}

#[test]
fn wildcard_request_loads_the_substituted_file() {
    let sys = system(None);
    match sys.route(&request(Methods::GET, "/files/report")) {
        DispatchState::StaticLoad { path } => assert_eq!(path, "/data/report.html"),
        other => panic!("{:?}", other),
    }
}

#[test]
fn first_of_two_overlapping_routes_is_served() {
    let sys = system(None);
    let s = sys.route(&request(Methods::GET, "/files/report"));
    let r = responding(sys.advance(s, Outcome::Content(b"0123456789".to_vec())));
    assert_eq!(r.response, (HttpCode::OK, "OK".to_string()));
    assert_eq!(r.content, (b"0123456789".to_vec(), ContentType::HTML));
    assert_eq!(r.headers.get("Content-Length"), Some("10".to_string()));
}

#[test]
fn static_file_is_served_with_its_type_and_length() {
    let sys = system(None);
    let s = sys.route(&request(Methods::GET, "/"));
    match &s {
        DispatchState::StaticLoad { path } => assert_eq!(path, "www/index.html"),
        other => panic!("{:?}", other),
    }
    let r = responding(sys.advance(s, Outcome::Content(b"0123456789".to_vec())));
    assert_eq!(r.response.0.to_num(), 200);
    assert_eq!(r.content.0, b"0123456789".to_vec());
    assert_eq!(r.headers.get("Content-Length"), Some("10".to_string()));
    assert_eq!(r.headers.get("Content-Type"), Some("text/html".to_string()));
    assert!(r.make().ends_with(b"\n\n0123456789"));
}

#[test]
fn route_to_response_serves_the_routes_file() {
    let sys = system(None);
    let r = sys.route_to_response(&sys.routes[2], b"<p>".to_vec());
    assert_eq!(r.response, (HttpCode::OK, "OK".to_string()));
    assert_eq!(r.content, (b"<p>".to_vec(), ContentType::HTML));
}

#[test]
fn unknown_path_without_error_page_gets_plain_body() {
    let sys = system(None);
    let r = responding(sys.route(&request(Methods::GET, "/missing")));
    assert_eq!(r.response, (HttpCode::NotFound, "No matching route found".to_string()));
    assert_eq!(r.content, (b"Error 404".to_vec(), ContentType::HTML));
    assert_eq!(r.headers.get("Content-Length"), Some("9".to_string()));
    assert!(!r.reroute);
}

#[test]
fn wrong_method_is_not_found() {
    let sys = system(None);
    let r = responding(sys.route(&request(Methods::POST, "/")));
    assert_eq!(r.response.0, HttpCode::NotFound);
}

#[test]
fn route_error_without_mapping() {
    let sys = system(None);
    let r = responding(sys.route_error(NetError::new(HttpCode::NotFound, None)));
    assert_eq!(r.content.0, b"Error 404".to_vec());
    assert_eq!(r.response, (HttpCode::NotFound, "No details provided".to_string()));
    let r = responding(sys.route_error(NetError::new(HttpCode::OK, Some("x".to_string()))));
    assert_eq!(r.content.0, b"Error 200".to_vec());
}

#[test]
fn route_error_with_mapping_serves_the_page() {
    let sys = system(pages());
    let s = sys.route_error(NetError::new(HttpCode::NotFound, Some("gone".to_string())));
    match &s {
        DispatchState::ErrorRouting { error, path } => {
            assert_eq!(error.erc, HttpCode::NotFound);
            assert_eq!(error.details, "gone");
            assert_eq!(path, "errors/404.html");
        },
        other => panic!("{:?}", other),
    }
    let r = responding(sys.advance(s, Outcome::Content(b"<h1>404</h1>".to_vec())));
    assert_eq!(r.response, (HttpCode::NotFound, "gone".to_string()));
    assert_eq!(r.content, (b"<h1>404</h1>".to_vec(), ContentType::HTML));
    assert_eq!(r.headers.get("Content-Type"), Some("text/html".to_string()));
}

#[test]
fn missing_error_page_ends_in_bare_internal_error() {
    let sys = system(pages());
    let s = sys.route(&request(Methods::GET, "/missing"));
    let fault = System::load_failure("errors/404.html");
    assert_eq!(fault.name, "usr-fileread-ctserve");
    assert_eq!(fault.details, "Could not load user provided resource at errors/404.html");
    let r = responding(sys.advance(s, Outcome::ContentFailed(fault)));
    assert_eq!(r.response, (HttpCode::InternalError, "usr-fileread-ctserve".to_string()));
    assert!(r.content.0.is_empty());
    assert_eq!(r.content.1, ContentType::NONE);
    assert_eq!(r.headers.len(), 0);
    assert_eq!(r.make(), b"HTTP/1.1 500 usr-fileread-ctserve\r\n".to_vec());
}

#[test]
fn netdog_error_is_the_response_of_last_resort() {
    let sys = system(pages());
    let r = sys.netdog_error(DogError::new("some-fault".to_string(), "inner detail".to_string()));
    assert_eq!(r.response, (HttpCode::InternalError, "some-fault".to_string()));
    assert!(r.content.0.is_empty());
    assert!(!r.has_content);
}

#[test]
fn unreadable_static_file_goes_to_the_error_router() {
    let sys = system(None);
    let s = sys.route(&request(Methods::GET, "/"));
    let r = responding(sys.advance(s, Outcome::ContentFailed(System::load_failure("www/index.html"))));
    assert_eq!(r.response, (HttpCode::InternalError, "usr-fileread-ctserve".to_string()));
    assert_eq!(r.content, (b"Error 500".to_vec(), ContentType::HTML));

    let sys = System::new(
        config(Some(vec![(500, ErrorEntry { path: Some("errors/500.html".to_string()) })])),
        Logger::default(),
        true,
    )
    .unwrap();
    let s = sys.route(&request(Methods::GET, "/"));
    match sys.advance(s, Outcome::ContentFailed(System::load_failure("www/index.html"))) {
        DispatchState::ErrorRouting { error, path } => {
            assert_eq!(error.erc, HttpCode::InternalError);
            assert_eq!(path, "errors/500.html");
        },
        other => panic!("{:?}", other),
    }
}

fn script_response(reroute: bool) -> HttpResponse {
    let mut headers = Headers::new();
    headers.insert("X-Script".to_string(), "yes".to_string());
    HttpResponse::new(
        (HttpCode::Forbidden, "Forbidden".to_string()),
        headers,
        (b"script body".to_vec(), ContentType::JSON),
        reroute,
    )
}

#[test]
fn script_route_runs_the_script() {
    let sys = system(None);
    match sys.route(&request(Methods::POST, "/api/users")) {
        DispatchState::ScriptExec { name } => assert_eq!(name, "api"),
        other => panic!("{:?}", other),
    }
}

#[test]
fn script_response_is_sent_as_it_is() {
    let sys = system(pages());
    let s = sys.route(&request(Methods::GET, "/api/x"));
    let r = responding(sys.advance(s, Outcome::Script(script_response(false))));
    same_response(&r, &script_response(false));
    assert_eq!(r.content.0, b"script body".to_vec());
}

#[test]
fn rerouted_script_equals_route_error_without_page() {
    let sys = system(None);
    let s = sys.route(&request(Methods::GET, "/api/x"));
    let via_script = responding(sys.advance(s, Outcome::Script(script_response(true))));
    let direct = responding(
        sys.route_error(NetError::new(HttpCode::Forbidden, Some("Forbidden".to_string()))),
    );
    same_response(&via_script, &direct);
    assert_eq!(via_script.content.0, b"Error 403".to_vec());
    assert_eq!(via_script.headers.get("X-Script"), None);
}

#[test]
fn rerouted_script_equals_route_error_with_page() {
    let sys = system(pages());
    let s = sys.route(&request(Methods::GET, "/api/x"));
    let via_script = sys.advance(s, Outcome::Script(script_response(true)));
    let direct =
        sys.route_error(NetError::new(HttpCode::Forbidden, Some("Forbidden".to_string())));
    match (&via_script, &direct) {
        (
            DispatchState::ErrorRouting { error: first, path: first_path },
            DispatchState::ErrorRouting { error: second, path: second_path },
        ) => {
            assert_eq!(first.erc, second.erc);
            assert_eq!(first.details, second.details);
            assert_eq!(first_path, second_path);
            assert_eq!(first_path, "errors/403.txt");
        },
        other => panic!("{:?}", other),
    }
    let a = responding(sys.advance(via_script, Outcome::Content(b"no entry".to_vec())));
    let b = responding(sys.advance(direct, Outcome::Content(b"no entry".to_vec())));
    same_response(&a, &b);
    assert_eq!(a.content, (b"no entry".to_vec(), ContentType::PLAIN));
    assert_eq!(a.response, (HttpCode::Forbidden, "Forbidden".to_string()));
}

#[test]
fn failed_script_goes_to_the_error_router() {
    let sys = system(None);
    let s = sys.route(&request(Methods::GET, "/api/x"));
    let fault = DogError::new("usr-script-run".to_string(), "boom".to_string());
    let r = responding(sys.advance(s, Outcome::ScriptFailed(fault)));
    assert_eq!(r.response, (HttpCode::InternalError, "usr-script-run".to_string()));
    assert_eq!(r.content.0, b"Error 500".to_vec());
}

#[test]
fn outcome_that_is_not_awaited_changes_nothing() {
    let sys = system(pages());
    let s = sys.route(&request(Methods::GET, "/"));
    match sys.advance(s, Outcome::Script(script_response(false))) {
        DispatchState::StaticLoad { path } => assert_eq!(path, "www/index.html"),
        other => panic!("{:?}", other),
    }
    let s = sys.route(&request(Methods::GET, "/api/x"));
    match sys.advance(s, Outcome::Content(vec![1])) {
        DispatchState::ScriptExec { name } => assert_eq!(name, "api"),
        other => panic!("{:?}", other),
    }
    let done = DispatchState::Responding(script_response(false));
    let r = responding(sys.advance(done, Outcome::Content(vec![1])));
    same_response(&r, &script_response(false));
}

fn table() -> ScriptTable {
    let mut headers = Headers::new();
    headers.insert("X-A".to_string(), "b".to_string());
    ScriptTable {
        code: Some(201),
        resp: Some("Created".to_string()),
        headers: Some(headers),
        content: Some("{\"ok\":true}".to_string()),
        kind: "JSON".to_string(),
        reroute: None,
    }
}

fn loader() -> ScriptLoader {
    ScriptLoader::new(
        vec![
            ("api".to_string(), "scripts/api.lua".to_string()),
            ("other".to_string(), "scripts/other.lua".to_string()),
        ],
        true,
    )
    .unwrap()
}

#[test]
fn script_table_becomes_a_response() {
    let r = loader().table_to_response(table()).unwrap();
    assert_eq!(r.response, (HttpCode::Created, "Created".to_string()));
    assert_eq!(r.content, (b"{\"ok\":true}".to_vec(), ContentType::JSON));
    assert_eq!(r.headers.get("X-A"), Some("b".to_string()));
    assert_eq!(r.headers.get("Content-Length"), Some("11".to_string()));
    assert_eq!(r.headers.get("Content-Type"), Some("application/json".to_string()));
    assert!(!r.reroute);
    let mut t = table();
    t.reroute = Some(true);
    assert!(loader().table_to_response(t).unwrap().reroute);
    let mut t = table();
    t.reroute = Some(false);
    assert!(!loader().table_to_response(t).unwrap().reroute);
}

#[test]
fn script_table_faults() {
    let mut cases: Vec<(ScriptTable, &str)> = vec![];
    let mut t = table();
    t.code = None;
    t.resp = None;
    cases.push((t, "Missing 'code' in response table"));
    let mut t = table();
    t.resp = None;
    t.headers = None;
    cases.push((t, "Missing 'resp' in response table"));
    let mut t = table();
    t.headers = None;
    t.content = None;
    cases.push((t, "Missing 'headers' in response table"));
    let mut t = table();
    t.content = None;
    t.code = Some(299);
    cases.push((t, "Missing 'content' in response table"));
    let mut t = table();
    t.code = Some(299);
    cases.push((t, "Malformed entry 'code' in response table"));
    for (t, details) in cases {
        let e = loader().table_to_response(t).unwrap_err();
        assert_eq!(e.name, "usr-scripts-evres");
        assert_eq!(e.details, details);
    }
}

#[test]
fn script_loader_knows_its_scripts() {
    let l = loader();
    assert_eq!(l.script_path("api"), Some("scripts/api.lua".to_string()));
    assert_eq!(l.script_path("other"), Some("scripts/other.lua".to_string()));
    assert_eq!(l.script_path("none"), None);
    let e = ScriptLoader::new(vec![], false).unwrap_err();
    assert_eq!(e.name, "usr-scripts-ensloc");
    assert_eq!(e.details, "Could not ensure that all scripts exist");
}

#[test]
fn finished_script_run() {
    let l = loader();
    let r = l.run_script("api", Ok(table())).unwrap();
    assert_eq!(r.response.0, HttpCode::Created);
    let e = l.run_script("other", Err("syntax error".to_string())).unwrap_err();
    assert_eq!(e.name, "usr-script-run");
    assert_eq!(e.details, "Running script (scripts/other.lua) failed => syntax error");
    let mut t = table();
    t.code = None;
    let e = l.run_script("api", Ok(t)).unwrap_err();
    assert_eq!(e.name, "usr-scripts-evres");
}
