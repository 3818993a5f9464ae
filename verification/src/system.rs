//! The server's configuration and the dispatcher.
//!
//! The dispatcher is a step function. `System::route` starts a request and
//! says in a `DispatchState` what has to happen next: a file to be loaded, a
//! script to be run, or a finished response. The caller does that work and
//! reports the `Outcome` to `System::advance`, until the state holds the
//! response.

use crate::errors::{DogError, DogResult, HttpCode, NetError};
use crate::logger::{LogLevel, Logger};
use crate::request::{lookup, HeaderSeq, Headers, HttpRequest, Methods};
use crate::response::{
    built, lemma_built_describes_content, ContentType, HttpResponse, ResponseView,
};
use crate::routes::{
    any_match, entry_fault, entry_route, fault, first_match, no_route_details, pair_views,
    resolved, route_views, scripts_of, url_resolve_mult, valid_route, winner, Route, RouteEntry,
};
use crate::script::ScriptLoader;
use crate::text::{decimal, push_decimal};
use std::collections::HashMap;
use vstd::prelude::*;
use vstd::string::*;
use vstd::utf8::encode_utf8;

verus! {

broadcast use vstd::std_specs::hash::group_hash_axioms;

/// One error page as the configuration declares it.
#[derive(Clone, Debug)]
pub struct ErrorEntry {
    pub path: Option<String>,
}

/// The page that answers failures with the status number `_erc`.
#[derive(Clone, Debug)]
pub struct ErrorRoute {
    pub _erc: u16,
    pub path: String,
}

/// What can be wrong with a declared error page.
pub enum ErrorFault {
    MissingPath,
    UnknownStatus,
}

impl ErrorFault {
    /// The detail text of the fault.
    pub open spec fn details(self) -> Seq<char> {
        match self {
            ErrorFault::MissingPath => "Missing key 'path'"@,
            ErrorFault::UnknownStatus => "Unknown status code"@,
        }
    }

    /// The fault as the error that reports it.
    pub open spec fn error(self) -> (Seq<char>, Seq<char>, LogLevel) {
        ("usr-cfgensure-cfgld"@, self.details(), LogLevel::ERROR)
    }
}

/// The first thing wrong with an error page declared for the status
/// number `erc`, if anything is.
pub open spec fn error_fault(erc: u16, t: ErrorEntry) -> Option<ErrorFault> {
    if t.path is None {
        Some(ErrorFault::MissingPath)
    } else if !HttpCode::known(erc) {
        Some(ErrorFault::UnknownStatus)
    } else {
        None
    }
}

/// The page paths by status number that the declarations stand for; of two
/// declarations for one number the later one counts.
pub open spec fn error_map(entries: Seq<(u16, ErrorEntry)>) -> Map<u16, Seq<char>>
    decreases entries.len(),
{
    if entries.len() == 0 {
        Map::<u16, Seq<char>>::empty()
    } else {
        error_map(entries.drop_last()).insert(entries.last().0, entries.last().1.path->0@)
    }
}

/// The page paths of an error table by status number.
pub open spec fn error_paths(m: Map<u16, ErrorRoute>) -> Map<u16, Seq<char>> {
    Map::new(|k: u16| m.contains_key(k), |k: u16| m[k].path@)
}

/// An error table as the server may hold it: every key is the number of a
/// status, and every page is filed under its own number.
pub open spec fn valid_errors(m: Map<u16, ErrorRoute>) -> bool {
    forall|k: u16| #[trigger] m.contains_key(k) ==> HttpCode::known(k) && m[k]._erc == k
}

impl ErrorRoute {
    /// The error page that the declaration `t` for the status number `erc`
    /// stands for, or the declaration's fault.
    pub fn new(erc: u16, t: &ErrorEntry) -> (r: DogResult<Self>)
        ensures
            match error_fault(erc, *t) {
                Some(f) => r is Err && r->Err_0@ == f.error(),
                None => r is Ok && r->Ok_0._erc == erc && r->Ok_0.path@ == t.path->0@,
            },
    {
        let path = match &t.path {
            Some(p) => p.clone(),
            None => {
                return Err(fault("Missing key 'path'"));
            },
        };
        if HttpCode::from_num(erc).is_none() {
            return Err(fault("Unknown status code"));
        }
        Ok(Self { _erc: erc, path })
    }

    /// The error table that the declarations stand for, or the fault of
    /// the first faulty declaration.
    pub fn tbljob(entries: &Vec<(u16, ErrorEntry)>) -> (r: DogResult<HashMap<u16, ErrorRoute>>)
        ensures
            r is Ok <==> forall|i: int|
                0 <= i < entries@.len() ==> error_fault(
                    (#[trigger] entries@[i]).0,
                    entries@[i].1,
                ) is None,
            r matches Ok(m) ==> error_paths(m@) == error_map(entries@) && valid_errors(m@),
            r matches Err(e) ==> exists|i: int|
                0 <= i < entries@.len() && error_fault((#[trigger] entries@[i]).0, entries@[i].1)
                    is Some && e@ == error_fault(entries@[i].0, entries@[i].1)->0.error()
                    && forall|j: int|
                    0 <= j < i ==> error_fault((#[trigger] entries@[j]).0, entries@[j].1) is None,
    {
        let mut hm: HashMap<u16, ErrorRoute> = HashMap::new();
        assert(error_paths(hm@) =~= error_map(entries@.subrange(0, 0)));
        let mut i: usize = 0;
        while i < entries.len()
            invariant
                i <= entries@.len(),
                forall|j: int|
                    0 <= j < i ==> error_fault((#[trigger] entries@[j]).0, entries@[j].1) is None,
                error_paths(hm@) == error_map(entries@.subrange(0, i as int)),
                valid_errors(hm@),
            decreases entries@.len() - i,
        {
            let erc = entries[i].0;
            let route = match ErrorRoute::new(erc, &entries[i].1) {
                Ok(route) => route,
                Err(e) => {
                    return Err(e);
                },
            };
            proof {
                let next = entries@.subrange(0, i + 1);
                assert(next.drop_last() =~= entries@.subrange(0, i as int));
                assert(next.last() == entries@[i as int]);
                assert(error_paths(hm@.insert(erc, route)) =~= error_paths(hm@).insert(
                    erc,
                    route.path@,
                ));
            }
            hm.insert(erc, route);
            i += 1;
        }
        assert(entries@.subrange(0, entries@.len() as int) =~= entries@);
        Ok(hm)
    }
}

/// The logging part of the configuration.
#[derive(Clone, Debug)]
pub struct LoggerCfg {
    pub print: Option<bool>,
    pub log_file: Option<String>,
}

impl LoggerCfg {
    /// The settings used where the configuration names none: print, and
    /// write no file.
    pub fn default() -> (c: Self)
        ensures
            c.print == Some(true),
            c.log_file is None,
    {
        Self { print: Some(true), log_file: None }
    }

    /// Whether log lines are printed: only where the configuration says so.
    pub fn prints(&self) -> (b: bool)
        ensures
            b == (self.print == Some(true)),
    {
        match self.print {
            Some(t) => t,
            None => false,
        }
    }
}

/// The configuration as it is declared.
#[derive(Clone, Debug)]
pub struct ConfigToml {
    pub ip: String,
    pub cwd: Option<String>,
    pub port: Option<u16>,
    pub max_cons: Option<u32>,
    pub logger: Option<LoggerCfg>,
    pub routes: Vec<(String, RouteEntry)>,
    pub errors: Option<Vec<(u16, ErrorEntry)>>,
}

/// The error pages that a configuration declares.
pub open spec fn declared_errors(cfg: ConfigToml) -> Seq<(u16, ErrorEntry)> {
    match cfg.errors {
        Some(e) => e@,
        None => Seq::<(u16, ErrorEntry)>::empty(),
    }
}

/// Whether no declared error page has a fault.
pub open spec fn errors_sound(cfg: ConfigToml) -> bool {
    forall|i: int|
        0 <= i < declared_errors(cfg).len() ==> error_fault(
            (#[trigger] declared_errors(cfg)[i]).0,
            declared_errors(cfg)[i].1,
        ) is None
}

/// Whether no declared route has a fault.
pub open spec fn routes_sound(cfg: ConfigToml) -> bool {
    forall|i: int| 0 <= i < cfg.routes@.len() ==> entry_fault((#[trigger] cfg.routes@[i]).1) is None
}

/// The running server's settings: where it listens, how many workers it
/// has, the route table in declaration order, and the error pages.
#[derive(Debug)]
pub struct System {
    pub ip: String,
    pub port: u16,
    pub max_cons: u32,
    pub routes: Vec<Route>,
    pub errors: HashMap<u16, ErrorRoute>,
    pub logger: Logger,
    pub script_loader: ScriptLoader,
}

/// What the dispatcher waits for, or the response it has reached.
#[derive(Debug)]
pub enum DispatchState {
    /// The file at `path` is to be loaded for a matched file route.
    StaticLoad { path: String },
    /// The script of the route `name` is to be run.
    ScriptExec { name: String },
    /// The error page at `path` is to be loaded for the failure `error`.
    ErrorRouting { error: NetError, path: String },
    /// The response is ready to be sent.
    Responding(HttpResponse),
}

/// A dispatch state as plain values.
pub enum StateView {
    StaticLoad { path: Seq<char> },
    ScriptExec { name: Seq<char> },
    ErrorRouting { code: HttpCode, message: Seq<char>, path: Seq<char> },
    Responding(ResponseView),
}

impl View for DispatchState {
    type V = StateView;

    open spec fn view(&self) -> StateView {
        match *self {
            DispatchState::StaticLoad { path } => StateView::StaticLoad { path: path@ },
            DispatchState::ScriptExec { name } => StateView::ScriptExec { name: name@ },
            DispatchState::ErrorRouting { error, path } => StateView::ErrorRouting {
                code: error.erc,
                message: error.details@,
                path: path@,
            },
            DispatchState::Responding(r) => StateView::Responding(r@),
        }
    }
}

/// What the caller reports back to the dispatcher.
#[derive(Debug)]
pub enum Outcome {
    /// The bytes of the file that was to be loaded.
    Content(Vec<u8>),
    /// The file could not be loaded.
    ContentFailed(DogError),
    /// The response that the script's table stands for.
    Script(HttpResponse),
    /// The script failed, or its table has a fault.
    ScriptFailed(DogError),
}

/// An outcome as plain values; of a fault only its name counts.
pub enum OutcomeView {
    Content(Seq<u8>),
    ContentFailed(Seq<char>),
    Script(ResponseView),
    ScriptFailed(Seq<char>),
}

impl View for Outcome {
    type V = OutcomeView;

    open spec fn view(&self) -> OutcomeView {
        match *self {
            Outcome::Content(b) => OutcomeView::Content(b@),
            Outcome::ContentFailed(e) => OutcomeView::ContentFailed(e.name@),
            Outcome::Script(r) => OutcomeView::Script(r@),
            Outcome::ScriptFailed(e) => OutcomeView::ScriptFailed(e.name@),
        }
    }
}

/// A table without headers.
pub open spec fn no_headers() -> HeaderSeq {
    Seq::<(Seq<char>, Seq<char>)>::empty()
}

/// The body that answers a failure without an error page of its own.
pub open spec fn plain_error_body(code: HttpCode) -> Seq<u8> {
    encode_utf8("Error "@ + decimal(code.number() as nat))
}

/// The response of last resort for the internal fault `name`: status 500
/// and no body.
pub open spec fn fault_response(name: Seq<char>) -> ResponseView {
    built(HttpCode::InternalError, name, no_headers(), Seq::<u8>::empty(), ContentType::NONE, false)
}

/// The response that serves the file at `path` with the bytes `content`.
pub open spec fn file_response(path: Seq<char>, content: Seq<u8>) -> ResponseView {
    built(HttpCode::OK, "OK"@, no_headers(), content, ContentType::of_file_name(path), false)
}

/// How many more outcomes a state can take before the response is
/// reached.
pub open spec fn distance(s: StateView) -> nat {
    match s {
        StateView::StaticLoad { .. } => 2,
        StateView::ScriptExec { .. } => 2,
        StateView::ErrorRouting { .. } => 1,
        StateView::Responding(_) => 0,
    }
}

/// Whether `o` is an outcome of the work that the state `s` waits for.
pub open spec fn awaited(s: StateView, o: OutcomeView) -> bool {
    match s {
        StateView::StaticLoad { .. } => o is Content || o is ContentFailed,
        StateView::ErrorRouting { .. } => o is Content || o is ContentFailed,
        StateView::ScriptExec { .. } => o is Script || o is ScriptFailed,
        StateView::Responding(_) => false,
    }
}

impl System {
    /// The settings as the server may hold them: every route allows some
    /// method and has at most one wildcard, every error page is filed under
    /// the number of a status, and the script loader knows the scripts of
    /// the route table.
    pub open spec fn wf(&self) -> bool {
        &&& forall|i: int| 0 <= i < self.routes@.len() ==> valid_route(#[trigger] self.routes@[i]@)
        &&& valid_errors(self.errors@)
        &&& pair_views(self.script_loader.scripts@) == scripts_of(route_views(self.routes@))
    }

    /// Where the error router takes a failure with status `code` and detail
    /// `message`: to the status's error page, if one is configured; else to a
    /// response with a plain body.
    pub open spec fn error_routed(&self, code: HttpCode, message: Seq<char>) -> StateView {
        if self.errors@.contains_key(code.number()) {
            StateView::ErrorRouting { code, message, path: self.errors@[code.number()].path@ }
        } else {
            StateView::Responding(
                built(code, message, no_headers(), plain_error_body(code), ContentType::HTML, false),
            )
        }
    }

    /// Where a request for `path` with `method` starts: at the target of the
    /// first route it falls under, or at the error router with `NotFound`.
    pub open spec fn routed(&self, path: Seq<char>, method: Methods) -> StateView {
        let routes = route_views(self.routes@);
        if any_match(routes, path, method) {
            let r = resolved(routes[winner(routes, path, method)], path);
            if r.path_is_script {
                StateView::ScriptExec { name: r.name }
            } else {
                StateView::StaticLoad { path: r.path }
            }
        } else {
            self.error_routed(HttpCode::NotFound, no_route_details())
        }
    }

    /// The state that follows `s` on the outcome `o`. A loaded file is
    /// served; a file that cannot be loaded and a failed script go to the
    /// error router with status 500; a script's response is sent as it is,
    /// unless it asks to be rerouted, in which case its status and message
    /// go to the error router. An error page is served under the failure's
    /// status; one that cannot be loaded ends in the response of last
    /// resort. An outcome that the state does not wait for leaves it as it is.
    pub open spec fn advanced(&self, s: StateView, o: OutcomeView) -> StateView {
        match (s, o) {
            (StateView::StaticLoad { path }, OutcomeView::Content(bytes)) => StateView::Responding(
                file_response(path, bytes),
            ),
            (StateView::StaticLoad { .. }, OutcomeView::ContentFailed(name)) => self.error_routed(
                HttpCode::InternalError,
                name,
            ),
            (StateView::ScriptExec { .. }, OutcomeView::Script(r)) => if r.reroute {
                self.error_routed(r.code, r.message)
            } else {
                StateView::Responding(r)
            },
            (StateView::ScriptExec { .. }, OutcomeView::ScriptFailed(name)) => self.error_routed(
                HttpCode::InternalError,
                name,
            ),
            (
                StateView::ErrorRouting { code, message, path },
                OutcomeView::Content(bytes),
            ) => StateView::Responding(
                built(code, message, no_headers(), bytes, ContentType::of_file_name(path), false),
            ),
            (StateView::ErrorRouting { .. }, OutcomeView::ContentFailed(name)) => {
                StateView::Responding(fault_response(name))
            },
            _ => s,
        }
    }

    /// The settings that the configuration stands for, with `logger` as the
    /// log sink. The error pages are checked first, then the routes; then
    /// `scripts_found` must say that every script of the route table could be
    /// read. Without a port the server listens on 8080, and without a worker
    /// count it has 100 workers.
    pub fn new(cfg_t: ConfigToml, logger: Logger, scripts_found: bool) -> (r: DogResult<Self>)
        ensures
            r is Ok <==> errors_sound(cfg_t) && routes_sound(cfg_t) && scripts_found,
            r matches Ok(sys) ==> {
                &&& sys.wf()
                &&& sys.ip@ == cfg_t.ip@
                &&& sys.port == match cfg_t.port {
                    Some(p) => p,
                    None => 8080u16,
                }
                &&& sys.max_cons == match cfg_t.max_cons {
                    Some(m) => m,
                    None => 100u32,
                }
                &&& sys.logger == logger
                &&& sys.routes@.len() == cfg_t.routes@.len()
                &&& forall|i: int|
                    0 <= i < cfg_t.routes@.len() ==> (#[trigger] sys.routes@[i])@ == entry_route(
                        cfg_t.routes@[i].0@,
                        cfg_t.routes@[i].1,
                    )
                &&& error_paths(sys.errors@) == error_map(declared_errors(cfg_t))
                &&& pair_views(sys.script_loader.scripts@) == scripts_of(route_views(sys.routes@))
            },
            r matches Err(e) ==> if !errors_sound(cfg_t) {
                exists|i: int|
                    0 <= i < declared_errors(cfg_t).len() && error_fault(
                        (#[trigger] declared_errors(cfg_t)[i]).0,
                        declared_errors(cfg_t)[i].1,
                    ) is Some && e@ == error_fault(
                        declared_errors(cfg_t)[i].0,
                        declared_errors(cfg_t)[i].1,
                    )->0.error() && forall|j: int|
                        0 <= j < i ==> error_fault(
                            (#[trigger] declared_errors(cfg_t)[j]).0,
                            declared_errors(cfg_t)[j].1,
                        ) is None
            } else if !routes_sound(cfg_t) {
                exists|i: int|
                    0 <= i < cfg_t.routes@.len() && entry_fault((#[trigger] cfg_t.routes@[i]).1)
                        is Some && e@ == entry_fault(cfg_t.routes@[i].1)->0.error()
                        && forall|j: int|
                        0 <= j < i ==> entry_fault((#[trigger] cfg_t.routes@[j]).1) is None
            } else {
                e@ == (
                    "usr-scripts-ensloc"@,
                    "Could not ensure that all scripts exist"@,
                    LogLevel::ERROR,
                )
            },
    {
        let errors = match &cfg_t.errors {
            Some(entries) => {
                match ErrorRoute::tbljob(entries) {
                    Ok(m) => m,
                    Err(e) => {
                        return Err(e);
                    },
                }
            },
            None => {
                let m: HashMap<u16, ErrorRoute> = HashMap::new();
                assert(error_paths(m@) =~= error_map(declared_errors(cfg_t)));
                m
            },
        };
        let (routes, scripts) = match Route::tbljob(&cfg_t.routes) {
            Ok(t) => t,
            Err(e) => {
                return Err(e);
            },
        };
        let script_loader = match ScriptLoader::new(scripts, scripts_found) {
            Ok(l) => l,
            Err(e) => {
                return Err(e);
            },
        };
        let port: u16 = match cfg_t.port {
            Some(p) => p,
            None => 8080,
        };
        let max_cons: u32 = match cfg_t.max_cons {
            Some(m) => m,
            None => 100,
        };
        Ok(Self { ip: cfg_t.ip, port, max_cons, routes, errors, script_loader, logger })
    }

    /// The address that the server listens on: the host, a colon and the
    /// port as a decimal numeral.
    pub fn address(&self) -> (s: String)
        ensures
            s@ == self.ip@ + ":"@ + decimal(self.port as nat),
    {
        let mut s = self.ip.clone();
        s.append(":");
        push_decimal(&mut s, self.port as usize);
        s
    }

    /// The fault of a resource that could not be read.
    pub fn load_failure(path: &str) -> (e: DogError)
        ensures
            e@ == (
                "usr-fileread-ctserve"@,
                "Could not load user provided resource at "@ + path@,
                LogLevel::ERROR,
            ),
    {
        let mut details = "Could not load user provided resource at ".to_owned();
        details.append(path);
        DogError::new("usr-fileread-ctserve".to_owned(), details)
    }

    /// The response of last resort for an internal fault: status 500 with
    /// the fault's name as its message, no headers and no body.
    pub fn netdog_error(&self, error: DogError) -> (r: HttpResponse)
        ensures
            r@ == fault_response(error.name@),
    {
        HttpResponse::new(
            (HttpCode::InternalError, error.name),
            Headers::new(),
            (Vec::new(), ContentType::NONE),
            false,
        )
    }

    /// The error router: the state that answers the failure `error`.
    pub fn route_error(&self, error: NetError) -> (s: DispatchState)
        ensures
            s@ == self.error_routed(error.erc, error.details@),
    {
        let erc: u16 = error.erc.to_num();
        match self.errors.get(&erc) {
            Some(page) => {
                let path = page.path.clone();
                DispatchState::ErrorRouting { error, path }
            },
            None => {
                let mut text = "Error ".to_owned();
                push_decimal(&mut text, erc as usize);
                let body = text.as_str().as_bytes_vec();
                DispatchState::Responding(
                    HttpResponse::new(
                        (error.erc, error.details),
                        Headers::new(),
                        (body, ContentType::HTML),
                        false,
                    ),
                )
            },
        }
    }

    /// The response that serves the file of `route` with the bytes
    /// `content`.
    pub fn route_to_response(&self, route: &Route, content: Vec<u8>) -> (r: HttpResponse)
        ensures
            r@ == file_response(route.path@, content@),
    {
        HttpResponse::new(
            (HttpCode::OK, "OK".to_owned()),
            Headers::new(),
            (content, ContentType::from_file_name(route.path.as_str())),
            false,
        )
    }

    /// Starts the dispatch of a request.
    pub fn route(&self, req: &HttpRequest) -> (s: DispatchState)
        ensures
            s@ == self.routed(req.path@, req.method),
    {
        match url_resolve_mult(self.routes.as_slice(), req.path.as_str(), req.method) {
            Err(e) => self.route_error(e),
            Ok(route) => {
                proof {
                    let routes = route_views(self.routes@);
                    let w = winner(routes, req.path@, req.method);
                    assert(first_match(routes, req.path@, req.method, w));
                    assert(routes[w] == self.routes@[w]@);
                }
                if route.path_is_script {
                    DispatchState::ScriptExec { name: route.name }
                } else {
                    DispatchState::StaticLoad { path: route.path }
                }
            },
        }
    }

    /// Takes the dispatch one step further on the outcome of the work that
    /// `state` waited for.
    pub fn advance(&self, state: DispatchState, outcome: Outcome) -> (s: DispatchState)
        ensures
            s@ == self.advanced(state@, outcome@),
    {
        match (state, outcome) {
            (DispatchState::StaticLoad { path }, Outcome::Content(bytes)) => {
                DispatchState::Responding(
                    HttpResponse::new(
                        (HttpCode::OK, "OK".to_owned()),
                        Headers::new(),
                        (bytes, ContentType::from_file_name(path.as_str())),
                        false,
                    ),
                )
            },
            (DispatchState::StaticLoad { path }, Outcome::ContentFailed(e)) => {
                self.route_error(NetError::new(HttpCode::InternalError, Some(e.name)))
            },
            (DispatchState::ScriptExec { name }, Outcome::Script(response)) => {
                if response.reroute {
                    self.route_error(response.to_net_error())
                } else {
                    DispatchState::Responding(response)
                }
            },
            (DispatchState::ScriptExec { name }, Outcome::ScriptFailed(e)) => {
                self.route_error(NetError::new(HttpCode::InternalError, Some(e.name)))
            },
            (DispatchState::ErrorRouting { error, path }, Outcome::Content(bytes)) => {
                DispatchState::Responding(
                    HttpResponse::new(
                        (error.erc, error.details),
                        Headers::new(),
                        (bytes, ContentType::from_file_name(path.as_str())),
                        false,
                    ),
                )
            },
            (DispatchState::ErrorRouting { error, path }, Outcome::ContentFailed(e)) => {
                DispatchState::Responding(self.netdog_error(e))
            },
            (state, _) => state,
        }
    }

    /// A script that asks to be rerouted is answered exactly as the failure
    /// with its status and message is: its own headers and body play no part.
    pub proof fn lemma_reroute_is_error_route(&self, name: Seq<char>, r: ResponseView)
        requires
            r.reroute,
        ensures
            self.advanced(StateView::ScriptExec { name }, OutcomeView::Script(r))
                == self.error_routed(r.code, r.message),
    {
    }

    /// The error router keeps the status of the failure: whether it asks
    /// for the status's error page or answers at once, the response will
    /// carry that status and the failure's detail as its message.
    pub proof fn lemma_error_keeps_status(&self, code: HttpCode, message: Seq<char>)
        ensures
            match self.error_routed(code, message) {
                StateView::ErrorRouting { code: c, message: m, path } => c == code && m == message
                    && self.errors@.contains_key(code.number()),
                StateView::Responding(r) => r.code == code && r.message == message && r.body
                    == plain_error_body(code) && !self.errors@.contains_key(code.number()),
                _ => false,
            },
    {
    }

    /// A failure whose status has an error page is answered with that page:
    /// once the page's bytes are loaded, the response carries the failure's
    /// status and message, the bytes as its body and the content type of the
    /// page's file name; where that type has a name, the headers give it and
    /// the length of the body. A page whose extension is `html` is served as
    /// `text/html`.
    pub proof fn lemma_error_page_served(&self, code: HttpCode, message: Seq<char>, bytes: Seq<u8>)
        requires
            self.errors@.contains_key(code.number()),
        ensures
            ({
                let path = self.errors@[code.number()].path@;
                let kind = ContentType::of_file_name(path);
                let s = self.advanced(self.error_routed(code, message), OutcomeView::Content(bytes));
                &&& s is Responding
                &&& s->Responding_0.code == code
                &&& s->Responding_0.message == message
                &&& s->Responding_0.body == bytes
                &&& s->Responding_0.kind == kind
                &&& !s->Responding_0.reroute
                &&& kind.mime().len() > 0 ==> lookup(s->Responding_0.headers, "Content-Length"@)
                    == Some(decimal(bytes.len())) && lookup(
                    s->Responding_0.headers,
                    "Content-Type"@,
                ) == Some(kind.mime())
                &&& ContentType::file_part(path).contains('.') && ContentType::extension(path)
                    == "html"@ ==> kind == ContentType::HTML && lookup(
                    s->Responding_0.headers,
                    "Content-Type"@,
                ) == Some("text/html"@)
            }),
    {
        let path = self.errors@[code.number()].path@;
        let kind = ContentType::of_file_name(path);
        lemma_built_describes_content(code, message, no_headers(), bytes, kind, false);
        reveal_strlit("text/html");
    }

    /// A loaded file is served with status 200, its bytes as the body and
    /// the content type of its name; where that type has a name, the headers
    /// give it and the length of the body.
    pub proof fn lemma_file_served(&self, path: Seq<char>, bytes: Seq<u8>)
        ensures
            ({
                let kind = ContentType::of_file_name(path);
                let s = self.advanced(StateView::StaticLoad { path }, OutcomeView::Content(bytes));
                &&& s is Responding
                &&& s->Responding_0.code == HttpCode::OK
                &&& s->Responding_0.body == bytes
                &&& s->Responding_0.kind == kind
                &&& kind.mime().len() > 0 ==> lookup(s->Responding_0.headers, "Content-Length"@)
                    == Some(decimal(bytes.len())) && lookup(
                    s->Responding_0.headers,
                    "Content-Type"@,
                ) == Some(kind.mime())
            }),
    {
        let kind = ContentType::of_file_name(path);
        lemma_built_describes_content(HttpCode::OK, "OK"@, no_headers(), bytes, kind, false);
    }

    /// Where the dispatcher asks for a script to be run, the script loader
    /// knows a script under that name.
    pub proof fn lemma_script_known(&self, path: Seq<char>, method: Methods)
        requires
            self.wf(),
            self.routed(path, method) is ScriptExec,
        ensures
            self.script_loader.knows(self.routed(path, method)->ScriptExec_name),
    {
        let routes = route_views(self.routes@);
        if any_match(routes, path, method) {
            let k = choose|k: int| 0 <= k < routes.len() && crate::routes::matches(
                routes[k],
                path,
                method,
            );
            crate::routes::lemma_some_winner(routes, path, method, k);
            let w = winner(routes, path, method);
            crate::routes::lemma_scripts_listed(routes, w);
        } else {
            self.lemma_error_keeps_status(HttpCode::NotFound, no_route_details());
        }
    }

    /// Every outcome that a state waits for brings the dispatch closer to
    /// its response, so a request is answered after at most two outcomes;
    /// and once the response is reached, no outcome changes it.
    pub proof fn lemma_dispatch_progress(&self, s: StateView, o: OutcomeView)
        ensures
            awaited(s, o) ==> distance(self.advanced(s, o)) < distance(s),
            s is Responding ==> self.advanced(s, o) == s,
            distance(s) <= 2,
    {
    }

    /// A request whose path is the pattern of a wildcard-free file route and
    /// whose method that route allows is served from that route's file,
    /// unless a route declared before it matches as well.
    pub proof fn lemma_exact_route_served(&self, i: int, path: Seq<char>, method: Methods)
        requires
            0 <= i < self.routes@.len(),
            !self.routes@[i]@.url.contains('*'),
            !self.routes@[i].path_is_script,
            path == self.routes@[i]@.url,
            self.routes@[i]@.methods.contains(method),
            forall|j: int|
                0 <= j < i ==> !crate::routes::matches(
                    #[trigger] route_views(self.routes@)[j],
                    path,
                    method,
                ),
        ensures
            self.routed(path, method) == (StateView::StaticLoad { path: self.routes@[i]@.path }),
    {
        let routes = route_views(self.routes@);
        crate::routes::lemma_exact_match(routes[i], path, method);
        assert(first_match(routes, path, method, i));
        crate::routes::lemma_winner(routes, path, method, i);
    }
}

} // verus!
