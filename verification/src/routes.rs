//! The route table's entries and the matcher that resolves a request path
//! against them.

use crate::errors::{DogError, DogResult, HttpCode, NetError, NetResult};
use crate::logger::LogLevel;
use crate::request::{has_key, Methods};
use crate::text::{
    chars_of, first_at, has_prefix, has_suffix, lemma_position, lemma_split_shape, same_chars,
    split, split_on, string_from, string_of, substitute, substitute_chars, views,
};
use vstd::prelude::*;
use vstd::string::*;

verus! {

/// One rule of the route table: requests for `url` with one of `methods`
/// are answered from `path`, a file or, with `path_is_script`, a script.
#[derive(Clone, Debug)]
pub struct Route {
    pub name: String,
    pub path: String,
    pub url: String,
    pub methods: Vec<Methods>,
    pub path_is_script: bool,
}

/// What a route holds, as plain values.
pub struct RouteView {
    pub name: Seq<char>,
    pub path: Seq<char>,
    pub url: Seq<char>,
    pub methods: Seq<Methods>,
    pub path_is_script: bool,
}

impl View for Route {
    type V = RouteView;

    open spec fn view(&self) -> RouteView {
        RouteView {
            name: self.name@,
            path: self.path@,
            url: self.url@,
            methods: self.methods@,
            path_is_script: self.path_is_script,
        }
    }
}

/// The views of the routes, in order.
pub open spec fn route_views(routes: Seq<Route>) -> Seq<RouteView> {
    Seq::new(routes.len(), |i: int| routes[i]@)
}

/// The number of wildcards in a pattern.
pub open spec fn wildcards(url: Seq<char>) -> int {
    split(url, '*').len() - 1
}

/// A route as the table may hold it: it allows some method, and its
/// pattern has at most one wildcard.
pub open spec fn valid_route(r: RouteView) -> bool {
    r.methods.len() > 0 && wildcards(r.url) <= 1
}

/// Whether a request for `path` with `method` falls under the route. A
/// pattern without wildcard is met by itself alone. With one wildcard, the
/// path begins with what stands before it and ends with what stands after
/// it, the two not overlapping. A pattern with more wildcards is met by
/// nothing.
pub open spec fn matches(r: RouteView, path: Seq<char>, method: Methods) -> bool {
    let parts = split(r.url, '*');
    if parts.len() == 1 {
        path == r.url && r.methods.contains(method)
    } else if parts.len() == 2 {
        &&& parts[0].is_prefix_of(path)
        &&& parts[1].is_suffix_of(path)
        &&& path.len() >= parts[0].len() + parts[1].len()
        &&& r.methods.contains(method)
    } else {
        false
    }
}

/// The part of `path` that the wildcard of the pattern stands for.
pub open spec fn captured(url: Seq<char>, path: Seq<char>) -> Seq<char> {
    let parts = split(url, '*');
    path.subrange(parts[0].len() as int, path.len() - parts[1].len())
}

/// The target of a matched route: for a file under a wildcard pattern, the
/// route's path with the captured part in place of every `*`; else the
/// route's path as it stands.
pub open spec fn resolved_path(r: RouteView, path: Seq<char>) -> Seq<char> {
    if split(r.url, '*').len() == 2 && !r.path_is_script {
        substitute(r.path, captured(r.url, path))
    } else {
        r.path
    }
}

/// The route with its target resolved for `path`.
pub open spec fn resolved(r: RouteView, path: Seq<char>) -> RouteView {
    RouteView {
        name: r.name,
        path: resolved_path(r, path),
        url: r.url,
        methods: r.methods,
        path_is_script: r.path_is_script,
    }
}

/// `i` is the first route in declaration order that the request falls under.
pub open spec fn first_match(
    routes: Seq<RouteView>,
    path: Seq<char>,
    method: Methods,
    i: int,
) -> bool {
    &&& 0 <= i < routes.len()
    &&& matches(routes[i], path, method)
    &&& forall|j: int| 0 <= j < i ==> !matches(routes[j], path, method)
}

/// Whether the request falls under any route.
pub open spec fn any_match(routes: Seq<RouteView>, path: Seq<char>, method: Methods) -> bool {
    exists|i: int| 0 <= i < routes.len() && matches(routes[i], path, method)
}

/// The index of the route that answers the request; meaningful with
/// `any_match`.
pub open spec fn winner(routes: Seq<RouteView>, path: Seq<char>, method: Methods) -> int {
    choose|i: int| first_match(routes, path, method, i)
}

/// The detail text of the failure when no route matches.
pub open spec fn no_route_details() -> Seq<char> {
    "No matching route found"@
}

/// The first match is unique, so `winner` names it.
pub proof fn lemma_winner(routes: Seq<RouteView>, path: Seq<char>, method: Methods, i: int)
    requires
        first_match(routes, path, method, i),
    ensures
        any_match(routes, path, method),
        winner(routes, path, method) == i,
{
    let w = winner(routes, path, method);
    assert(first_match(routes, path, method, w));
    if w < i {
        assert(!matches(routes[w], path, method));
    }
    if i < w {
        assert(!matches(routes[i], path, method));
    }
}

/// A request that falls under some route has a first such route.
pub proof fn lemma_some_winner(routes: Seq<RouteView>, path: Seq<char>, method: Methods, k: int)
    requires
        0 <= k < routes.len(),
        matches(routes[k], path, method),
    ensures
        first_match(routes, path, method, winner(routes, path, method)),
        winner(routes, path, method) <= k,
    decreases k,
{
    if exists|j: int| 0 <= j < k && matches(routes[j], path, method) {
        let j = choose|j: int| 0 <= j < k && matches(routes[j], path, method);
        lemma_some_winner(routes, path, method, j);
    } else {
        assert(first_match(routes, path, method, k));
        lemma_winner(routes, path, method, k);
    }
}

/// A route whose pattern has no wildcard is met exactly by the requests
/// whose path is the pattern and whose method the route allows.
pub proof fn lemma_exact_match(r: RouteView, path: Seq<char>, method: Methods)
    requires
        !r.url.contains('*'),
    ensures
        matches(r, path, method) <==> (path == r.url && r.methods.contains(method)),
        matches(r, path, method) ==> resolved(r, path) == r,
{
    lemma_split_shape(r.url, '*');
}

/// A pattern made of `prefix`, one wildcard and `suffix` is met by every
/// path made of `prefix`, some segment and `suffix`, for a method that the
/// route allows; the wildcard then stands for that segment, which takes the
/// place of every `*` in the path of a file route.
pub proof fn lemma_wildcard_capture(
    r: RouteView,
    prefix: Seq<char>,
    segment: Seq<char>,
    suffix: Seq<char>,
    method: Methods,
)
    requires
        !prefix.contains('*'),
        !suffix.contains('*'),
        r.url == prefix + seq!['*'] + suffix,
        r.methods.contains(method),
    ensures
        split(r.url, '*') == seq![prefix, suffix],
        matches(r, prefix + segment + suffix, method),
        captured(r.url, prefix + segment + suffix) == segment,
        !r.path_is_script ==> resolved(r, prefix + segment + suffix).path == substitute(
            r.path,
            segment,
        ),
{
    let url = r.url;
    let path = prefix + segment + suffix;
    let p = prefix.len() as int;
    assert(first_at(url, '*', p)) by {
        assert(url[p] == '*');
        assert forall|j: int| 0 <= j < p implies url[j] != '*' by {
            assert(url[j] == prefix[j]);
            assert(prefix.contains(prefix[j]));
        }
    }
    lemma_position(url, '*', p);
    assert(url.subrange(0, p) =~= prefix);
    assert(url.subrange(p + 1, url.len() as int) =~= suffix);
    lemma_split_shape(suffix, '*');
    assert(split(url, '*') =~= seq![prefix, suffix]);
    assert(path.subrange(0, p) =~= prefix);
    assert(path.subrange(path.len() - suffix.len(), path.len() as int) =~= suffix);
    assert(path.subrange(p, path.len() - suffix.len()) =~= segment);
}

/// Of two routes that the same request falls under, the one declared first
/// answers: the later one never wins, and the earlier one wins unless a
/// route declared before it matches as well.
pub proof fn lemma_first_declared_wins(
    routes: Seq<RouteView>,
    path: Seq<char>,
    method: Methods,
    i: int,
    j: int,
)
    requires
        0 <= i < j < routes.len(),
        matches(routes[i], path, method),
        matches(routes[j], path, method),
    ensures
        winner(routes, path, method) <= i,
        winner(routes, path, method) != j,
        (forall|k: int| 0 <= k < i ==> !matches(routes[k], path, method)) ==> winner(
            routes,
            path,
            method,
        ) == i,
{
    lemma_some_winner(routes, path, method, i);
    if forall|k: int| 0 <= k < i ==> !matches(routes[k], path, method) {
        assert(first_match(routes, path, method, i));
        lemma_winner(routes, path, method, i);
    }
}

/// Whether `methods` holds `method`.
pub fn allows(methods: &Vec<Methods>, method: &Methods) -> (b: bool)
    ensures
        b == methods@.contains(*method),
{
    let mut i: usize = 0;
    while i < methods.len()
        invariant
            i <= methods@.len(),
            forall|j: int| 0 <= j < i ==> methods@[j] != *method,
        decreases methods@.len() - i,
    {
        if methods[i] == *method {
            return true;
        }
        i += 1;
    }
    false
}

/// A copy of the methods.
pub fn copy_methods(methods: &Vec<Methods>) -> (r: Vec<Methods>)
    ensures
        r@ == methods@,
{
    let mut r: Vec<Methods> = Vec::new();
    let mut i: usize = 0;
    while i < methods.len()
        invariant
            i <= methods@.len(),
            r@ =~= methods@.subrange(0, i as int),
        decreases methods@.len() - i,
    {
        r.push(methods[i]);
        i += 1;
    }
    assert(methods@.subrange(0, methods@.len() as int) =~= methods@);
    r
}

/// Resolves `url` against one route: the route with its target resolved if
/// the request falls under it.
pub fn url_resolve(route: &Route, url: &str, method: &Methods) -> (r: Result<Route, ()>)
    ensures
        r is Ok <==> matches(route@, url@, *method),
        r matches Ok(x) ==> x@ == resolved(route@, url@),
{
    let pattern = chars_of(route.url.as_str());
    let path = chars_of(url);
    let parts = split_on(&pattern, '*');
    assert(views(parts@).len() == parts@.len());
    let resolved_path = if parts.len() == 1 {
        if !same_chars(&path, &pattern) {
            return Err(());
        }
        if !allows(&route.methods, method) {
            return Err(());
        }
        route.path.clone()
    } else if parts.len() == 2 {
        assert(views(parts@)[0] == parts@[0]@);
        assert(views(parts@)[1] == parts@[1]@);
        let prefix = &parts[0];
        let suffix = &parts[1];
        if !has_prefix(&path, prefix) || !has_suffix(&path, suffix) {
            return Err(());
        }
        if path.len() - prefix.len() < suffix.len() {
            return Err(());
        }
        if !allows(&route.methods, method) {
            return Err(());
        }
        if route.path_is_script {
            route.path.clone()
        } else {
            let n: usize = path.len();
            let dynamic_part = string_of(&path, prefix.len(), n - suffix.len());
            let target = chars_of(route.path.as_str());
            let dynamic_chars = chars_of(dynamic_part.as_str());
            string_from(&substitute_chars(&target, &dynamic_chars))
        }
    } else {
        return Err(());
    };
    Ok(
        Route {
            path: resolved_path,
            url: route.url.clone(),
            methods: copy_methods(&route.methods),
            name: route.name.clone(),
            path_is_script: route.path_is_script,
        },
    )
}

/// Resolves `url` against the routes in their order: the first route that
/// the request falls under answers. Without one the failure is `NotFound`.
pub fn url_resolve_mult(routes: &[Route], url: &str, method: Methods) -> (r: NetResult<Route>)
    ensures
        r is Ok <==> any_match(route_views(routes@), url@, method),
        r matches Ok(x) ==> x@ == resolved(
            routes@[winner(route_views(routes@), url@, method)]@,
            url@,
        ) && first_match(
            route_views(routes@),
            url@,
            method,
            winner(route_views(routes@), url@, method),
        ),
        r matches Err(e) ==> e@ == (HttpCode::NotFound, no_route_details()),
{
    let mut i: usize = 0;
    while i < routes.len()
        invariant
            i <= routes@.len(),
            forall|j: int| 0 <= j < i ==> !matches(route_views(routes@)[j], url@, method),
        decreases routes@.len() - i,
    {
        let x = url_resolve(&routes[i], url, &method);
        match x {
            Ok(found) => {
                proof {
                    assert(route_views(routes@)[i as int] == routes@[i as int]@);
                    assert(first_match(route_views(routes@), url@, method, i as int));
                    lemma_winner(route_views(routes@), url@, method, i as int);
                }
                return Ok(found);
            },
            Err(_) => {
                assert(route_views(routes@)[i as int] == routes@[i as int]@);
            },
        }
        i += 1;
    }
    Err(NetError::new(HttpCode::NotFound, Some("No matching route found".to_owned())))
}

/// One route as the configuration declares it: each field is the value
/// under the key of that name, where the key is present. An item of
/// `methods` that is no string is `None`.
#[derive(Clone, Debug)]
pub struct RouteEntry {
    pub path: Option<String>,
    pub script: Option<String>,
    pub url: Option<String>,
    pub method: Option<String>,
    pub methods: Option<Vec<Option<String>>>,
}

/// What can be wrong with a declared route.
pub enum RouteFault {
    MissingTarget,
    MissingUrl,
    BadMethod,
    BadMethods,
    MissingMethods,
    BadUrl,
}

impl RouteFault {
    /// The detail text of the fault.
    pub open spec fn details(self) -> Seq<char> {
        match self {
            RouteFault::MissingTarget => "Missing key 'path' or 'script'"@,
            RouteFault::MissingUrl => "Missing key 'url'"@,
            RouteFault::BadMethod => "Ill formatted key 'method'"@,
            RouteFault::BadMethods => "Ill formatted key 'methods'"@,
            RouteFault::MissingMethods => "Missing key 'method' or 'methods'"@,
            RouteFault::BadUrl => "Ill formatted key 'url'"@,
        }
    }

    /// The fault as the error that reports it.
    pub open spec fn error(self) -> (Seq<char>, Seq<char>, LogLevel) {
        ("usr-cfgensure-cfgld"@, self.details(), LogLevel::ERROR)
    }
}

/// Whether every item of a declared method list names a method.
pub open spec fn methods_named(list: Seq<Option<String>>) -> bool {
    forall|i: int|
        0 <= i < list.len() ==> (#[trigger] list[i]) is Some && Methods::of_word(
            list[i]->0@,
        ) is Some
}

/// The methods that a declared method list names.
pub open spec fn methods_of_list(list: Seq<Option<String>>) -> Seq<Methods> {
    Seq::new(list.len(), |i: int| Methods::of_word(list[i]->0@)->0)
}

/// The methods that a declared route allows.
pub open spec fn entry_methods(t: RouteEntry) -> Seq<Methods> {
    match t.method {
        Some(m) => seq![Methods::of_word(m@)->0],
        None => methods_of_list(t.methods->0@),
    }
}

/// The first thing wrong with a declared route, if anything is. The target
/// is looked at first, then the pattern's presence, then the methods, where
/// `method` goes before `methods`, and last the pattern's wildcards.
pub open spec fn entry_fault(t: RouteEntry) -> Option<RouteFault> {
    if t.path is None && t.script is None {
        Some(RouteFault::MissingTarget)
    } else if t.url is None {
        Some(RouteFault::MissingUrl)
    } else if t.method is Some {
        if Methods::of_word(t.method->0@) is None {
            Some(RouteFault::BadMethod)
        } else if wildcards(t.url->0@) > 1 {
            Some(RouteFault::BadUrl)
        } else {
            None
        }
    } else if t.methods is Some {
        if !methods_named(t.methods->0@) || t.methods->0@.len() == 0 {
            Some(RouteFault::BadMethods)
        } else if wildcards(t.url->0@) > 1 {
            Some(RouteFault::BadUrl)
        } else {
            None
        }
    } else {
        Some(RouteFault::MissingMethods)
    }
}

/// The route that a faultless declaration under `name` stands for. A `path`
/// makes it a file route, even beside a `script`.
pub open spec fn entry_route(name: Seq<char>, t: RouteEntry) -> RouteView {
    RouteView {
        name,
        path: if t.path is Some {
            t.path->0@
        } else {
            t.script->0@
        },
        url: t.url->0@,
        methods: entry_methods(t),
        path_is_script: t.path is None,
    }
}

/// The names and script paths of the script routes, in order.
pub open spec fn scripts_of(routes: Seq<RouteView>) -> Seq<(Seq<char>, Seq<char>)>
    decreases routes.len(),
{
    if routes.len() == 0 {
        Seq::<(Seq<char>, Seq<char>)>::empty()
    } else if routes.last().path_is_script {
        scripts_of(routes.drop_last()).push((routes.last().name, routes.last().path))
    } else {
        scripts_of(routes.drop_last())
    }
}

/// Every script route is listed among the scripts under its name.
pub proof fn lemma_scripts_listed(routes: Seq<RouteView>, i: int)
    requires
        0 <= i < routes.len(),
        routes[i].path_is_script,
    ensures
        has_key(scripts_of(routes), routes[i].name),
    decreases routes.len(),
{
    let listed = scripts_of(routes);
    let before = scripts_of(routes.drop_last());
    if i == routes.len() - 1 {
        assert(listed[before.len() as int].0 == routes[i].name);
    } else {
        lemma_scripts_listed(routes.drop_last(), i);
        let k = choose|k: int| 0 <= k < before.len() && before[k].0 == routes[i].name;
        assert(listed[k] == before[k]);
    }
}

/// The views of name and path pairs, in order.
pub open spec fn pair_views(pairs: Seq<(String, String)>) -> Seq<(Seq<char>, Seq<char>)> {
    Seq::new(pairs.len(), |i: int| (pairs[i].0@, pairs[i].1@))
}

/// The values of a list of options, if none is missing.
pub fn unwrap_or_error<T>(results: Vec<Option<T>>) -> (r: Option<Vec<T>>)
    ensures
        r is Some <==> forall|i: int| 0 <= i < results@.len() ==> (#[trigger] results@[i]) is Some,
        r matches Some(v) ==> v@.len() == results@.len() && forall|i: int|
            0 <= i < v@.len() ==> results@[i] == Some(#[trigger] v@[i]),
{
    let mut rest = results;
    let mut unwrapped: Vec<T> = Vec::new();
    while rest.len() > 0
        invariant
            unwrapped@.len() + rest@.len() == results@.len(),
            forall|i: int|
                0 <= i < unwrapped@.len() ==> results@[i] == Some(#[trigger] unwrapped@[i]),
            forall|i: int|
                0 <= i < rest@.len() ==> (#[trigger] rest@[i]) == results@[unwrapped@.len() + i],
        decreases rest@.len(),
    {
        let ghost k = unwrapped@.len() as int;
        assert(rest@[0] == results@[k]);
        let result = rest.remove(0);
        match result {
            Some(value) => unwrapped.push(value),
            None => {
                assert(results@[k] is None);
                return None;
            },
        }
    }
    assert forall|i: int| 0 <= i < results@.len() implies (#[trigger] results@[i]) is Some by {
        assert(results@[i] == Some(unwrapped@[i]));
    }
    Some(unwrapped)
}

/// The fault of a declaration, as an error value.
pub(crate) fn fault(details: &str) -> (e: DogError)
    ensures
        e@ == ("usr-cfgensure-cfgld"@, details@, LogLevel::ERROR),
{
    DogError::new("usr-cfgensure-cfgld".to_owned(), details.to_owned())
}

impl Route {
    /// The route that the declaration `t` under `name` stands for, or the
    /// first fault of the declaration.
    pub fn new(name: String, t: &RouteEntry) -> (r: DogResult<Self>)
        ensures
            match entry_fault(*t) {
                Some(f) => r is Err && r->Err_0@ == f.error(),
                None => r is Ok && r->Ok_0@ == entry_route(name@, *t) && valid_route(r->Ok_0@),
            },
    {
        let (path, path_is_script) = match (&t.path, &t.script) {
            (Some(p), _) => (p.clone(), false),
            (None, Some(s)) => (s.clone(), true),
            (None, None) => {
                return Err(fault("Missing key 'path' or 'script'"));
            },
        };
        let url = match &t.url {
            Some(u) => u.clone(),
            None => {
                return Err(fault("Missing key 'url'"));
            },
        };
        let methods: Vec<Methods> = match (&t.method, &t.methods) {
            (Some(m), _) => {
                match Methods::from_str(m.as_str()) {
                    Ok(t1) => {
                        let mut v: Vec<Methods> = Vec::new();
                        v.push(t1);
                        assert(v@ =~= entry_methods(*t));
                        v
                    },
                    Err(_) => {
                        return Err(fault("Ill formatted key 'method'"));
                    },
                }
            },
            (None, Some(list)) => {
                let mut words: Vec<Option<&str>> = Vec::new();
                let mut i: usize = 0;
                while i < list.len()
                    invariant
                        i <= list@.len(),
                        words@.len() == i,
                        forall|j: int|
                            0 <= j < i ==> ((#[trigger] words@[j]) is Some <==> list@[j] is Some),
                        forall|j: int|
                            0 <= j < i && list@[j] is Some ==> (#[trigger] words@[j])->0@
                                == list@[j]->0@,
                    decreases list@.len() - i,
                {
                    match &list[i] {
                        Some(s) => words.push(Some(s.as_str())),
                        None => words.push(None),
                    }
                    i += 1;
                }
                let v = match unwrap_or_error(words) {
                    Some(v) => v,
                    None => {
                        proof {
                            let j = choose|j: int| 0 <= j < words@.len() && !(words@[j] is Some);
                            assert(list@[j] is None);
                        }
                        return Err(fault("Ill formatted key 'methods'"));
                    },
                };
                assert forall|j: int| 0 <= j < list@.len() implies (#[trigger] list@[j]) is Some
                    && v@[j]@ == list@[j]->0@ by {
                    assert(words@[j] is Some);
                    assert(words@[j] == Some(v@[j]));
                }
                let ms = match Methods::from_str_mult(v) {
                    Ok(ms) => ms,
                    Err(_) => {
                        proof {
                            let j = choose|j: int|
                                0 <= j < v@.len() && !(Methods::of_word(v@[j]@) is Some);
                            assert(list@[j] is Some);
                        }
                        return Err(fault("Ill formatted key 'methods'"));
                    },
                };
                assert(methods_named(list@)) by {
                    assert forall|j: int| 0 <= j < list@.len() implies (#[trigger] list@[j]) is Some
                        && Methods::of_word(list@[j]->0@) is Some by {
                        assert(Methods::of_word(v@[j]@) is Some);
                    }
                }
                if ms.len() == 0 {
                    return Err(fault("Ill formatted key 'methods'"));
                }
                assert(ms@ =~= entry_methods(*t)) by {
                    assert forall|j: int| 0 <= j < ms@.len() implies ms@[j] == entry_methods(
                        *t,
                    )[j] by {
                        assert(Some(ms@[j]) == Methods::of_word(v@[j]@));
                    }
                }
                ms
            },
            (None, None) => {
                return Err(fault("Missing key 'method' or 'methods'"));
            },
        };
        let pattern = chars_of(url.as_str());
        let parts = split_on(&pattern, '*');
        assert(views(parts@).len() == parts@.len());
        if parts.len() > 2 {
            return Err(fault("Ill formatted key 'url'"));
        }
        Ok(Route { name, path, url, methods, path_is_script })
    }

    /// The route table that the declarations stand for, in their order,
    /// together with the names and paths of its script routes; or the first
    /// fault of the first faulty declaration.
    pub fn tbljob(entries: &Vec<(String, RouteEntry)>) -> (r: DogResult<
        (Vec<Route>, Vec<(String, String)>),
    >)
        ensures
            r is Ok <==> forall|i: int|
                0 <= i < entries@.len() ==> entry_fault((#[trigger] entries@[i]).1) is None,
            r matches Ok(t) ==> {
                &&& t.0@.len() == entries@.len()
                &&& forall|i: int|
                    0 <= i < entries@.len() ==> (#[trigger] t.0@[i])@ == entry_route(
                        entries@[i].0@,
                        entries@[i].1,
                    ) && valid_route(t.0@[i]@)
                &&& pair_views(t.1@) == scripts_of(route_views(t.0@))
            },
            r matches Err(e) ==> exists|i: int|
                0 <= i < entries@.len() && entry_fault((#[trigger] entries@[i]).1) is Some && e@
                    == entry_fault(entries@[i].1)->0.error() && forall|j: int|
                    0 <= j < i ==> entry_fault((#[trigger] entries@[j]).1) is None,
    {
        let mut hm_r: Vec<Route> = Vec::new();
        let mut hm_s: Vec<(String, String)> = Vec::new();
        let mut i: usize = 0;
        while i < entries.len()
            invariant
                i <= entries@.len(),
                hm_r@.len() == i,
                forall|j: int| 0 <= j < i ==> entry_fault((#[trigger] entries@[j]).1) is None,
                forall|j: int|
                    0 <= j < i ==> (#[trigger] hm_r@[j])@ == entry_route(
                        entries@[j].0@,
                        entries@[j].1,
                    ) && valid_route(hm_r@[j]@),
                pair_views(hm_s@) == scripts_of(route_views(hm_r@)),
            decreases entries@.len() - i,
        {
            let rt = match Route::new(entries[i].0.clone(), &entries[i].1) {
                Ok(rt) => rt,
                Err(e) => {
                    return Err(e);
                },
            };
            proof {
                let next = route_views(hm_r@.push(rt));
                assert(next.drop_last() =~= route_views(hm_r@));
                assert(next.last() == rt@);
            }
            if rt.path_is_script {
                let ghost before = hm_s@;
                hm_s.push((rt.name.clone(), rt.path.clone()));
                assert(pair_views(hm_s@) =~= pair_views(before).push((rt.name@, rt.path@)));
            }
            hm_r.push(rt);
            i += 1;
        }
        Ok((hm_r, hm_s))
    }
}

} // verus!
