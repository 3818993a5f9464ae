//! Requests: the method, the header table, and the parser that turns the
//! lines read from a connection into an `HttpRequest`.

use crate::errors::{HttpCode, NetError, NetResult};
use crate::logger::opt_view;
use crate::text::{chars_of, split, split_on, str_equal, string_from, to_upper, uppercase, views};
use vstd::prelude::*;
use vstd::string::*;

verus! {

/// The request methods that a route can allow.
#[derive(Clone, Copy, Debug, PartialEq, Eq, Structural)]
pub enum Methods {
    GET,
    POST,
}

impl Methods {
    /// The method that an upper-case word names.
    pub open spec fn named(u: Seq<char>) -> Option<Methods> {
        if u == "GET"@ {
            Some(Methods::GET)
        } else if u == "POST"@ {
            Some(Methods::POST)
        } else {
            None
        }
    }

    /// The word that names the method.
    pub open spec fn word(self) -> Seq<char> {
        match self {
            Methods::GET => "GET"@,
            Methods::POST => "POST"@,
        }
    }

    /// The word that names the method.
    pub fn label(&self) -> (s: &'static str)
        ensures
            s@ == self.word(),
    {
        match self {
            Methods::GET => "GET",
            Methods::POST => "POST",
        }
    }

    /// The method named by `u`, which is taken as it stands.
    pub fn from_upper(u: &str) -> (r: Result<Self, ()>)
        ensures
            r == match Self::named(u@) {
                Some(m) => Ok::<Methods, ()>(m),
                None => Err::<Methods, ()>(()),
            },
    {
        if str_equal(u, "GET") {
            Ok(Methods::GET)
        } else if str_equal(u, "POST") {
            Ok(Methods::POST)
        } else {
            Err(())
        }
    }

    /// The method that a word names, whatever its letter case. A word that
    /// names a method as it stands is taken so; any other is looked up in
    /// upper case.
    pub open spec fn of_word(s: Seq<char>) -> Option<Methods> {
        if Self::named(s) is Some {
            Self::named(s)
        } else {
            Self::named(uppercase(s))
        }
    }

    /// The method named by `s`, whatever its letter case.
    pub fn from_str(s: &str) -> (r: Result<Self, ()>)
        ensures
            r == match Self::of_word(s@) {
                Some(m) => Ok::<Methods, ()>(m),
                None => Err::<Methods, ()>(()),
            },
    {
        match Self::from_upper(s) {
            Ok(m) => Ok(m),
            Err(_) => {
                let u = to_upper(s);
                Self::from_upper(u.as_str())
            },
        }
    }

    /// The methods named by the words of `sv`, in order; fails if any word
    /// names none.
    pub fn from_str_mult(sv: Vec<&str>) -> (r: Result<Vec<Methods>, ()>)
        ensures
            r is Ok <==> forall|i: int|
                0 <= i < sv@.len() ==> (#[trigger] Self::of_word(sv@[i]@)) is Some,
            r matches Ok(v) ==> v@.len() == sv@.len() && forall|i: int|
                0 <= i < sv@.len() ==> Some(#[trigger] v@[i]) == Self::of_word(sv@[i]@),
    {
        let mut ret: Vec<Methods> = Vec::new();
        let mut i: usize = 0;
        while i < sv.len()
            invariant
                i <= sv@.len(),
                ret@.len() == i,
                forall|j: int|
                    0 <= j < i ==> Some(#[trigger] ret@[j]) == Self::of_word(sv@[j]@),
                forall|j: int|
                    0 <= j < i ==> (#[trigger] Self::of_word(sv@[j]@)) is Some,
            decreases sv@.len() - i,
        {
            match Self::from_str(sv[i]) {
                Ok(m) => {
                    ret.push(m);
                },
                Err(_) => {
                    assert(Self::of_word(sv@[i as int]@) is None);
                    return Err(());
                },
            }
            i += 1;
        }
        Ok(ret)
    }
}

/// A header table as a sequence of name and value pairs.
pub type HeaderSeq = Seq<(Seq<char>, Seq<char>)>;

/// `i` is the first entry of `s` with the name `k`.
pub open spec fn key_at(s: HeaderSeq, k: Seq<char>, i: int) -> bool {
    &&& 0 <= i < s.len()
    &&& s[i].0 == k
    &&& forall|j: int| 0 <= j < i ==> s[j].0 != k
}

/// Whether `s` has an entry with the name `k`.
pub open spec fn has_key(s: HeaderSeq, k: Seq<char>) -> bool {
    exists|i: int| 0 <= i < s.len() && s[i].0 == k
}

/// The index of the first entry with the name `k`; meaningful with `has_key`.
pub open spec fn key_index(s: HeaderSeq, k: Seq<char>) -> int {
    choose|i: int| key_at(s, k, i)
}

/// The value stored under `k`.
pub open spec fn lookup(s: HeaderSeq, k: Seq<char>) -> Option<Seq<char>> {
    if has_key(s, k) {
        Some(s[key_index(s, k)].1)
    } else {
        None
    }
}

/// `s` after storing `v` under `k`: an entry with that name keeps its place
/// and takes the new value, a new name goes to the end.
pub open spec fn put(s: HeaderSeq, k: Seq<char>, v: Seq<char>) -> HeaderSeq {
    if has_key(s, k) {
        s.update(key_index(s, k), (k, v))
    } else {
        s.push((k, v))
    }
}

/// No name occurs twice.
pub open spec fn distinct_keys(s: HeaderSeq) -> bool {
    forall|i: int, j: int| 0 <= i < j < s.len() ==> s[i].0 != s[j].0
}

/// The first entry with a name is unique, so `key_index` names it.
pub proof fn lemma_key_index(s: HeaderSeq, k: Seq<char>, i: int)
    requires
        key_at(s, k, i),
    ensures
        has_key(s, k),
        key_index(s, k) == i,
{
    let p = key_index(s, k);
    assert(key_at(s, k, p));
    if p < i {
        assert(s[p].0 != k);
    }
    if i < p {
        assert(s[i].0 != k);
    }
}

/// Storing a value keeps the names distinct and makes the value the one
/// that is looked up.
pub proof fn lemma_put(s: HeaderSeq, k: Seq<char>, v: Seq<char>)
    ensures
        distinct_keys(s) ==> distinct_keys(put(s, k, v)),
        lookup(put(s, k, v), k) == Some(v),
        has_key(s, k) ==> put(s, k, v).len() == s.len(),
        !has_key(s, k) ==> put(s, k, v).len() == s.len() + 1,
{
    let t = put(s, k, v);
    if has_key(s, k) {
        let w = choose|i: int| 0 <= i < s.len() && s[i].0 == k;
        lemma_has_first(s, k, w);
        let p = key_index(s, k);
        assert(key_at(s, k, p));
        assert(key_at(t, k, p)) by {
            assert forall|j: int| 0 <= j < p implies t[j].0 != k by {
                assert(t[j] == s[j]);
            }
        }
        lemma_key_index(t, k, p);
        if distinct_keys(s) {
            assert forall|i: int, j: int| 0 <= i < j < t.len() implies t[i].0 != t[j].0 by {
                assert(t[i].0 == s[i].0);
                assert(t[j].0 == s[j].0);
            }
        }
    } else {
        let p = s.len() as int;
        assert(key_at(t, k, p)) by {
            assert forall|j: int| 0 <= j < p implies t[j].0 != k by {
                assert(t[j] == s[j]);
            }
        }
        lemma_key_index(t, k, p);
        if distinct_keys(s) {
            assert forall|i: int, j: int| 0 <= i < j < t.len() implies t[i].0 != t[j].0 by {
                if j < p {
                    assert(t[i] == s[i] && t[j] == s[j]);
                } else {
                    assert(t[i] == s[i]);
                }
            }
        }
    }
}

/// Storing a value under one name leaves what is stored under every other
/// name as it was.
pub proof fn lemma_put_other(s: HeaderSeq, k: Seq<char>, v: Seq<char>, other: Seq<char>)
    requires
        other != k,
    ensures
        has_key(put(s, k, v), other) == has_key(s, other),
        lookup(put(s, k, v), other) == lookup(s, other),
{
    let t = put(s, k, v);
    if has_key(s, k) {
        let w = choose|i: int| 0 <= i < s.len() && s[i].0 == k;
        lemma_has_first(s, k, w);
        assert(key_at(s, k, key_index(s, k)));
    }
    assert(t.len() >= s.len());
    assert forall|i: int| 0 <= i < s.len() implies (#[trigger] t[i]).0 == s[i].0 && (s[i].0
        == other ==> t[i] == s[i]) by {}
    if has_key(s, other) {
        let w = choose|i: int| 0 <= i < s.len() && s[i].0 == other;
        lemma_has_first(s, other, w);
        let q = key_index(s, other);
        assert(key_at(t, other, q)) by {
            assert(t[q].0 == s[q].0);
            assert forall|j: int| 0 <= j < q implies t[j].0 != other by {
                assert(t[j].0 == s[j].0);
            }
        }
        lemma_key_index(t, other, q);
        assert(t[q] == s[q]);
    } else {
        if has_key(t, other) {
            let w = choose|i: int| 0 <= i < t.len() && t[i].0 == other;
            if w < s.len() {
                assert(t[w].0 == s[w].0);
            } else {
                assert(!has_key(s, k));
                assert(t[w] == (k, v));
            }
        }
    }
}

/// An entry with the name `k` at `w` means that there is a first one.
pub proof fn lemma_has_first(s: HeaderSeq, k: Seq<char>, w: int)
    requires
        0 <= w < s.len(),
        s[w].0 == k,
    ensures
        key_at(s, k, key_index(s, k)),
    decreases w,
{
    if exists|j: int| 0 <= j < w && s[j].0 == k {
        let j = choose|j: int| 0 <= j < w && s[j].0 == k;
        lemma_has_first(s, k, j);
    } else {
        assert(key_at(s, k, w));
    }
}

/// The header table of a request or a response. An entry is found by its
/// name; the entries keep the order in which their names first came.
#[derive(Clone, Debug)]
pub struct Headers {
    pub entries: Vec<(String, String)>,
}

impl View for Headers {
    type V = HeaderSeq;

    open spec fn view(&self) -> HeaderSeq {
        Seq::new(self.entries@.len(), |i: int| (self.entries@[i].0@, self.entries@[i].1@))
    }
}

impl Headers {
    /// No name occurs twice. A table that is only ever filled through
    /// `insert` stays so.
    pub open spec fn wf(&self) -> bool {
        distinct_keys(self@)
    }

    /// An empty table.
    pub fn new() -> (h: Self)
        ensures
            h@ == Seq::<(Seq<char>, Seq<char>)>::empty(),
            h.wf(),
    {
        let h = Headers { entries: Vec::new() };
        assert(h@ =~= Seq::<(Seq<char>, Seq<char>)>::empty());
        h
    }

    /// The number of entries.
    pub fn len(&self) -> (n: usize)
        ensures
            n == self@.len(),
    {
        self.entries.len()
    }

    /// The index of the entry with the name `key`, if there is one.
    pub fn find(&self, key: &str) -> (r: Option<usize>)
        ensures
            match r {
                Some(i) => key_at(self@, key@, i as int) && key_index(self@, key@) == i
                    && has_key(self@, key@),
                None => !has_key(self@, key@),
            },
    {
        let mut i: usize = 0;
        while i < self.entries.len()
            invariant
                i <= self.entries@.len(),
                forall|j: int| 0 <= j < i ==> self@[j].0 != key@,
            decreases self.entries@.len() - i,
        {
            if str_equal(self.entries[i].0.as_str(), key) {
                proof {
                    assert(self@[i as int].0 == key@);
                    lemma_key_index(self@, key@, i as int);
                }
                return Some(i);
            }
            i += 1;
        }
        None
    }

    /// Whether a value is stored under `key`.
    pub fn contains_key(&self, key: &str) -> (b: bool)
        ensures
            b == has_key(self@, key@),
    {
        self.find(key).is_some()
    }

    /// The value stored under `key`.
    pub fn get(&self, key: &str) -> (r: Option<String>)
        ensures
            opt_view(r) == lookup(self@, key@),
    {
        match self.find(key) {
            Some(i) => Some(self.entries[i].1.clone()),
            None => None,
        }
    }

    /// Stores `value` under `key`, in place of an earlier value if there is one.
    pub fn insert(&mut self, key: String, value: String)
        ensures
            final(self)@ == put(old(self)@, key@, value@),
            lookup(final(self)@, key@) == Some(value@),
            old(self).wf() ==> final(self).wf(),
    {
        proof {
            lemma_put(old(self)@, key@, value@);
        }
        match self.find(key.as_str()) {
            Some(i) => {
                self.entries[i] = (key, value);
                assert(final(self)@ =~= put(old(self)@, key@, value@));
            },
            None => {
                self.entries.push((key, value));
                assert(final(self)@ =~= put(old(self)@, key@, value@));
            },
        }
    }

    /// The `i`-th entry, as copies of its name and value.
    pub fn entry(&self, i: usize) -> (r: (String, String))
        requires
            i < self@.len(),
        ensures
            (r.0@, r.1@) == self@[i as int],
    {
        (self.entries[i].0.clone(), self.entries[i].1.clone())
    }

    /// A copy of the table.
    pub fn duplicate(&self) -> (h: Self)
        ensures
            h@ == self@,
            h.wf() == self.wf(),
    {
        let mut entries: Vec<(String, String)> = Vec::new();
        let mut i: usize = 0;
        while i < self.entries.len()
            invariant
                i <= self.entries@.len(),
                entries@.len() == i,
                forall|j: int|
                    0 <= j < i ==> (#[trigger] entries@[j]).0@ == self.entries@[j].0@
                        && entries@[j].1@ == self.entries@[j].1@,
            decreases self.entries@.len() - i,
        {
            entries.push((self.entries[i].0.clone(), self.entries[i].1.clone()));
            i += 1;
        }
        let h = Headers { entries };
        assert(h@ =~= self@);
        h
    }
}

/// The separator between a header's name and its value starts at `i`.
pub open spec fn sep_at(s: Seq<char>, i: int) -> bool {
    0 <= i && i + 1 < s.len() && s[i] == ':' && s[i + 1] == ' '
}

/// Whether the line holds a separator.
pub open spec fn has_sep(s: Seq<char>) -> bool {
    exists|i: int| sep_at(s, i)
}

/// `i` is where the first separator of the line starts.
pub open spec fn first_sep(s: Seq<char>, i: int) -> bool {
    sep_at(s, i) && forall|j: int| 0 <= j < i ==> !sep_at(s, j)
}

/// Where the first separator of the line starts; meaningful with `has_sep`.
pub open spec fn sep_index(s: Seq<char>) -> int {
    choose|i: int| first_sep(s, i)
}

/// What stands before the first separator.
pub open spec fn header_name(s: Seq<char>) -> Seq<char> {
    s.subrange(0, sep_index(s))
}

/// What stands after the first separator.
pub open spec fn header_value(s: Seq<char>) -> Seq<char> {
    s.subrange(sep_index(s) + 2, s.len() as int)
}

/// The first separator is unique, so `sep_index` names it.
pub proof fn lemma_sep_index(s: Seq<char>, i: int)
    requires
        first_sep(s, i),
    ensures
        has_sep(s),
        sep_index(s) == i,
{
    let p = sep_index(s);
    assert(first_sep(s, p));
    if p < i {
        assert(!sep_at(s, p));
    }
    if i < p {
        assert(!sep_at(s, i));
    }
}

/// The index at which the first `": "` of `v` starts, if there is one.
pub fn find_sep(v: &Vec<char>) -> (r: Option<usize>)
    ensures
        match r {
            Some(i) => first_sep(v@, i as int) && sep_index(v@) == i && has_sep(v@),
            None => !has_sep(v@),
        },
{
    let n: usize = v.len();
    if n < 2 {
        assert forall|j: int| !sep_at(v@, j) by {}
        return None;
    }
    let mut i: usize = 0;
    while i < n - 1
        invariant
            n == v@.len(),
            n >= 2,
            i <= n - 1,
            forall|j: int| 0 <= j < i ==> !sep_at(v@, j),
        decreases n - i,
    {
        if v[i] == ':' && v[i + 1] == ' ' {
            proof {
                lemma_sep_index(v@, i as int);
            }
            return Some(i);
        }
        i += 1;
    }
    assert forall|j: int| !sep_at(v@, j) by {
        if 0 <= j && j + 1 < v@.len() {
            assert(j < i);
        }
    }
    None
}

/// Splits a header line at its first `": "` into name and value.
pub fn split_once(in_string: &str) -> (r: Result<(&str, &str), NetError>)
    ensures
        r is Ok <==> has_sep(in_string@),
        r matches Ok(p) ==> p.0@ == header_name(in_string@) && p.1@ == header_value(in_string@),
        r matches Err(e) ==> e@ == (HttpCode::BadRequest, NetError::default_details()),
{
    let v = chars_of(in_string);
    match find_sep(&v) {
        Some(i) => {
            let n: usize = v.len();
            assert(sep_at(v@, i as int));
            let name = in_string.substring_char(0, i);
            let value = in_string.substring_char(i + 2, n);
            Ok((name, value))
        },
        None => Err(NetError::new(HttpCode::BadRequest, None)),
    }
}

/// The characters of each line.
pub open spec fn line_views(lines: Seq<String>) -> Seq<Seq<char>> {
    Seq::new(lines.len(), |i: int| lines[i]@)
}

/// The table that the header lines fill, each stored in turn.
pub open spec fn headers_of(lines: Seq<Seq<char>>) -> HeaderSeq
    decreases lines.len(),
{
    if lines.len() == 0 {
        Seq::<(Seq<char>, Seq<char>)>::empty()
    } else {
        put(headers_of(lines.drop_last()), header_name(lines.last()), header_value(lines.last()))
    }
}

/// Whether the lines form a request: a request line of three words separated
/// by single spaces, the first of which names a method in any letter case,
/// and then header lines that each hold a separator.
pub open spec fn well_formed(lines: Seq<Seq<char>>) -> bool {
    &&& lines.len() > 0
    &&& split(lines[0], ' ').len() == 3
    &&& Methods::of_word(split(lines[0], ' ')[0]) is Some
    &&& forall|i: int| 1 <= i < lines.len() ==> has_sep(#[trigger] lines[i])
}

/// A parsed request: the request line and the headers.
#[derive(Debug)]
pub struct HttpRequest {
    pub method: Methods,
    pub protocol_v: String,
    pub path: String,
    pub headers: Headers,
    pub body: Vec<u8>,
    pub host: Option<String>,
}

impl HttpRequest {
    /// The host as it is shown in a log line.
    pub open spec fn host_text(&self) -> Seq<char> {
        match self.host {
            Some(h) => h@,
            None => "None"@,
        }
    }

    /// A short description of the request for log lines.
    pub fn format(&self) -> (s: String)
        ensures
            s@ == self.method.word() + " "@ + self.path@ + " ("@ + self.host_text() + ")"@,
    {
        let mut s = self.method.label().to_owned();
        s.append(" ");
        s.append(self.path.as_str());
        s.append(" (");
        match &self.host {
            Some(h) => s.append(h.as_str()),
            None => s.append("None"),
        }
        s.append(")");
        s
    }

    /// The header table that the lines fill; fails with `BadRequest` if a
    /// line holds no separator.
    pub fn mk_headers(lns: Vec<String>) -> (r: NetResult<Headers>)
        ensures
            r is Ok <==> forall|i: int| 0 <= i < lns@.len() ==> has_sep(#[trigger] lns@[i]@),
            r matches Ok(h) ==> h@ == headers_of(line_views(lns@)) && h.wf(),
            r matches Err(e) ==> e@ == (HttpCode::BadRequest, NetError::default_details()),
    {
        let mut hsm = Headers::new();
        let mut i: usize = 0;
        while i < lns.len()
            invariant
                i <= lns@.len(),
                forall|j: int| 0 <= j < i ==> has_sep(#[trigger] lns@[j]@),
                hsm@ == headers_of(line_views(lns@).subrange(0, i as int)),
                hsm.wf(),
            decreases lns@.len() - i,
        {
            proof {
                let next = line_views(lns@).subrange(0, i + 1);
                assert(next.drop_last() =~= line_views(lns@).subrange(0, i as int));
                assert(next.last() == lns@[i as int]@);
            }
            match split_once(lns[i].as_str()) {
                Ok(x) => {
                    hsm.insert(x.0.to_owned(), x.1.to_owned());
                },
                Err(e) => {
                    return Err(e);
                },
            }
            i += 1;
        }
        assert(line_views(lns@).subrange(0, lns@.len() as int) =~= line_views(lns@));
        Ok(hsm)
    }

    /// Parses the lines of a request. Any malformed input is a `BadRequest`.
    pub fn from_raw(req_lines: Vec<String>) -> (r: NetResult<Self>)
        ensures
            r is Ok <==> well_formed(line_views(req_lines@)),
            r matches Err(e) ==> e@ == (HttpCode::BadRequest, NetError::default_details()),
            req_lines@.len() > 0 && split(req_lines@[0]@, ' ').len() != 3 ==> r is Err,
            r matches Ok(req) ==> {
                let lines = line_views(req_lines@);
                let words = split(lines[0], ' ');
                &&& Some(req.method) == Methods::of_word(words[0])
                &&& req.path@ == words[1]
                &&& req.protocol_v@ == words[2]
                &&& req.headers@ == headers_of(lines.drop_first())
                &&& req.headers.wf()
                &&& req.body@.len() == 0
                &&& opt_view(req.host) == lookup(req.headers@, "Host"@)
            },
    {
        let mut req_lines = req_lines;
        let ghost lines = line_views(req_lines@);
        if req_lines.len() == 0 {
            return Err(NetError::new(HttpCode::BadRequest, None));
        }
        let head = chars_of(req_lines[0].as_str());
        let words = split_on(&head, ' ');
        assert(head@ == lines[0]);
        assert(views(words@).len() == words@.len());
        if words.len() != 3 {
            return Err(NetError::new(HttpCode::BadRequest, None));
        }
        assert(views(words@)[0] == words@[0]@);
        assert(views(words@)[1] == words@[1]@);
        assert(views(words@)[2] == words@[2]@);
        let first = string_from(&words[0]);
        let method = match Methods::from_str(first.as_str()) {
            Ok(m) => m,
            Err(_) => {
                return Err(NetError::new(HttpCode::BadRequest, None));
            },
        };
        let path = string_from(&words[1]);
        let protocol_v = string_from(&words[2]);
        req_lines.remove(0);
        proof {
            assert(line_views(req_lines@) =~= lines.drop_first());
            assert forall|i: int| 0 <= i < req_lines@.len() implies req_lines@[i]@ == lines[i + 1] by {}
        }
        let headers = match Self::mk_headers(req_lines) {
            Ok(h) => h,
            Err(e) => {
                proof {
                    let i = choose|i: int| 0 <= i < req_lines@.len() && !has_sep(req_lines@[i]@);
                    assert(!has_sep(lines[i + 1]));
                }
                return Err(e);
            },
        };
        let host = headers.get("Host");
        proof {
            assert forall|i: int| 1 <= i < lines.len() implies has_sep(#[trigger] lines[i]) by {
                assert(has_sep(req_lines@[i - 1]@));
            }
        }
        Ok(HttpRequest { method, protocol_v, path, headers, body: Vec::new(), host })
    }
}

} // verus!
