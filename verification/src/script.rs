//! What the server makes of a script's answer. Running the script is the
//! caller's part; it hands over the table that the script returned, field by
//! field, or the reason why the run failed.

use crate::errors::{DogError, DogResult, HttpCode};
use crate::logger::LogLevel;
use crate::request::{has_key, key_index, Headers};
use crate::response::{built, ContentType, HttpResponse, ResponseView};
use crate::routes::pair_views;
use crate::text::str_equal;
use vstd::prelude::*;
use vstd::string::*;
use vstd::utf8::encode_utf8;

verus! {

/// The table that a script returned: each field is the value under the key
/// of that name, where the key is present. `kind` is the value under `type`.
#[derive(Debug)]
pub struct ScriptTable {
    pub code: Option<u16>,
    pub resp: Option<String>,
    pub headers: Option<Headers>,
    pub content: Option<String>,
    pub kind: String,
    pub reroute: Option<bool>,
}

/// What can be wrong with a script's table.
pub enum TableFault {
    MissingCode,
    MissingResp,
    MissingHeaders,
    MissingContent,
    BadCode,
}

impl TableFault {
    /// The detail text of the fault.
    pub open spec fn details(self) -> Seq<char> {
        match self {
            TableFault::MissingCode => "Missing 'code' in response table"@,
            TableFault::MissingResp => "Missing 'resp' in response table"@,
            TableFault::MissingHeaders => "Missing 'headers' in response table"@,
            TableFault::MissingContent => "Missing 'content' in response table"@,
            TableFault::BadCode => "Malformed entry 'code' in response table"@,
        }
    }

    /// The fault as the error that reports it.
    pub open spec fn error(self) -> (Seq<char>, Seq<char>, LogLevel) {
        ("usr-scripts-evres"@, self.details(), LogLevel::ERROR)
    }
}

/// The first thing wrong with a script's table, if anything is: the keys
/// are looked for in the order `code`, `resp`, `headers`, `content`, and
/// then the code must be a status that the server knows.
pub open spec fn table_fault(t: ScriptTable) -> Option<TableFault> {
    if t.code is None {
        Some(TableFault::MissingCode)
    } else if t.resp is None {
        Some(TableFault::MissingResp)
    } else if t.headers is None {
        Some(TableFault::MissingHeaders)
    } else if t.content is None {
        Some(TableFault::MissingContent)
    } else if !HttpCode::known(t.code->0) {
        Some(TableFault::BadCode)
    } else {
        None
    }
}

/// The status that a faultless table names.
pub open spec fn table_code(t: ScriptTable) -> HttpCode {
    choose|c: HttpCode| c.number() == t.code->0
}

/// The response that a faultless table stands for.
pub open spec fn table_response(t: ScriptTable) -> ResponseView {
    built(
        table_code(t),
        t.resp->0@,
        t.headers->0@,
        encode_utf8(t.content->0@),
        ContentType::of_ext(t.kind@),
        t.reroute == Some(true),
    )
}

/// The detail text of a failed run of the script at `path`.
pub open spec fn run_failure(path: Seq<char>, reason: Seq<char>) -> Seq<char> {
    "Running script ("@ + path + ") failed => "@ + reason
}

/// The scripts of the route table, by route name.
#[derive(Clone, Debug)]
pub struct ScriptLoader {
    pub scripts: Vec<(String, String)>,
}

impl ScriptLoader {
    /// The loader for the scripts `script_locs`, pairs of route name and
    /// script path. `all_found` says whether every script could be read.
    pub fn new(script_locs: Vec<(String, String)>, all_found: bool) -> (r: DogResult<Self>)
        ensures
            r is Ok <==> all_found,
            r matches Ok(l) ==> l.scripts == script_locs,
            r matches Err(e) ==> e@ == (
                "usr-scripts-ensloc"@,
                "Could not ensure that all scripts exist"@,
                LogLevel::ERROR,
            ),
    {
        if !all_found {
            return Err(
                DogError::new(
                    "usr-scripts-ensloc".to_owned(),
                    "Could not ensure that all scripts exist".to_owned(),
                ),
            );
        }
        Ok(ScriptLoader { scripts: script_locs })
    }

    /// Whether a script is known under the route name `name`.
    pub open spec fn knows(&self, name: Seq<char>) -> bool {
        has_key(pair_views(self.scripts@), name)
    }

    /// The path of the script known under `name`: the first in the table.
    pub open spec fn path_of(&self, name: Seq<char>) -> Seq<char> {
        pair_views(self.scripts@)[key_index(pair_views(self.scripts@), name)].1
    }

    /// The path of the script known under `name`, if there is one.
    pub fn script_path(&self, name: &str) -> (r: Option<String>)
        ensures
            r is Some <==> self.knows(name@),
            r matches Some(p) ==> p@ == self.path_of(name@),
    {
        let mut i: usize = 0;
        while i < self.scripts.len()
            invariant
                i <= self.scripts@.len(),
                forall|j: int| 0 <= j < i ==> pair_views(self.scripts@)[j].0 != name@,
            decreases self.scripts@.len() - i,
        {
            if str_equal(self.scripts[i].0.as_str(), name) {
                proof {
                    assert(pair_views(self.scripts@)[i as int].0 == name@);
                    crate::request::lemma_key_index(pair_views(self.scripts@), name@, i as int);
                }
                return Some(self.scripts[i].1.clone());
            }
            i += 1;
        }
        None
    }

    /// The response that the script's table stands for, or the first fault
    /// of the table.
    pub fn table_to_response(&self, table: ScriptTable) -> (r: DogResult<HttpResponse>)
        ensures
            match table_fault(table) {
                Some(f) => r is Err && r->Err_0@ == f.error(),
                None => r is Ok && r->Ok_0@ == table_response(table),
            },
    {
        let ScriptTable { code, resp, headers, content, kind, reroute } = table;
        let num = match code {
            Some(n) => n,
            None => {
                return Err(Self::table_error("Missing 'code' in response table"));
            },
        };
        let resp = match resp {
            Some(s) => s,
            None => {
                return Err(Self::table_error("Missing 'resp' in response table"));
            },
        };
        let headers = match headers {
            Some(h) => h,
            None => {
                return Err(Self::table_error("Missing 'headers' in response table"));
            },
        };
        let content = match content {
            Some(c) => c,
            None => {
                return Err(Self::table_error("Missing 'content' in response table"));
            },
        };
        let reroute = match reroute {
            Some(b) => b,
            None => false,
        };
        let code = match HttpCode::from_num(num) {
            Some(c) => c,
            None => {
                return Err(Self::table_error("Malformed entry 'code' in response table"));
            },
        };
        proof {
            HttpCode::lemma_number_injective(code, table_code(table));
        }
        let ct = ContentType::from_ext(kind.as_str());
        Ok(HttpResponse::new((code, resp), headers, (content.as_str().as_bytes_vec(), ct), reroute))
    }

    /// The error for a fault of a script's table.
    fn table_error(details: &str) -> (e: DogError)
        ensures
            e@ == ("usr-scripts-evres"@, details@, LogLevel::ERROR),
    {
        DogError::new("usr-scripts-evres".to_owned(), details.to_owned())
    }

    /// What a finished run of the script `script` comes to: the response
    /// of its table, the table's fault, or the failure of the run itself.
    pub fn run_script(&self, script: &str, result: Result<ScriptTable, String>) -> (r: DogResult<
        HttpResponse,
    >)
        requires
            self.knows(script@),
        ensures
            match result {
                Ok(table) => match table_fault(table) {
                    Some(f) => r is Err && r->Err_0@ == f.error(),
                    None => r is Ok && r->Ok_0@ == table_response(table),
                },
                Err(reason) => r is Err && r->Err_0@ == (
                    "usr-script-run"@,
                    run_failure(self.path_of(script@), reason@),
                    LogLevel::ERROR,
                ),
            },
    {
        match result {
            Err(reason) => {
                let path = match self.script_path(script) {
                    Some(p) => p,
                    None => String::new(),
                };
                let mut details = "Running script (".to_owned();
                details.append(path.as_str());
                details.append(") failed => ");
                details.append(reason.as_str());
                Err(DogError::new("usr-script-run".to_owned(), details))
            },
            Ok(table) => self.table_to_response(table),
        }
    }
}

} // verus!
