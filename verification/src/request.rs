//! The request view: the immutable, script-visible snapshot of one inbound
//! request, built once before the handler runs.

use vstd::prelude::*;
use vstd::slice::slice_to_vec;
use crate::cookie::LuaCookie;
use crate::json::{json_decode, json_value_of};
use crate::params::{coerce_param, parsed_i32, ParamValue};
use crate::strmap::StringMap;
use crate::text::{
    bytes_to_string_lossy, first_occurrence, split_on, split_once_str, split_str, utf8_lossy_of,
};

verus! {

/// A request body: the raw bytes and their lossy text view.
pub struct BodyLua {
    pub body: Vec<u8>,
    pub body_string: String,
}

impl BodyLua {
    pub fn new(bytes: Vec<u8>) -> (r: BodyLua)
        ensures
            r.body@ == bytes@,
            r.body_string@ == utf8_lossy_of(bytes@),
    {
        let body_string = bytes_to_string_lossy(bytes.as_slice());
        BodyLua { body: bytes, body_string }
    }

    /// The body as text.
    pub fn text(&self) -> (r: String)
        ensures
            r@ == self.body_string@,
    {
        self.body_string.clone()
    }

    /// The body parsed as JSON, an error where the text is not well-formed
    /// JSON.
    pub fn json(&self) -> (r: Result<serde_json::Value, String>)
        ensures
            r is Ok <==> json_value_of(self.body_string@) is Some,
            r matches Ok(v) ==> json_value_of(self.body_string@) == Some(v),
    {
        json_decode(self.body_string.as_str())
    }
}

/// The immutable request snapshot handed to a handler: method, URI, headers,
/// query and path parameters, the body bytes if they could be read, and the
/// request's cookies, keyed by name.
pub struct RequestLua {
    pub method: String,
    pub uri: String,
    pub headers: StringMap<String>,
    pub queries: Vec<(String, String)>,
    pub path_params: Vec<(String, String)>,
    pub bytes: Option<Vec<u8>>,
    pub cookie_jar: StringMap<LuaCookie>,
}

impl RequestLua {
    pub open spec fn wf(&self) -> bool {
        &&& self.headers.wf()
        &&& self.cookie_jar.wf()
    }

    pub fn new(
        method: String,
        uri: String,
        headers: StringMap<String>,
        queries: Vec<(String, String)>,
        path_params: Vec<(String, String)>,
        bytes: Option<Vec<u8>>,
        cookie_jar: StringMap<LuaCookie>,
    ) -> (r: RequestLua)
        requires
            headers.wf(),
            cookie_jar.wf(),
        ensures
            r.wf(),
            r.method == method,
            r.uri == uri,
            r.headers == headers,
            r.queries == queries,
            r.path_params == path_params,
            r.bytes == bytes,
            r.cookie_jar == cookie_jar,
    {
        RequestLua { method, uri, headers, queries, path_params, bytes, cookie_jar }
    }

    pub fn method(&self) -> (r: String)
        ensures
            r@ == self.method@,
    {
        self.method.clone()
    }

    pub fn uri(&self) -> (r: String)
        ensures
            r@ == self.uri@,
    {
        self.uri.clone()
    }

    /// The request headers, by reference.
    pub fn headers(&self) -> (r: &StringMap<String>)
        ensures
            r == self.headers,
    {
        &self.headers
    }

    /// The cookie sent under `name`, if any.
    pub fn get_cookie(&self, name: &String) -> (r: Option<LuaCookie>)
        requires
            self.wf(),
        ensures
            r == self.cookie_jar.spec_get(name@),
    {
        match self.cookie_jar.get(name) {
            Some(c) => Some(c.duplicate()),
            None => None,
        }
    }

    /// The body view: the read bytes, or an empty body where none could be
    /// read.
    pub fn body(&self) -> (r: BodyLua)
        ensures
            match self.bytes {
                Some(b) => r.body@ == b@ && r.body_string@ == utf8_lossy_of(b@),
                None => r.body@ == Seq::<u8>::empty() && r.body_string@ == utf8_lossy_of(
                    Seq::<u8>::empty(),
                ),
            },
    {
        match &self.bytes {
            Some(b) => BodyLua::new(slice_to_vec(b.as_slice())),
            None => BodyLua::new(Vec::new()),
        }
    }

    /// The path parameters, each coerced with integers preferred.
    pub fn params(&self) -> (r: Vec<(String, ParamValue)>)
        ensures
            r@.len() == self.path_params@.len(),
            forall|i: int| #![trigger r@[i]]
                0 <= i < r@.len() ==> r@[i].0 == self.path_params@[i].0 && r@[i].1 == (
                match parsed_i32(self.path_params@[i].1@) {
                    Some(v) => ParamValue::Int(v),
                    None => ParamValue::Text(self.path_params@[i].1),
                }),
    {
        let mut out: Vec<(String, ParamValue)> = Vec::new();
        let n = self.path_params.len();
        for i in 0..n
            invariant
                n == self.path_params@.len(),
                out@.len() == i,
                forall|j: int| #![trigger out@[j]]
                    0 <= j < i ==> out@[j].0 == self.path_params@[j].0 && out@[j].1 == (
                    match parsed_i32(self.path_params@[j].1@) {
                        Some(v) => ParamValue::Int(v),
                        None => ParamValue::Text(self.path_params@[j].1),
                    }),
        {
            let key = self.path_params[i].0.clone();
            let value = self.path_params[i].1.clone();
            let ghost prev = out@;
            out.push((key, coerce_param(value)));
            proof {
                assert(forall|j: int| 0 <= j < i ==> out@[j] == prev[j]);
                assert(out@[i as int].0 == self.path_params@[i as int].0);
                assert(out@[i as int].1 == (match parsed_i32(self.path_params@[i as int].1@) {
                    Some(v) => ParamValue::Int(v),
                    None => ParamValue::Text(self.path_params@[i as int].1),
                }));
            }
        }
        out
    }
}

/// One query chunk split at its first equals sign: the key, and the value,
/// empty where the chunk has none.
pub open spec fn query_pair(chunk: Seq<char>) -> (Seq<char>, Seq<char>) {
    match first_occurrence(chunk, '=') {
        None => (chunk, Seq::empty()),
        Some(i) => (chunk.take(i), chunk.skip(i + 1)),
    }
}

/// The key-value pairs of a query string: chunks between ampersands, each
/// split at its first equals sign, in order; an empty query has none. Percent
/// escapes are carried through as written.
pub open spec fn parsed_query(s: Seq<char>) -> Seq<(Seq<char>, Seq<char>)> {
    if s.len() == 0 {
        Seq::empty()
    } else {
        split_on(s, '&').map_values(|c: Seq<char>| query_pair(c))
    }
}

/// Parse a query string, exactly as `parsed_query` describes.
pub fn parse_query(s: &str) -> (r: Vec<(String, String)>)
    ensures
        r@.map_values(|p: (String, String)| (p.0@, p.1@)) == parsed_query(s@),
{
    let out: Vec<(String, String)> = Vec::new();
    if s.unicode_len() == 0 {
        proof {
            assert(out@.map_values(|p: (String, String)| (p.0@, p.1@)) =~= parsed_query(s@));
        }
        return out;
    }
    let mut out = out;
    let chunks = split_str(s, '&');
    let n = chunks.len();
    for i in 0..n
        invariant
            n == chunks@.len(),
            crate::text::string_views(chunks@) == split_on(s@, '&'),
            s@.len() > 0,
            out@.map_values(|p: (String, String)| (p.0@, p.1@)) == split_on(s@, '&').take(
                i as int,
            ).map_values(|c: Seq<char>| query_pair(c)),
    {
        let chunk = &chunks[i];
        let pair = match split_once_str(chunk.as_str(), '=') {
            Some(p) => p,
            None => (chunk.clone(), String::new()),
        };
        let ghost prev = out@;
        out.push(pair);
        proof {
            let f = |p: (String, String)| (p.0@, p.1@);
            let g = |c: Seq<char>| query_pair(c);
            assert(chunks@[i as int]@ == split_on(s@, '&')[i as int]);
            assert(out@.map_values(f) =~= prev.map_values(f).push(f(out@[i as int])));
            assert(split_on(s@, '&').take(i + 1).map_values(g) =~= split_on(s@, '&').take(
                i as int,
            ).map_values(g).push(g(split_on(s@, '&')[i as int])));
            assert(f(out@[i as int]) == g(split_on(s@, '&')[i as int]));
        }
    }
    proof {
        assert(split_on(s@, '&').take(n as int) =~= split_on(s@, '&'));
    }
    out
}

} // verus!
