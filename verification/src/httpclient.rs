//! The outbound HTTP request descriptor scripts build up: a plain-value
//! recipe. Sending it over the network is the host's business, outside this
//! crate.

use vstd::prelude::*;
use crate::strmap::StringMap;

verus! {

/// The request methods the client capability accepts.
#[derive(Clone, Copy, Debug, PartialEq, Eq, Structural)]
#[allow(clippy::upper_case_acronyms)]
pub enum HTTPRequestMethod {
    GET,
    POST,
    PUT,
    PATCH,
    DELETE,
    HEAD,
}

/// One outbound request under construction.
pub struct HTTPClientRequest {
    pub url: String,
    pub method: String,
    pub headers: StringMap<String>,
    pub body: Option<String>,
    pub body_json: Option<serde_json::Value>,
    pub form: StringMap<String>,
}

impl HTTPClientRequest {
    pub open spec fn wf(&self) -> bool {
        &&& self.headers.wf()
        &&& self.form.wf()
    }

    /// A fresh request for `url`: the default method, nothing else set.
    pub fn new(url: String) -> (r: HTTPClientRequest)
        ensures
            r.wf(),
            r.url == url,
            r.method@ == "GET"@,
            r.headers@.len() == 0,
            r.body is None,
            r.body_json is None,
            r.form@.len() == 0,
    {
        HTTPClientRequest {
            url,
            method: String::from_str("GET"),
            headers: StringMap::new(),
            body: None,
            body_json: None,
            form: StringMap::new(),
        }
    }

    pub fn set_method(&mut self, method: String)
        requires
            old(self).wf(),
        ensures
            final(self).wf(),
            *final(self) == (HTTPClientRequest { method, ..*old(self) }),
    {
        self.method = method;
    }

    /// Record a header; a later write to the same name replaces the earlier.
    pub fn set_header(&mut self, key: String, value: String)
        requires
            old(self).wf(),
        ensures
            final(self).wf(),
            final(self).headers.spec_get(key@) == Some(value),
            forall|k2: Seq<char>|
                k2 != key@ ==> final(self).headers.spec_get(k2) == old(self).headers.spec_get(k2),
            final(self).url == old(self).url,
            final(self).method == old(self).method,
            final(self).body == old(self).body,
            final(self).body_json == old(self).body_json,
            final(self).form == old(self).form,
    {
        self.headers.insert(key, value);
    }

    pub fn set_body(&mut self, body: String)
        requires
            old(self).wf(),
        ensures
            final(self).wf(),
            *final(self) == (HTTPClientRequest { body: Some(body), ..*old(self) }),
    {
        self.body = Some(body);
    }

    pub fn set_json(&mut self, value: serde_json::Value)
        requires
            old(self).wf(),
        ensures
            final(self).wf(),
            *final(self) == (HTTPClientRequest { body_json: Some(value), ..*old(self) }),
    {
        self.body_json = Some(value);
    }

    /// Record one form field; a later write to the same name replaces the
    /// earlier.
    pub fn set_form_field(&mut self, key: String, value: String)
        requires
            old(self).wf(),
        ensures
            final(self).wf(),
            final(self).form.spec_get(key@) == Some(value),
            forall|k2: Seq<char>|
                k2 != key@ ==> final(self).form.spec_get(k2) == old(self).form.spec_get(k2),
            final(self).url == old(self).url,
            final(self).method == old(self).method,
            final(self).body == old(self).body,
            final(self).body_json == old(self).body_json,
            final(self).headers == old(self).headers,
    {
        self.form.insert(key, value);
    }
}

} // verus!
