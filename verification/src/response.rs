//! The mutable response context a handler writes through.
//!
//! Mutations are buffered: status, headers and cookie operations are recorded
//! here while the handler runs and are applied to the wire response only after
//! it returns.

use vstd::prelude::*;
use crate::cookie::{CookieOperation, LuaCookie};
use crate::strmap::StringMap;
use crate::text::{lower_seq, to_lowercase_ascii};

verus! {

/// What a response mutation can be rejected for. The error is surfaced to the
/// calling script; the context is left unchanged.
#[derive(Clone, Copy, Debug, PartialEq, Eq, Structural)]
pub enum ResponseError {
    InvalidStatusCode,
    InvalidHeaderName,
    InvalidHeaderValue,
}

/// A status line value the bridge accepts: the standard HTTP status classes.
pub open spec fn valid_status_code(code: u16) -> bool {
    100 <= code <= 599
}

/// A character allowed in a (lowered) header name: the HTTP token characters.
pub open spec fn valid_header_name_char(c: char) -> bool {
    ('a' <= c && c <= 'z') || ('0' <= c && c <= '9') || c == '!' || c == '#' || c == '$' || c
        == '%' || c == '&' || c == '\'' || c == '*' || c == '+' || c == '-' || c == '.' || c == '^'
        || c == '_' || c == '`' || c == '|' || c == '~'
}

/// A non-empty name of token characters.
pub open spec fn valid_header_name(s: Seq<char>) -> bool {
    s.len() > 0 && forall|i: int| 0 <= i < s.len() ==> valid_header_name_char(s[i])
}

/// A character allowed in a header value: horizontal tab, or anything that is
/// not an ASCII control character or delete.
pub open spec fn valid_header_value_char(c: char) -> bool {
    c == '\t' || (32 <= c as u32 && c as u32 != 127)
}

pub open spec fn valid_header_value(s: Seq<char>) -> bool {
    forall|i: int| 0 <= i < s.len() ==> valid_header_value_char(s[i])
}

fn check_header_name(s: &str) -> (r: bool)
    ensures
        r == valid_header_name(s@),
{
    let n = s.unicode_len();
    if n == 0 {
        return false;
    }
    for i in 0..n
        invariant
            n == s@.len(),
            forall|j: int| 0 <= j < i ==> valid_header_name_char(s@[j]),
    {
        let c = s.get_char(i);
        let u = c as u32;
        let ok = (97 <= u && u <= 122) || (48 <= u && u <= 57) || c == '!' || c == '#' || c == '$'
            || c == '%' || c == '&' || c == '\'' || c == '*' || c == '+' || c == '-' || c == '.'
            || c == '^' || c == '_' || c == '`' || c == '|' || c == '~';
        if !ok {
            return false;
        }
    }
    true
}

fn check_header_value(s: &str) -> (r: bool)
    ensures
        r == valid_header_value(s@),
{
    let n = s.unicode_len();
    for i in 0..n
        invariant
            n == s@.len(),
            forall|j: int| 0 <= j < i ==> valid_header_value_char(s@[j]),
    {
        let c = s.get_char(i);
        let u = c as u32;
        if !(c == '\t' || (32 <= u && u != 127)) {
            return false;
        }
    }
    true
}

/// The response context handed to a handler: a status line, a header map, and
/// the buffered cookie operations, in issue order.
pub struct ResponseLua {
    pub status_code: u16,
    pub headers: StringMap<String>,
    pub cookie_operations: Vec<CookieOperation>,
}

impl ResponseLua {
    pub open spec fn wf(&self) -> bool {
        &&& self.headers.wf()
        &&& valid_status_code(self.spec_status())
        &&& forall|k: Seq<char>| #[trigger] self.headers.spec_get(k) is Some ==> valid_header_name(
            k,
        )
    }

    pub open spec fn spec_status(&self) -> u16 {
        self.status_code
    }

    pub open spec fn spec_headers(&self) -> Seq<(Seq<char>, String)> {
        self.headers@
    }

    /// The value recorded for the (lowered) header name `k`, if any.
    pub open spec fn spec_header(&self, k: Seq<char>) -> Option<String> {
        self.headers.spec_get(k)
    }

    pub open spec fn spec_cookie_ops(&self) -> Seq<CookieOperation> {
        self.cookie_operations@
    }

    /// A fresh context: status 200, no headers, no cookie operations.
    pub fn new() -> (r: ResponseLua)
        ensures
            r.wf(),
            r.spec_status() == 200,
            r.spec_headers() == Seq::<(Seq<char>, String)>::empty(),
            r.spec_cookie_ops() == Seq::<CookieOperation>::empty(),
    {
        ResponseLua { status_code: 200, headers: StringMap::new(), cookie_operations: Vec::new() }
    }

    /// Set the status line. A value outside the valid range is rejected with
    /// an error and the prior status stands.
    pub fn set_status_code(&mut self, code: u16) -> (r: Result<(), ResponseError>)
        requires
            old(self).wf(),
        ensures
            final(self).wf(),
            r is Ok <==> valid_status_code(code),
            r is Ok ==> final(self).spec_status() == code,
            r is Err ==> r == Result::<(), ResponseError>::Err(ResponseError::InvalidStatusCode)
                && *final(self) == *old(self),
            final(self).spec_headers() == old(self).spec_headers(),
            final(self).spec_cookie_ops() == old(self).spec_cookie_ops(),
    {
        if 100 <= code && code <= 599 {
            self.status_code = code;
            Ok(())
        } else {
            Err(ResponseError::InvalidStatusCode)
        }
    }

    /// Record a header. The name is lowered ASCII-wise and must then be a
    /// valid header name; the value must be a valid header value. A later
    /// write to the same name replaces the earlier one. On rejection the
    /// context is unchanged.
    pub fn set_header(&mut self, key: String, value: String) -> (r: Result<(), ResponseError>)
        requires
            old(self).wf(),
        ensures
            final(self).wf(),
            r is Ok <==> valid_header_name(lower_seq(key@)) && valid_header_value(value@),
            r is Ok ==> final(self).spec_header(lower_seq(key@)) == Some(value) && forall|
                k2: Seq<char>,
            |
                k2 != lower_seq(key@) ==> final(self).spec_header(k2) == old(self).spec_header(k2),
            r is Err ==> *final(self) == *old(self),
            r matches Err(e) ==> (e == ResponseError::InvalidHeaderName <==> !valid_header_name(
                lower_seq(key@),
            )),
            final(self).spec_status() == old(self).spec_status(),
            final(self).spec_cookie_ops() == old(self).spec_cookie_ops(),
    {
        let lowered = to_lowercase_ascii(key.as_str());
        if !check_header_name(lowered.as_str()) {
            return Err(ResponseError::InvalidHeaderName);
        }
        if !check_header_value(value.as_str()) {
            return Err(ResponseError::InvalidHeaderValue);
        }
        self.headers.insert(lowered, value);
        Ok(())
    }

    /// Remove the header recorded under the lowered form of `key`, if the
    /// lowered form is a valid header name; otherwise reject and change
    /// nothing.
    pub fn remove_header(&mut self, key: String) -> (r: Result<(), ResponseError>)
        requires
            old(self).wf(),
        ensures
            final(self).wf(),
            r is Ok <==> valid_header_name(lower_seq(key@)),
            r is Ok ==> final(self).spec_header(lower_seq(key@)) is None && forall|k2: Seq<char>|
                k2 != lower_seq(key@) ==> final(self).spec_header(k2) == old(self).spec_header(k2),
            r is Err ==> r == Result::<(), ResponseError>::Err(ResponseError::InvalidHeaderName)
                && *final(self) == *old(self),
            final(self).spec_status() == old(self).spec_status(),
            final(self).spec_cookie_ops() == old(self).spec_cookie_ops(),
    {
        let lowered = to_lowercase_ascii(key.as_str());
        if !check_header_name(lowered.as_str()) {
            return Err(ResponseError::InvalidHeaderName);
        }
        self.headers.remove(&lowered);
        Ok(())
    }

    /// The recorded headers, by reference.
    pub fn get_headers(&self) -> (r: &StringMap<String>)
        ensures
            r@ == self.spec_headers(),
            r.wf() == self.headers.wf(),
    {
        &self.headers
    }

    /// Buffer an add of this cookie.
    pub fn set_cookie(&mut self, cookie: LuaCookie)
        requires
            old(self).wf(),
        ensures
            final(self).wf(),
            final(self).spec_cookie_ops() == old(self).spec_cookie_ops().push(
                CookieOperation::Add(cookie),
            ),
            final(self).spec_status() == old(self).spec_status(),
            final(self).spec_headers() == old(self).spec_headers(),
    {
        self.cookie_operations.push(CookieOperation::Add(cookie));
    }

    /// Buffer a removal of the cookie named `key`.
    pub fn remove_cookie(&mut self, key: String)
        requires
            old(self).wf(),
        ensures
            final(self).wf(),
            final(self).spec_cookie_ops() == old(self).spec_cookie_ops().push(
                CookieOperation::Remove { key },
            ),
            final(self).spec_status() == old(self).spec_status(),
            final(self).spec_headers() == old(self).spec_headers(),
    {
        self.cookie_operations.push(CookieOperation::Remove { key });
    }

    /// The current status line value.
    pub fn status_code(&self) -> (r: u16)
        ensures
            r == self.spec_status(),
    {
        self.status_code
    }

    /// The buffered cookie operations, in issue order.
    pub fn cookie_operations(&self) -> (r: &Vec<CookieOperation>)
        ensures
            r@ == self.spec_cookie_ops(),
    {
        &self.cookie_operations
    }
}

/// Header write order: when a handler records a header twice under the same
/// name, the response carries exactly the second value under that name, and
/// no other header moved. The two recordings are given by `set_header`'s
/// contract, from `c0` through `c1` to `c2`.
pub proof fn lemma_header_last_write_wins(
    c0: ResponseLua,
    c1: ResponseLua,
    c2: ResponseLua,
    key: Seq<char>,
    v1: String,
    v2: String,
)
    requires
        c1.spec_header(key) == Some(v1),
        forall|k2: Seq<char>| k2 != key ==> c1.spec_header(k2) == c0.spec_header(k2),
        c2.spec_header(key) == Some(v2),
        forall|k2: Seq<char>| k2 != key ==> c2.spec_header(k2) == c1.spec_header(k2),
    ensures
        c2.spec_header(key) == Some(v2),
        forall|k2: Seq<char>| k2 != key ==> c2.spec_header(k2) == c0.spec_header(k2),
{
}

} // verus!
