//! The request dispatch bridge: the per-request state machine from receipt to
//! an assembled wire response.
//!
//! The handler itself runs in the script runtime outside this crate; every
//! decision stands here: whether the body is admitted under the route's
//! limit, how the handler's return value maps to a body, and how the buffered
//! response mutations are reconciled into the wire response.

use vstd::prelude::*;
use crate::cookie::{build_set_cookie_directives, directive_result, SetCookieDirective};
use crate::json::{json_encode, json_text_of};
use crate::response::ResponseLua;
use crate::strmap::StringMap;

verus! {

/// The handler's return value, as the runtime classified it: plain text, a
/// structured value, or nothing that maps to a body.
pub enum ReturnKind {
    Text(String),
    Structured(serde_json::Value),
    Nothing,
}

/// The response body the bridge decided on.
pub enum ResponseBody {
    Text(String),
    Json(String),
    Empty,
}

/// The reconciled response, ready for the wire: the status line, the header
/// map, at most one cookie directive per cookie name, and the body.
pub struct WireResponse {
    pub status: u16,
    pub headers: StringMap<String>,
    pub set_cookies: StringMap<SetCookieDirective>,
    pub body: ResponseBody,
}

/// A body of `len` bytes is admitted under the route's limit.
pub open spec fn within_limit(limit: Option<usize>, len: usize) -> bool {
    match limit {
        Some(l) => len <= l,
        None => true,
    }
}

/// Decide admission of a request body under a route's limit.
pub fn admit_body(limit: Option<usize>, body_len: usize) -> (r: bool)
    ensures
        r == within_limit(limit, body_len),
{
    match limit {
        Some(l) => body_len <= l,
        None => true,
    }
}

/// Reconcile the response context into a wire response around the decided
/// body: the context's status and headers apply as recorded, and the cookie
/// operations fold into at most one directive per cookie name, the last
/// operation deciding.
pub fn assemble_response(body: ResponseBody, ctx: ResponseLua) -> (r: WireResponse)
    requires
        ctx.wf(),
    ensures
        r.status == ctx.spec_status(),
        r.headers@ == ctx.spec_headers(),
        r.headers.wf(),
        r.set_cookies.wf(),
        forall|name: Seq<char>|
            r.set_cookies.spec_get(name) == directive_result(ctx.spec_cookie_ops(), name),
        r.body == body,
{
    let set_cookies = build_set_cookie_directives(&ctx.cookie_operations);
    WireResponse { status: ctx.status_code, headers: ctx.headers, set_cookies, body }
}

/// The opaque failure response: a bare status, no headers, no cookies, no
/// body. Detail stays server-side.
pub fn failure_response(status: u16) -> (r: WireResponse)
    ensures
        r.status == status,
        r.headers@ == Seq::<(Seq<char>, String)>::empty(),
        r.set_cookies@ == Seq::<(Seq<char>, SetCookieDirective)>::empty(),
        r.body is Empty,
        r.headers.wf(),
        r.set_cookies.wf(),
{
    WireResponse {
        status,
        headers: StringMap::new(),
        set_cookies: StringMap::new(),
        body: ResponseBody::Empty,
    }
}

/// Where one request stands in its dispatch.
#[derive(Clone, Copy, Debug, PartialEq, Eq, Structural)]
pub enum DispatchState {
    /// The request arrived; its body is not read yet.
    Received,
    /// The body exceeded the route's limit; terminal, before any handler ran.
    BodyRejected,
    /// The request view is built; the handler has not run.
    ViewBuilt,
    /// The handler is in flight.
    HandlerInvoked,
    /// A wire response was produced.
    Completed,
}

/// The dispatch state machine for one request under one route.
pub struct RequestDispatch {
    pub state: DispatchState,
    pub body_limit: Option<usize>,
    /// How many times a handler was started for this request.
    pub invocations: u32,
}

impl RequestDispatch {
    /// No handler runs before the view is built, and none ever runs twice.
    pub open spec fn inv(&self) -> bool {
        &&& (self.state is Received || self.state is BodyRejected || self.state is ViewBuilt)
            ==> self.invocations == 0
        &&& self.invocations <= 1
    }

    pub fn new(body_limit: Option<usize>) -> (r: RequestDispatch)
        ensures
            r.inv(),
            r.state is Received,
            r.body_limit == body_limit,
            r.invocations == 0,
    {
        RequestDispatch { state: DispatchState::Received, body_limit, invocations: 0 }
    }

    /// Read the body's length against the route's limit: an admitted body
    /// moves the dispatch to the built view, an oversized one is terminally
    /// rejected with no handler invocation.
    pub fn receive_body(&mut self, body_len: usize) -> (admitted: bool)
        requires
            old(self).state is Received,
            old(self).inv(),
        ensures
            final(self).inv(),
            admitted == within_limit(old(self).body_limit, body_len),
            final(self).state == (if admitted {
                DispatchState::ViewBuilt
            } else {
                DispatchState::BodyRejected
            }),
            final(self).invocations == 0,
            final(self).body_limit == old(self).body_limit,
    {
        let admitted = admit_body(self.body_limit, body_len);
        self.state = if admitted {
            DispatchState::ViewBuilt
        } else {
            DispatchState::BodyRejected
        };
        admitted
    }

    /// The response owed for a rejected body: content too large, nothing else.
    pub fn reject_response(&mut self) -> (r: WireResponse)
        requires
            old(self).state is BodyRejected,
            old(self).inv(),
        ensures
            final(self).inv(),
            final(self).state is Completed,
            final(self).invocations == 0,
            r.status == 413,
            r.headers@.len() == 0,
            r.set_cookies@.len() == 0,
            r.body is Empty,
    {
        self.state = DispatchState::Completed;
        failure_response(413)
    }

    /// Start the handler: only possible on a built view, and only once.
    pub fn begin_handler(&mut self)
        requires
            old(self).state is ViewBuilt,
            old(self).inv(),
        ensures
            final(self).inv(),
            final(self).state is HandlerInvoked,
            final(self).invocations == 1,
            final(self).body_limit == old(self).body_limit,
    {
        self.state = DispatchState::HandlerInvoked;
        self.invocations = self.invocations + 1;
    }

    /// The handler returned: decide the body by the return value's shape —
    /// text becomes a text body, a structured value is rendered as JSON, and
    /// anything else an empty body — then apply the context's mutations. A
    /// structured value that does not render is a marshal error: an opaque
    /// internal failure with none of the context applied.
    pub fn finish_handler(&mut self, ret: ReturnKind, ctx: ResponseLua) -> (r: WireResponse)
        requires
            old(self).state is HandlerInvoked,
            old(self).inv(),
            ctx.wf(),
        ensures
            final(self).inv(),
            final(self).state is Completed,
            final(self).invocations == old(self).invocations,
            match ret {
                ReturnKind::Text(s) => r.status == ctx.spec_status() && r.headers@
                    == ctx.spec_headers() && r.body == ResponseBody::Text(s) && (forall|
                    name: Seq<char>,
                |
                    r.set_cookies.spec_get(name) == directive_result(ctx.spec_cookie_ops(), name)),
                ReturnKind::Structured(v) => (r.status == ctx.spec_status() && r.headers@
                    == ctx.spec_headers() && (r.body matches ResponseBody::Json(s) && s@
                    == json_text_of(v)) && (forall|name: Seq<char>|
                    r.set_cookies.spec_get(name) == directive_result(ctx.spec_cookie_ops(), name)))
                    || (r.status == 500 && r.headers@.len() == 0 && r.set_cookies@.len() == 0
                    && r.body is Empty),
                ReturnKind::Nothing => r.status == ctx.spec_status() && r.headers@
                    == ctx.spec_headers() && r.body is Empty && (forall|name: Seq<char>|
                    r.set_cookies.spec_get(name) == directive_result(ctx.spec_cookie_ops(), name)),
            },
    {
        self.state = DispatchState::Completed;
        match ret {
            ReturnKind::Text(s) => assemble_response(ResponseBody::Text(s), ctx),
            ReturnKind::Structured(v) => {
                match json_encode(&v) {
                    Ok(s) => assemble_response(ResponseBody::Json(s), ctx),
                    Err(_) => failure_response(500),
                }
            },
            ReturnKind::Nothing => assemble_response(ResponseBody::Empty, ctx),
        }
    }

    /// The handler itself failed: an opaque internal failure; none of the
    /// context's mutations reach the wire.
    pub fn handler_error(&mut self) -> (r: WireResponse)
        requires
            old(self).state is HandlerInvoked,
            old(self).inv(),
        ensures
            final(self).inv(),
            final(self).state is Completed,
            final(self).invocations == old(self).invocations,
            r.status == 500,
            r.headers@.len() == 0,
            r.set_cookies@.len() == 0,
            r.body is Empty,
    {
        self.state = DispatchState::Completed;
        failure_response(500)
    }
}

/// Body-limit enforcement: a dispatch whose body exceeds the route's limit is
/// rejected on receipt, before any handler runs — the machine lands in the
/// terminal rejected state with its invocation count still zero.
pub proof fn lemma_body_limit_blocks_handler(
    pre: RequestDispatch,
    post: RequestDispatch,
    body_len: usize,
    admitted: bool,
)
    requires
        pre.state is Received,
        pre.inv(),
        admitted == within_limit(pre.body_limit, body_len),
        post.state == (if admitted {
            DispatchState::ViewBuilt
        } else {
            DispatchState::BodyRejected
        }),
        post.invocations == 0,
    ensures
        !within_limit(pre.body_limit, body_len) ==> post.state is BodyRejected
            && post.invocations == 0,
        pre.body_limit matches Some(l) && body_len > l ==> !within_limit(
            pre.body_limit,
            body_len,
        ),
{
}

} // verus!
