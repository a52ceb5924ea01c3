//! Cookies as plain values, and the buffered cookie operations a handler
//! issues against a response.
//!
//! A handler does not mutate the jar directly: it records `Add` and `Remove`
//! operations in call order, and after it returns the operations are applied
//! against the request's jar to produce the response's cookie directives.

use vstd::prelude::*;
use crate::strmap::StringMap;

verus! {

/// Twenty years, in seconds: the lifetime given to a cookie made permanent.
pub const PERMANENT_LIFETIME_SECONDS: i64 = 630720000;

/// A cookie, held as plain values.
#[derive(Debug)]
pub struct LuaCookie {
    pub name: String,
    pub value: String,
    pub domain: Option<String>,
    pub path: Option<String>,
    pub http_only: Option<bool>,
    /// Lifetime in whole seconds, where set.
    pub max_age_seconds: Option<i64>,
    /// Absolute expiry, in whole seconds since the epoch, where set.
    pub expires_seconds: Option<i64>,
}

impl LuaCookie {
    pub fn new(name: String, value: String) -> (c: LuaCookie)
        ensures
            c.name == name,
            c.value == value,
            c.domain is None,
            c.path is None,
            c.http_only is None,
            c.max_age_seconds is None,
            c.expires_seconds is None,
    {
        LuaCookie {
            name,
            value,
            domain: None,
            path: None,
            http_only: None,
            max_age_seconds: None,
            expires_seconds: None,
        }
    }

    pub fn set_name(&mut self, name: String)
        ensures
            *final(self) == (LuaCookie { name, ..*old(self) }),
    {
        self.name = name;
    }

    pub fn set_value(&mut self, value: String)
        ensures
            *final(self) == (LuaCookie { value, ..*old(self) }),
    {
        self.value = value;
    }

    pub fn set_domain(&mut self, domain: String)
        ensures
            *final(self) == (LuaCookie { domain: Some(domain), ..*old(self) }),
    {
        self.domain = Some(domain);
    }

    pub fn set_path(&mut self, path: String)
        ensures
            *final(self) == (LuaCookie { path: Some(path), ..*old(self) }),
    {
        self.path = Some(path);
    }

    pub fn set_http_only(&mut self, http_only: bool)
        ensures
            *final(self) == (LuaCookie { http_only: Some(http_only), ..*old(self) }),
    {
        self.http_only = Some(http_only);
    }

    pub fn set_max_age(&mut self, seconds: i64)
        ensures
            *final(self) == (LuaCookie { max_age_seconds: Some(seconds), ..*old(self) }),
    {
        self.max_age_seconds = Some(seconds);
    }

    /// Set an absolute expiry, computed by the caller as now plus an offset.
    pub fn set_expiration(&mut self, expires_seconds: i64)
        ensures
            *final(self) == (LuaCookie { expires_seconds: Some(expires_seconds), ..*old(self) }),
    {
        self.expires_seconds = Some(expires_seconds);
    }

    /// A copy equal to `self`, field for field.
    pub fn duplicate(&self) -> (c: LuaCookie)
        ensures
            c == *self,
    {
        LuaCookie {
            name: self.name.clone(),
            value: self.value.clone(),
            domain: match &self.domain {
                Some(d) => Some(d.clone()),
                None => None,
            },
            path: match &self.path {
                Some(p) => Some(p.clone()),
                None => None,
            },
            http_only: self.http_only,
            max_age_seconds: self.max_age_seconds,
            expires_seconds: self.expires_seconds,
        }
    }

    /// Make the cookie effectively permanent: twenty years from `now_seconds`.
    pub fn set_permanent(&mut self, now_seconds: i64)
        requires
            now_seconds + PERMANENT_LIFETIME_SECONDS <= i64::MAX,
        ensures
            *final(self) == (LuaCookie {
                max_age_seconds: Some(PERMANENT_LIFETIME_SECONDS as i64),
                expires_seconds: Some((now_seconds + PERMANENT_LIFETIME_SECONDS) as i64),
                ..*old(self)
            }),
    {
        self.max_age_seconds = Some(PERMANENT_LIFETIME_SECONDS);
        self.expires_seconds = Some(now_seconds + PERMANENT_LIFETIME_SECONDS);
    }
}

/// One buffered cookie mutation, recorded in the order the handler issued it.
#[derive(Debug)]
pub enum CookieOperation {
    Add(LuaCookie),
    Remove { key: String },
}

/// The cookie name an operation is about.
pub open spec fn op_name(op: CookieOperation) -> Seq<char> {
    match op {
        CookieOperation::Add(c) => c.name@,
        CookieOperation::Remove { key } => key@,
    }
}

/// What one operation leaves in place for `name`, given what was there before.
pub open spec fn apply_op_at(
    prev: Option<LuaCookie>,
    op: CookieOperation,
    name: Seq<char>,
) -> Option<LuaCookie> {
    if op_name(op) == name {
        match op {
            CookieOperation::Add(c) => Some(c),
            CookieOperation::Remove { key } => None,
        }
    } else {
        prev
    }
}

/// What a sequence of operations, applied in order, leaves in place for `name`.
pub open spec fn ops_result(
    orig: Option<LuaCookie>,
    ops: Seq<CookieOperation>,
    name: Seq<char>,
) -> Option<LuaCookie>
    decreases ops.len(),
{
    if ops.len() == 0 {
        orig
    } else {
        apply_op_at(ops_result(orig, ops.drop_last(), name), ops.last(), name)
    }
}

/// Apply buffered operations, in call order, to a jar keyed by cookie name.
/// For every name, what the jar then holds is decided by the last operation
/// on that name, or is unchanged where no operation names it.
pub fn apply_cookie_ops(jar: &mut StringMap<LuaCookie>, ops: &Vec<CookieOperation>)
    requires
        old(jar).wf(),
    ensures
        final(jar).wf(),
        forall|name: Seq<char>|
            final(jar).spec_get(name) == ops_result(old(jar).spec_get(name), ops@, name),
{
    let n = ops.len();
    for i in 0..n
        invariant
            n == ops@.len(),
            jar.wf(),
            forall|name: Seq<char>|
                jar.spec_get(name) == ops_result(old(jar).spec_get(name), ops@.take(i as int), name),
    {
        let ghost prefix = ops@.take(i as int);
        match &ops[i] {
            CookieOperation::Add(c) => {
                jar.insert(c.name.clone(), c.duplicate());
            },
            CookieOperation::Remove { key } => {
                jar.remove(key);
            },
        }
        proof {
            let next = ops@.take(i + 1 as int);
            assert(next.drop_last() =~= prefix);
            assert(next.last() == ops@[i as int]);
            assert forall|name: Seq<char>|
                jar.spec_get(name) == ops_result(old(jar).spec_get(name), next, name) by {
                assert(ops_result(old(jar).spec_get(name), next, name) == apply_op_at(
                    ops_result(old(jar).spec_get(name), prefix, name),
                    ops@[i as int],
                    name,
                ));
            }
        }
    }
    proof {
        assert(ops@.take(n as int) =~= ops@);
    }
}

/// One `Set-Cookie` directive owed to the client: either a cookie to set or a
/// removal of a named cookie.
#[derive(Debug)]
pub enum SetCookieDirective {
    SetTo(LuaCookie),
    Clear,
}

/// The directive the operations owe for `name`: the last operation on that
/// name decides; no operation, no directive.
pub open spec fn directive_result(
    ops: Seq<CookieOperation>,
    name: Seq<char>,
) -> Option<SetCookieDirective>
    decreases ops.len(),
{
    if ops.len() == 0 {
        None
    } else if op_name(ops.last()) == name {
        match ops.last() {
            CookieOperation::Add(c) => Some(SetCookieDirective::SetTo(c)),
            CookieOperation::Remove { key } => Some(SetCookieDirective::Clear),
        }
    } else {
        directive_result(ops.drop_last(), name)
    }
}

/// Fold the buffered operations into at most one `Set-Cookie` directive per
/// cookie name, the last operation on each name deciding its directive.
pub fn build_set_cookie_directives(ops: &Vec<CookieOperation>) -> (r: StringMap<
    SetCookieDirective,
>)
    ensures
        r.wf(),
        forall|name: Seq<char>| r.spec_get(name) == directive_result(ops@, name),
{
    let mut out: StringMap<SetCookieDirective> = StringMap::new();
    let n = ops.len();
    for i in 0..n
        invariant
            n == ops@.len(),
            out.wf(),
            forall|name: Seq<char>|
                out.spec_get(name) == directive_result(ops@.take(i as int), name),
    {
        let ghost prefix = ops@.take(i as int);
        match &ops[i] {
            CookieOperation::Add(c) => {
                out.insert(c.name.clone(), SetCookieDirective::SetTo(c.duplicate()));
            },
            CookieOperation::Remove { key } => {
                out.insert(key.clone(), SetCookieDirective::Clear);
            },
        }
        proof {
            let next = ops@.take(i + 1 as int);
            assert(next.drop_last() =~= prefix);
            assert(next.last() == ops@[i as int]);
            assert forall|name: Seq<char>|
                out.spec_get(name) == directive_result(next, name) by {
                if op_name(ops@[i as int]) != name {
                    assert(directive_result(next, name) == directive_result(prefix, name));
                }
            }
        }
    }
    proof {
        assert(ops@.take(n as int) =~= ops@);
    }
    out
}

/// Cookie operation ordering: one more operation on a name overrides whatever
/// the earlier operations decided for that name — an add leaves exactly that
/// cookie to set, a removal leaves a clear — and every other name's directive
/// stands unchanged.
pub proof fn lemma_cookie_last_op_wins(
    ops: Seq<CookieOperation>,
    op: CookieOperation,
    name: Seq<char>,
)
    ensures
        op_name(op) == name ==> directive_result(ops.push(op), name) == (match op {
            CookieOperation::Add(c) => Some(SetCookieDirective::SetTo(c)),
            CookieOperation::Remove { key } => Some(SetCookieDirective::Clear),
        }),
        op_name(op) != name ==> directive_result(ops.push(op), name) == directive_result(
            ops,
            name,
        ),
{
    assert(ops.push(op).drop_last() =~= ops);
    assert(ops.push(op).last() == op);
}

} // verus!
