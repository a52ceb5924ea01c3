//! The route table builder: from script-authored route entries to an
//! immutable dispatch table, and the lookup the table answers per request.

use vstd::prelude::*;
use crate::text::chars_of;

verus! {

/// The nine route kinds a script entry may name: seven HTTP verbs and the two
/// static-serve kinds.
#[derive(Clone, Copy, Debug, PartialEq, Eq, Structural)]
pub enum Method {
    Get,
    Post,
    Put,
    Delete,
    Options,
    Patch,
    Trace,
    StaticDir,
    StaticFile,
}

/// The route kind a script names in an entry's method field.
pub open spec fn spec_method_of(s: Seq<char>) -> Option<Method> {
    if s == "get"@ {
        Some(Method::Get)
    } else if s == "post"@ {
        Some(Method::Post)
    } else if s == "put"@ {
        Some(Method::Put)
    } else if s == "delete"@ {
        Some(Method::Delete)
    } else if s == "options"@ {
        Some(Method::Options)
    } else if s == "patch"@ {
        Some(Method::Patch)
    } else if s == "trace"@ {
        Some(Method::Trace)
    } else if s == "static_dir"@ {
        Some(Method::StaticDir)
    } else if s == "static_file"@ {
        Some(Method::StaticFile)
    } else {
        None
    }
}

impl Method {
    /// Decode the method field of a route entry; an unknown name does not
    /// decode, and the entry is skipped.
    pub fn parse(s: &String) -> (r: Option<Method>)
        ensures
            r == spec_method_of(s@),
    {
        if s.eq(&String::from_str("get")) {
            Some(Method::Get)
        } else if s.eq(&String::from_str("post")) {
            Some(Method::Post)
        } else if s.eq(&String::from_str("put")) {
            Some(Method::Put)
        } else if s.eq(&String::from_str("delete")) {
            Some(Method::Delete)
        } else if s.eq(&String::from_str("options")) {
            Some(Method::Options)
        } else if s.eq(&String::from_str("patch")) {
            Some(Method::Patch)
        } else if s.eq(&String::from_str("trace")) {
            Some(Method::Trace)
        } else if s.eq(&String::from_str("static_dir")) {
            Some(Method::StaticDir)
        } else if s.eq(&String::from_str("static_file")) {
            Some(Method::StaticFile)
        } else {
            proof {
                reveal_strlit("get");
                reveal_strlit("post");
                reveal_strlit("put");
                reveal_strlit("delete");
                reveal_strlit("options");
                reveal_strlit("patch");
                reveal_strlit("trace");
                reveal_strlit("static_dir");
                reveal_strlit("static_file");
            }
            None
        }
    }

    /// A verb route, dispatched to a script handler; the static kinds are not.
    pub open spec fn spec_is_verb(self) -> bool {
        !(self is StaticDir || self is StaticFile)
    }

    pub fn is_verb(self) -> (r: bool)
        ensures
            r == self.spec_is_verb(),
    {
        match self {
            Method::StaticDir => false,
            Method::StaticFile => false,
            _ => true,
        }
    }
}

/// Per-route configuration from the script table.
#[derive(Clone, Copy, Debug, PartialEq, Eq, Structural)]
pub struct RouteConfiguration {
    pub body_limit: Option<usize>,
    pub compression: Option<bool>,
}

impl Default for RouteConfiguration {
    /// No body limit, no compression preference.
    fn default() -> (r: RouteConfiguration)
        ensures
            r.body_limit is None,
            r.compression is None,
    {
        RouteConfiguration { body_limit: None, compression: None }
    }
}

impl RouteConfiguration {
    pub fn set_body_limit(&mut self, body_limit: usize)
        ensures
            *final(self) == (RouteConfiguration {
                body_limit: Some(body_limit),
                ..*old(self)
            }),
    {
        self.body_limit = Some(body_limit);
    }

    pub fn set_compression(&mut self, compression: bool)
        ensures
            *final(self) == (RouteConfiguration {
                compression: Some(compression),
                ..*old(self)
            }),
    {
        self.compression = Some(compression);
    }
}

/// One entry of the script's route table, as the runtime hands it over:
/// every field as found, missing fields as `None`. The handler callable is
/// referred to by the key under which the host keeps it.
pub struct RawRouteEntry {
    pub path: Option<String>,
    pub method: Option<Method>,
    pub function: Option<u64>,
    pub static_dir: Option<String>,
    pub static_file: Option<String>,
    pub config: Option<RouteConfiguration>,
}

/// A decoded route descriptor.
pub struct Route {
    pub path: String,
    pub method: Method,
    pub function: u64,
    pub static_dir: Option<String>,
    pub static_file: Option<String>,
    pub config: RouteConfiguration,
}

/// What decoding an entry yields: the entry's fields, with the configuration
/// defaulted where absent; `None` where a required field (path, method,
/// handler) is missing.
pub open spec fn spec_decode(e: RawRouteEntry) -> Option<Route> {
    if e.path is Some && e.method is Some && e.function is Some {
        Some(
            Route {
                path: e.path->Some_0,
                method: e.method->Some_0,
                function: e.function->Some_0,
                static_dir: e.static_dir,
                static_file: e.static_file,
                config: if e.config is Some {
                    e.config->Some_0
                } else {
                    RouteConfiguration { body_limit: None, compression: None }
                },
            },
        )
    } else {
        None
    }
}

fn clone_opt_string(o: &Option<String>) -> (r: Option<String>)
    ensures
        r == *o,
{
    match o {
        Some(s) => Some(s.clone()),
        None => None,
    }
}

/// Decode one raw entry into a route descriptor; a missing required field
/// makes the entry undecodable and it is skipped by the builder.
pub fn decode_route(e: &RawRouteEntry) -> (r: Option<Route>)
    ensures
        r == spec_decode(*e),
{
    match (&e.path, &e.method, &e.function) {
        (Some(path), Some(m), Some(f)) => Some(
            Route {
                path: path.clone(),
                method: *m,
                function: *f,
                static_dir: clone_opt_string(&e.static_dir),
                static_file: clone_opt_string(&e.static_file),
                config: match &e.config {
                    Some(c) => *c,
                    None => RouteConfiguration { body_limit: None, compression: None },
                },
            },
        ),
        _ => None,
    }
}

/// A verb route as compiled into the dispatch table.
pub struct CompiledRoute {
    pub path: String,
    pub method: Method,
    pub function: u64,
    pub body_limit: Option<usize>,
}

/// Which static server a mount runs: a directory tree or a single file.
#[derive(Clone, Copy, Debug, PartialEq, Eq, Structural)]
pub enum StaticKind {
    Dir,
    File,
}

/// A static route nested under a path prefix, or installed as the fallback.
pub struct StaticMount {
    pub prefix: String,
    pub target: String,
    pub kind: StaticKind,
}

/// The compiled route of a decoded entry, for verb entries.
pub open spec fn route_of(e: RawRouteEntry) -> Option<CompiledRoute> {
    match spec_decode(e) {
        Some(r) => if r.method.spec_is_verb() {
            Some(
                CompiledRoute {
                    path: r.path,
                    method: r.method,
                    function: r.function,
                    body_limit: r.config.body_limit,
                },
            )
        } else {
            None
        },
        None => None,
    }
}

/// The static mount of a decoded entry: a static entry with a target. A
/// static entry without its target is inert and yields nothing.
pub open spec fn mount_of_route(r: Route) -> Option<StaticMount> {
    if r.method is StaticDir && r.static_dir is Some {
        Some(StaticMount { prefix: r.path, target: r.static_dir->Some_0, kind: StaticKind::Dir })
    } else if r.method is StaticFile && r.static_file is Some {
        Some(StaticMount { prefix: r.path, target: r.static_file->Some_0, kind: StaticKind::File })
    } else {
        None
    }
}

pub open spec fn mount_of(e: RawRouteEntry) -> Option<StaticMount> {
    match spec_decode(e) {
        Some(r) => mount_of_route(r),
        None => None,
    }
}

/// The verb routes the entries compile to, in entry order.
pub open spec fn compiled_routes(s: Seq<RawRouteEntry>) -> Seq<CompiledRoute>
    decreases s.len(),
{
    if s.len() == 0 {
        Seq::empty()
    } else {
        match route_of(s.last()) {
            Some(r) => compiled_routes(s.drop_last()).push(r),
            None => compiled_routes(s.drop_last()),
        }
    }
}

/// The prefix-nested static mounts, in entry order: static entries with a
/// target whose path is not the root.
pub open spec fn static_mounts(s: Seq<RawRouteEntry>) -> Seq<StaticMount>
    decreases s.len(),
{
    if s.len() == 0 {
        Seq::empty()
    } else {
        match mount_of(s.last()) {
            Some(m) => if m.prefix@ == "/"@ {
                static_mounts(s.drop_last())
            } else {
                static_mounts(s.drop_last()).push(m)
            },
            None => static_mounts(s.drop_last()),
        }
    }
}

/// The fallback: the last static entry with a target at the root path.
pub open spec fn fallback_of(s: Seq<RawRouteEntry>) -> Option<StaticMount>
    decreases s.len(),
{
    if s.len() == 0 {
        None
    } else {
        match mount_of(s.last()) {
            Some(m) => if m.prefix@ == "/"@ {
                Some(m)
            } else {
                fallback_of(s.drop_last())
            },
            None => fallback_of(s.drop_last()),
        }
    }
}

/// The compiled dispatch table: verb routes and static mounts in registration
/// order, at most one fallback, and the table-wide compression switch.
pub struct DispatchTable {
    pub routes: Vec<CompiledRoute>,
    pub mounts: Vec<StaticMount>,
    pub fallback: Option<StaticMount>,
    pub compression: bool,
}

fn is_root_path(s: &String) -> (r: bool)
    ensures
        r == (s@ == "/"@),
{
    let cs = chars_of(s.as_str());
    proof {
        reveal_strlit("/");
    }
    if cs.len() == 1 && cs[0] == '/' {
        proof {
            assert(s@ =~= "/"@);
        }
        true
    } else {
        proof {
            assert(s@ != "/"@);
        }
        false
    }
}

/// Compile the script's route table. Undecodable entries are skipped; inert
/// static entries are dropped; a static entry at the root becomes the
/// fallback, later entries replacing earlier ones; everything else is kept in
/// entry order.
pub fn build_dispatch_table(entries: &Vec<RawRouteEntry>, compression: bool) -> (t: DispatchTable)
    ensures
        t.routes@ == compiled_routes(entries@),
        t.mounts@ == static_mounts(entries@),
        t.fallback == fallback_of(entries@),
        t.compression == compression,
{
    let mut routes: Vec<CompiledRoute> = Vec::new();
    let mut mounts: Vec<StaticMount> = Vec::new();
    let mut fallback: Option<StaticMount> = None;
    let n = entries.len();
    for i in 0..n
        invariant
            n == entries@.len(),
            routes@ == compiled_routes(entries@.take(i as int)),
            mounts@ == static_mounts(entries@.take(i as int)),
            fallback == fallback_of(entries@.take(i as int)),
    {
        let ghost prefix = entries@.take(i as int);
        proof {
            assert(entries@.take(i + 1).drop_last() =~= prefix);
            assert(entries@.take(i + 1).last() == entries@[i as int]);
        }
        match decode_route(&entries[i]) {
            Some(route) => {
                if route.method.is_verb() {
                    routes.push(
                        CompiledRoute {
                            path: route.path,
                            method: route.method,
                            function: route.function,
                            body_limit: route.config.body_limit,
                        },
                    );
                } else {
                    let target = if matches!(route.method, Method::StaticDir) {
                        route.static_dir
                    } else {
                        route.static_file
                    };
                    let kind = if matches!(route.method, Method::StaticDir) {
                        StaticKind::Dir
                    } else {
                        StaticKind::File
                    };
                    match target {
                        Some(target) => {
                            let mount = StaticMount { prefix: route.path, target, kind };
                            if is_root_path(&mount.prefix) {
                                fallback = Some(mount);
                            } else {
                                mounts.push(mount);
                            }
                        },
                        None => {},
                    }
                }
            },
            None => {},
        }
    }
    proof {
        assert(entries@.take(n as int) =~= entries@);
    }
    DispatchTable { routes, mounts, fallback, compression }
}

/// The answer the dispatch table gives for one request line.
#[derive(Debug)]
pub enum RouteMatch {
    /// A verb route matched: invoke this handler, under this body limit.
    Handler { function: u64, body_limit: Option<usize> },
    /// A static mount or the fallback matched: serve this target.
    StaticTarget { target: String, kind: StaticKind },
    NotFound,
}

/// The last verb route registered for exactly this path and method, if any:
/// later registrations win.
pub open spec fn find_route(rs: Seq<CompiledRoute>, path: Seq<char>, m: Method) -> Option<
    CompiledRoute,
>
    decreases rs.len(),
{
    if rs.len() == 0 {
        None
    } else if rs.last().path@ == path && rs.last().method == m {
        Some(rs.last())
    } else {
        find_route(rs.drop_last(), path, m)
    }
}

/// A mount answers for its own path and for everything nested below it,
/// segment-aligned.
pub open spec fn mount_matches(prefix: Seq<char>, path: Seq<char>) -> bool {
    prefix == path || (prefix.len() < path.len() && path.take(prefix.len() as int) == prefix
        && path[prefix.len() as int] == '/')
}

/// The last mount whose prefix covers the path, if any.
pub open spec fn find_mount(ms: Seq<StaticMount>, path: Seq<char>) -> Option<StaticMount>
    decreases ms.len(),
{
    if ms.len() == 0 {
        None
    } else if mount_matches(ms.last().prefix@, path) {
        Some(ms.last())
    } else {
        find_mount(ms.drop_last(), path)
    }
}

/// What the table answers: an exactly-matching verb route first; otherwise a
/// covering static mount; otherwise the fallback; otherwise nothing.
pub open spec fn spec_dispatch(
    rs: Seq<CompiledRoute>,
    ms: Seq<StaticMount>,
    fb: Option<StaticMount>,
    path: Seq<char>,
    m: Method,
) -> RouteMatch {
    if find_route(rs, path, m) is Some {
        let r = find_route(rs, path, m)->Some_0;
        RouteMatch::Handler { function: r.function, body_limit: r.body_limit }
    } else if find_mount(ms, path) is Some {
        let mt = find_mount(ms, path)->Some_0;
        RouteMatch::StaticTarget { target: mt.target, kind: mt.kind }
    } else if fb is Some {
        RouteMatch::StaticTarget { target: fb->Some_0.target, kind: fb->Some_0.kind }
    } else {
        RouteMatch::NotFound
    }
}

/// A fallback installed at the root is a catch-all for otherwise-unmatched
/// paths only: an exactly-matching verb route is always answered with its
/// handler, and the fallback answers only when neither a verb route nor a
/// static mount covers the path.
pub proof fn lemma_static_fallback(
    rs: Seq<CompiledRoute>,
    ms: Seq<StaticMount>,
    fb: Option<StaticMount>,
    path: Seq<char>,
    m: Method,
)
    ensures
        find_route(rs, path, m) matches Some(r) ==> spec_dispatch(rs, ms, fb, path, m) == (
        RouteMatch::Handler { function: r.function, body_limit: r.body_limit }),
        spec_dispatch(rs, ms, fb, path, m) == RouteMatch::NotFound <==> (find_route(rs, path, m)
            is None && find_mount(ms, path) is None && fb is None),
        (find_route(rs, path, m) is None && find_mount(ms, path) is None && fb is Some)
            ==> spec_dispatch(rs, ms, fb, path, m) == (RouteMatch::StaticTarget {
            target: fb->Some_0.target,
            kind: fb->Some_0.kind,
        }),
{
}

fn mount_matches_exec(prefix: &String, path: &String) -> (r: bool)
    ensures
        r == mount_matches(prefix@, path@),
{
    let pre = chars_of(prefix.as_str());
    let pa = chars_of(path.as_str());
    if pre.len() == pa.len() {
        let eq = prefix.eq(path);
        proof {
            if prefix@ =~= path@ {
                assert(prefix@ == path@);
            }
        }
        return eq;
    }
    if pre.len() > pa.len() {
        return false;
    }
    let k = pre.len();
    for j in 0..k
        invariant
            k == pre@.len(),
            k < pa@.len(),
            pre@ == prefix@,
            pa@ == path@,
            forall|t: int| 0 <= t < j ==> pa@[t] == pre@[t],
    {
        if pa[j] != pre[j] {
            proof {
                assert(path@.take(k as int)[j as int] != prefix@[j as int]);
            }
            return false;
        }
    }
    proof {
        assert(path@.take(k as int) =~= prefix@);
    }
    pa[k] == '/'
}

impl DispatchTable {
    /// Answer one request line against the compiled table.
    pub fn dispatch(&self, path: &String, m: Method) -> (r: RouteMatch)
        ensures
            r == spec_dispatch(self.routes@, self.mounts@, self.fallback, path@, m),
    {
        let mut best: Option<usize> = None;
        let n = self.routes.len();
        for i in 0..n
            invariant
                n == self.routes@.len(),
                match best {
                    Some(b) => b < i && find_route(self.routes@.take(i as int), path@, m) == Some(
                        self.routes@[b as int],
                    ) && self.routes@[b as int].path@ == path@ && self.routes@[b as int].method
                        == m,
                    None => find_route(self.routes@.take(i as int), path@, m) is None,
                },
        {
            proof {
                assert(self.routes@.take(i + 1).drop_last() =~= self.routes@.take(i as int));
                assert(self.routes@.take(i + 1).last() == self.routes@[i as int]);
            }
            if self.routes[i].path.eq(path) && self.routes[i].method == m {
                best = Some(i);
            }
        }
        proof {
            assert(self.routes@.take(n as int) =~= self.routes@);
        }
        match best {
            Some(b) => {
                return RouteMatch::Handler {
                    function: self.routes[b].function,
                    body_limit: self.routes[b].body_limit,
                };
            },
            None => {},
        }
        let mut best_mount: Option<usize> = None;
        let nm = self.mounts.len();
        for i in 0..nm
            invariant
                nm == self.mounts@.len(),
                match best_mount {
                    Some(b) => b < i && find_mount(self.mounts@.take(i as int), path@) == Some(
                        self.mounts@[b as int],
                    ) && mount_matches(self.mounts@[b as int].prefix@, path@),
                    None => find_mount(self.mounts@.take(i as int), path@) is None,
                },
        {
            proof {
                assert(self.mounts@.take(i + 1).drop_last() =~= self.mounts@.take(i as int));
                assert(self.mounts@.take(i + 1).last() == self.mounts@[i as int]);
            }
            if mount_matches_exec(&self.mounts[i].prefix, path) {
                best_mount = Some(i);
            }
        }
        proof {
            assert(self.mounts@.take(nm as int) =~= self.mounts@);
        }
        match best_mount {
            Some(b) => {
                return RouteMatch::StaticTarget {
                    target: self.mounts[b].target.clone(),
                    kind: self.mounts[b].kind,
                };
            },
            None => {},
        }
        match &self.fallback {
            Some(f) => RouteMatch::StaticTarget { target: f.target.clone(), kind: f.kind },
            None => RouteMatch::NotFound,
        }
    }
}

} // verus!
