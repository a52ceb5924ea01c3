//! The capability registrar: each capability module installs its native
//! callables into the runtime outside this crate and reports back; the
//! registrar decides what the reports amount to — which library units the
//! loader gets, and which capabilities failed without stopping the rest.

use vstd::prelude::*;
use crate::loader::LibraryUnit;
use crate::text::{is_prefix, str_starts_with};

verus! {

/// What one capability's registration reported: the unit name it would
/// contribute under, and either its optional library source or the failure
/// text.
pub struct CapabilityOutcome {
    pub name: String,
    pub result: Result<Option<String>, String>,
}

/// The library units the outcomes contribute, in capability order: one unit
/// per capability that succeeded with source text.
pub open spec fn units_of(s: Seq<CapabilityOutcome>) -> Seq<LibraryUnit>
    decreases s.len(),
{
    if s.len() == 0 {
        Seq::empty()
    } else {
        match s.last().result {
            Ok(src_opt) => match src_opt {
                Some(src) => units_of(s.drop_last()).push(
                    LibraryUnit { name: s.last().name, source: src },
                ),
                None => units_of(s.drop_last()),
            },
            Err(msg) => units_of(s.drop_last()),
        }
    }
}

/// The names of the capabilities that failed, in capability order. A failure
/// is logged and skipped: the remaining capabilities still register.
pub open spec fn failures_of(s: Seq<CapabilityOutcome>) -> Seq<String>
    decreases s.len(),
{
    if s.len() == 0 {
        Seq::empty()
    } else if s.last().result is Err {
        failures_of(s.drop_last()).push(s.last().name)
    } else {
        failures_of(s.drop_last())
    }
}

/// Fold the capabilities' reports: the contributed library units in order,
/// and the names of the capabilities whose registration failed.
pub fn collect_capability_units(outcomes: Vec<CapabilityOutcome>) -> (r: (
    Vec<LibraryUnit>,
    Vec<String>,
))
    ensures
        r.0@ == units_of(outcomes@),
        r.1@ == failures_of(outcomes@),
{
    let mut units: Vec<LibraryUnit> = Vec::new();
    let mut failed: Vec<String> = Vec::new();
    let n = outcomes.len();
    let mut i: usize = 0;
    while i < n
        invariant
            n == outcomes@.len(),
            i <= n,
            units@ == units_of(outcomes@.take(i as int)),
            failed@ == failures_of(outcomes@.take(i as int)),
        decreases n - i,
    {
        proof {
            assert(outcomes@.take(i + 1).drop_last() =~= outcomes@.take(i as int));
            assert(outcomes@.take(i + 1).last() == outcomes@[i as int]);
        }
        let outcome = &outcomes[i];
        match &outcome.result {
            Ok(src_opt) => {
                match src_opt {
                    Some(src) => {
                        units.push(LibraryUnit { name: outcome.name.clone(), source: src.clone() });
                    },
                    None => {},
                }
            },
            Err(_) => {
                failed.push(outcome.name.clone());
            },
        }
        i = i + 1;
    }
    proof {
        assert(outcomes@.take(n as int) =~= outcomes@);
    }
    (units, failed)
}

/// The raw-networking capability: its native callables are installed by the
/// host; here stands the script-level wrapper source it contributes.
pub struct NetworkComponent {}

impl NetworkComponent {
    /// The capability's script-level wrapper source.
    pub fn lua_code() -> (r: String)
        ensures
            r@.len() > 0,
    {
        let mut s = String::new();
        s.append("Network = {}\n");
        s.append("function Network.set_link_up(name) ");
        s.append("return astra_internal__network_set_link_up(name) end\n");
        s.append("function Network.set_link_down(name) ");
        s.append("return astra_internal__network_set_link_down(name) end\n");
        s.append("function Network.get_link_status(name) ");
        s.append("return astra_internal__network_get_link_status(name) end\n");
        s.append("function Network.list_interfaces() ");
        s.append("return astra_internal__network_list_interfaces() end\n");
        proof {
            reveal_strlit("Network = {}\n");
        }
        s
    }
}

/// A socket path the unix-socket capability may touch: only paths under the
/// runtime socket directories are allowed.
pub open spec fn safe_socket_path(path: Seq<char>) -> bool {
    is_prefix("/var/run/"@, path) || is_prefix("/tmp/"@, path) || is_prefix("/run/user/"@, path)
}

/// The unix-socket capability: its native callables are installed by the
/// host; here stands the script-level wrapper source it contributes, and the
/// path policy its connect enforces.
pub struct UnixSocketComponent {}

impl UnixSocketComponent {
    /// Whether a connect to this path is allowed.
    pub fn is_safe_path(path: &str) -> (r: bool)
        ensures
            r == safe_socket_path(path@),
    {
        str_starts_with(path, "/var/run/") || str_starts_with(path, "/tmp/") || str_starts_with(
            path,
            "/run/user/",
        )
    }

    /// The capability's script-level wrapper source.
    pub fn lua_code() -> (r: String)
        ensures
            r@.len() > 0,
    {
        let mut s = String::new();
        s.append("UnixSocket = {}\n");
        s.append("function UnixSocket.connect(path) ");
        s.append("return astra_internal__unix_socket_connect(path) end\n");
        s.append("function UnixSocket.send(sock, data) ");
        s.append("return astra_internal__unix_socket_send(sock, data) end\n");
        s.append("function UnixSocket.receive(sock) ");
        s.append("return astra_internal__unix_socket_receive(sock) end\n");
        s.append("function UnixSocket.close(sock) ");
        s.append("return astra_internal__unix_socket_close(sock) end\n");
        proof {
            reveal_strlit("UnixSocket = {}\n");
        }
        s
    }
}

/// The HTTP type-definition unit: the capability's script-level sources
/// joined into one block, in their fixed order.
pub fn type_definitions(
    main: &str,
    server: &str,
    client: &str,
    status_codes: &str,
    middleware: &str,
) -> (r: String)
    ensures
        r@ == main@ + "\n"@ + server@ + "\n"@ + client@ + "\n"@ + status_codes@ + "\n"@
            + middleware@,
{
    let mut out = String::new();
    out.append(main);
    out.append("\n");
    out.append(server);
    out.append("\n");
    out.append(client);
    out.append("\n");
    out.append(status_codes);
    out.append("\n");
    out.append(middleware);
    out
}

} // verus!
