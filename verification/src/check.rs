//! The `check` preflight: which servers to inventory, how each live
//! inventory is judged against the configured tool allow-lists, and the
//! bounded result that the CLI emits.

use vstd::prelude::*;

use crate::compose::{effective_filter, effective_filter_exec, extends_fuel};
use crate::config::{active_namespace, TomlConfig, DEFAULT_NAMESPACE};
use crate::error::ToolError;
use crate::lookup::{contains_str, lists, lemma_lists_to_set};
use crate::namespace::ActiveNamespace;
use crate::text::{push_str, sorted_insert, sorted_strict, string_of, views};

verus! {

/// The check outcome for the selected namespace.
#[derive(Debug)]
pub struct CheckResult {
    pub namespace: String,
    pub ok: bool,
    pub servers: Vec<CheckServer>,
    pub errors: Vec<CheckError>,
}

/// The live inventory of one server.
#[derive(Debug)]
pub struct CheckServer {
    pub name: String,
    pub status: &'static str,
    pub tools: Vec<CheckTool>,
}

/// One live tool name.
#[derive(Debug)]
pub struct CheckTool {
    pub name: String,
}

/// One check failure.
#[derive(Debug)]
pub struct CheckError {
    pub server: Option<String>,
    pub code: &'static str,
    pub tool: Option<String>,
    pub message: &'static str,
    pub key: Option<String>,
}

/// The view of an optional string.
pub open spec fn opt_view(o: Option<String>) -> Option<Seq<char>> {
    match o {
        Some(s) => Some(s@),
        None => None,
    }
}

/// The view of a [`CheckError`]: server, code, tool, message, key.
pub type CheckErrorView = (Option<Seq<char>>, Seq<char>, Option<Seq<char>>, Seq<char>, Option<
    Seq<char>,
>);

impl CheckError {
    pub open spec fn view(&self) -> CheckErrorView {
        (opt_view(self.server), self.code@, opt_view(self.tool), self.message@, opt_view(self.key))
    }

    /// A check error without a credential key.
    pub fn new(
        server: Option<String>,
        code: &'static str,
        tool: Option<String>,
        message: &'static str,
    ) -> (r: Self)
        ensures
            r.view() == (opt_view(server), code@, opt_view(tool), message@, None::<Seq<char>>),
    {
        Self { server, code, tool, message, key: None }
    }

    /// A check error naming the credential key that failed to resolve.
    pub fn new_with_key(
        server: Option<String>,
        code: &'static str,
        tool: Option<String>,
        message: &'static str,
        key: String,
    ) -> (r: Self)
        ensures
            r.view() == (opt_view(server), code@, opt_view(tool), message@, Some(key@)),
    {
        Self { server, code, tool, message, key: Some(key) }
    }
}

/// The views of a sequence of check errors.
pub open spec fn error_views(v: Seq<CheckError>) -> Seq<CheckErrorView> {
    v.map_values(|e: CheckError| e.view())
}

/// The view of a [`CheckServer`]: name, status and tool names.
pub open spec fn server_view(s: CheckServer) -> (Seq<char>, Seq<char>, Seq<Seq<char>>) {
    (s.name@, s.status@, s.tools@.map_values(|t: CheckTool| t.name@))
}

impl CheckResult {
    /// A passing result with no servers checked yet.
    pub fn new(namespace: String) -> (r: Self)
        ensures
            r.namespace == namespace,
            r.ok,
            r.servers@.len() == 0,
            r.errors@.len() == 0,
    {
        Self { namespace, ok: true, servers: Vec::new(), errors: Vec::new() }
    }

    /// A failed result carrying one error.
    pub fn failure(namespace: String, error: CheckError) -> (r: Self)
        ensures
            r.namespace == namespace,
            !r.ok,
            r.servers@.len() == 0,
            r.errors@ == seq![error],
    {
        let mut errors = Vec::new();
        errors.push(error);
        Self { namespace, ok: false, servers: Vec::new(), errors }
    }

    /// Settles the outcome: the check passes iff it recorded no error.
    pub fn finish(&mut self)
        ensures
            final(self).ok == (old(self).errors@.len() == 0),
            final(self).namespace == old(self).namespace,
            final(self).servers == old(self).servers,
            final(self).errors == old(self).errors,
    {
        self.ok = self.errors.len() == 0;
    }

    /// The one-line human summary written to stderr when `--json` is not
    /// given: `ok=<true|false> namespace=<name>`.
    pub fn summary_line(&self) -> (r: String)
        ensures
            r@ == "ok="@ + (if self.ok {
                "true"@
            } else {
                "false"@
            }) + " namespace="@ + self.namespace@,
    {
        let mut out = string_of("ok=");
        if self.ok {
            push_str(&mut out, "true");
        } else {
            push_str(&mut out, "false");
        }
        push_str(&mut out, " namespace=");
        push_str(&mut out, self.namespace.as_str());
        out
    }
}

/// The namespace name a `--namespace` value selects.
pub fn selected_namespace(namespace: &str) -> (r: String)
    ensures
        r@ == active_namespace(namespace@),
{
    if namespace.is_empty() {
        string_of(DEFAULT_NAMESPACE)
    } else {
        string_of(namespace)
    }
}

/// The failure a check reports before touching any server: no `--config`,
/// or a config that does not load and validate. `None` lets the check go on.
pub fn preflight_failure(namespace: &str, has_config: bool, config_valid: bool) -> (r: Option<
    CheckResult,
>)
    ensures
        has_config && config_valid <==> r is None,
        r matches Some(res) ==> {
            &&& res.namespace@ == active_namespace(namespace@)
            &&& !res.ok
            &&& res.servers@.len() == 0
            &&& error_views(res.errors@) == if !has_config {
                seq![
                    (
                        None::<Seq<char>>,
                        "config_required"@,
                        None::<Seq<char>>,
                        "--config is required for check"@,
                        None::<Seq<char>>,
                    ),
                ]
            } else {
                seq![
                    (
                        None::<Seq<char>>,
                        "config_validation_failed"@,
                        None::<Seq<char>>,
                        "config could not be loaded and validated"@,
                        None::<Seq<char>>,
                    ),
                ]
            }
        },
{
    let name = selected_namespace(namespace);
    if !has_config {
        let r = CheckResult::failure(
            name,
            CheckError::new(None, "config_required", None, "--config is required for check"),
        );
        assert(error_views(r.errors@) =~= seq![r.errors@[0].view()]);
        return Some(r);
    }
    if !config_valid {
        let r = CheckResult::failure(
            name,
            CheckError::new(
                None,
                "config_validation_failed",
                None,
                "config could not be loaded and validated",
            ),
        );
        assert(error_views(r.errors@) =~= seq![r.errors@[0].view()]);
        return Some(r);
    }
    None
}

/// The servers a check inventories: the one requested with `--server` if
/// the namespace allows it, otherwise every allowed server in sorted order.
/// A requested server outside the namespace fails closed before any
/// connection.
pub fn check_servers(namespace: &ActiveNamespace, server_filter: Option<String>) -> (r: Result<
    Vec<String>,
    CheckError,
>)
    ensures
        match server_filter {
            Some(s) => if namespace.allowed().contains(s@) {
                r matches Ok(v) && views(v@) == seq![s@]
            } else {
                r matches Err(e) && e.view() == (
                    Some(s@),
                    "server_not_allowed"@,
                    None::<Seq<char>>,
                    "server is not visible in the selected namespace"@,
                    None::<Seq<char>>,
                )
            },
            None => r matches Ok(v) && views(v@) == namespace.sorted_servers(),
        },
{
    match server_filter {
        Some(server) => {
            if namespace.is_server_allowed(server.as_str()) {
                let mut v = Vec::new();
                v.push(server);
                assert(views(v@) =~= seq![v@[0]@]);
                Ok(v)
            } else {
                Err(
                    CheckError::new(
                        Some(server),
                        "server_not_allowed",
                        None,
                        "server is not visible in the selected namespace",
                    ),
                )
            }
        },
        None => Ok(namespace.allowed_servers()),
    }
}

/// The tool allow-list in force for `server` in namespace `ns`: its
/// effective filter, inherited filters included (empty when there is none).
pub open spec fn configured_tools(config: TomlConfig, ns: Seq<char>, server: Seq<char>) -> Set<
    Seq<char>,
> {
    match effective_filter(config, ns, server, extends_fuel(config)) {
        Some(set) => set,
        None => Set::empty(),
    }
}

fn sorted_unique(list: &Vec<String>) -> (r: Vec<String>)
    ensures
        sorted_strict(views(r@)),
        views(r@).to_set() == views(list@).to_set(),
{
    let mut out: Vec<String> = Vec::new();
    let mut i: usize = 0;
    while i < list.len()
        invariant
            i <= list.len(),
            sorted_strict(views(out@)),
            views(out@).to_set() == views(list@.take(i as int)).to_set(),
        decreases list.len() - i,
    {
        sorted_insert(&mut out, list[i].clone());
        assert(views(list@.take(i + 1)) =~= views(list@.take(i as int)).push(list@[i as int]@));
        proof {
            views(list@.take(i as int)).lemma_push_to_set_commute(list@[i as int]@);
        }
        i = i + 1;
    }
    assert(list@.take(list.len() as int) =~= list@);
    out
}

/// The explicitly configured tools of a server in a namespace, sorted and
/// without duplicates.
pub fn explicit_tools(config: &TomlConfig, namespace: &str, server: &str) -> (r: Vec<String>)
    ensures
        sorted_strict(views(r@)),
        views(r@).to_set() == configured_tools(*config, namespace@, server@),
{
    match effective_filter_exec(config, namespace, server, config.namespaces.len()) {
        Some(v) => v,
        None => {
            let r: Vec<String> = Vec::new();
            assert(views(r@).to_set() =~= Set::<Seq<char>>::empty());
            r
        },
    }
}

/// The check error for a failed server inventory.
pub open spec fn spec_map_tool_error(e: ToolError) -> CheckErrorView {
    match e {
        ToolError::CredentialResolution { server, key } => (
            Some(server@),
            "credential_resolution_failed"@,
            None,
            "credential resolution failed"@,
            Some(key@),
        ),
        ToolError::UpstreamTimeout { server, tool } => (
            Some(server@),
            "upstream_timeout"@,
            opt_view(tool),
            "upstream inventory timed out"@,
            None,
        ),
        ToolError::NotImplemented { tool } => (
            None,
            "upstream_connect_failed"@,
            Some(tool@),
            "upstream connection failed"@,
            None,
        ),
        ToolError::InvalidRequest { tool, .. } => (
            None,
            "upstream_connect_failed"@,
            Some(tool@),
            "upstream connection failed"@,
            None,
        ),
        ToolError::UnknownServer { server } => (
            Some(server@),
            "upstream_connect_failed"@,
            None,
            "upstream connection failed"@,
            None,
        ),
        ToolError::UnknownTool { server, tool } => (
            Some(server@),
            "upstream_connect_failed"@,
            Some(tool@),
            "upstream connection failed"@,
            None,
        ),
        ToolError::NamespaceDenied { server, tool } => (
            Some(server@),
            "server_not_allowed"@,
            opt_view(tool),
            "server is not visible in the selected namespace"@,
            None,
        ),
        ToolError::UpstreamConnect { server, .. } => (
            Some(server@),
            "upstream_connect_failed"@,
            None,
            "upstream connection failed"@,
            None,
        ),
        ToolError::UpstreamCall { server, tool, .. } => (
            Some(server@),
            "upstream_connect_failed"@,
            Some(tool@),
            "upstream connection failed"@,
            None,
        ),
        ToolError::UpstreamDisconnected { server, tool } => (
            Some(server@),
            "upstream_connect_failed"@,
            Some(tool@),
            "upstream connection failed"@,
            None,
        ),
        ToolError::CallCancelled { server, tool } => (
            Some(server@),
            "upstream_connect_failed"@,
            Some(tool@),
            "upstream connection failed"@,
            None,
        ),
    }
}

/// Map an inventory failure to its check error. Only a credential failure
/// carries the key; no variant carries a resolved value.
pub fn map_tool_error(error: ToolError) -> (r: CheckError)
    ensures
        r.view() == spec_map_tool_error(error),
{
    match error {
        ToolError::CredentialResolution { server, key } => CheckError::new_with_key(
            Some(server),
            "credential_resolution_failed",
            None,
            "credential resolution failed",
            key,
        ),
        ToolError::UpstreamTimeout { server, tool } => CheckError::new(
            Some(server),
            "upstream_timeout",
            tool,
            "upstream inventory timed out",
        ),
        ToolError::NotImplemented { tool } => CheckError::new(
            None,
            "upstream_connect_failed",
            Some(tool),
            "upstream connection failed",
        ),
        ToolError::InvalidRequest { tool, .. } => CheckError::new(
            None,
            "upstream_connect_failed",
            Some(tool),
            "upstream connection failed",
        ),
        ToolError::UnknownServer { server } => CheckError::new(
            Some(server),
            "upstream_connect_failed",
            None,
            "upstream connection failed",
        ),
        ToolError::UnknownTool { server, tool } => CheckError::new(
            Some(server),
            "upstream_connect_failed",
            Some(tool),
            "upstream connection failed",
        ),
        ToolError::NamespaceDenied { server, tool } => CheckError::new(
            Some(server),
            "server_not_allowed",
            tool,
            "server is not visible in the selected namespace",
        ),
        ToolError::UpstreamConnect { server, .. } => CheckError::new(
            Some(server),
            "upstream_connect_failed",
            None,
            "upstream connection failed",
        ),
        ToolError::UpstreamCall { server, tool, .. } => CheckError::new(
            Some(server),
            "upstream_connect_failed",
            Some(tool),
            "upstream connection failed",
        ),
        ToolError::UpstreamDisconnected { server, tool } => CheckError::new(
            Some(server),
            "upstream_connect_failed",
            Some(tool),
            "upstream connection failed",
        ),
        ToolError::CallCancelled { server, tool } => CheckError::new(
            Some(server),
            "upstream_connect_failed",
            Some(tool),
            "upstream connection failed",
        ),
    }
}

/// The configured tools absent from the live inventory, in `explicit` order.
pub open spec fn missing_tools(explicit: Seq<Seq<char>>, live: Set<Seq<char>>) -> Seq<Seq<char>>
    decreases explicit.len(),
{
    if explicit.len() == 0 {
        Seq::empty()
    } else if live.contains(explicit.last()) {
        missing_tools(explicit.drop_last(), live)
    } else {
        missing_tools(explicit.drop_last(), live).push(explicit.last())
    }
}

/// The check error for one configured tool missing from `server`.
pub open spec fn missing_tool_error(server: Seq<char>, tool: Seq<char>) -> CheckErrorView {
    (
        Some(server),
        "configured_tool_missing"@,
        Some(tool),
        "allowlisted tool absent from live inventory"@,
        None,
    )
}

/// Records one server's inventory outcome.
///
/// A live inventory lists the server's tool names sorted and unique; every
/// tool of the namespace's allow-list for the server that the live
/// inventory lacks adds a `configured_tool_missing` error and marks the
/// server `error`. A failed inventory marks the server `error` with no
/// tools and adds the mapped error.
pub fn record_inventory(
    result: &mut CheckResult,
    config: &TomlConfig,
    server: String,
    inventory: Result<Vec<String>, ToolError>,
)
    ensures
        final(result).namespace == old(result).namespace,
        final(result).ok == old(result).ok,
        final(result).servers@.drop_last() == old(result).servers@,
        final(result).servers@.len() == old(result).servers@.len() + 1,
        server_view(final(result).servers@.last()).0 == server@,
        match inventory {
            Ok(names) => {
                let explicit = configured_tools(*config, old(result).namespace@, server@);
                let sorted_explicit = choose|s: Seq<Seq<char>>|
                    sorted_strict(s) && s.to_set() == explicit;
                let live = views(names@).to_set();
                let missing = missing_tools(sorted_explicit, live);
                let entry = server_view(final(result).servers@.last());
                &&& sorted_strict(entry.2)
                &&& entry.2.to_set() == live
                &&& entry.1 == (if missing.len() == 0 {
                    "ok"@
                } else {
                    "error"@
                })
                &&& error_views(final(result).errors@) == error_views(old(result).errors@)
                    + missing.map_values(|t: Seq<char>| missing_tool_error(server@, t))
            },
            Err(e) => {
                &&& server_view(final(result).servers@.last()).1 == "error"@
                &&& server_view(final(result).servers@.last()).2.len() == 0
                &&& error_views(final(result).errors@) == error_views(old(result).errors@).push(
                    spec_map_tool_error(e),
                )
            },
        },
{
    match inventory {
        Ok(names) => {
            let tool_names = sorted_unique(&names);
            let explicit = explicit_tools(config, result.namespace.as_str(), server.as_str());
            let ghost ex = views(explicit@);
            let ghost live = views(names@).to_set();
            proof {
                let c = choose|s: Seq<Seq<char>>|
                    sorted_strict(s) && s.to_set() == configured_tools(
                        *config,
                        result.namespace@,
                        server@,
                    );
                assert(sorted_strict(ex) && ex.to_set() == configured_tools(
                    *config,
                    result.namespace@,
                    server@,
                ));
                crate::text::lemma_sorted_unique_by_set(c, ex);
            }
            let ghost before = error_views(result.errors@);
            let mut missing_count: usize = 0;
            let mut i: usize = 0;
            while i < explicit.len()
                invariant
                    i <= explicit.len(),
                    ex == views(explicit@),
                    live == views(names@).to_set(),
                    views(tool_names@).to_set() == live,
                    error_views(result.errors@) == before + missing_tools(
                        ex.take(i as int),
                        live,
                    ).map_values(|t: Seq<char>| missing_tool_error(server@, t)),
                    missing_count == missing_tools(ex.take(i as int), live).len(),
                    missing_count <= i,
                    result.namespace == old(result).namespace,
                    result.ok == old(result).ok,
                    result.servers == old(result).servers,
                decreases explicit.len() - i,
            {
                assert(ex.take(i + 1).drop_last() =~= ex.take(i as int));
                assert(ex.take(i + 1).last() == explicit@[i as int]@);
                let present = contains_str(&tool_names, explicit[i].as_str());
                proof {
                    lemma_lists_to_set(tool_names@, explicit@[i as int]@);
                }
                if !present {
                    let ghost e0 = error_views(result.errors@);
                    result.errors.push(
                        CheckError::new(
                            Some(server.clone()),
                            "configured_tool_missing",
                            Some(explicit[i].clone()),
                            "allowlisted tool absent from live inventory",
                        ),
                    );
                    assert(error_views(result.errors@) =~= e0.push(
                        missing_tool_error(server@, explicit@[i as int]@),
                    ));
                    assert(missing_tools(ex.take(i + 1), live) == missing_tools(
                        ex.take(i as int),
                        live,
                    ).push(explicit@[i as int]@));
                    assert(missing_tools(ex.take(i + 1), live).map_values(
                        |t: Seq<char>| missing_tool_error(server@, t),
                    ) =~= missing_tools(ex.take(i as int), live).map_values(
                        |t: Seq<char>| missing_tool_error(server@, t),
                    ).push(missing_tool_error(server@, explicit@[i as int]@)));
                    missing_count = missing_count + 1;
                }
                i = i + 1;
            }
            assert(ex.take(explicit.len() as int) =~= ex);
            let mut tools: Vec<CheckTool> = Vec::new();
            let mut j: usize = 0;
            while j < tool_names.len()
                invariant
                    j <= tool_names.len(),
                    tools@.map_values(|t: CheckTool| t.name@) == views(tool_names@).take(j as int),
                decreases tool_names.len() - j,
            {
                let ghost before = tools@.map_values(|t: CheckTool| t.name@);
                let n = tool_names[j].clone();
                assert(n@ == views(tool_names@)[j as int]);
                tools.push(CheckTool { name: n });
                assert(tools@.map_values(|t: CheckTool| t.name@) =~= before.push(n@));
                assert(views(tool_names@).take(j + 1) =~= views(tool_names@).take(j as int).push(
                    n@,
                ));
                j = j + 1;
            }
            assert(views(tool_names@).take(tool_names.len() as int) =~= views(tool_names@));
            let status: &'static str = if missing_count == 0 {
                "ok"
            } else {
                "error"
            };
            result.servers.push(CheckServer { name: server, status, tools });
        },
        Err(error) => {
            let ghost before = error_views(result.errors@);
            let ghost ev = spec_map_tool_error(error);
            result.servers.push(CheckServer { name: server, status: "error", tools: Vec::new() });
            result.errors.push(map_tool_error(error));
            assert(error_views(result.errors@) =~= before.push(ev));
        },
    }
}

} // verus!
