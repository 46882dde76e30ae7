//! The decisions behind the three meta-tool calls: which meta-tool a call
//! names, the argument checks, namespace access control, and the shaping of
//! the results. The upstream traffic the calls wait on is performed by the
//! caller, which hands the outcome back to these functions.

use vstd::prelude::*;

use crate::config::TomlConfig;
use crate::error::{not_implemented_message, ToolError, ToolErrorView};
use crate::json::{copy_json, sanitize_schema, sanitize_schema_metadata, Json, JsonView};
use crate::lookup::{find_entry, has_key, lookup};
use crate::namespace::ActiveNamespace;
use crate::server::{
    display_identifier, parse_server_tool, row_description, sanitize_list_row_description,
    sanitize_upstream_identifier, spec_parse_server_tool,
};
use crate::text::{str_eq, string_of};

verus! {

// ---------------------------------------------------------------------------
// Dispatch
// ---------------------------------------------------------------------------

/// The meta-tool a `tools/call` request names.
#[derive(Debug, Clone, Copy, PartialEq, Eq, Structural)]
pub enum MetaToolKind {
    ListTools,
    GetToolSchema,
    InvokeTool,
    /// Any other name: answered with the not-implemented result.
    Other,
}

/// The meta-tool named `name`.
pub open spec fn spec_meta_tool_kind(name: Seq<char>) -> MetaToolKind {
    if name == "list_tools"@ {
        MetaToolKind::ListTools
    } else if name == "get_tool_schema"@ {
        MetaToolKind::GetToolSchema
    } else if name == "invoke_tool"@ {
        MetaToolKind::InvokeTool
    } else {
        MetaToolKind::Other
    }
}

/// Which meta-tool a call names.
pub fn classify_meta_tool(name: &str) -> (r: MetaToolKind)
    ensures
        r == spec_meta_tool_kind(name@),
{
    if str_eq(name, "list_tools") {
        MetaToolKind::ListTools
    } else if str_eq(name, "get_tool_schema") {
        MetaToolKind::GetToolSchema
    } else if str_eq(name, "invoke_tool") {
        MetaToolKind::InvokeTool
    } else {
        MetaToolKind::Other
    }
}

/// The text of the tool-level error answered for a call to an unknown tool.
pub fn not_implemented_result(tool: String) -> (r: String)
    ensures
        r@ == not_implemented_message(tool@),
{
    ToolError::NotImplemented { tool }.message()
}

// ---------------------------------------------------------------------------
// Arguments
// ---------------------------------------------------------------------------

/// The value of argument `key` when it is present and a JSON string.
pub open spec fn str_arg(args: Seq<(String, Json)>, key: Seq<char>) -> Option<Seq<char>> {
    match lookup(args, key) {
        Some(v) => match v.view() {
            JsonView::Str(s) => Some(s),
            _ => None,
        },
        None => None,
    }
}

/// The string argument `key` of an optional argument object.
pub open spec fn opt_str_arg(args: Option<&Vec<(String, Json)>>, key: Seq<char>) -> Option<
    Seq<char>,
> {
    match args {
        Some(a) => str_arg(a@, key),
        None => None,
    }
}

/// The value of argument `key` when it is present and a JSON string.
pub fn string_arg<'a>(args: &'a Vec<(String, Json)>, key: &str) -> (r: Option<&'a str>)
    ensures
        match r {
            Some(s) => str_arg(args@, key@) == Some(s@),
            None => str_arg(args@, key@) is None,
        },
{
    match find_entry(args, key) {
        Some(i) => match &args[i].1 {
            Json::Str(s) => Some(s.as_str()),
            _ => None,
        },
        None => None,
    }
}

fn opt_string_arg<'a>(args: Option<&'a Vec<(String, Json)>>, key: &str) -> (r: Option<&'a str>)
    ensures
        match r {
            Some(s) => opt_str_arg(args, key@) == Some(s@),
            None => opt_str_arg(args, key@) is None,
        },
{
    match args {
        Some(a) => string_arg(a, key),
        None => None,
    }
}

// ---------------------------------------------------------------------------
// Access control shared by the three meta-tools
// ---------------------------------------------------------------------------

/// An `invalid_request` error of meta-tool `meta`.
pub open spec fn invalid(meta: Seq<char>, message: Seq<char>) -> ToolErrorView {
    ToolErrorView::InvalidRequest { tool: meta, message }
}

/// The error a call of meta-tool `meta` on `server`'s `tool` gets before any
/// upstream traffic: no registry (`not_implemented`), a server the config
/// lacks (`unknown_server`), or a tool the namespace hides
/// (`namespace_denied`).
pub open spec fn access_error(
    meta: Seq<char>,
    config: Option<&TomlConfig>,
    ns: Option<&ActiveNamespace>,
    server: Seq<char>,
    tool: Seq<char>,
) -> Option<ToolErrorView> {
    match (config, ns) {
        (Some(c), Some(n)) => if !has_key(c.servers@, server) {
            Some(ToolErrorView::UnknownServer { server })
        } else if !n.tool_visible(server, tool) {
            Some(ToolErrorView::NamespaceDenied { server, tool: Some(tool) })
        } else {
            None
        },
        _ => Some(ToolErrorView::NotImplemented { tool: meta }),
    }
}

/// `unknown_server` unless the configuration names `server`.
pub fn ensure_known_server(config: &TomlConfig, server: &str) -> (r: Result<(), ToolError>)
    ensures
        r is Ok <==> has_key(config.servers@, server@),
        r matches Err(e) ==> e.view() == (ToolErrorView::UnknownServer { server: server@ }),
{
    if config.has_server(server) {
        Ok(())
    } else {
        Err(ToolError::UnknownServer { server: string_of(server) })
    }
}

fn check_access(
    meta: &str,
    config: Option<&TomlConfig>,
    ns: Option<&ActiveNamespace>,
    server: &str,
    tool: &str,
) -> (r: Option<ToolError>)
    ensures
        match r {
            Some(e) => access_error(meta@, config, ns, server@, tool@) == Some(e.view()),
            None => access_error(meta@, config, ns, server@, tool@) is None,
        },
{
    match (config, ns) {
        (Some(c), Some(n)) => {
            if !c.has_server(server) {
                Some(ToolError::UnknownServer { server: string_of(server) })
            } else if !n.is_tool_allowed(server, tool) {
                Some(
                    ToolError::NamespaceDenied {
                        server: string_of(server),
                        tool: Some(string_of(tool)),
                    },
                )
            } else {
                None
            }
        },
        _ => Some(ToolError::NotImplemented { tool: string_of(meta) }),
    }
}

// ---------------------------------------------------------------------------
// `list_tools`
// ---------------------------------------------------------------------------

/// The servers `list_tools` inventories, or the error it answers with: no
/// registry (`not_implemented`); a `server` argument naming an unconfigured
/// server (`unknown_server`) or one the namespace hides (`namespace_denied`);
/// otherwise that one server, or every allowed server in sorted order.
pub open spec fn list_tools_plan(
    config: Option<&TomlConfig>,
    ns: Option<&ActiveNamespace>,
    server_arg: Option<Seq<char>>,
) -> Result<Seq<Seq<char>>, ToolErrorView> {
    match (config, ns) {
        (Some(c), Some(n)) => match server_arg {
            Some(s) => if !has_key(c.servers@, s) {
                Err(ToolErrorView::UnknownServer { server: s })
            } else if !n.allowed().contains(s) {
                Err(ToolErrorView::NamespaceDenied { server: s, tool: None })
            } else {
                Ok(seq![s])
            },
            None => Ok(n.sorted_servers()),
        },
        _ => Err(ToolErrorView::NotImplemented { tool: "list_tools"@ }),
    }
}

/// A list of server names, or an error, taken as character sequences.
pub open spec fn names_result(r: Result<Vec<String>, ToolError>) -> Result<
    Seq<Seq<char>>,
    ToolErrorView,
> {
    match r {
        Ok(v) => Ok(crate::text::views(v@)),
        Err(e) => Err(e.view()),
    }
}

/// Decide which servers a `list_tools` call inventories.
pub fn plan_list_tools(
    config: Option<&TomlConfig>,
    namespace: Option<&ActiveNamespace>,
    arguments: Option<&Vec<(String, Json)>>,
) -> (r: Result<Vec<String>, ToolError>)
    ensures
        names_result(r) == list_tools_plan(config, namespace, opt_str_arg(arguments, "server"@)),
{
    match (config, namespace) {
        (Some(c), Some(n)) => match opt_string_arg(arguments, "server") {
            Some(server) => {
                if !c.has_server(server) {
                    Err(ToolError::UnknownServer { server: string_of(server) })
                } else if !n.is_server_allowed(server) {
                    Err(ToolError::NamespaceDenied { server: string_of(server), tool: None })
                } else {
                    let mut v: Vec<String> = Vec::new();
                    v.push(string_of(server));
                    assert(crate::text::views(v@) =~= seq![server@]);
                    Ok(v)
                }
            },
            None => Ok(n.allowed_servers()),
        },
        _ => Err(ToolError::NotImplemented { tool: string_of("list_tools") }),
    }
}

/// One tool of an upstream inventory, as `list_tools` reads it.
#[derive(Debug)]
pub struct ToolSummary {
    pub name: String,
    pub description: Option<String>,
}

/// One row of the `list_tools` answer.
#[derive(Debug)]
pub struct ToolRow {
    pub server: String,
    pub tool: String,
    pub name: String,
    pub description: String,
}

/// The row of a tool: its display-sanitized name (as both `tool` and
/// `name`) and its sanitized, length-capped description (empty when the
/// upstream gave none).
pub open spec fn row_of(server: Seq<char>, t: ToolSummary) -> (Seq<char>, Seq<char>, Seq<char>, Seq<char>) {
    let desc = match t.description {
        Some(d) => d@,
        None => Seq::empty(),
    };
    (server, display_identifier(t.name@), display_identifier(t.name@), row_description(desc))
}

/// The rows of the namespace-visible tools of `server`, in inventory order;
/// a hidden tool is never emitted.
pub open spec fn visible_rows(ns: ActiveNamespace, server: Seq<char>, tools: Seq<ToolSummary>) -> Seq<
    (Seq<char>, Seq<char>, Seq<char>, Seq<char>),
>
    decreases tools.len(),
{
    if tools.len() == 0 {
        Seq::empty()
    } else {
        let rest = visible_rows(ns, server, tools.drop_last());
        if ns.tool_visible(server, tools.last().name@) {
            rest.push(row_of(server, tools.last()))
        } else {
            rest
        }
    }
}

/// A row taken as character sequences.
pub open spec fn row_view(r: ToolRow) -> (Seq<char>, Seq<char>, Seq<char>, Seq<char>) {
    (r.server@, r.tool@, r.name@, r.description@)
}

/// Rows taken as character sequences.
pub open spec fn row_views(rows: Seq<ToolRow>) -> Seq<(Seq<char>, Seq<char>, Seq<char>, Seq<char>)> {
    rows.map_values(|r: ToolRow| row_view(r))
}

/// The `list_tools` rows of one server's inventory: the tools the namespace
/// shows, with display-sanitized names and descriptions.
pub fn list_tools_rows(namespace: &ActiveNamespace, server: &str, tools: &Vec<ToolSummary>) -> (r:
    Vec<ToolRow>)
    ensures
        row_views(r@) == visible_rows(*namespace, server@, tools@),
{
    let mut rows: Vec<ToolRow> = Vec::new();
    let mut i: usize = 0;
    while i < tools.len()
        invariant
            i <= tools.len(),
            row_views(rows@) == visible_rows(*namespace, server@, tools@.take(i as int)),
        decreases tools.len() - i,
    {
        let t = &tools[i];
        assert(tools@.take(i + 1).drop_last() =~= tools@.take(i as int));
        assert(tools@.take(i + 1).last() == tools@[i as int]);
        if namespace.is_tool_allowed(server, t.name.as_str()) {
            let disp_name = sanitize_upstream_identifier(t.name.as_str());
            let disp_desc = match &t.description {
                Some(d) => sanitize_list_row_description(d.as_str()),
                None => sanitize_list_row_description(""),
            };
            proof {
                reveal_strlit("");
            }
            let ghost before = row_views(rows@);
            let row = ToolRow {
                server: string_of(server),
                tool: disp_name.clone(),
                name: disp_name,
                description: disp_desc,
            };
            assert(row_view(row) == row_of(server@, tools@[i as int]));
            rows.push(row);
            assert(row_views(rows@) =~= before.push(row_of(server@, tools@[i as int])));
        }
        i = i + 1;
    }
    assert(tools@.take(tools.len() as int) =~= tools@);
    rows
}

// ---------------------------------------------------------------------------
// `get_tool_schema`
// ---------------------------------------------------------------------------

/// The `(server, tool)` a `get_tool_schema` call asks for, or the error it
/// answers with, checked in order: a string `name` argument, the
/// `server__tool` format, a registry, a configured server, and a tool the
/// namespace shows.
pub open spec fn schema_request(
    config: Option<&TomlConfig>,
    ns: Option<&ActiveNamespace>,
    args: Option<&Vec<(String, Json)>>,
) -> Result<(Seq<char>, Seq<char>), ToolErrorView> {
    match opt_str_arg(args, "name"@) {
        None => Err(invalid("get_tool_schema"@, "missing string `name`"@)),
        Some(n) => match spec_parse_server_tool(n) {
            None => Err(invalid("get_tool_schema"@, "name must have format server__tool"@)),
            Some((s, t)) => match access_error("get_tool_schema"@, config, ns, s, t) {
                Some(e) => Err(e),
                None => Ok((s, t)),
            },
        },
    }
}

/// Decide which tool's schema a `get_tool_schema` call reads.
pub fn plan_get_tool_schema(
    config: Option<&TomlConfig>,
    namespace: Option<&ActiveNamespace>,
    arguments: Option<&Vec<(String, Json)>>,
) -> (r: Result<(String, String), ToolError>)
    ensures
        match r {
            Ok((s, t)) => schema_request(config, namespace, arguments) == Ok::<
                (Seq<char>, Seq<char>),
                ToolErrorView,
            >((s@, t@)),
            Err(e) => schema_request(config, namespace, arguments) == Err::<
                (Seq<char>, Seq<char>),
                ToolErrorView,
            >(e.view()),
        },
{
    let name = match opt_string_arg(arguments, "name") {
        Some(n) => n,
        None => {
            return Err(
                ToolError::InvalidRequest {
                    tool: string_of("get_tool_schema"),
                    message: string_of("missing string `name`"),
                },
            );
        },
    };
    let (server, tool) = match parse_server_tool(name) {
        Some(parts) => parts,
        None => {
            return Err(
                ToolError::InvalidRequest {
                    tool: string_of("get_tool_schema"),
                    message: string_of("name must have format server__tool"),
                },
            );
        },
    };
    match check_access("get_tool_schema", config, namespace, server, tool) {
        Some(e) => Err(e),
        None => Ok((string_of(server), string_of(tool))),
    }
}

/// The answer to `get_tool_schema` once the server's inventory is known:
/// the first tool named `tool`, with its schema's annotation strings
/// display-sanitized, or `unknown_tool`.
pub fn find_tool_schema(server: &str, tool: &str, tools: &Vec<(String, Json)>) -> (r: Result<
    Json,
    ToolError,
>)
    ensures
        match lookup(tools@, tool@) {
            Some(schema) => r matches Ok(j) && j.view() == sanitize_schema(schema.view()),
            None => r matches Err(e) && e.view() == (ToolErrorView::UnknownTool {
                server: server@,
                tool: tool@,
            }),
        },
{
    match find_entry(tools, tool) {
        Some(i) => Ok(sanitize_schema_metadata(&tools[i].1)),
        None => Err(ToolError::UnknownTool { server: string_of(server), tool: string_of(tool) }),
    }
}

// ---------------------------------------------------------------------------
// `invoke_tool`
// ---------------------------------------------------------------------------

/// A checked `invoke_tool` call: the target and the arguments to forward.
#[derive(Debug)]
pub struct InvokePlan {
    pub server: String,
    pub tool: String,
    pub arguments: Vec<(String, Json)>,
}

/// The target and forwarded arguments of an `invoke_tool` call, or the
/// error it answers with, checked in order: an argument object, a string
/// `name`, the `server__tool` format, a registry, a configured server, a
/// tool the namespace shows, a present `arguments` member, and that member
/// being an object.
pub open spec fn invoke_request(
    config: Option<&TomlConfig>,
    ns: Option<&ActiveNamespace>,
    args: Option<&Vec<(String, Json)>>,
) -> Result<(Seq<char>, Seq<char>, JsonView), ToolErrorView> {
    match args {
        None => Err(invalid("invoke_tool"@, "missing arguments object"@)),
        Some(a) => match str_arg(a@, "name"@) {
            None => Err(invalid("invoke_tool"@, "missing string `name`"@)),
            Some(n) => match spec_parse_server_tool(n) {
                None => Err(invalid("invoke_tool"@, "name must have format server__tool"@)),
                Some((s, t)) => match access_error("invoke_tool"@, config, ns, s, t) {
                    Some(e) => Err(e),
                    None => match lookup(a@, "arguments"@) {
                        None => Err(invalid("invoke_tool"@, "missing object `arguments`"@)),
                        Some(v) => if v.view() is Object {
                            Ok((s, t, v.view()))
                        } else {
                            Err(invalid("invoke_tool"@, "`arguments` must be an object"@))
                        },
                    },
                },
            },
        },
    }
}

/// Decide whether and where an `invoke_tool` call is forwarded.
pub fn plan_invoke_tool(
    config: Option<&TomlConfig>,
    namespace: Option<&ActiveNamespace>,
    arguments: Option<&Vec<(String, Json)>>,
) -> (r: Result<InvokePlan, ToolError>)
    ensures
        match r {
            Ok(p) => invoke_request(config, namespace, arguments) == Ok::<
                (Seq<char>, Seq<char>, JsonView),
                ToolErrorView,
            >((p.server@, p.tool@, Json::Object(p.arguments).view())),
            Err(e) => invoke_request(config, namespace, arguments) == Err::<
                (Seq<char>, Seq<char>, JsonView),
                ToolErrorView,
            >(e.view()),
        },
{
    let args = match arguments {
        Some(a) => a,
        None => {
            return Err(
                ToolError::InvalidRequest {
                    tool: string_of("invoke_tool"),
                    message: string_of("missing arguments object"),
                },
            );
        },
    };
    let name = match string_arg(args, "name") {
        Some(n) => n,
        None => {
            return Err(
                ToolError::InvalidRequest {
                    tool: string_of("invoke_tool"),
                    message: string_of("missing string `name`"),
                },
            );
        },
    };
    let (server, tool) = match parse_server_tool(name) {
        Some(parts) => parts,
        None => {
            return Err(
                ToolError::InvalidRequest {
                    tool: string_of("invoke_tool"),
                    message: string_of("name must have format server__tool"),
                },
            );
        },
    };
    match check_access("invoke_tool", config, namespace, server, tool) {
        Some(e) => {
            return Err(e);
        },
        None => {},
    }
    let raw = match find_entry(args, "arguments") {
        Some(i) => &args[i].1,
        None => {
            return Err(
                ToolError::InvalidRequest {
                    tool: string_of("invoke_tool"),
                    message: string_of("missing object `arguments`"),
                },
            );
        },
    };
    match copy_json(raw) {
        Json::Object(members) => Ok(
            InvokePlan { server: string_of(server), tool: string_of(tool), arguments: members },
        ),
        _ => Err(
            ToolError::InvalidRequest {
                tool: string_of("invoke_tool"),
                message: string_of("`arguments` must be an object"),
            },
        ),
    }
}

} // verus!
