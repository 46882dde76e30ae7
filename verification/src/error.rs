//! Error model.
//!
//! Tool-level failures are reported to the caller as structured content of a
//! tool result (never as a JSON-RPC error); startup failures stop the process
//! before serving begins.

use vstd::prelude::*;

use crate::json::{lemma_object_view, member_views, push_str_member, Json, JsonView};
use crate::text::{push_str, string_of};

verus! {

/// `std::io::Error`, carried opaquely inside [`StartupError::ReadConfig`].
#[verifier::external_type_specification]
#[verifier::external_body]
pub struct ExIoError(std::io::Error);

/// `toml::de::Error`, carried opaquely inside [`StartupError::ParseConfig`].
#[verifier::external_type_specification]
#[verifier::external_body]
pub struct ExTomlDeError(toml::de::Error);

/// A startup failure: the process exits before the stdio transport starts.
#[derive(Debug)]
pub enum StartupError {
    /// The config file could not be read.
    ReadConfig(std::io::Error),
    /// The config file is not valid TOML for the schema.
    ParseConfig(toml::de::Error),
    /// A server name is outside `[a-z0-9-]+`.
    InvalidServerName { server: String, reason: String },
    /// A server names a transport other than `stdio` or `streamable-http`.
    UnsupportedTransport { server: String, transport: String },
    /// A server's `cwd` is present but blank.
    EmptyCwd { server: String },
    /// A stdio server has no (non-blank) `command`.
    StdioServerMissingCommand { server: String },
    /// A Streamable-HTTP server has no (non-blank) `endpoint`.
    HttpServerMissingEndpoint { server: String },
    /// The selected namespace is not declared.
    UnknownNamespace { namespace: String },
    /// A namespace extends a namespace that is not declared.
    UnknownParentNamespace { namespace: String, parent: String },
    /// Following `extends` from a namespace comes back around (a cycle).
    NamespaceCycle { namespace: String },
    /// A namespace lists a server that `[servers]` does not declare.
    UndeclaredServer { namespace: String, server: String },
    /// A namespace filters tools of a server outside its effective servers.
    ToolFilterUnknownServer { namespace: String, server: String },
}

/// The validation errors of [`StartupError`], over character sequences.
pub enum StartupErrorView {
    InvalidServerName { server: Seq<char>, reason: Seq<char> },
    UnsupportedTransport { server: Seq<char>, transport: Seq<char> },
    EmptyCwd { server: Seq<char> },
    StdioServerMissingCommand { server: Seq<char> },
    HttpServerMissingEndpoint { server: Seq<char> },
    UnknownNamespace { namespace: Seq<char> },
    UnknownParentNamespace { namespace: Seq<char>, parent: Seq<char> },
    NamespaceCycle { namespace: Seq<char> },
    UndeclaredServer { namespace: Seq<char>, server: Seq<char> },
    ToolFilterUnknownServer { namespace: Seq<char>, server: Seq<char> },
}

impl StartupError {
    /// The validation error this value carries, if it is one.
    pub open spec fn validation_view(&self) -> Option<StartupErrorView> {
        match self {
            StartupError::ReadConfig(_) => None,
            StartupError::ParseConfig(_) => None,
            StartupError::InvalidServerName { server, reason } => Some(
                StartupErrorView::InvalidServerName { server: server@, reason: reason@ },
            ),
            StartupError::UnsupportedTransport { server, transport } => Some(
                StartupErrorView::UnsupportedTransport { server: server@, transport: transport@ },
            ),
            StartupError::EmptyCwd { server } => Some(
                StartupErrorView::EmptyCwd { server: server@ },
            ),
            StartupError::StdioServerMissingCommand { server } => Some(
                StartupErrorView::StdioServerMissingCommand { server: server@ },
            ),
            StartupError::HttpServerMissingEndpoint { server } => Some(
                StartupErrorView::HttpServerMissingEndpoint { server: server@ },
            ),
            StartupError::UnknownNamespace { namespace } => Some(
                StartupErrorView::UnknownNamespace { namespace: namespace@ },
            ),
            StartupError::UnknownParentNamespace { namespace, parent } => Some(
                StartupErrorView::UnknownParentNamespace {
                    namespace: namespace@,
                    parent: parent@,
                },
            ),
            StartupError::NamespaceCycle { namespace } => Some(
                StartupErrorView::NamespaceCycle { namespace: namespace@ },
            ),
            StartupError::UndeclaredServer { namespace, server } => Some(
                StartupErrorView::UndeclaredServer { namespace: namespace@, server: server@ },
            ),
            StartupError::ToolFilterUnknownServer { namespace, server } => Some(
                StartupErrorView::ToolFilterUnknownServer {
                    namespace: namespace@,
                    server: server@,
                },
            ),
        }
    }
}

/// A tool-level failure surfaced to the caller as structured content of a
/// `CallToolResult { isError: true }`.
#[derive(Debug, Clone)]
pub enum ToolError {
    /// The meta-tool is declared but no upstream registry is configured.
    NotImplemented { tool: String },
    /// The meta-tool arguments are malformed.
    InvalidRequest { tool: String, message: String },
    /// The server is not configured.
    UnknownServer { server: String },
    /// The server is configured but does not expose the tool.
    UnknownTool { server: String, tool: String },
    /// The active namespace hides the server (tool `None`) or the tool.
    NamespaceDenied { server: String, tool: Option<String> },
    /// A `${VAR}` placeholder of the server's env has no value.
    CredentialResolution { server: String, key: String },
    /// The upstream could not be spawned or initialized.
    UpstreamConnect { server: String, message: String },
    /// The upstream answered the call with a protocol-level failure.
    UpstreamCall { server: String, tool: String, message: String },
    /// The upstream did not answer within its timeout.
    UpstreamTimeout { server: String, tool: Option<String> },
    /// The upstream transport closed.
    UpstreamDisconnected { server: String, tool: String },
    /// The downstream client cancelled the call.
    CallCancelled { server: String, tool: String },
}

/// A [`ToolError`] over character sequences.
pub enum ToolErrorView {
    NotImplemented { tool: Seq<char> },
    InvalidRequest { tool: Seq<char>, message: Seq<char> },
    UnknownServer { server: Seq<char> },
    UnknownTool { server: Seq<char>, tool: Seq<char> },
    NamespaceDenied { server: Seq<char>, tool: Option<Seq<char>> },
    CredentialResolution { server: Seq<char>, key: Seq<char> },
    UpstreamConnect { server: Seq<char>, message: Seq<char> },
    UpstreamCall { server: Seq<char>, tool: Seq<char>, message: Seq<char> },
    UpstreamTimeout { server: Seq<char>, tool: Option<Seq<char>> },
    UpstreamDisconnected { server: Seq<char>, tool: Seq<char> },
    CallCancelled { server: Seq<char>, tool: Seq<char> },
}

impl ToolError {
    /// The error with its strings taken as character sequences.
    pub open spec fn view(&self) -> ToolErrorView {
        match self {
            ToolError::NotImplemented { tool } => ToolErrorView::NotImplemented { tool: tool@ },
            ToolError::InvalidRequest { tool, message } => ToolErrorView::InvalidRequest {
                tool: tool@,
                message: message@,
            },
            ToolError::UnknownServer { server } => ToolErrorView::UnknownServer { server: server@ },
            ToolError::UnknownTool { server, tool } => ToolErrorView::UnknownTool {
                server: server@,
                tool: tool@,
            },
            ToolError::NamespaceDenied { server, tool } => ToolErrorView::NamespaceDenied {
                server: server@,
                tool: match tool {
                    Some(t) => Some(t@),
                    None => None,
                },
            },
            ToolError::CredentialResolution { server, key } => ToolErrorView::CredentialResolution {
                server: server@,
                key: key@,
            },
            ToolError::UpstreamConnect { server, message } => ToolErrorView::UpstreamConnect {
                server: server@,
                message: message@,
            },
            ToolError::UpstreamCall { server, tool, message } => ToolErrorView::UpstreamCall {
                server: server@,
                tool: tool@,
                message: message@,
            },
            ToolError::UpstreamTimeout { server, tool } => ToolErrorView::UpstreamTimeout {
                server: server@,
                tool: match tool {
                    Some(t) => Some(t@),
                    None => None,
                },
            },
            ToolError::UpstreamDisconnected { server, tool } => ToolErrorView::UpstreamDisconnected {
                server: server@,
                tool: tool@,
            },
            ToolError::CallCancelled { server, tool } => ToolErrorView::CallCancelled {
                server: server@,
                tool: tool@,
            },
        }
    }
}

/// The text of the not-implemented message for `tool`.
pub open spec fn not_implemented_message(tool: Seq<char>) -> Seq<char> {
    "tool `"@ + tool
        + "` is not implemented in this build of fanin-mcp; upstream proxying is not wired yet"@
}

impl ToolError {
    /// The machine-readable error code of the structured error content.
    pub open spec fn spec_code(&self) -> Seq<char> {
        match self {
            ToolError::NotImplemented { .. } => "not_implemented"@,
            ToolError::InvalidRequest { .. } => "invalid_request"@,
            ToolError::UnknownServer { .. } => "unknown_server"@,
            ToolError::UnknownTool { .. } => "unknown_tool"@,
            ToolError::NamespaceDenied { .. } => "namespace_denied"@,
            ToolError::CredentialResolution { .. } => "credential_resolution_failed"@,
            ToolError::UpstreamConnect { .. } => "upstream_connect_failed"@,
            ToolError::UpstreamCall { .. } => "upstream_call_failed"@,
            ToolError::UpstreamTimeout { .. } => "upstream_timeout"@,
            ToolError::UpstreamDisconnected { .. } => "upstream_disconnected"@,
            ToolError::CallCancelled { .. } => "call_cancelled"@,
        }
    }

    /// Whether retrying the same call may succeed.
    pub open spec fn spec_recoverable(&self) -> bool {
        match self {
            ToolError::UpstreamConnect { .. } => true,
            ToolError::UpstreamCall { .. } => true,
            ToolError::UpstreamTimeout { .. } => true,
            ToolError::CallCancelled { .. } => true,
            _ => false,
        }
    }

    /// The human-readable message of the structured error content.
    pub open spec fn spec_message(&self) -> Seq<char> {
        match self {
            ToolError::NotImplemented { tool } => not_implemented_message(tool@),
            ToolError::InvalidRequest { tool, message } => "invalid arguments for `"@ + tool@
                + "`: "@ + message@,
            ToolError::UnknownServer { server } => "unknown server `"@ + server@ + "`"@,
            ToolError::UnknownTool { server, tool } => "server `"@ + server@
                + "` has no tool `"@ + tool@ + "`"@,
            ToolError::NamespaceDenied { server, tool } => match tool {
                Some(t) => "tool `"@ + t@ + "` on server `"@ + server@
                    + "` is not visible in the active namespace"@,
                None => "server `"@ + server@ + "` is not visible in the active namespace"@,
            },
            ToolError::CredentialResolution { server, key } => "credential `"@ + key@
                + "` for server `"@ + server@ + "` could not be resolved"@,
            ToolError::UpstreamConnect { server, message } => "failed to connect to server `"@
                + server@ + "`: "@ + message@,
            ToolError::UpstreamCall { server, tool, message } => "call to `"@ + tool@
                + "` on server `"@ + server@ + "` failed: "@ + message@,
            ToolError::UpstreamTimeout { server, tool } => match tool {
                Some(t) => "call to `"@ + t@ + "` on server `"@ + server@ + "` timed out"@,
                None => "server `"@ + server@ + "` timed out"@,
            },
            ToolError::UpstreamDisconnected { server, .. } => "server `"@ + server@
                + "` disconnected"@,
            ToolError::CallCancelled { server, tool } => "call to `"@ + tool@ + "` on server `"@
                + server@ + "` was cancelled"@,
        }
    }

    /// The machine-readable error code of the structured error content.
    pub fn code(&self) -> (r: &'static str)
        ensures
            r@ == self.spec_code(),
    {
        match self {
            ToolError::NotImplemented { .. } => "not_implemented",
            ToolError::InvalidRequest { .. } => "invalid_request",
            ToolError::UnknownServer { .. } => "unknown_server",
            ToolError::UnknownTool { .. } => "unknown_tool",
            ToolError::NamespaceDenied { .. } => "namespace_denied",
            ToolError::CredentialResolution { .. } => "credential_resolution_failed",
            ToolError::UpstreamConnect { .. } => "upstream_connect_failed",
            ToolError::UpstreamCall { .. } => "upstream_call_failed",
            ToolError::UpstreamTimeout { .. } => "upstream_timeout",
            ToolError::UpstreamDisconnected { .. } => "upstream_disconnected",
            ToolError::CallCancelled { .. } => "call_cancelled",
        }
    }

    /// Whether retrying the same call may succeed.
    pub fn recoverable(&self) -> (r: bool)
        ensures
            r == self.spec_recoverable(),
    {
        match self {
            ToolError::UpstreamConnect { .. } => true,
            ToolError::UpstreamCall { .. } => true,
            ToolError::UpstreamTimeout { .. } => true,
            ToolError::CallCancelled { .. } => true,
            _ => false,
        }
    }

    /// Render the error as the human-readable text a content block carries.
    pub fn message(&self) -> (r: String)
        ensures
            r@ == self.spec_message(),
    {
        match self {
            ToolError::NotImplemented { tool } => {
                let mut m = string_of("tool `");
                push_str(&mut m, tool.as_str());
                push_str(
                    &mut m,
                    "` is not implemented in this build of fanin-mcp; upstream proxying is not wired yet",
                );
                m
            },
            ToolError::InvalidRequest { tool, message } => {
                let mut m = string_of("invalid arguments for `");
                push_str(&mut m, tool.as_str());
                push_str(&mut m, "`: ");
                push_str(&mut m, message.as_str());
                m
            },
            ToolError::UnknownServer { server } => {
                let mut m = string_of("unknown server `");
                push_str(&mut m, server.as_str());
                push_str(&mut m, "`");
                m
            },
            ToolError::UnknownTool { server, tool } => {
                let mut m = string_of("server `");
                push_str(&mut m, server.as_str());
                push_str(&mut m, "` has no tool `");
                push_str(&mut m, tool.as_str());
                push_str(&mut m, "`");
                m
            },
            ToolError::NamespaceDenied { server, tool } => match tool {
                Some(t) => {
                    let mut m = string_of("tool `");
                    push_str(&mut m, t.as_str());
                    push_str(&mut m, "` on server `");
                    push_str(&mut m, server.as_str());
                    push_str(&mut m, "` is not visible in the active namespace");
                    m
                },
                None => {
                    let mut m = string_of("server `");
                    push_str(&mut m, server.as_str());
                    push_str(&mut m, "` is not visible in the active namespace");
                    m
                },
            },
            ToolError::CredentialResolution { server, key } => {
                let mut m = string_of("credential `");
                push_str(&mut m, key.as_str());
                push_str(&mut m, "` for server `");
                push_str(&mut m, server.as_str());
                push_str(&mut m, "` could not be resolved");
                m
            },
            ToolError::UpstreamConnect { server, message } => {
                let mut m = string_of("failed to connect to server `");
                push_str(&mut m, server.as_str());
                push_str(&mut m, "`: ");
                push_str(&mut m, message.as_str());
                m
            },
            ToolError::UpstreamCall { server, tool, message } => {
                let mut m = string_of("call to `");
                push_str(&mut m, tool.as_str());
                push_str(&mut m, "` on server `");
                push_str(&mut m, server.as_str());
                push_str(&mut m, "` failed: ");
                push_str(&mut m, message.as_str());
                m
            },
            ToolError::UpstreamTimeout { server, tool } => match tool {
                Some(t) => {
                    let mut m = string_of("call to `");
                    push_str(&mut m, t.as_str());
                    push_str(&mut m, "` on server `");
                    push_str(&mut m, server.as_str());
                    push_str(&mut m, "` timed out");
                    m
                },
                None => {
                    let mut m = string_of("server `");
                    push_str(&mut m, server.as_str());
                    push_str(&mut m, "` timed out");
                    m
                },
            },
            ToolError::UpstreamDisconnected { server, .. } => {
                let mut m = string_of("server `");
                push_str(&mut m, server.as_str());
                push_str(&mut m, "` disconnected");
                m
            },
            ToolError::CallCancelled { server, tool } => {
                let mut m = string_of("call to `");
                push_str(&mut m, tool.as_str());
                push_str(&mut m, "` on server `");
                push_str(&mut m, server.as_str());
                push_str(&mut m, "` was cancelled");
                m
            },
        }
    }
}

/// A string member of structured error content, when the value is present.
pub open spec fn opt_member(key: Seq<char>, value: Option<Seq<char>>) -> Seq<(Seq<char>, JsonView)> {
    match value {
        Some(v) => seq![(key, JsonView::Str(v))],
        None => Seq::empty(),
    }
}

impl ToolError {
    /// The server the error is about, if it names one.
    pub open spec fn spec_server(&self) -> Option<Seq<char>> {
        match self {
            ToolError::NotImplemented { .. } => None,
            ToolError::InvalidRequest { .. } => None,
            ToolError::UnknownServer { server } => Some(server@),
            ToolError::UnknownTool { server, .. } => Some(server@),
            ToolError::NamespaceDenied { server, .. } => Some(server@),
            ToolError::CredentialResolution { server, .. } => Some(server@),
            ToolError::UpstreamConnect { server, .. } => Some(server@),
            ToolError::UpstreamCall { server, .. } => Some(server@),
            ToolError::UpstreamTimeout { server, .. } => Some(server@),
            ToolError::UpstreamDisconnected { server, .. } => Some(server@),
            ToolError::CallCancelled { server, .. } => Some(server@),
        }
    }

    /// The tool the error is about, if it names one (for argument errors,
    /// the meta-tool that was called).
    pub open spec fn spec_tool(&self) -> Option<Seq<char>> {
        match self {
            ToolError::NotImplemented { tool } => Some(tool@),
            ToolError::InvalidRequest { tool, .. } => Some(tool@),
            ToolError::UnknownServer { .. } => None,
            ToolError::UnknownTool { tool, .. } => Some(tool@),
            ToolError::NamespaceDenied { tool, .. } => match tool {
                Some(t) => Some(t@),
                None => None,
            },
            ToolError::CredentialResolution { .. } => None,
            ToolError::UpstreamConnect { .. } => None,
            ToolError::UpstreamCall { tool, .. } => Some(tool@),
            ToolError::UpstreamTimeout { tool, .. } => match tool {
                Some(t) => Some(t@),
                None => None,
            },
            ToolError::UpstreamDisconnected { tool, .. } => Some(tool@),
            ToolError::CallCancelled { tool, .. } => Some(tool@),
        }
    }

    /// The server the error is about, if it names one.
    pub fn server_name(&self) -> (r: Option<&str>)
        ensures
            match r {
                Some(s) => self.spec_server() == Some(s@),
                None => self.spec_server() is None,
            },
    {
        match self {
            ToolError::NotImplemented { .. } => None,
            ToolError::InvalidRequest { .. } => None,
            ToolError::UnknownServer { server } => Some(server.as_str()),
            ToolError::UnknownTool { server, .. } => Some(server.as_str()),
            ToolError::NamespaceDenied { server, .. } => Some(server.as_str()),
            ToolError::CredentialResolution { server, .. } => Some(server.as_str()),
            ToolError::UpstreamConnect { server, .. } => Some(server.as_str()),
            ToolError::UpstreamCall { server, .. } => Some(server.as_str()),
            ToolError::UpstreamTimeout { server, .. } => Some(server.as_str()),
            ToolError::UpstreamDisconnected { server, .. } => Some(server.as_str()),
            ToolError::CallCancelled { server, .. } => Some(server.as_str()),
        }
    }

    /// The tool the error is about, if it names one.
    pub fn tool_name(&self) -> (r: Option<&str>)
        ensures
            match r {
                Some(t) => self.spec_tool() == Some(t@),
                None => self.spec_tool() is None,
            },
    {
        match self {
            ToolError::NotImplemented { tool } => Some(tool.as_str()),
            ToolError::InvalidRequest { tool, .. } => Some(tool.as_str()),
            ToolError::UnknownServer { .. } => None,
            ToolError::UnknownTool { tool, .. } => Some(tool.as_str()),
            ToolError::NamespaceDenied { tool, .. } => match tool {
                Some(t) => Some(t.as_str()),
                None => None,
            },
            ToolError::CredentialResolution { .. } => None,
            ToolError::UpstreamConnect { .. } => None,
            ToolError::UpstreamCall { tool, .. } => Some(tool.as_str()),
            ToolError::UpstreamTimeout { tool, .. } => match tool {
                Some(t) => Some(t.as_str()),
                None => None,
            },
            ToolError::UpstreamDisconnected { tool, .. } => Some(tool.as_str()),
            ToolError::CallCancelled { tool, .. } => Some(tool.as_str()),
        }
    }
}

/// The structured content of a tool-level error, in this member order:
/// `code`, `server` and `tool` when the error names them, `message`, and
/// `recoverable`.
pub open spec fn error_json(e: ToolError) -> JsonView {
    JsonView::Object(
        seq![("code"@, JsonView::Str(e.spec_code()))] + opt_member("server"@, e.spec_server())
            + opt_member("tool"@, e.spec_tool()) + seq![
            ("message"@, JsonView::Str(e.spec_message())),
            ("recoverable"@, JsonView::Bool(e.spec_recoverable())),
        ],
    )
}

/// The structured content a tool-level error result carries.
pub fn error_content(e: &ToolError) -> (r: Json)
    ensures
        r.view() == error_json(*e),
{
    let mut m: Vec<(String, Json)> = Vec::new();
    push_str_member(&mut m, "code", e.code());
    let ghost m1 = member_views(m@);
    match e.server_name() {
        Some(s) => push_str_member(&mut m, "server", s),
        None => {},
    }
    let ghost m2 = member_views(m@);
    assert(m2 == m1 + opt_member("server"@, e.spec_server()));
    match e.tool_name() {
        Some(t) => push_str_member(&mut m, "tool", t),
        None => {},
    }
    let ghost m3 = member_views(m@);
    assert(m3 == m2 + opt_member("tool"@, e.spec_tool()));
    let message = e.message();
    push_str_member(&mut m, "message", message.as_str());
    let rec = Json::Bool(e.recoverable());
    let ghost m4 = member_views(m@);
    m.push((string_of("recoverable"), rec));
    assert(member_views(m@) =~= m4.push(("recoverable"@, JsonView::Bool(e.spec_recoverable()))));
    proof {
        lemma_object_view(m);
        assert(seq![("code"@, JsonView::Str(e.spec_code()))] =~= m1);
    }
    assert(member_views(m@) =~= seq![("code"@, JsonView::Str(e.spec_code()))] + opt_member(
        "server"@,
        e.spec_server(),
    ) + opt_member("tool"@, e.spec_tool()) + seq![
        ("message"@, JsonView::Str(e.spec_message())),
        ("recoverable"@, JsonView::Bool(e.spec_recoverable())),
    ]);
    Json::Object(m)
}

} // verus!
