//! Upstream registry decisions: per-server call timeouts, the inventory
//! check before a call, and how the outcome of an upstream request becomes
//! a tool result or a structured error.

use vstd::prelude::*;

use crate::config::TomlConfig;
use crate::error::{ToolError, ToolErrorView};
use crate::lookup::{contains_str, lists, lookup};
use crate::text::string_of;

verus! {

/// The timeout of a server's calls: its configured `timeout_secs`, or 60
/// seconds when the server is not configured.
pub open spec fn spec_effective_timeout(config: TomlConfig, server: Seq<char>) -> u64 {
    match lookup(config.servers@, server) {
        Some(s) => s.timeout_secs,
        None => 60,
    }
}

/// Effective timeout, in seconds, for a server's upstream calls.
pub fn effective_timeout_secs(config: &TomlConfig, server: &str) -> (r: u64)
    ensures
        r == spec_effective_timeout(*config, server@),
{
    match config.server(server) {
        Some(s) => s.timeout_secs,
        None => 60,
    }
}

/// How an upstream request failed, as the transport reported it.
#[derive(Debug)]
pub enum ServiceFailure {
    /// The upstream's transport is closed: the server went away.
    TransportClosed,
    /// A request could not be sent: the transport to the server is broken.
    TransportSend,
    /// Any other failure, with its rendered text.
    Other { message: String },
}

/// The error of a failed upstream request on `server`'s `tool`: a closed or
/// broken transport is a disconnect, anything else a failed call that
/// carries the failure's text.
pub open spec fn spec_service_error(failure: ServiceFailure, server: Seq<char>, tool: Seq<char>) -> ToolErrorView {
    match failure {
        ServiceFailure::TransportClosed => ToolErrorView::UpstreamDisconnected { server, tool },
        ServiceFailure::TransportSend => ToolErrorView::UpstreamDisconnected { server, tool },
        ServiceFailure::Other { message } => ToolErrorView::UpstreamCall {
            server,
            tool,
            message: message@,
        },
    }
}

/// Map a failed upstream request to its tool error, telling a dead
/// transport apart from an ordinary call failure.
pub fn map_service_error(failure: ServiceFailure, server: &str, tool: &str) -> (r: ToolError)
    ensures
        r.view() == spec_service_error(failure, server@, tool@),
{
    match failure {
        ServiceFailure::TransportClosed => ToolError::UpstreamDisconnected {
            server: string_of(server),
            tool: string_of(tool),
        },
        ServiceFailure::TransportSend => ToolError::UpstreamDisconnected {
            server: string_of(server),
            tool: string_of(tool),
        },
        ServiceFailure::Other { message } => ToolError::UpstreamCall {
            server: string_of(server),
            tool: string_of(tool),
            message,
        },
    }
}

/// `unknown_tool` unless the server's current inventory lists `tool`;
/// checked before any call is forwarded.
pub fn ensure_listed_tool(server: &str, tool: &str, inventory: &Vec<String>) -> (r: Result<
    (),
    ToolError,
>)
    ensures
        r is Ok <==> lists(inventory@, tool@),
        r matches Err(e) ==> e.view() == (ToolErrorView::UnknownTool {
            server: server@,
            tool: tool@,
        }),
{
    if contains_str(inventory, tool) {
        Ok(())
    } else {
        Err(ToolError::UnknownTool { server: string_of(server), tool: string_of(tool) })
    }
}

/// What became of a forwarded call within its timeout.
#[derive(Debug)]
pub enum CallOutcome<T> {
    /// The upstream answered.
    Completed(T),
    /// The upstream request failed.
    Failed(ServiceFailure),
    /// The timeout elapsed first.
    TimedOut,
}

/// The result of a forwarded call: the upstream's answer relayed as is, the
/// mapped failure, or `upstream_timeout` naming the server and tool.
pub fn settle_call<T>(server: &str, tool: &str, outcome: CallOutcome<T>) -> (r: Result<T, ToolError>)
    ensures
        match outcome {
            CallOutcome::Completed(v) => r == Ok::<T, ToolError>(v),
            CallOutcome::Failed(f) => r matches Err(e) && e.view() == spec_service_error(
                f,
                server@,
                tool@,
            ),
            CallOutcome::TimedOut => r matches Err(e) && e.view() == (ToolErrorView::UpstreamTimeout {
                server: server@,
                tool: Some(tool@),
            }),
        },
{
    match outcome {
        CallOutcome::Completed(v) => Ok(v),
        CallOutcome::Failed(f) => Err(map_service_error(f, server, tool)),
        CallOutcome::TimedOut => Err(
            ToolError::UpstreamTimeout { server: string_of(server), tool: Some(string_of(tool)) },
        ),
    }
}

/// The answer to an `invoke_tool` call raced against the downstream
/// client's cancellation: the settled call, or `call_cancelled` when the
/// cancellation came first.
pub fn settle_invoke<T>(server: &str, tool: &str, finished: Option<Result<T, ToolError>>) -> (r:
    Result<T, ToolError>)
    ensures
        match finished {
            Some(res) => r == res,
            None => r matches Err(e) && e.view() == (ToolErrorView::CallCancelled {
                server: server@,
                tool: tool@,
            }),
        },
{
    match finished {
        Some(res) => res,
        None => Err(ToolError::CallCancelled { server: string_of(server), tool: string_of(tool) }),
    }
}

/// What a read does after refetching an inventory that a `list_changed`
/// notification marked stale: on success the fresh inventory is installed
/// and the mark stays cleared (`false`); on failure the mark is restored
/// (`true`) so the next read retries, and the read fails with the mapped
/// error (no tool named).
pub fn refetch_outcome<T>(server: &str, refetch: Result<T, ServiceFailure>) -> (r: (
    bool,
    Result<T, ToolError>,
))
    ensures
        match refetch {
            Ok(v) => !r.0 && r.1 == Ok::<T, ToolError>(v),
            Err(f) => r.0 && (r.1 matches Err(e) && e.view() == spec_service_error(
                f,
                server@,
                Seq::empty(),
            )),
        },
{
    match refetch {
        Ok(v) => {
            let res: Result<T, ToolError> = Ok(v);
            (false, res)
        },
        Err(f) => {
            let none = String::new();
            (true, Err(map_service_error(f, server, none.as_str())))
        },
    }
}

} // verus!
