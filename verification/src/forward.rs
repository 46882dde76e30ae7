//! Decisions of the client side of each upstream connection: whether the
//! upstream is told it may ask for elicitation, whether such a request is
//! forwarded to the downstream client, and the structured rejections of the
//! requests the aggregator does not serve.

use vstd::prelude::*;

use crate::text::string_of;

verus! {

/// Whether the downstream client can answer an elicitation: its peer was
/// captured after the initialize handshake and it declared the elicitation
/// capability (an unknown declaration counts as not declared).
pub open spec fn spec_elicitation_available(peer_captured: bool, declared: Option<bool>) -> bool {
    peer_captured && declared == Some(true)
}

/// The single condition that gates both the advertisement of elicitation to
/// an upstream and the forwarding of its elicitation requests.
pub fn elicitation_available(peer_captured: bool, declared: Option<bool>) -> (r: bool)
    ensures
        r == spec_elicitation_available(peer_captured, declared),
{
    peer_captured && match declared {
        Some(d) => d,
        None => false,
    }
}

/// The client capabilities announced to an upstream.
#[derive(Debug, Clone, Copy, PartialEq, Eq, Structural)]
pub struct UpstreamCapabilities {
    /// Whether elicitation is announced.
    pub elicitation: bool,
}

/// The capabilities announced to an upstream: elicitation exactly when the
/// downstream client can answer it.
pub fn upstream_capabilities(peer_captured: bool, declared: Option<bool>) -> (r:
    UpstreamCapabilities)
    ensures
        r.elicitation == spec_elicitation_available(peer_captured, declared),
{
    UpstreamCapabilities { elicitation: elicitation_available(peer_captured, declared) }
}

/// A structured refusal of an upstream request, answered as an
/// `invalid_request` protocol error carrying `{server, code, recoverable}`.
#[derive(Debug)]
pub struct Rejection {
    pub message: &'static str,
    pub server: String,
    pub code: &'static str,
    pub recoverable: bool,
}

/// A rejection taken as character sequences: message, server, code and
/// whether it is recoverable.
pub open spec fn rejection_view(r: Rejection) -> (Seq<char>, Seq<char>, Seq<char>, bool) {
    (r.message@, r.server@, r.code@, r.recoverable)
}

/// The refusal of a sampling request: sampling is never served.
pub open spec fn sampling_rejected(server: Seq<char>) -> (Seq<char>, Seq<char>, Seq<char>, bool) {
    (
        "fanin-mcp does not support upstream sampling requests"@,
        server,
        "sampling_rejected"@,
        false,
    )
}

/// The refusal of an elicitation request when the downstream client cannot
/// answer it.
pub open spec fn elicitation_rejected(server: Seq<char>) -> (Seq<char>, Seq<char>, Seq<char>, bool) {
    (
        "fanin-mcp does not support upstream elicitation requests in this session"@,
        server,
        "elicitation_rejected"@,
        false,
    )
}

/// The answer to a forwarded elicitation that did not come back as a
/// response: a non-accept.
pub open spec fn elicitation_non_accept(server: Seq<char>) -> (Seq<char>, Seq<char>, Seq<char>, bool) {
    (
        "fanin-mcp forwarded elicitation resolved to non-accept"@,
        server,
        "elicitation_non_accept"@,
        true,
    )
}

/// Refuse an upstream sampling request.
pub fn sampling_rejection(server: &str) -> (r: Rejection)
    ensures
        rejection_view(r) == sampling_rejected(server@),
{
    Rejection {
        message: "fanin-mcp does not support upstream sampling requests",
        server: string_of(server),
        code: "sampling_rejected",
        recoverable: false,
    }
}

/// Where an upstream's elicitation request goes.
#[derive(Debug)]
pub enum ElicitationRoute {
    /// Forward it to the downstream client, bounded by the server's timeout.
    Forward { timeout_secs: u64 },
    /// Refuse it.
    Reject(Rejection),
}

/// Route an upstream's elicitation request: forwarded, within the server's
/// call timeout, exactly when the downstream client can answer it, refused
/// otherwise.
pub fn route_elicitation(
    server: &str,
    peer_captured: bool,
    declared: Option<bool>,
    timeout_secs: u64,
) -> (r: ElicitationRoute)
    ensures
        spec_elicitation_available(peer_captured, declared) ==> r == (ElicitationRoute::Forward {
            timeout_secs,
        }),
        !spec_elicitation_available(peer_captured, declared) ==> (r matches ElicitationRoute::Reject(
            rej,
        ) && rejection_view(rej) == elicitation_rejected(server@)),
{
    if elicitation_available(peer_captured, declared) {
        ElicitationRoute::Forward { timeout_secs }
    } else {
        ElicitationRoute::Reject(
            Rejection {
                message: "fanin-mcp does not support upstream elicitation requests in this session",
                server: string_of(server),
                code: "elicitation_rejected",
                recoverable: false,
            },
        )
    }
}

/// The answer relayed to an upstream for a forwarded elicitation: the
/// downstream response verbatim (accept, decline or cancel alike), and for
/// any failure (timeout, disconnect, malformed or error response) a
/// recoverable non-accept; a failure is never turned into an accept.
pub fn settle_elicitation<T, E>(server: &str, response: Result<T, E>) -> (r: Result<T, Rejection>)
    ensures
        match response {
            Ok(v) => r == Ok::<T, Rejection>(v),
            Err(_) => r matches Err(rej) && rejection_view(rej) == elicitation_non_accept(server@),
        },
{
    match response {
        Ok(v) => Ok(v),
        Err(_) => Err(
            Rejection {
                message: "fanin-mcp forwarded elicitation resolved to non-accept",
                server: string_of(server),
                code: "elicitation_non_accept",
                recoverable: true,
            },
        ),
    }
}

} // verus!
