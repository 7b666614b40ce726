//! Connections to upstream MCP servers: how a configuration entry is
//! resolved, which servers are kept after connecting, and how a tool call
//! recovers from a failed transport.
use vstd::prelude::*;
use crate::config::McpServerConfigEntry;
use crate::manifest::copy_strings;
use crate::namemap::NameMap;
use crate::text::{owned, push_str, views};

verus! {

/// Resolved configuration for connecting to an upstream MCP server.
#[derive(Debug)]
pub enum McpServerResolvedConfig {
    Stdio { command: String, args: Vec<String>, env: NameMap<String> },
    Http { url: String },
}

impl McpServerResolvedConfig {
    /// Resolves a configuration entry: a command wins over a URL; missing
    /// arguments and environment are empty.
    pub fn from_entry(entry: &McpServerConfigEntry) -> (r: Result<McpServerResolvedConfig, String>)
        ensures
            match entry.command {
                Some(c) => r matches Ok(McpServerResolvedConfig::Stdio { command, args, env }) && command
                    == c && args@ == (match entry.args {
                    Some(a) => a@,
                    None => Seq::<String>::empty(),
                }) && env@ == (match entry.env {
                    Some(e) => e@,
                    None => Map::<Seq<char>, String>::empty(),
                }),
                None => match entry.url {
                    Some(u) => r matches Ok(McpServerResolvedConfig::Http { url }) && url == u,
                    None => r matches Err(m) && m@ == "config entry must have either 'command' or 'url'"@,
                },
            },
    {
        if let Some(cmd) = &entry.command {
            let args = match &entry.args {
                Some(a) => copy_strings(a),
                None => Vec::new(),
            };
            let env = match &entry.env {
                Some(e) => e.copy(),
                None => NameMap::new(),
            };
            Ok(McpServerResolvedConfig::Stdio { command: cmd.clone(), args, env })
        } else if let Some(url) = &entry.url {
            Ok(McpServerResolvedConfig::Http { url: url.clone() })
        } else {
            Err(owned("config entry must have either 'command' or 'url'"))
        }
    }
}

/// The kinds of failure of a request to an upstream server that matter
/// here.
#[derive(Debug, Clone, Copy, PartialEq, Eq)]
pub enum ServiceErrorKind {
    /// The request could not be sent.
    TransportSend,
    /// The connection is closed.
    TransportClosed,
    /// Any other failure, such as an error response.
    Other,
}

/// A failure of the transport, as opposed to an error the server answered.
pub fn is_transport_error(kind: ServiceErrorKind) -> (r: bool)
    ensures
        r == (kind == ServiceErrorKind::TransportSend || kind == ServiceErrorKind::TransportClosed),
{
    match kind {
        ServiceErrorKind::TransportSend => true,
        ServiceErrorKind::TransportClosed => true,
        ServiceErrorKind::Other => false,
    }
}

// ---------------------------------------------------------------------------
// Connecting
// ---------------------------------------------------------------------------

/// The servers that connected, in order, with their connections.
pub open spec fn connected_servers<H>(rs: Seq<(String, Result<H, String>)>) -> Seq<(String, H)>
    decreases rs.len(),
{
    if rs.len() == 0 {
        Seq::empty()
    } else {
        match rs.last().1 {
            Ok(h) => connected_servers(rs.drop_last()).push((rs.last().0, h)),
            Err(_) => connected_servers(rs.drop_last()),
        }
    }
}

/// The warning for a server that failed to connect.
pub open spec fn skip_warning(name: Seq<char>, error: Seq<char>) -> Seq<char> {
    "MCP: failed to connect to '"@ + name + "', skipping: "@ + error
}

/// One warning per server that failed to connect, in order.
pub open spec fn connect_warnings<H>(rs: Seq<(String, Result<H, String>)>) -> Seq<Seq<char>>
    decreases rs.len(),
{
    if rs.len() == 0 {
        Seq::empty()
    } else {
        match rs.last().1 {
            Ok(_) => connect_warnings(rs.drop_last()),
            Err(e) => connect_warnings(rs.drop_last()).push(skip_warning(rs.last().0@, e@)),
        }
    }
}

/// After connecting to every configured server: keeps the servers that
/// connected and skips the others, with a warning for each.
pub fn keep_connected<H>(results: Vec<(String, Result<H, String>)>) -> (r: (
    Vec<(String, H)>,
    Vec<String>,
))
    ensures
        r.0@ == connected_servers(results@),
        views(r.1@) == connect_warnings(results@),
{
    let ghost all = results@;
    let mut rest = results;
    let mut kept: Vec<(String, H)> = Vec::new();
    let mut warnings: Vec<String> = Vec::new();
    let ghost mut j: int = 0;
    proof {
        assert(rest@ =~= all.skip(0));
        assert(all.take(0) =~= Seq::<(String, Result<H, String>)>::empty());
        assert(views(warnings@) =~= Seq::<Seq<char>>::empty());
    }
    while rest.len() > 0
        invariant
            0 <= j <= all.len(),
            rest@ == all.skip(j),
            kept@ == connected_servers(all.take(j)),
            views(warnings@) == connect_warnings(all.take(j)),
        decreases rest@.len(),
    {
        let (name, outcome) = rest.remove(0);
        proof {
            assert(all[j] == (name, outcome));
            assert(all.take(j + 1).drop_last() =~= all.take(j));
            assert(all.take(j + 1).last() == all[j]);
        }
        match outcome {
            Ok(h) => {
                kept.push((name, h));
            },
            Err(e) => {
                let mut w = owned("MCP: failed to connect to '");
                push_str(&mut w, name.as_str());
                push_str(&mut w, "', skipping: ");
                push_str(&mut w, e.as_str());
                let ghost before = warnings@;
                warnings.push(w);
                proof {
                    assert(views(warnings@) =~= views(before).push(w@));
                }
            },
        }
        proof {
            assert(rest@ =~= all.skip(j + 1));
            j = j + 1;
        }
    }
    proof {
        assert(all.take(j) =~= all);
    }
    (kept, warnings)
}

// ---------------------------------------------------------------------------
// Calling a tool
// ---------------------------------------------------------------------------

/// Where a call to an upstream tool stands.
#[derive(Debug, PartialEq, Eq)]
pub enum UpstreamState {
    /// The first attempt is under way.
    First,
    /// The first attempt failed on the transport (its error is kept); a new
    /// connection is being made.
    Reconnecting { original: String },
    /// The call is being made once more, over the new connection.
    Retried,
}

/// What happened since the last step.
#[derive(Debug, PartialEq, Eq)]
pub enum UpstreamEvent {
    /// The call answered.
    CallOk,
    /// The call failed; `closed` says whether the connection is closed.
    CallFailed { kind: ServiceErrorKind, closed: bool, message: String },
    /// A new connection was made.
    Reconnected,
    /// Making a new connection failed.
    ReconnectFailed { message: String },
}

/// What to do next.
#[derive(Debug, PartialEq, Eq)]
pub enum UpstreamAction {
    /// Close the connection and make a new one.
    Reconnect,
    /// Make the same call again over the new connection.
    Retry,
    /// The call is over, with this outcome.
    Finish(Result<(), String>),
}

/// The message for a server that is not connected.
pub open spec fn unknown_server(server: Seq<char>) -> Seq<char> {
    "unknown MCP server: '"@ + server + "'"@
}

/// A call starts only on a connected server.
pub fn begin_call(server: &str, connected: bool) -> (r: Result<UpstreamState, String>)
    ensures
        connected ==> r == Ok::<UpstreamState, String>(UpstreamState::First),
        !connected ==> (r matches Err(m) && m@ == unknown_server(server@)),
{
    if connected {
        Ok(UpstreamState::First)
    } else {
        let mut m = owned("unknown MCP server: '");
        push_str(&mut m, server);
        push_str(&mut m, "'");
        Err(m)
    }
}

/// The events that can follow a state: a call's outcome, or, while
/// reconnecting, the outcome of the new connection.
pub open spec fn event_expected(state: UpstreamState, event: UpstreamEvent) -> bool {
    match state {
        UpstreamState::Reconnecting { .. } => event is Reconnected || event is ReconnectFailed,
        _ => event is CallOk || event is CallFailed,
    }
}

/// One step of a tool call: an answer finishes it; a failure of the first
/// attempt on the transport, or with the connection closed, leads to one
/// reconnection and one retry; any other failure finishes it with an error
/// that names the server and, after a failed reconnection, the first error.
pub open spec fn step_outcome(
    server: Seq<char>,
    state: UpstreamState,
    event: UpstreamEvent,
    r: (UpstreamState, UpstreamAction),
) -> bool {
    match state {
        UpstreamState::First => match event {
            UpstreamEvent::CallOk => r == (UpstreamState::First, UpstreamAction::Finish(Ok(()))),
            UpstreamEvent::CallFailed { kind, closed, message } => if kind
                == ServiceErrorKind::TransportSend || kind == ServiceErrorKind::TransportClosed
                || closed {
                &&& r.0 matches UpstreamState::Reconnecting { original } && original@ == message@
                &&& r.1 == UpstreamAction::Reconnect
            } else {
                &&& r.0 == UpstreamState::First
                &&& r.1 matches UpstreamAction::Finish(Err(m)) && m@ == "call_tool to '"@ + server
                    + "' failed: "@ + message@
            },
            _ => false,
        },
        UpstreamState::Reconnecting { original } => match event {
            UpstreamEvent::Reconnected => r == (UpstreamState::Retried, UpstreamAction::Retry),
            UpstreamEvent::ReconnectFailed { message } => {
                &&& r.0 matches UpstreamState::Reconnecting { original: o } && o@ == original@
                &&& r.1 matches UpstreamAction::Finish(Err(m)) && m@ == "reconnect to '"@ + server
                    + "' failed (original error: "@ + original@ + "): "@ + message@
            },
            _ => false,
        },
        UpstreamState::Retried => match event {
            UpstreamEvent::CallOk => r == (UpstreamState::Retried, UpstreamAction::Finish(Ok(()))),
            UpstreamEvent::CallFailed { message, .. } => {
                &&& r.0 == UpstreamState::Retried
                &&& r.1 matches UpstreamAction::Finish(Err(m)) && m@ == "call_tool retry to '"@
                    + server + "' failed after reconnect: "@ + message@
            },
            _ => false,
        },
    }
}

/// Takes one step of a tool call (see `step_outcome`).
pub fn upstream_call_step(server: &str, state: UpstreamState, event: UpstreamEvent) -> (r: (
    UpstreamState,
    UpstreamAction,
))
    requires
        event_expected(state, event),
    ensures
        step_outcome(server@, state, event, r),
{
    match state {
        UpstreamState::First => match event {
            UpstreamEvent::CallFailed { kind, closed, message } => {
                if is_transport_error(kind) || closed {
                    (UpstreamState::Reconnecting { original: message }, UpstreamAction::Reconnect)
                } else {
                    let mut m = owned("call_tool to '");
                    push_str(&mut m, server);
                    push_str(&mut m, "' failed: ");
                    push_str(&mut m, message.as_str());
                    (UpstreamState::First, UpstreamAction::Finish(Err(m)))
                }
            },
            _ => (UpstreamState::First, UpstreamAction::Finish(Ok(()))),
        },
        UpstreamState::Reconnecting { original } => match event {
            UpstreamEvent::ReconnectFailed { message } => {
                let mut m = owned("reconnect to '");
                push_str(&mut m, server);
                push_str(&mut m, "' failed (original error: ");
                push_str(&mut m, original.as_str());
                push_str(&mut m, "): ");
                push_str(&mut m, message.as_str());
                (UpstreamState::Reconnecting { original }, UpstreamAction::Finish(Err(m)))
            },
            _ => (UpstreamState::Retried, UpstreamAction::Retry),
        },
        UpstreamState::Retried => match event {
            UpstreamEvent::CallFailed { message, .. } => {
                let mut m = owned("call_tool retry to '");
                push_str(&mut m, server);
                push_str(&mut m, "' failed after reconnect: ");
                push_str(&mut m, message.as_str());
                (UpstreamState::Retried, UpstreamAction::Finish(Err(m)))
            },
            _ => (UpstreamState::Retried, UpstreamAction::Finish(Ok(()))),
        },
    }
}

} // verus!
