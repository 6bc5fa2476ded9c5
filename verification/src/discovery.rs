//! How the mesh client treats the coordination server's replies: which
//! failures are tolerated (the node keeps running locally) and which are
//! reported, and the addresses of the server's endpoints.
use vstd::prelude::*;

use crate::download::{status_display, status_reason};
use crate::huggingface::{decimal, decimal_string};
use crate::mesh::MeshError;

verus! {

broadcast use vstd::string::group_string_axioms;

/// The coordination server's endpoints, as the client uses them.
#[derive(Clone, Copy, Debug, PartialEq, Eq, Structural)]
pub enum Endpoint {
    Register,
    FindPeers,
    Heartbeat,
    Matchmake,
    JoinSwarm,
    LeaveSwarm,
    GetModels,
    GetDashboard,
    SendSignal,
    PollSignals,
    GetMe,
    KarmaBalance,
    ClaimKarma,
}

/// What came back from a request to the coordination server.
#[derive(Clone, Debug)]
pub enum Reply {
    /// The server answered with this status.
    Status(u16),
    /// The server could not be reached or timed out; the text says why.
    Unreachable(String),
    /// The request failed otherwise; the text says why.
    Failed(String),
}

/// What the client does with a reply.
#[derive(Debug)]
pub enum ReplyAction {
    /// Read the answer's body.
    ReadBody,
    /// Done, successfully, with nothing to read (an empty list or a zero
    /// balance where the endpoint returns one).
    Tolerate,
    /// Fail with this error.
    Fail(MeshError),
}

/// The prefix of the error for a request that could not be sent, by
/// endpoint.
pub open spec fn send_failure_prefix(e: Endpoint) -> Seq<char> {
    match e {
        Endpoint::Register => "Failed to contact coordination server: "@,
        Endpoint::FindPeers => "Peer discovery failed: "@,
        Endpoint::Heartbeat => "Heartbeat failed: "@,
        Endpoint::Matchmake => "Matchmake request failed: "@,
        Endpoint::JoinSwarm => "Join swarm failed: "@,
        Endpoint::LeaveSwarm => "Leave swarm failed: "@,
        Endpoint::GetModels => "Get models failed: "@,
        Endpoint::GetDashboard => "Get dashboard failed: "@,
        Endpoint::SendSignal => "Signal send failed: "@,
        Endpoint::PollSignals => "Signal poll failed: "@,
        Endpoint::GetMe => "Get me failed: "@,
        Endpoint::KarmaBalance => ""@,
        Endpoint::ClaimKarma => "Claim karma network error: "@,
    }
}

/// Endpoints whose unreachable server is tolerated: the node degrades to
/// local-only operation.
pub open spec fn tolerates_unreachable(e: Endpoint) -> bool {
    e == Endpoint::Register || e == Endpoint::FindPeers || e == Endpoint::Heartbeat || e
        == Endpoint::SendSignal || e == Endpoint::PollSignals || e == Endpoint::KarmaBalance
}

/// The prefix of the error for a refused answer, by endpoint; `None` where
/// a refused answer is tolerated.
pub open spec fn refusal_prefix(e: Endpoint) -> Option<Seq<char>> {
    match e {
        Endpoint::Register => Some("Coordination server returned "@),
        Endpoint::Matchmake => Some("Matchmake returned "@),
        Endpoint::JoinSwarm => Some("Join swarm returned "@),
        Endpoint::LeaveSwarm => Some("Leave swarm returned "@),
        _ => None,
    }
}

/// Whether the endpoint returns a body to read on success.
pub open spec fn reads_body(e: Endpoint) -> bool {
    !(e == Endpoint::Register || e == Endpoint::Heartbeat || e == Endpoint::JoinSwarm || e
        == Endpoint::LeaveSwarm || e == Endpoint::SendSignal)
}

/// The client's treatment of a reply from an endpoint.
pub open spec fn reply_policy(e: Endpoint, reply: Reply, r: ReplyAction) -> bool {
    match reply {
        Reply::Status(code) => if 200 <= code < 300 || e == Endpoint::GetDashboard {
            if reads_body(e) {
                r is ReadBody
            } else {
                r is Tolerate
            }
        } else if e == Endpoint::GetMe {
            r matches ReplyAction::Fail(MeshError::Discovery(m)) && m@ == "Not authenticated"@
        } else if e == Endpoint::ClaimKarma {
            r is ReadBody
        } else {
            match refusal_prefix(e) {
                Some(p) => r matches ReplyAction::Fail(MeshError::Discovery(m)) && m@ == p
                    + decimal(code as nat) + " "@ + status_reason(code),
                None => r is Tolerate,
            }
        },
        Reply::Unreachable(err) => if tolerates_unreachable(e) {
            r is Tolerate
        } else {
            r matches ReplyAction::Fail(MeshError::Discovery(m)) && m@ == send_failure_prefix(e)
                + err@
        },
        Reply::Failed(err) => if e == Endpoint::KarmaBalance {
            r is Tolerate
        } else {
            r matches ReplyAction::Fail(MeshError::Discovery(m)) && m@ == send_failure_prefix(e)
                + err@
        },
    }
}

fn send_failure(e: Endpoint, err: &str) -> (r: MeshError)
    ensures
        r matches MeshError::Discovery(m) && m@ == send_failure_prefix(e) + err@,
{
    let mut m = match e {
        Endpoint::Register => "Failed to contact coordination server: ",
        Endpoint::FindPeers => "Peer discovery failed: ",
        Endpoint::Heartbeat => "Heartbeat failed: ",
        Endpoint::Matchmake => "Matchmake request failed: ",
        Endpoint::JoinSwarm => "Join swarm failed: ",
        Endpoint::LeaveSwarm => "Leave swarm failed: ",
        Endpoint::GetModels => "Get models failed: ",
        Endpoint::GetDashboard => "Get dashboard failed: ",
        Endpoint::SendSignal => "Signal send failed: ",
        Endpoint::PollSignals => "Signal poll failed: ",
        Endpoint::GetMe => "Get me failed: ",
        Endpoint::KarmaBalance => "",
        Endpoint::ClaimKarma => "Claim karma network error: ",
    }.to_owned();
    m.append(err);
    MeshError::Discovery(m)
}

/// Decide what to do with a reply from the coordination server. A claim
/// that is refused is answered with the server's explanation, read from
/// the body (see `claim_rejected`).
pub fn handle_reply(e: Endpoint, reply: &Reply) -> (r: ReplyAction)
    requires
        reply matches Reply::Status(c) ==> 100 <= *c <= 999,
    ensures
        reply_policy(e, *reply, r),
{
    match reply {
        Reply::Status(code) => {
            let code = *code;
            let reads = !(e == Endpoint::Register || e == Endpoint::Heartbeat || e
                == Endpoint::JoinSwarm || e == Endpoint::LeaveSwarm || e == Endpoint::SendSignal);
            assert(reads == reads_body(e));
            if (200 <= code && code < 300) || e == Endpoint::GetDashboard {
                if reads {
                    ReplyAction::ReadBody
                } else {
                    ReplyAction::Tolerate
                }
            } else if e == Endpoint::GetMe {
                ReplyAction::Fail(MeshError::Discovery("Not authenticated".to_owned()))
            } else if e == Endpoint::ClaimKarma {
                ReplyAction::ReadBody
            } else {
                let prefix = match e {
                    Endpoint::Register => Some("Coordination server returned "),
                    Endpoint::Matchmake => Some("Matchmake returned "),
                    Endpoint::JoinSwarm => Some("Join swarm returned "),
                    Endpoint::LeaveSwarm => Some("Leave swarm returned "),
                    _ => None,
                };
                proof {
                    reveal_strlit("Coordination server returned ");
                    reveal_strlit("Matchmake returned ");
                    reveal_strlit("Join swarm returned ");
                    reveal_strlit("Leave swarm returned ");
                }
                assert(match prefix {
                    Some(p) => refusal_prefix(e) == Some(p@),
                    None => refusal_prefix(e) is None,
                });
                match prefix {
                    Some(p) => {
                        let mut m = p.to_owned();
                        let s = status_display(code);
                        m.append(s.as_str());
                        assert(m@ == p@ + decimal(code as nat) + " "@ + status_reason(code));
                        let r = ReplyAction::Fail(MeshError::Discovery(m));
                        assert(!(200 <= code < 300 || e == Endpoint::GetDashboard));
                        assert(reply_policy(e, *reply, r));
                        r
                    },
                    None => ReplyAction::Tolerate,
                }
            }
        },
        Reply::Unreachable(err) => {
            if e == Endpoint::Register || e == Endpoint::FindPeers || e == Endpoint::Heartbeat
                || e == Endpoint::SendSignal || e == Endpoint::PollSignals || e
                == Endpoint::KarmaBalance {
                ReplyAction::Tolerate
            } else {
                ReplyAction::Fail(send_failure(e, err.as_str()))
            }
        },
        Reply::Failed(err) => {
            if e == Endpoint::KarmaBalance {
                ReplyAction::Tolerate
            } else {
                ReplyAction::Fail(send_failure(e, err.as_str()))
            }
        },
    }
}

/// The error for a refused karma claim, with the server's explanation.
pub fn claim_rejected(body: &str) -> (r: MeshError)
    ensures
        r matches MeshError::Discovery(m) && m@ == "Claim karma rejected: "@ + body@,
{
    let mut m = "Claim karma rejected: ".to_owned();
    m.append(body);
    MeshError::Discovery(m)
}

/// A heartbeat needs a prior registration.
pub fn require_registered(registered: bool) -> (r: Result<(), MeshError>)
    ensures
        registered ==> r is Ok,
        !registered ==> (r matches Err(MeshError::Discovery(m)) && m@ == "Not registered"@),
{
    if registered {
        Ok(())
    } else {
        Err(MeshError::Discovery("Not registered".to_owned()))
    }
}

/// The peer query: `base/peers?model=..&min_memory=..` (the model id is
/// sent as is).
pub fn peers_url(base: &str, model_id: &str, min_memory_bytes: u64) -> (r: String)
    ensures
        r@ == base@ + "/peers?model="@ + model_id@ + "&min_memory="@ + decimal(
            min_memory_bytes as nat,
        ),
{
    let mut u = base.to_owned();
    u.append("/peers?model=");
    u.append(model_id);
    u.append("&min_memory=");
    let n = decimal_string(min_memory_bytes);
    u.append(n.as_str());
    u
}

/// An endpoint under the server: `base/path`.
pub fn endpoint_url(base: &str, path: &str) -> (r: String)
    ensures
        r@ == base@ + "/"@ + path@,
{
    let mut u = base.to_owned();
    u.append("/");
    u.append(path);
    u
}

/// A query for one node: `base/path?node_id=..`.
pub fn node_query_url(base: &str, path: &str, node_id: &str) -> (r: String)
    ensures
        r@ == base@ + "/"@ + path@ + "?node_id="@ + node_id@,
{
    let mut u = endpoint_url(base, path);
    u.append("?node_id=");
    u.append(node_id);
    u
}

/// A swarm action: `base/swarms/<id>/<action>`.
pub fn swarm_url(base: &str, swarm_id: &str, action: &str) -> (r: String)
    ensures
        r@ == base@ + "/swarms/"@ + swarm_id@ + "/"@ + action@,
{
    let mut u = base.to_owned();
    u.append("/swarms/");
    u.append(swarm_id);
    u.append("/");
    u.append(action);
    u
}

/// Whether the server is reached over TLS; a plain-HTTP server is warned
/// about, as credentials would travel in clear text.
pub fn uses_tls(base: &str) -> (r: bool)
    ensures
        r == crate::text::starts_with(base@, "https://"@),
{
    let b = crate::text::chars_of(base);
    let p = crate::text::chars_of("https://");
    crate::text::starts_with_chars(&b, &p)
}

/// Tolerated failures never stop the node: an unreachable server is
/// tolerated by every endpoint the node needs to keep running.
pub proof fn keeps_running_without_server(e: Endpoint, err: String, r: ReplyAction)
    requires
        e == Endpoint::Register || e == Endpoint::Heartbeat || e == Endpoint::FindPeers,
        reply_policy(e, Reply::Unreachable(err), r),
    ensures
        r is Tolerate,
{
}

} // verus!
