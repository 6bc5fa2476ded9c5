use hivebear::discovery::{
    claim_rejected, endpoint_url, handle_reply, node_query_url, peers_url, require_registered,
    swarm_url, uses_tls, Endpoint, Reply, ReplyAction,
};
use hivebear::mesh::MeshError;

fn failure(a: ReplyAction) -> String {
    match a {
        ReplyAction::Fail(MeshError::Discovery(m)) => m,
        other => panic!("unexpected {other:?}"),
    }
}

#[test]
fn registration_degrades_when_the_server_is_away() {
    assert!(matches!(handle_reply(Endpoint::Register, &Reply::Status(200)), ReplyAction::Tolerate));
    assert!(matches!(handle_reply(Endpoint::Register, &Reply::Unreachable("refused".into())), ReplyAction::Tolerate));
    assert_eq!(failure(handle_reply(Endpoint::Register, &Reply::Status(500))), "Coordination server returned 500 Internal Server Error");
    assert_eq!(failure(handle_reply(Endpoint::Register, &Reply::Failed("tls".into()))), "Failed to contact coordination server: tls");
}

#[test]
fn peer_queries_fall_back_to_no_peers() {
    assert!(matches!(handle_reply(Endpoint::FindPeers, &Reply::Status(200)), ReplyAction::ReadBody));
    assert!(matches!(handle_reply(Endpoint::FindPeers, &Reply::Status(503)), ReplyAction::Tolerate));
    assert!(matches!(handle_reply(Endpoint::PollSignals, &Reply::Unreachable("x".into())), ReplyAction::Tolerate));
    assert_eq!(failure(handle_reply(Endpoint::FindPeers, &Reply::Failed("bad".into()))), "Peer discovery failed: bad");
    assert_eq!(failure(handle_reply(Endpoint::PollSignals, &Reply::Failed("bad".into()))), "Signal poll failed: bad");
}

#[test]
fn swarm_requests_report_failures() {
    assert_eq!(failure(handle_reply(Endpoint::Matchmake, &Reply::Status(404))), "Matchmake returned 404 Not Found");
    assert_eq!(failure(handle_reply(Endpoint::JoinSwarm, &Reply::Status(409))), "Join swarm returned 409 Conflict");
    assert_eq!(failure(handle_reply(Endpoint::LeaveSwarm, &Reply::Unreachable("down".into()))), "Leave swarm failed: down");
    assert!(matches!(handle_reply(Endpoint::JoinSwarm, &Reply::Status(200)), ReplyAction::Tolerate));
    assert!(matches!(handle_reply(Endpoint::GetModels, &Reply::Status(500)), ReplyAction::Tolerate));
    assert!(matches!(handle_reply(Endpoint::GetDashboard, &Reply::Status(500)), ReplyAction::ReadBody));
    assert_eq!(failure(handle_reply(Endpoint::GetMe, &Reply::Status(401))), "Not authenticated");
    assert!(matches!(handle_reply(Endpoint::KarmaBalance, &Reply::Failed("x".into())), ReplyAction::Tolerate));
    assert!(matches!(handle_reply(Endpoint::ClaimKarma, &Reply::Status(409)), ReplyAction::ReadBody));
    assert_eq!(failure(handle_reply(Endpoint::ClaimKarma, &Reply::Unreachable("x".into()))), "Claim karma network error: x");
    assert!(matches!(claim_rejected("dup"), MeshError::Discovery(m) if m == "Claim karma rejected: dup"));
    assert!(matches!(require_registered(false), Err(MeshError::Discovery(m)) if m == "Not registered"));
    assert!(require_registered(true).is_ok());
}

#[test]
fn endpoint_addresses() {
    assert_eq!(peers_url("http://c", "llama", 1024), "http://c/peers?model=llama&min_memory=1024");
    assert_eq!(endpoint_url("http://c", "register"), "http://c/register");
    assert_eq!(node_query_url("http://c", "signals", "n1"), "http://c/signals?node_id=n1");
    assert_eq!(swarm_url("http://c", "swarm-x", "join"), "http://c/swarms/swarm-x/join");
    assert!(uses_tls("https://mesh.hivebear.com"));
    assert!(!uses_tls("http://34.66.188.245"));
}
