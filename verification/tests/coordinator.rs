use hivebear::coordinator::{
    receipt_key, tier_for, ClaimRejection, Coordinator, PeerRecord, SignalDelivery, Tier,
    WorkReceipt,
};

fn peer(id: &str, mem: u64, vram: u64, model: Option<&str>) -> PeerRecord {
    PeerRecord {
        node_id: id.into(),
        addr: format!("10.0.0.1:{}", 7000 + mem % 100),
        available_memory_bytes: mem,
        available_vram_bytes: vram,
        serving_model_id: model.map(|m| m.to_string()),
        tier: "Free".into(),
        info: serde_json::Value::String(id.to_string()),
    }
}

fn receipt(client: &str, worker: &str, tokens: u64, nonce: &str) -> WorkReceipt {
    WorkReceipt {
        client_node_id: client.into(),
        worker_node_id: worker.into(),
        tokens_processed: tokens,
        timestamp: 1700000000,
        nonce: nonce.into(),
        signature_hash: "sig".into(),
    }
}

#[test]
fn tiers_follow_karma() {
    assert_eq!(tier_for(0), Tier::Community);
    assert_eq!(tier_for(-5), Tier::Community);
    assert_eq!(tier_for(1), Tier::Contributor);
    assert_eq!(tier_for(499), Tier::Contributor);
    assert_eq!(tier_for(500), Tier::VipAlpha);
    assert_eq!(Tier::VipAlpha.as_str(), "VIP_ALPHA");
    assert_eq!(Tier::Contributor.as_str(), "CONTRIBUTOR");
    assert_eq!(Tier::Community.as_str(), "COMMUNITY");
}

#[test]
fn receipt_keys_join_client_nonce_and_time() {
    assert_eq!(receipt_key(&receipt("c", "w", 1, "n1")), "c:n1:1700000000");
}

#[test]
fn a_receipt_is_paid_once() {
    let mut c = Coordinator::new();
    c.register(peer("client", 1, 0, None), 0);
    let r = receipt("client", "worker", 6000, "n");
    let award = c.claim_karma(&r, 10).unwrap();
    assert_eq!(award.worker_node_id, "worker");
    assert_eq!(award.karma_awarded, 6000);
    assert_eq!(award.new_balance, 6000);
    match c.claim_karma(&r, 11) {
        Err(ClaimRejection::AlreadyClaimed(m)) => {
            assert_eq!(m, "Receipt already claimed (anti-replay check failed)")
        }
        other => panic!("unexpected {other:?}"),
    }
    let b = c.karma_balance("worker");
    assert_eq!(b.karma, 6000);
    assert_eq!(b.tier, Tier::VipAlpha);
}

#[test]
fn claims_are_checked_in_order() {
    let mut c = Coordinator::new();
    let e = c.claim_karma(&receipt("stranger", "w", 5001, "a"), 0).unwrap_err();
    assert_eq!(e.status_code(), 403);
    assert!(matches!(e, ClaimRejection::UnknownClient(ref m) if m == "Client node not recognized for high-token claims"));
    let e = c.claim_karma(&receipt("stranger", "w", 0, "b"), 0).unwrap_err();
    assert_eq!(e.status_code(), 400);
    assert!(matches!(e, ClaimRejection::InvalidTokens(ref m) if m == "Invalid token range in work receipt"));
    c.register(peer("known", 1, 0, None), 0);
    let e = c.claim_karma(&receipt("known", "w", 100001, "c"), 0).unwrap_err();
    assert_eq!(e.status_code(), 400);
    let ok = c.claim_karma(&receipt("stranger", "w", 5000, "d"), 0).unwrap();
    assert_eq!(ok.new_balance, 5000);
    let ok = c.claim_karma(&receipt("known", "w", 100000, "e"), 0).unwrap();
    assert_eq!(ok.new_balance, 105000);
    assert_eq!(ClaimRejection::AlreadyClaimed(String::new()).status_code(), 409);
}

#[test]
fn mailboxes_hold_fifty_signals() {
    let mut c = Coordinator::new();
    for i in 0..50 {
        assert_eq!(c.send_signal("n", serde_json::Value::from(i)), SignalDelivery::Queued);
    }
    let refused = c.send_signal("n", serde_json::Value::from(50));
    assert_eq!(refused, SignalDelivery::MailboxFull);
    assert_eq!(refused.status_code(), 429);
    assert_eq!(SignalDelivery::Queued.status_code(), 200);
    let got = c.poll_signals("n");
    assert_eq!(got.len(), 50);
    assert_eq!(got[0], serde_json::Value::from(0));
    assert_eq!(got[49], serde_json::Value::from(49));
    assert!(c.poll_signals("n").is_empty());
    assert_eq!(c.send_signal("n", serde_json::Value::from(1)), SignalDelivery::Queued);
}

#[test]
fn peers_are_filtered_by_memory_and_model() {
    let mut c = Coordinator::new();
    c.register(peer("a", 100, 0, Some("llama-3-8b")), 0);
    c.register(peer("b", 50, 0, Some("qwen-7b")), 0);
    c.register(peer("d", 200, 0, None), 0);
    let mut ids: Vec<String> = c.list_peers(Some("llama"), Some(60)).into_iter().map(|p| p.node_id).collect();
    ids.sort();
    assert_eq!(ids, vec!["a".to_string(), "d".to_string()]);
    let mut all: Vec<String> = c.list_peers(None, None).into_iter().map(|p| p.node_id).collect();
    all.sort();
    assert_eq!(all, vec!["a".to_string(), "b".to_string(), "d".to_string()]);
    let mut empty_model: Vec<String> = c.list_peers(Some(""), Some(100)).into_iter().map(|p| p.node_id).collect();
    empty_model.sort();
    assert_eq!(empty_model, vec!["a".to_string(), "d".to_string()]);
}

#[test]
fn matchmaking_ranks_by_karma() {
    let mut c = Coordinator::new();
    for id in ["p1", "p2", "p3", "me"] {
        c.register(peer(id, 1, 0, None), 0);
    }
    c.claim_karma(&receipt("me", "p2", 300, "x"), 0).unwrap();
    c.claim_karma(&receipt("me", "p3", 100, "y"), 0).unwrap();
    c.claim_karma(&receipt("p1", "me", 600, "z"), 0).unwrap();
    let m = c.matchmake("me", Some("llama"));
    assert_eq!(m.swarm_id, "swarm-llama");
    assert_eq!(m.assigned_role, "worker");
    assert_eq!(m.total_peers_in_swarm, 4);
    assert_eq!(m.requester_karma, 600);
    assert_eq!(m.priority_tier, Tier::VipAlpha);
    let order: Vec<(String, i64)> = m.ranked_peers.iter().map(|p| (p.node_id.clone(), p.karma)).collect();
    assert_eq!(order[0], ("me".to_string(), 600));
    assert_eq!(order[1], ("p2".to_string(), 300));
    assert_eq!(order[2], ("p3".to_string(), 100));
    assert_eq!(order[3], ("p1".to_string(), 0));
    assert_eq!(c.matchmake("nobody", None).swarm_id, "swarm-default");
    assert_eq!(c.matchmake("nobody", None).priority_tier, Tier::Community);
}

#[test]
fn stale_nodes_and_their_signals_are_pruned() {
    let mut c = Coordinator::new();
    c.register(peer("old", 1, 0, None), 1_000);
    c.register(peer("new", 1, 0, None), 50_000);
    c.send_signal("old", serde_json::Value::from(1));
    c.send_signal("new", serde_json::Value::from(2));
    let gone = c.prune(61_000);
    assert_eq!(gone, vec!["old".to_string()]);
    assert_eq!(c.dashboard().total_active_nodes, 1);
    assert!(c.poll_signals("old").is_empty());
    assert_eq!(c.poll_signals("new").len(), 1);
    c.heartbeat(peer("new", 1, 0, None), 100_000);
    assert!(c.prune(159_999).is_empty());
}

#[test]
fn deregistering_forgets_node_and_signals() {
    let mut c = Coordinator::new();
    c.register(peer("n", 1, 0, None), 0);
    c.send_signal("n", serde_json::Value::from(1));
    c.deregister(Some("n"));
    assert!(c.list_peers(None, None).is_empty());
    assert!(c.poll_signals("n").is_empty());
    c.deregister(None);
}

#[test]
fn dashboard_totals_the_network() {
    let mut c = Coordinator::new();
    c.register(peer("a", 100, 10, None), 0);
    c.register(peer("b", 200, 20, None), 0);
    c.claim_karma(&receipt("a", "b", 7, "k"), 0).unwrap();
    let d = c.dashboard();
    assert_eq!(d.total_active_nodes, 2);
    assert_eq!(d.total_network_ram_bytes, 300);
    assert_eq!(d.total_network_vram_bytes, 30);
    let b = d.nodes.iter().find(|n| n.node_id == "b").unwrap();
    assert_eq!(b.karma, 7);
    assert_eq!(b.tier, "Free");
}
