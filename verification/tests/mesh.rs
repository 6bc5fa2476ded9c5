use hivebear::mesh::{reader_continues, require_connection, require_listening, bind_failure, ReadOutcome, HELLO_LIMIT, MESSAGE_LIMIT};
use hivebear::mesh::{
    accept_incoming, bytes_eq, decode_pins, encode_pins, fingerprint, peer_from_reply,
    plan_mesh_start, tofu_check, TofuPins, HandshakeMessage, MeshConnectionStatus, MeshError,
    MeshNodeSnapshot, MeshStart, TofuVerdict,
};
use hivebear::offload::{GpuInfo, HardwareProfile, MemoryInfo};

const ABC_SHA256: &str = "ba7816bf8f01cfea414140de5dae2223b00361a396177a9cb410ff61f20015ad";

fn hex(b: &[u8]) -> String {
    b.iter().map(|x| format!("{x:02x}")).collect()
}

#[test]
fn fingerprint_is_sha256() {
    let fp = fingerprint(b"abc");
    assert_eq!(fp.len(), 32);
    assert_eq!(hex(&fp), ABC_SHA256);
}

#[test]
fn first_use_pins_then_trusts() {
    let first = tofu_check(None, b"cert-one", "peer");
    let pin = match first {
        TofuVerdict::PinNew(fp) => fp,
        other => panic!("unexpected {other:?}"),
    };
    assert_eq!(pin, fingerprint(b"cert-one"));
    assert!(matches!(tofu_check(Some(&pin), b"cert-one", "peer"), TofuVerdict::Trusted));
    match tofu_check(Some(&pin), b"cert-two", "peer") {
        TofuVerdict::Rejected(m) => {
            assert_eq!(m, "TOFU certificate mismatch for 'peer': pinned fingerprint does not match")
        }
        other => panic!("unexpected {other:?}"),
    }
}

#[test]
fn pins_survive_a_round_trip_through_hex() {
    let pins = vec![("a".to_string(), vec![0u8, 1, 254, 255]), ("b".to_string(), fingerprint(b"x"))];
    let stored = encode_pins(&pins);
    assert_eq!(stored[0], ("a".to_string(), "0001feff".to_string()));
    let back = decode_pins(&stored);
    assert_eq!(back, pins);
}

#[test]
fn invalid_stored_pins_are_skipped() {
    let stored = vec![
        ("good".to_string(), "0A0b".to_string()),
        ("odd".to_string(), "abc".to_string()),
        ("bad".to_string(), "zz".to_string()),
    ];
    assert_eq!(decode_pins(&stored), vec![("good".to_string(), vec![10u8, 11])]);
}

#[test]
fn incoming_hello_is_accepted() {
    let hello = HandshakeMessage::Hello { node_id: vec![1, 2], protocol_version: 3 };
    let p = accept_incoming(&hello, 3).unwrap();
    assert_eq!(p.node_id, vec![1, 2]);
    assert!(p.version_matches);
    assert!(!accept_incoming(&hello, 4).unwrap().version_matches);
    assert!(accept_incoming(&HandshakeMessage::Other, 3).is_none());
}

#[test]
fn hello_replies_name_the_peer() {
    let ack = HandshakeMessage::HelloAck { node_id: vec![9], accepted: true };
    assert_eq!(peer_from_reply(&ack).unwrap(), vec![9]);
    let hello = HandshakeMessage::Hello { node_id: vec![8], protocol_version: 1 };
    assert_eq!(peer_from_reply(&hello).unwrap(), vec![8]);
    let refused = HandshakeMessage::HelloAck { node_id: vec![9], accepted: false };
    assert!(matches!(peer_from_reply(&refused), Err(MeshError::Transport(m)) if m == "Peer rejected connection"));
    assert!(matches!(peer_from_reply(&HandshakeMessage::Other), Err(MeshError::Protocol(m)) if m == "Expected Hello/HelloAck"));
}

#[test]
fn byte_strings_compare_exactly() {
    assert!(bytes_eq(&[1, 2], &[1, 2]));
    assert!(!bytes_eq(&[1, 2], &[1, 3]));
    assert!(!bytes_eq(&[1], &[1, 2]));
}

#[test]
fn connection_status_reports_the_node() {
    let none = MeshConnectionStatus::of(None);
    assert!(!none.running);
    assert_eq!(none.peer_count, 0);
    assert_eq!(none.node_id, None);
    let snap = MeshNodeSnapshot { running: true, peer_count: 3, local_id: vec![0xab, 0x01] };
    let s = MeshConnectionStatus::of(Some(&snap));
    assert!(s.running);
    assert_eq!(s.peer_count, 3);
    assert_eq!(s.node_id.as_deref(), Some("ab01"));
}

#[test]
fn mesh_start_is_planned() {
    let hw = HardwareProfile {
        memory: MemoryInfo { total_bytes: 32, available_bytes: 16 },
        gpus: vec![
            GpuInfo { name: "a".into(), vram_bytes: 8 },
            GpuInfo { name: "b".into(), vram_bytes: 4 },
        ],
    };
    assert!(matches!(plan_mesh_start(true, true, 7878, &hw), MeshStart::AlreadyRunning));
    match plan_mesh_start(false, false, 7878, &hw) {
        MeshStart::Start { enable_in_config, listen_addr, available_memory_bytes, available_vram_bytes } => {
            assert!(enable_in_config);
            assert_eq!(listen_addr, "0.0.0.0:7878");
            assert_eq!(available_memory_bytes, 16);
            assert_eq!(available_vram_bytes, 12);
        }
        other => panic!("unexpected {other:?}"),
    }
}

#[test]
fn peer_readers_stop_on_closure_and_skip_garbage() {
    assert!(!reader_continues(&ReadOutcome::Closed));
    assert!(!reader_continues(&ReadOutcome::ReadFailed));
    assert!(reader_continues(&ReadOutcome::Undecodable));
    assert!(reader_continues(&ReadOutcome::Decoded { delivered: true }));
    assert!(!reader_continues(&ReadOutcome::Decoded { delivered: false }));
    assert!(matches!(require_connection(false, "abcd"), Err(MeshError::PeerDisconnected(p)) if p == "abcd"));
    assert!(require_connection(true, "abcd").is_ok());
    assert!(matches!(require_listening(false), Err(MeshError::Transport(m)) if m == "Not listening"));
    assert!(matches!(bind_failure("in use", "denied"), MeshError::Transport(m) if m == "bind primary (in use) and fallback (denied) failed"));
    assert_eq!(MESSAGE_LIMIT, 16 * 1024 * 1024);
    assert_eq!(HELLO_LIMIT, 64 * 1024);
}

#[test]
fn running_node_is_left_alone_whatever_the_vram() {
    let hw = HardwareProfile {
        memory: MemoryInfo { total_bytes: 1, available_bytes: 1 },
        gpus: vec![
            GpuInfo { name: "a".into(), vram_bytes: u64::MAX },
            GpuInfo { name: "b".into(), vram_bytes: u64::MAX },
        ],
    };
    assert!(matches!(plan_mesh_start(true, false, 1, &hw), MeshStart::AlreadyRunning));
}

#[test]
fn tofu_pins_keep_the_first_fingerprint() {
    let loaded = vec![("a".to_string(), vec![1u8, 2])];
    let mut pins = TofuPins::new(&loaded);
    assert_eq!(pins.verify_server_cert("b", b"cert-one"), Ok(true));
    assert_eq!(pins.verify_server_cert("b", b"cert-one"), Ok(false));
    assert_eq!(
        pins.verify_server_cert("b", b"cert-two"),
        Err("TOFU certificate mismatch for 'b': pinned fingerprint does not match".to_string())
    );
    assert_eq!(pins.verify_server_cert("b", b"cert-one"), Ok(false));
    assert!(pins.verify_server_cert("a", b"cert-one").is_err());
    let mut stored = pins.pins_to_store();
    stored.sort();
    assert_eq!(stored.len(), 2);
    assert_eq!(stored[0], ("a".to_string(), "0102".to_string()));
    assert_eq!(stored[1].0, "b");
    assert_eq!(stored[1].1.len(), 64);
}
