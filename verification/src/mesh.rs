//! Mesh transport decisions: node keys, the Hello handshake, certificate
//! pinning on first use, and the node's status and start-up plan.
use vstd::prelude::*;

use crate::download::lower_hex;
use crate::offload::{sum_vram, total_vram, HardwareProfile};
use crate::huggingface::{decimal, decimal_string};
use crate::text::str_eq;

verus! {

broadcast use vstd::string::group_string_axioms;

/// Errors of the mesh layer.
#[derive(Clone, Debug)]
pub enum MeshError {
    /// The transport failed or the peer refused the connection.
    Transport(String),
    /// The peer broke the protocol.
    Protocol(String),
    /// No connection to the peer.
    PeerDisconnected(String),
    /// The coordination server could not be used.
    Discovery(String),
}

/// The handshake messages of the mesh protocol, with the fields the
/// handshake reads.
#[derive(Clone, Debug)]
pub enum HandshakeMessage {
    /// A node introduces itself.
    Hello { node_id: Vec<u8>, protocol_version: u32 },
    /// The answer to a Hello.
    HelloAck { node_id: Vec<u8>, accepted: bool },
    /// Any other message.
    Other,
}

/// An accepted incoming Hello: who the peer is and whether it speaks our
/// protocol version (a mismatch is only reported).
#[derive(Clone, Debug)]
pub struct IncomingPeer {
    pub node_id: Vec<u8>,
    pub version_matches: bool,
}

/// The first message on an incoming connection: a Hello is answered with an
/// accepting HelloAck and the connection is kept under the peer's id; any
/// other message leaves the connection unused.
pub fn accept_incoming(msg: &HandshakeMessage, protocol_version: u32) -> (r: Option<IncomingPeer>)
    ensures
        match *msg {
            HandshakeMessage::Hello { node_id, protocol_version: v } => r matches Some(p)
                && p.node_id@ == node_id@ && p.version_matches == (v == protocol_version),
            _ => r is None,
        },
{
    match msg {
        HandshakeMessage::Hello { node_id, protocol_version: v } => Some(
            IncomingPeer { node_id: node_id.clone(), version_matches: *v == protocol_version },
        ),
        _ => None,
    }
}

/// The answer to our Hello when connecting: the peer's id from an accepting
/// HelloAck or from a Hello; a refusing HelloAck or any other message is an
/// error.
pub fn peer_from_reply(msg: &HandshakeMessage) -> (r: Result<Vec<u8>, MeshError>)
    ensures
        match *msg {
            HandshakeMessage::HelloAck { node_id, accepted } => if accepted {
                r matches Ok(id) && id@ == node_id@
            } else {
                r matches Err(MeshError::Transport(m)) && m@ == "Peer rejected connection"@
            },
            HandshakeMessage::Hello { node_id, .. } => r matches Ok(id) && id@ == node_id@,
            HandshakeMessage::Other => r matches Err(MeshError::Protocol(m)) && m@
                == "Expected Hello/HelloAck"@,
        },
{
    match msg {
        HandshakeMessage::HelloAck { node_id, accepted } => {
            if !*accepted {
                return Err(MeshError::Transport("Peer rejected connection".to_owned()));
            }
            Ok(node_id.clone())
        },
        HandshakeMessage::Hello { node_id, .. } => Ok(node_id.clone()),
        HandshakeMessage::Other => Err(MeshError::Protocol("Expected Hello/HelloAck".to_owned())),
    }
}

/// The most bytes read for one mesh message.
pub const MESSAGE_LIMIT: usize = 16777216;

/// The most bytes read for a Hello or its answer.
pub const HELLO_LIMIT: usize = 65536;

/// What reading the next message from a peer came to.
#[derive(Clone, Debug)]
pub enum ReadOutcome {
    /// No further stream: the connection closed.
    Closed,
    /// The stream could not be read (or was over the size limit).
    ReadFailed,
    /// The bytes did not decode as a message.
    Undecodable,
    /// A message was decoded; whether handing it to the inbox worked.
    Decoded { delivered: bool },
}

/// Whether a peer's reader keeps reading after an outcome: it stops when
/// the connection closes, a read fails or nobody takes the messages any
/// more, and skips messages it cannot decode.
pub fn reader_continues(outcome: &ReadOutcome) -> (r: bool)
    ensures
        r == match *outcome {
            ReadOutcome::Closed => false,
            ReadOutcome::ReadFailed => false,
            ReadOutcome::Undecodable => true,
            ReadOutcome::Decoded { delivered } => delivered,
        },
{
    match outcome {
        ReadOutcome::Closed => false,
        ReadOutcome::ReadFailed => false,
        ReadOutcome::Undecodable => true,
        ReadOutcome::Decoded { delivered } => *delivered,
    }
}

/// Sending needs a connection to the peer (named by its displayed id).
pub fn require_connection(connected: bool, peer: &str) -> (r: Result<(), MeshError>)
    ensures
        connected ==> r is Ok,
        !connected ==> (r matches Err(MeshError::PeerDisconnected(p)) && p@ == peer@),
{
    if connected {
        Ok(())
    } else {
        Err(MeshError::PeerDisconnected(peer.to_owned()))
    }
}

/// Connecting needs the node to be listening.
pub fn require_listening(listening: bool) -> (r: Result<(), MeshError>)
    ensures
        listening ==> r is Ok,
        !listening ==> (r matches Err(MeshError::Transport(m)) && m@ == "Not listening"@),
{
    if listening {
        Ok(())
    } else {
        Err(MeshError::Transport("Not listening".to_owned()))
    }
}

/// The error when neither the requested address nor the fallback one can
/// be bound.
pub fn bind_failure(primary: &str, fallback: &str) -> (r: MeshError)
    ensures
        r matches MeshError::Transport(m) && m@ == "bind primary ("@ + primary@ + ") and fallback ("@
            + fallback@ + ") failed"@,
{
    let mut m = "bind primary (".to_owned();
    m.append(primary);
    m.append(") and fallback (");
    m.append(fallback);
    m.append(") failed");
    MeshError::Transport(m)
}

/// Names the SHA-256 digest of a byte string.
pub uninterp spec fn sha256(data: Seq<u8>) -> Seq<u8>;

/// `sha2::Sha256` over `data`: its digest, 32 bytes long.
#[verifier::external_body]
fn sha256_digest(data: &[u8]) -> (r: Vec<u8>)
    ensures
        r@ == sha256(data@),
        r@.len() == 32,
{
    <sha2::Sha256 as sha2::Digest>::digest(data).to_vec()
}

/// The SHA-256 fingerprint of a DER-encoded certificate.
pub fn fingerprint(cert_der: &[u8]) -> (r: Vec<u8>)
    ensures
        r@ == sha256(cert_der@),
        r@.len() == 32,
{
    sha256_digest(cert_der)
}

/// `hex::encode`: two lower-case hexadecimal digits per byte.
#[verifier::external_body]
pub(crate) fn hex_encode(data: &[u8]) -> (r: String)
    ensures
        r@ == lower_hex(data@),
{
    hex::encode(data)
}

/// The value of a hexadecimal digit of either case.
pub open spec fn hex_value(c: char) -> Option<u8> {
    if '0' <= c <= '9' {
        Some((c as u32 - 48) as u8)
    } else if 'a' <= c <= 'f' {
        Some((c as u32 - 87) as u8)
    } else if 'A' <= c <= 'F' {
        Some((c as u32 - 55) as u8)
    } else {
        None
    }
}

/// What `hex::decode` makes of a string: the bytes that each pair of
/// digits denotes, or nothing when the length is odd or a character is not
/// a hexadecimal digit.
pub open spec fn hex_decoded(s: Seq<char>) -> Option<Seq<u8>> {
    if s.len() % 2 == 0 && forall|i: int| 0 <= i < s.len() ==> #[trigger] hex_value(s[i]) is Some {
        Some(
            Seq::new(
                s.len() / 2,
                |i: int| (hex_value(s[2 * i])->0 * 16 + hex_value(s[2 * i + 1])->0) as u8,
            ),
        )
    } else {
        None
    }
}

/// `hex::decode`, which accepts digits of either case.
#[verifier::external_body]
pub(crate) fn hex_decode(s: &str) -> (r: Option<Vec<u8>>)
    ensures
        match r {
            Some(v) => hex_decoded(s@) == Some(v@),
            None => hex_decoded(s@) is None,
        },
{
    match hex::decode(s) {
        Ok(v) => Some(v),
        Err(_) => None,
    }
}

/// The verdict on a server certificate under trust on first use.
#[derive(Clone, Debug)]
pub enum TofuVerdict {
    /// The certificate matches the pinned fingerprint.
    Trusted,
    /// First contact: pin this fingerprint for the server name.
    PinNew(Vec<u8>),
    /// The fingerprint differs from the pinned one: refuse, with this error.
    Rejected(String),
}

/// Trust on first use: a server name seen before must present a
/// certificate with the pinned fingerprint; an unseen one is pinned.
pub fn tofu_check(pinned: Option<&[u8]>, cert_der: &[u8], server_name: &str) -> (r: TofuVerdict)
    ensures
        tofu_follows(
            match pinned {
                Some(p) => Some(p@),
                None => None,
            },
            cert_der@,
            server_name@,
            r,
        ),
{
    let fp = fingerprint(cert_der);
    match pinned {
        Some(p) => {
            if bytes_eq(p, fp.as_slice()) {
                TofuVerdict::Trusted
            } else {
                let mut m = "TOFU certificate mismatch for '".to_owned();
                m.append(server_name);
                m.append("': pinned fingerprint does not match");
                TofuVerdict::Rejected(m)
            }
        },
        None => TofuVerdict::PinNew(fp),
    }
}

/// Names the pins of a trust-on-first-use table: server name to the SHA-256
/// fingerprint of its pinned certificate.
pub uninterp spec fn pin_table(m: dashmap::DashMap<String, Vec<u8>>) -> Map<Seq<char>, Seq<u8>>;

/// `DashMap::new` for the pin table: no pins.
#[verifier::external_body]
fn new_pin_table() -> (r: dashmap::DashMap<String, Vec<u8>>)
    ensures
        pin_table(r) =~= Map::empty(),
{
    dashmap::DashMap::new()
}

/// `DashMap::get` on the pin table, the fingerprint cloned out.
#[verifier::external_body]
fn pin_lookup(m: &dashmap::DashMap<String, Vec<u8>>, key: &str) -> (r: Option<Vec<u8>>)
    ensures
        match r {
            Some(v) => pin_table(*m).contains_key(key@) && v@ == pin_table(*m)[key@],
            None => !pin_table(*m).contains_key(key@),
        },
{
    match m.get(key) {
        Some(v) => Some(v.value().clone()),
        None => None,
    }
}

/// `DashMap::insert` on the pin table: the name now maps to the fingerprint.
#[verifier::external_body]
fn pin_insert(m: &mut dashmap::DashMap<String, Vec<u8>>, key: String, fp: Vec<u8>)
    ensures
        pin_table(*final(m)) == pin_table(*old(m)).insert(key@, fp@),
{
    m.insert(key, fp);
}

/// `DashMap::iter` on the pin table, each pin cloned: every name appears
/// once, with its fingerprint, in an order the table does not fix.
#[verifier::external_body]
fn pin_entries(m: &dashmap::DashMap<String, Vec<u8>>) -> (r: Vec<(String, Vec<u8>)>)
    ensures
        forall|i: int|
            0 <= i < r@.len() ==> pin_table(*m).contains_key(#[trigger] r@[i].0@)
                && pin_table(*m)[r@[i].0@] == r@[i].1@,
        forall|i: int, j: int| 0 <= i < j < r@.len() ==> r@[i].0@ != r@[j].0@,
        forall|k: Seq<char>|
            pin_table(*m).contains_key(k) ==> exists|i: int| 0 <= i < r@.len() && #[trigger] r@[i].0@ == k,
{
    m.iter().map(|e| (e.key().clone(), e.value().clone())).collect()
}

/// The pins made from stored (name, fingerprint) pairs, in order; a later
/// pair for a name replaces an earlier one.
pub open spec fn pins_from(entries: Seq<(String, Vec<u8>)>) -> Map<Seq<char>, Seq<u8>>
    decreases entries.len(),
{
    if entries.len() == 0 {
        Map::empty()
    } else {
        pins_from(entries.drop_last()).insert(entries.last().0@, entries.last().1@)
    }
}

/// A certificate for `name` is accepted: the name is unpinned, or pinned to
/// the certificate's fingerprint.
pub open spec fn tofu_accepts(pins: Map<Seq<char>, Seq<u8>>, name: Seq<char>, cert_der: Seq<u8>) -> bool {
    !pins.contains_key(name) || pins[name] == sha256(cert_der)
}

/// The pins after a certificate for `name` was checked: an unpinned name is
/// pinned to the certificate's fingerprint; nothing else changes.
pub open spec fn pins_after(pins: Map<Seq<char>, Seq<u8>>, name: Seq<char>, cert_der: Seq<u8>) -> Map<
    Seq<char>,
    Seq<u8>,
> {
    if pins.contains_key(name) {
        pins
    } else {
        pins.insert(name, sha256(cert_der))
    }
}

/// The trust-on-first-use table of server certificate fingerprints that a
/// mesh client checks servers against.
pub struct TofuPins {
    pinned: dashmap::DashMap<String, Vec<u8>>,
}

impl TofuPins {
    /// The pins, by server name.
    pub closed spec fn pins(&self) -> Map<Seq<char>, Seq<u8>> {
        pin_table(self.pinned)
    }

    /// A table holding the pins loaded from storage (see `decode_pins`).
    pub fn new(loaded: &Vec<(String, Vec<u8>)>) -> (t: TofuPins)
        ensures
            t.pins() == pins_from(loaded@),
    {
        let mut pinned = new_pin_table();
        let mut i: usize = 0;
        while i < loaded.len()
            invariant
                i <= loaded@.len(),
                pin_table(pinned) == pins_from(loaded@.take(i as int)),
            decreases loaded@.len() - i,
        {
            proof {
                assert(loaded@.take(i + 1).drop_last() =~= loaded@.take(i as int));
            }
            let name = loaded[i].0.clone();
            let fp = loaded[i].1.clone();
            pin_insert(&mut pinned, name, fp);
            i = i + 1;
        }
        proof {
            assert(loaded@.take(loaded@.len() as int) =~= loaded@);
        }
        TofuPins { pinned }
    }

    /// The pins as they are stored: (server name, hex fingerprint), each
    /// pinned name once, in no fixed order.
    pub fn pins_to_store(&self) -> (r: Vec<(String, String)>)
        ensures
            forall|i: int|
                0 <= i < r@.len() ==> self.pins().contains_key(#[trigger] r@[i].0@) && r@[i].1@
                    == lower_hex(self.pins()[r@[i].0@]),
            forall|i: int, j: int| 0 <= i < j < r@.len() ==> r@[i].0@ != r@[j].0@,
            forall|k: Seq<char>|
                self.pins().contains_key(k) ==> exists|i: int| 0 <= i < r@.len() && #[trigger] r@[i].0@ == k,
    {
        let entries = pin_entries(&self.pinned);
        let r = encode_pins(&entries);
        proof {
            assert forall|k: Seq<char>| self.pins().contains_key(k) implies exists|i: int|
                0 <= i < r@.len() && #[trigger] r@[i].0@ == k by {
                let i = choose|i: int| 0 <= i < entries@.len() && #[trigger] entries@[i].0@ == k;
                assert(r@[i].0@ == entries@[i].0@);
            }
            assert forall|i: int, j: int| 0 <= i < j < r@.len() implies r@[i].0@ != r@[j].0@ by {
                assert(r@[i].0@ == entries@[i].0@);
                assert(r@[j].0@ == entries@[j].0@);
            }
            assert forall|i: int| 0 <= i < r@.len() implies self.pins().contains_key(
                #[trigger] r@[i].0@,
            ) && r@[i].1@ == lower_hex(self.pins()[r@[i].0@]) by {
                assert(r@[i].0@ == entries@[i].0@);
                assert(self.pins().contains_key(entries@[i].0@));
            }
        }
        r
    }

    /// Check a server's certificate: `Ok(false)` when it matches the pinned
    /// fingerprint, `Ok(true)` when the name was unpinned and is now pinned
    /// to it (the pins should then be stored), an error when the name is
    /// pinned to another fingerprint.
    pub fn verify_server_cert(&mut self, server_name: &str, cert_der: &[u8]) -> (r: Result<
        bool,
        String,
    >)
        ensures
            final(self).pins() == pins_after(old(self).pins(), server_name@, cert_der@),
            r is Ok <==> tofu_accepts(old(self).pins(), server_name@, cert_der@),
            r matches Ok(pinned_now) ==> pinned_now == !old(self).pins().contains_key(server_name@),
            r matches Err(m) ==> m@ == "TOFU certificate mismatch for '"@ + server_name@
                + "': pinned fingerprint does not match"@,
    {
        let existing = pin_lookup(&self.pinned, server_name);
        let verdict = match &existing {
            Some(p) => tofu_check(Some(p.as_slice()), cert_der, server_name),
            None => tofu_check(None, cert_der, server_name),
        };
        match verdict {
            TofuVerdict::Trusted => Ok(false),
            TofuVerdict::Rejected(m) => Err(m),
            TofuVerdict::PinNew(fp) => {
                pin_insert(&mut self.pinned, server_name.to_owned(), fp);
                Ok(true)
            },
        }
    }
}

/// A check never moves or drops a pin: every name pinned before keeps its
/// fingerprint.
pub proof fn pins_are_never_replaced(
    pins: Map<Seq<char>, Seq<u8>>,
    name: Seq<char>,
    cert_der: Seq<u8>,
    other: Seq<char>,
)
    requires
        pins.contains_key(other),
    ensures
        pins_after(pins, name, cert_der).contains_key(other),
        pins_after(pins, name, cert_der)[other] == pins[other],
{
}

/// Once a certificate for a name is accepted, the name is pinned to its
/// fingerprint: a later certificate for the name is accepted exactly when
/// it has the same fingerprint, and the pins stay as they are.
pub proof fn accepted_certificate_stays_pinned(
    pins: Map<Seq<char>, Seq<u8>>,
    name: Seq<char>,
    first: Seq<u8>,
    later: Seq<u8>,
)
    requires
        tofu_accepts(pins, name, first),
    ensures
        ({
            let p1 = pins_after(pins, name, first);
            &&& p1.contains_key(name) && p1[name] == sha256(first)
            &&& tofu_accepts(p1, name, later) <==> sha256(later) == sha256(first)
            &&& pins_after(p1, name, later) == p1
        }),
{
}

/// Whether two byte strings are equal.
pub fn bytes_eq(a: &[u8], b: &[u8]) -> (r: bool)
    ensures
        r == (a@ == b@),
{
    if a.len() != b.len() {
        return false;
    }
    let mut i: usize = 0;
    while i < a.len()
        invariant
            i <= a@.len(),
            a@.len() == b@.len(),
            forall|j: int| 0 <= j < i ==> a@[j] == b@[j],
        decreases a@.len() - i,
    {
        if a[i] != b[i] {
            return false;
        }
        i = i + 1;
    }
    proof {
        assert(a@ =~= b@);
    }
    true
}

/// Pins as stored on disk (server name, hex fingerprint), decoded in order;
/// a pin whose fingerprint is not valid hex is skipped.
pub fn decode_pins(stored: &Vec<(String, String)>) -> (r: Vec<(String, Vec<u8>)>)
    ensures
        exists|src: Seq<int>| decoded_from(stored@, r@, src),
{
    let mut r: Vec<(String, Vec<u8>)> = Vec::new();
    let ghost mut src: Seq<int> = Seq::empty();
    let mut j: usize = 0;
    while j < stored.len()
        invariant
            j <= stored@.len(),
            src.len() == r@.len(),
            forall|t: int|
                0 <= t < r@.len() ==> 0 <= #[trigger] src[t] < j && r@[t].0@ == stored@[src[t]].0@
                    && hex_decoded(stored@[src[t]].1@) == Some(r@[t].1@),
            forall|t1: int, t2: int| 0 <= t1 < t2 < r@.len() ==> src[t1] < src[t2],
            forall|k: int|
                0 <= k < j && (#[trigger] hex_decoded(stored@[k].1@)) is Some ==> exists|t: int|
                    0 <= t < r@.len() && src[t] == k,
        decreases stored@.len() - j,
    {
        let ghost src_before = src;
        let ghost len_before = r@.len();
        match hex_decode(stored[j].1.as_str()) {
            Some(fp) => {
                r.push((stored[j].0.clone(), fp));
                proof {
                    src = src.push(j as int);
                }
            },
            None => {},
        }
        proof {
            assert forall|k: int|
                0 <= k < j + 1 && (#[trigger] hex_decoded(stored@[k].1@)) is Some implies exists|t: int|
                0 <= t < r@.len() && src[t] == k by {
                if k == j {
                    assert(src[r@.len() - 1] == k);
                } else {
                    let t = choose|t: int| 0 <= t < len_before && src_before[t] == k;
                    assert(src[t] == k);
                }
            }
        }
        j = j + 1;
    }
    proof {
        assert(decoded_from(stored@, r@, src));
    }
    r
}

/// `r` holds, in order, the pins of `stored` whose fingerprint decodes,
/// each decoded; `src` gives the position each came from.
pub open spec fn decoded_from(
    stored: Seq<(String, String)>,
    r: Seq<(String, Vec<u8>)>,
    src: Seq<int>,
) -> bool {
    &&& src.len() == r.len()
    &&& forall|t: int|
        0 <= t < r.len() ==> 0 <= #[trigger] src[t] < stored.len() && r[t].0@
            == stored[src[t]].0@ && hex_decoded(stored[src[t]].1@) == Some(r[t].1@)
    &&& forall|t1: int, t2: int| 0 <= t1 < t2 < r.len() ==> src[t1] < src[t2]
    &&& forall|k: int|
        0 <= k < stored.len() && (#[trigger] hex_decoded(stored[k].1@)) is Some ==> exists|t: int|
            0 <= t < r.len() && src[t] == k
}

/// Pins as stored on disk: each fingerprint hex encoded.
pub fn encode_pins(pins: &Vec<(String, Vec<u8>)>) -> (r: Vec<(String, String)>)
    ensures
        r@.len() == pins@.len(),
        forall|i: int|
            0 <= i < r@.len() ==> (#[trigger] r@[i]).0@ == pins@[i].0@ && r@[i].1@ == lower_hex(
                pins@[i].1@,
            ),
{
    let mut r: Vec<(String, String)> = Vec::new();
    let mut i: usize = 0;
    while i < pins.len()
        invariant
            i <= pins@.len(),
            r@.len() == i,
            forall|t: int|
                0 <= t < i ==> (#[trigger] r@[t]).0@ == pins@[t].0@ && r@[t].1@ == lower_hex(
                    pins@[t].1@,
                ),
        decreases pins@.len() - i,
    {
        let h = hex_encode(pins[i].1.as_slice());
        r.push((pins[i].0.clone(), h));
        i = i + 1;
    }
    r
}

/// Live connection status of the mesh node.
#[derive(Clone, Debug)]
pub struct MeshConnectionStatus {
    /// Whether the mesh node is running.
    pub running: bool,
    /// Number of directly connected peers.
    pub peer_count: usize,
    /// The node's hex-encoded public key, if a node exists.
    pub node_id: Option<String>,
}

/// What the status reads of a mesh node.
#[derive(Clone, Debug)]
pub struct MeshNodeSnapshot {
    pub running: bool,
    pub peer_count: usize,
    /// The node's public key.
    pub local_id: Vec<u8>,
}

impl MeshConnectionStatus {
    /// The status of the node, or of no node.
    pub fn of(node: Option<&MeshNodeSnapshot>) -> (r: MeshConnectionStatus)
        ensures
            match node {
                Some(n) => r.running == n.running && r.peer_count == n.peer_count
                    && (r.node_id matches Some(id) && id@ == lower_hex(n.local_id@)),
                None => !r.running && r.peer_count == 0 && r.node_id is None,
            },
    {
        match node {
            Some(n) => MeshConnectionStatus {
                running: n.running,
                peer_count: n.peer_count,
                node_id: Some(hex_encode(n.local_id.as_slice())),
            },
            None => MeshConnectionStatus { running: false, peer_count: 0, node_id: None },
        }
    }
}

/// What starting the mesh does.
#[derive(Clone, Debug)]
pub enum MeshStart {
    /// A node is already running: nothing to do.
    AlreadyRunning,
    /// Start a node listening on `listen_addr`, announcing this much free
    /// memory and video memory; `enable_in_config` says whether the
    /// configuration must first be switched on and saved.
    Start {
        enable_in_config: bool,
        listen_addr: String,
        available_memory_bytes: u64,
        available_vram_bytes: u64,
    },
}

/// Plan the start of the mesh node: no-op if one is running; else enable
/// the mesh in the configuration if needed and listen on all interfaces at
/// the configured port, announcing the machine's free memory and total VRAM.
pub fn plan_mesh_start(node_running: bool, mesh_enabled: bool, port: u16, hw: &HardwareProfile) -> (r:
    MeshStart)
    requires
        !node_running ==> total_vram(hw.gpus@) <= u64::MAX,
    ensures
        node_running ==> r is AlreadyRunning,
        !node_running ==> (r matches MeshStart::Start {
            enable_in_config,
            listen_addr,
            available_memory_bytes,
            available_vram_bytes,
        } && enable_in_config == !mesh_enabled && listen_addr@ == "0.0.0.0:"@ + decimal(
            port as nat,
        ) && available_memory_bytes == hw.memory.available_bytes && available_vram_bytes
            == total_vram(hw.gpus@)),
{
    if node_running {
        return MeshStart::AlreadyRunning;
    }
    let mut addr = "0.0.0.0:".to_owned();
    let p = decimal_string(port as u64);
    addr.append(p.as_str());
    MeshStart::Start {
        enable_in_config: !mesh_enabled,
        listen_addr: addr,
        available_memory_bytes: hw.memory.available_bytes,
        available_vram_bytes: sum_vram(&hw.gpus),
    }
}


/// Whether `r` is the trust-on-first-use verdict on a certificate for
/// `server_name`, given the fingerprint pinned for that name, if any.
pub open spec fn tofu_follows(
    pinned: Option<Seq<u8>>,
    cert_der: Seq<u8>,
    server_name: Seq<char>,
    r: TofuVerdict,
) -> bool {
    match pinned {
        Some(p) => if p == sha256(cert_der) {
            r is Trusted
        } else {
            r matches TofuVerdict::Rejected(m) && m@ == "TOFU certificate mismatch for '"@
                + server_name + "': pinned fingerprint does not match"@
        },
        None => r matches TofuVerdict::PinNew(fp) && fp@ == sha256(cert_der),
    }
}

/// Once a certificate is pinned on first use, the same certificate is
/// trusted from then on, and a certificate with another fingerprint is
/// refused.
pub proof fn pinned_certificate_is_trusted_again(
    cert: Seq<u8>,
    other: Seq<u8>,
    server_name: Seq<char>,
    first: TofuVerdict,
    again: TofuVerdict,
    imposter: TofuVerdict,
)
    requires
        tofu_follows(None, cert, server_name, first),
        first matches TofuVerdict::PinNew(fp) && tofu_follows(Some(fp@), cert, server_name, again)
            && tofu_follows(Some(fp@), other, server_name, imposter),
        sha256(other) != sha256(cert),
    ensures
        again is Trusted,
        imposter is Rejected,
{
}

proof fn lemma_lower_hex_shape(b: Seq<u8>)
    ensures
        lower_hex(b).len() == 2 * b.len(),
        forall|i: int|
            0 <= i < b.len() ==> lower_hex(b)[2 * i] == crate::download::hex_digit(
                (#[trigger] b[i] / 16) as nat,
            ) && lower_hex(b)[2 * i + 1] == crate::download::hex_digit((b[i] % 16) as nat),
    decreases b.len(),
{
    if b.len() > 0 {
        lemma_lower_hex_shape(b.drop_last());
        let p = b.drop_last();
        assert forall|i: int| 0 <= i < b.len() implies lower_hex(b)[2 * i]
            == crate::download::hex_digit((#[trigger] b[i] / 16) as nat) && lower_hex(b)[2 * i + 1]
            == crate::download::hex_digit((b[i] % 16) as nat) by {
            if i < b.len() - 1 {
                assert(b[i] == p[i]);
            }
        }
    }
}

proof fn lemma_hex_digit_value(d: nat)
    requires
        d < 16,
    ensures
        hex_value(crate::download::hex_digit(d)) == Some(d as u8),
{
}

/// A fingerprint written to disk as hex reads back as the same bytes, so
/// pins survive a restart.
pub proof fn stored_pin_reads_back(fp: Seq<u8>)
    ensures
        hex_decoded(lower_hex(fp)) == Some(fp),
{
    lemma_lower_hex_shape(fp);
    let s = lower_hex(fp);
    assert forall|i: int| 0 <= i < s.len() implies #[trigger] hex_value(s[i]) is Some by {
        let k = i / 2;
        assert(fp[k] / 16 < 16);
        lemma_hex_digit_value((fp[k] / 16) as nat);
        lemma_hex_digit_value((fp[k] % 16) as nat);
        if i % 2 == 0 {
            assert(i == 2 * k);
        } else {
            assert(i == 2 * k + 1);
        }
    }
    let d = Seq::new(
        s.len() / 2,
        |i: int| (hex_value(s[2 * i])->0 * 16 + hex_value(s[2 * i + 1])->0) as u8,
    );
    assert forall|i: int| 0 <= i < fp.len() implies d[i] == fp[i] by {
        lemma_hex_digit_value((fp[i] / 16) as nat);
        lemma_hex_digit_value((fp[i] % 16) as nat);
    }
    assert(d =~= fp);
}

} // verus!
