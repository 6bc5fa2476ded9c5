//! The mesh coordination server's state and rules: the table of live nodes,
//! the signalling mailboxes used for NAT traversal, karma balances earned by
//! serving work, and the receipts already paid.
use vstd::prelude::*;

use crate::huggingface::{decimal, decimal_string};
use crate::text::{chars_of, contains, contains_chars};

verus! {

broadcast use vstd::string::group_string_axioms;

/// What the server knows of a registered peer.
#[derive(Clone, Debug)]
pub struct PeerRecord {
    /// The peer's node id, hex encoded.
    pub node_id: String,
    /// The peer's socket address, as text.
    pub addr: String,
    pub available_memory_bytes: u64,
    pub available_vram_bytes: u64,
    /// The model the peer serves, if any.
    pub serving_model_id: Option<String>,
    /// The peer's hardware tier, as text.
    pub tier: String,
    /// The peer's description exactly as it registered it.
    pub info: serde_json::Value,
}

impl PeerRecord {
    /// An identical copy of this record.
    pub fn duplicate(&self) -> (r: PeerRecord)
        ensures
            r == *self,
    {
        PeerRecord {
            node_id: self.node_id.clone(),
            addr: self.addr.clone(),
            available_memory_bytes: self.available_memory_bytes,
            available_vram_bytes: self.available_vram_bytes,
            serving_model_id: match &self.serving_model_id {
                Some(m) => Some(m.clone()),
                None => None,
            },
            tier: self.tier.clone(),
            info: self.info.clone(),
        }
    }
}

/// A registered peer and when it was last heard from (milliseconds on the
/// server's monotonic clock).
#[derive(Clone, Debug)]
pub struct NodeEntry {
    pub info: PeerRecord,
    pub last_seen_ms: u64,
}

#[verifier::external_type_specification]
#[verifier::external_body]
#[verifier::reject_recursive_types(K)]
#[verifier::reject_recursive_types(V)]
#[verifier::reject_recursive_types(S)]
pub struct ExDashMap<K, V, S>(dashmap::DashMap<K, V, S>);

/// Names the entries of the node table, by node id.
pub uninterp spec fn node_table(m: dashmap::DashMap<String, NodeEntry>) -> Map<Seq<char>, NodeEntry>;

/// Names the entries of the signal mailboxes, by recipient node id.
pub uninterp spec fn mailbox_table(m: dashmap::DashMap<String, Vec<serde_json::Value>>) -> Map<
    Seq<char>,
    Seq<serde_json::Value>,
>;

/// Names the entries of the karma ledger, by node id.
pub uninterp spec fn karma_table(m: dashmap::DashMap<String, i64>) -> Map<Seq<char>, i64>;

/// Names the entries of the paid-receipt table: receipt key to the time it
/// was paid.
pub uninterp spec fn receipt_table(m: dashmap::DashMap<String, u64>) -> Map<Seq<char>, u64>;

/// `DashMap::new` for the node table: it starts empty.
#[verifier::external_body]
fn new_node_table() -> (r: dashmap::DashMap<String, NodeEntry>)
    ensures
        node_table(r) =~= Map::empty(),
{
    dashmap::DashMap::new()
}

/// `DashMap::insert` on the node table: the key now maps to the entry.
#[verifier::external_body]
fn node_insert(m: &mut dashmap::DashMap<String, NodeEntry>, key: String, e: NodeEntry)
    ensures
        node_table(*final(m)) == node_table(*old(m)).insert(key@, e),
{
    m.insert(key, e);
}

/// `DashMap::remove` on the node table: the key no longer has an entry.
#[verifier::external_body]
fn node_remove(m: &mut dashmap::DashMap<String, NodeEntry>, key: &str)
    ensures
        node_table(*final(m)) == node_table(*old(m)).remove(key@),
{
    m.remove(key);
}

/// `DashMap::contains_key` on the node table.
#[verifier::external_body]
fn node_known(m: &dashmap::DashMap<String, NodeEntry>, key: &str) -> (r: bool)
    ensures
        r == node_table(*m).contains_key(key@),
{
    m.contains_key(key)
}

/// `DashMap::len` on the node table: the number of keys.
#[verifier::external_body]
fn node_count(m: &dashmap::DashMap<String, NodeEntry>) -> (r: usize)
    ensures
        r == node_table(*m).len(),
{
    m.len()
}

/// `DashMap::iter` on the node table, each entry cloned: every key appears
/// once, with its entry, in an order the table does not fix.
#[verifier::external_body]
fn node_entries(m: &dashmap::DashMap<String, NodeEntry>) -> (r: Vec<(String, NodeEntry)>)
    ensures
        forall|i: int|
            0 <= i < r@.len() ==> node_table(*m).contains_key(#[trigger] r@[i].0@)
                && node_table(*m)[r@[i].0@] == r@[i].1,
        forall|i: int, j: int| 0 <= i < j < r@.len() ==> r@[i].0@ != r@[j].0@,
        forall|k: Seq<char>|
            node_table(*m).contains_key(k) ==> exists|i: int| 0 <= i < r@.len() && #[trigger] r@[i].0@ == k,
        r@.len() == node_table(*m).len(),
{
    m.iter().map(|e| (e.key().clone(), e.value().clone())).collect()
}

/// `DashMap::new` for the mailboxes: they start empty.
#[verifier::external_body]
fn new_mailbox_table() -> (r: dashmap::DashMap<String, Vec<serde_json::Value>>)
    ensures
        mailbox_table(r) =~= Map::empty(),
{
    dashmap::DashMap::new()
}

/// `DashMap::remove` on the mailboxes: the removed queue, if there was one,
/// and the key no longer has an entry.
#[verifier::external_body]
fn mailbox_take(m: &mut dashmap::DashMap<String, Vec<serde_json::Value>>, key: &str) -> (r: Option<
    Vec<serde_json::Value>,
>)
    ensures
        mailbox_table(*final(m)) == mailbox_table(*old(m)).remove(key@),
        match r {
            Some(q) => mailbox_table(*old(m)).contains_key(key@) && q@ == mailbox_table(
                *old(m),
            )[key@],
            None => !mailbox_table(*old(m)).contains_key(key@),
        },
{
    match m.remove(key) {
        Some((_, q)) => Some(q),
        None => None,
    }
}

/// `DashMap::get` on the mailboxes, measuring the queue: its length, or 0
/// when the key has none.
#[verifier::external_body]
fn mailbox_len(m: &dashmap::DashMap<String, Vec<serde_json::Value>>, key: &str) -> (r: usize)
    ensures
        r == (if mailbox_table(*m).contains_key(key@) {
            mailbox_table(*m)[key@].len()
        } else {
            0
        }),
{
    match m.get(key) {
        Some(q) => q.len(),
        None => 0,
    }
}

/// `DashMap::entry(..).or_default()` on the mailboxes, then a push: the value
/// is appended to the key's queue, which is created empty if missing.
#[verifier::external_body]
fn mailbox_push(
    m: &mut dashmap::DashMap<String, Vec<serde_json::Value>>,
    key: String,
    v: serde_json::Value,
)
    ensures
        mailbox_table(*final(m)) == mailbox_table(*old(m)).insert(
            key@,
            if mailbox_table(*old(m)).contains_key(key@) {
                mailbox_table(*old(m))[key@]
            } else {
                Seq::<serde_json::Value>::empty()
            }.push(v),
        ),
{
    m.entry(key).or_default().push(v);
}

/// `DashMap::new` for the karma ledger: it starts empty.
#[verifier::external_body]
fn new_karma_table() -> (r: dashmap::DashMap<String, i64>)
    ensures
        karma_table(r) =~= Map::empty(),
{
    dashmap::DashMap::new()
}

/// `DashMap::get` on the karma ledger, copying the balance out.
#[verifier::external_body]
fn karma_lookup(m: &dashmap::DashMap<String, i64>, key: &str) -> (r: Option<i64>)
    ensures
        r == (if karma_table(*m).contains_key(key@) {
            Some(karma_table(*m)[key@])
        } else {
            None::<i64>
        }),
{
    match m.get(key) {
        Some(k) => Some(*k),
        None => None,
    }
}

/// `DashMap::insert` on the karma ledger.
#[verifier::external_body]
fn karma_store(m: &mut dashmap::DashMap<String, i64>, key: String, v: i64)
    ensures
        karma_table(*final(m)) == karma_table(*old(m)).insert(key@, v),
{
    m.insert(key, v);
}

/// `DashMap::new` for the paid receipts: none at first.
#[verifier::external_body]
fn new_receipt_table() -> (r: dashmap::DashMap<String, u64>)
    ensures
        receipt_table(r) =~= Map::empty(),
{
    dashmap::DashMap::new()
}

/// `DashMap::contains_key` on the paid receipts.
#[verifier::external_body]
fn receipt_paid(m: &dashmap::DashMap<String, u64>, key: &str) -> (r: bool)
    ensures
        r == receipt_table(*m).contains_key(key@),
{
    m.contains_key(key)
}

/// `DashMap::insert` on the paid receipts.
#[verifier::external_body]
fn receipt_record(m: &mut dashmap::DashMap<String, u64>, key: String, at_ms: u64)
    ensures
        receipt_table(*final(m)) == receipt_table(*old(m)).insert(key@, at_ms),
{
    m.insert(key, at_ms);
}


/// The most signals a node's mailbox holds before further ones are refused.
pub const MAILBOX_CAPACITY: usize = 50;

/// The largest claim accepted from a client the server does not know.
pub const UNKNOWN_CLIENT_TOKEN_LIMIT: u64 = 5000;

/// The largest number of tokens one receipt may claim.
pub const MAX_TOKENS_PER_CLAIM: u64 = 100000;

/// Milliseconds without a heartbeat after which a node is dropped.
pub const NODE_TIMEOUT_MS: u64 = 60000;

/// The coordination server's state.
pub struct Coordinator {
    nodes: dashmap::DashMap<String, NodeEntry>,
    mailboxes: dashmap::DashMap<String, Vec<serde_json::Value>>,
    karma: dashmap::DashMap<String, i64>,
    receipts: dashmap::DashMap<String, u64>,
}

/// The coordination server's state, as tables keyed by node id (and by
/// receipt key for paid receipts).
pub struct CoordinatorView {
    pub nodes: Map<Seq<char>, NodeEntry>,
    pub mailboxes: Map<Seq<char>, Seq<serde_json::Value>>,
    pub karma: Map<Seq<char>, i64>,
    pub receipts: Map<Seq<char>, u64>,
}

impl View for Coordinator {
    type V = CoordinatorView;

    closed spec fn view(&self) -> CoordinatorView {
        CoordinatorView {
            nodes: node_table(self.nodes),
            mailboxes: mailbox_table(self.mailboxes),
            karma: karma_table(self.karma),
            receipts: receipt_table(self.receipts),
        }
    }
}

/// Each node is filed under its own id, in a finite table.
pub open spec fn nodes_wf(nodes: Map<Seq<char>, NodeEntry>) -> bool {
    &&& nodes.dom().finite()
    &&& forall|k: Seq<char>| #[trigger] nodes.contains_key(k) ==> nodes[k].info.node_id@ == k
}

/// No mailbox is over capacity.
pub open spec fn mailboxes_wf(mailboxes: Map<Seq<char>, Seq<serde_json::Value>>) -> bool {
    forall|k: Seq<char>| #[trigger] mailboxes.contains_key(k) ==> mailboxes[k].len() <= 50
}

/// The state's invariant: each node is filed under its own id, the node
/// table is finite, and no mailbox is over capacity.
pub open spec fn coordinator_wf(v: CoordinatorView) -> bool {
    nodes_wf(v.nodes) && mailboxes_wf(v.mailboxes)
}

proof fn lemma_nodes_insert(nodes: Map<Seq<char>, NodeEntry>, e: NodeEntry)
    requires
        nodes_wf(nodes),
    ensures
        nodes_wf(nodes.insert(e.info.node_id@, e)),
{
    let n = nodes.insert(e.info.node_id@, e);
    assert forall|k: Seq<char>| #[trigger] n.contains_key(k) implies n[k].info.node_id@ == k by {
        if k != e.info.node_id@ {
            assert(nodes.contains_key(k));
        }
    }
}

proof fn lemma_nodes_remove(nodes: Map<Seq<char>, NodeEntry>, id: Seq<char>)
    requires
        nodes_wf(nodes),
    ensures
        nodes_wf(nodes.remove(id)),
{
    let n = nodes.remove(id);
    assert forall|k: Seq<char>| #[trigger] n.contains_key(k) implies n[k].info.node_id@ == k by {
        assert(nodes.contains_key(k));
    }
}

proof fn lemma_mailboxes_remove(m: Map<Seq<char>, Seq<serde_json::Value>>, id: Seq<char>)
    requires
        mailboxes_wf(m),
    ensures
        mailboxes_wf(m.remove(id)),
{
    let n = m.remove(id);
    assert forall|k: Seq<char>| #[trigger] n.contains_key(k) implies n[k].len() <= 50 by {
        assert(m.contains_key(k));
    }
}

proof fn lemma_mailboxes_insert(
    m: Map<Seq<char>, Seq<serde_json::Value>>,
    id: Seq<char>,
    q: Seq<serde_json::Value>,
)
    requires
        mailboxes_wf(m),
        q.len() <= 50,
    ensures
        mailboxes_wf(m.insert(id, q)),
{
    let n = m.insert(id, q);
    assert forall|k: Seq<char>| #[trigger] n.contains_key(k) implies n[k].len() <= 50 by {
        if k != id {
            assert(m.contains_key(k));
        }
    }
}

/// A node's karma balance: what the ledger holds, else 0.
pub open spec fn karma_of(karma: Map<Seq<char>, i64>, id: Seq<char>) -> int {
    if karma.contains_key(id) {
        karma[id] as int
    } else {
        0
    }
}

/// The signals waiting for a node: its mailbox, else none.
pub open spec fn queue_of(m: Map<Seq<char>, Seq<serde_json::Value>>, id: Seq<char>) -> Seq<
    serde_json::Value,
> {
    if m.contains_key(id) {
        m[id]
    } else {
        Seq::empty()
    }
}

/// Priority tiers granted by karma.
#[derive(Clone, Copy, Debug, PartialEq, Eq)]
pub enum Tier {
    /// 500 karma or more.
    VipAlpha,
    /// Some karma.
    Contributor,
    /// No karma.
    Community,
}

impl Tier {
    /// The tier's name as the server reports it.
    pub fn as_str(&self) -> (r: &'static str)
        ensures
            r@ == tier_name(*self),
    {
        match self {
            Tier::VipAlpha => "VIP_ALPHA",
            Tier::Contributor => "CONTRIBUTOR",
            Tier::Community => "COMMUNITY",
        }
    }
}

/// The name of a tier.
pub open spec fn tier_name(t: Tier) -> Seq<char> {
    match t {
        Tier::VipAlpha => "VIP_ALPHA"@,
        Tier::Contributor => "CONTRIBUTOR"@,
        Tier::Community => "COMMUNITY"@,
    }
}

/// The tier a karma balance earns.
pub open spec fn tier_spec(karma: int) -> Tier {
    if karma >= 500 {
        Tier::VipAlpha
    } else if karma > 0 {
        Tier::Contributor
    } else {
        Tier::Community
    }
}

/// The tier a karma balance earns.
pub fn tier_for(karma: i64) -> (r: Tier)
    ensures
        r == tier_spec(karma as int),
{
    if karma >= 500 {
        Tier::VipAlpha
    } else if karma > 0 {
        Tier::Contributor
    } else {
        Tier::Community
    }
}

/// Whether a signal was queued.
#[derive(Clone, Copy, Debug, PartialEq, Eq)]
pub enum SignalDelivery {
    /// Queued for the recipient (HTTP 200).
    Queued,
    /// The recipient's mailbox is full (HTTP 429).
    MailboxFull,
}

impl SignalDelivery {
    /// The HTTP status the server answers with.
    pub fn status_code(&self) -> (r: u16)
        ensures
            r == (if *self == SignalDelivery::Queued {
                200u16
            } else {
                429u16
            }),
    {
        match self {
            SignalDelivery::Queued => 200,
            SignalDelivery::MailboxFull => 429,
        }
    }
}

/// A node's karma balance and tier.
#[derive(Clone, Debug)]
pub struct KarmaBalance {
    pub node_id: String,
    pub karma: i64,
    pub tier: Tier,
}

/// A receipt for work a worker did for a client, claimed for karma.
#[derive(Clone, Debug)]
pub struct WorkReceipt {
    pub client_node_id: String,
    pub worker_node_id: String,
    pub tokens_processed: u64,
    pub timestamp: u64,
    pub nonce: String,
    pub signature_hash: String,
}

/// The key under which a paid receipt is remembered:
/// `client:nonce:timestamp`.
pub open spec fn receipt_key_spec(r: WorkReceipt) -> Seq<char> {
    r.client_node_id@ + ":"@ + r.nonce@ + ":"@ + decimal(r.timestamp as nat)
}

/// The key under which a paid receipt is remembered.
pub fn receipt_key(r: &WorkReceipt) -> (k: String)
    ensures
        k@ == receipt_key_spec(*r),
{
    let mut k = r.client_node_id.clone();
    k.append(":");
    k.append(r.nonce.as_str());
    k.append(":");
    let t = decimal_string(r.timestamp);
    k.append(t.as_str());
    k
}

/// Why a claim was refused.
#[derive(Clone, Debug)]
pub enum ClaimRejection {
    /// The receipt was already paid (HTTP 409).
    AlreadyClaimed(String),
    /// A large claim from a client the server does not know (HTTP 403).
    UnknownClient(String),
    /// No tokens, or more than one receipt may claim (HTTP 400).
    InvalidTokens(String),
}

impl ClaimRejection {
    /// The HTTP status the server answers with.
    pub fn status_code(&self) -> (r: u16)
        ensures
            r == match *self {
                ClaimRejection::AlreadyClaimed(_) => 409u16,
                ClaimRejection::UnknownClient(_) => 403u16,
                ClaimRejection::InvalidTokens(_) => 400u16,
            },
    {
        match self {
            ClaimRejection::AlreadyClaimed(_) => 409,
            ClaimRejection::UnknownClient(_) => 403,
            ClaimRejection::InvalidTokens(_) => 400,
        }
    }
}

/// Karma paid for a receipt.
#[derive(Clone, Debug)]
pub struct KarmaAward {
    pub worker_node_id: String,
    pub karma_awarded: i64,
    pub new_balance: i64,
}

/// The checks a claim passes through, in order.
#[derive(Clone, Copy, Debug, PartialEq, Eq)]
pub enum ClaimCheck {
    Replayed,
    UnknownClient,
    InvalidTokens,
    Paid,
}

/// The outcome of the claim checks on a state: replays first, then large
/// claims from unknown clients, then the token range.
pub open spec fn claim_check(v: CoordinatorView, r: WorkReceipt) -> ClaimCheck {
    if v.receipts.contains_key(receipt_key_spec(r)) {
        ClaimCheck::Replayed
    } else if !v.nodes.contains_key(r.client_node_id@) && r.tokens_processed > 5000 {
        ClaimCheck::UnknownClient
    } else if r.tokens_processed == 0 || r.tokens_processed > 100000 {
        ClaimCheck::InvalidTokens
    } else {
        ClaimCheck::Paid
    }
}

/// A paid claim does not overflow the worker's balance.
pub open spec fn claim_fits(v: CoordinatorView, r: WorkReceipt) -> bool {
    claim_check(v, r) == ClaimCheck::Paid ==> karma_of(v.karma, r.worker_node_id@)
        + r.tokens_processed <= i64::MAX
}

impl Coordinator {
    /// The state's invariant.
    pub open spec fn wf(&self) -> bool {
        coordinator_wf(self@)
    }

    /// An empty server.
    pub fn new() -> (r: Coordinator)
        ensures
            r.wf(),
            r@.nodes == Map::<Seq<char>, NodeEntry>::empty(),
            r@.mailboxes == Map::<Seq<char>, Seq<serde_json::Value>>::empty(),
            r@.karma == Map::<Seq<char>, i64>::empty(),
            r@.receipts == Map::<Seq<char>, u64>::empty(),
    {
        Coordinator {
            nodes: new_node_table(),
            mailboxes: new_mailbox_table(),
            karma: new_karma_table(),
            receipts: new_receipt_table(),
        }
    }

    /// Register a node (or refresh its registration), seen at `now_ms`.
    pub fn register(&mut self, info: PeerRecord, now_ms: u64)
        requires
            old(self).wf(),
        ensures
            final(self).wf(),
            final(self)@.nodes == old(self)@.nodes.insert(
                info.node_id@,
                NodeEntry { info, last_seen_ms: now_ms },
            ),
            final(self)@.mailboxes == old(self)@.mailboxes,
            final(self)@.karma == old(self)@.karma,
            final(self)@.receipts == old(self)@.receipts,
    {
        let key = info.node_id.clone();
        let e = NodeEntry { info, last_seen_ms: now_ms };
        proof {
            lemma_nodes_insert(old(self)@.nodes, e);
        }
        node_insert(&mut self.nodes, key, e);
    }

    /// A heartbeat: the node's description and last-seen time are refreshed,
    /// and a node the server forgot is registered again.
    pub fn heartbeat(&mut self, info: PeerRecord, now_ms: u64)
        requires
            old(self).wf(),
        ensures
            final(self).wf(),
            final(self)@.nodes == old(self)@.nodes.insert(
                info.node_id@,
                NodeEntry { info, last_seen_ms: now_ms },
            ),
            final(self)@.mailboxes == old(self)@.mailboxes,
            final(self)@.karma == old(self)@.karma,
            final(self)@.receipts == old(self)@.receipts,
    {
        self.register(info, now_ms);
    }

    /// Forget a node and its pending signals.
    pub fn deregister(&mut self, node_id: Option<&str>)
        requires
            old(self).wf(),
        ensures
            final(self).wf(),
            match node_id {
                Some(id) => final(self)@.nodes == old(self)@.nodes.remove(id@)
                    && final(self)@.mailboxes == old(self)@.mailboxes.remove(id@),
                None => final(self)@.nodes == old(self)@.nodes && final(self)@.mailboxes
                    == old(self)@.mailboxes,
            },
            final(self)@.karma == old(self)@.karma,
            final(self)@.receipts == old(self)@.receipts,
    {
        if let Some(id) = node_id {
            proof {
                lemma_nodes_remove(old(self)@.nodes, id@);
                lemma_mailboxes_remove(old(self)@.mailboxes, id@);
            }
            node_remove(&mut self.nodes, id);
            let _ = mailbox_take(&mut self.mailboxes, id);
        }
    }

    /// Queue a signal for `to_node`, unless its mailbox is full.
    pub fn send_signal(&mut self, to_node: &str, signal: serde_json::Value) -> (r: SignalDelivery)
        requires
            old(self).wf(),
        ensures
            final(self).wf(),
            queue_of(old(self)@.mailboxes, to_node@).len() < 50 ==> r == SignalDelivery::Queued
                && final(self)@.mailboxes == old(self)@.mailboxes.insert(
                to_node@,
                queue_of(old(self)@.mailboxes, to_node@).push(signal),
            ),
            queue_of(old(self)@.mailboxes, to_node@).len() >= 50 ==> r
                == SignalDelivery::MailboxFull && final(self)@.mailboxes == old(self)@.mailboxes,
            final(self)@.nodes == old(self)@.nodes,
            final(self)@.karma == old(self)@.karma,
            final(self)@.receipts == old(self)@.receipts,
    {
        let n = mailbox_len(&self.mailboxes, to_node);
        if n < MAILBOX_CAPACITY {
            proof {
                lemma_mailboxes_insert(
                    old(self)@.mailboxes,
                    to_node@,
                    queue_of(old(self)@.mailboxes, to_node@).push(signal),
                );
            }
            mailbox_push(&mut self.mailboxes, to_node.to_owned(), signal);
            SignalDelivery::Queued
        } else {
            SignalDelivery::MailboxFull
        }
    }

    /// Hand a node its pending signals, emptying its mailbox.
    pub fn poll_signals(&mut self, node_id: &str) -> (r: Vec<serde_json::Value>)
        requires
            old(self).wf(),
        ensures
            final(self).wf(),
            r@ == queue_of(old(self)@.mailboxes, node_id@),
            final(self)@.mailboxes == old(self)@.mailboxes.remove(node_id@),
            final(self)@.nodes == old(self)@.nodes,
            final(self)@.karma == old(self)@.karma,
            final(self)@.receipts == old(self)@.receipts,
    {
        let r = match mailbox_take(&mut self.mailboxes, node_id) {
            Some(q) => q,
            None => Vec::new(),
        };
        proof {
            lemma_mailboxes_remove(old(self)@.mailboxes, node_id@);
        }
        r
    }

    /// A node's karma balance (0 if it has none) and tier.
    pub fn karma_balance(&self, node_id: &str) -> (r: KarmaBalance)
        ensures
            r.node_id@ == node_id@,
            r.karma == karma_of(self@.karma, node_id@),
            r.tier == tier_spec(karma_of(self@.karma, node_id@)),
    {
        let karma = match karma_lookup(&self.karma, node_id) {
            Some(k) => k,
            None => 0,
        };
        KarmaBalance { node_id: node_id.to_owned(), karma, tier: tier_for(karma) }
    }

    /// Pay a worker karma for a receipt, one karma per token: refused if the
    /// receipt was paid before, if it claims over 5000 tokens for a client
    /// the server does not know, or if it claims no tokens or over 100000.
    pub fn claim_karma(&mut self, receipt: &WorkReceipt, now_ms: u64) -> (r: Result<
        KarmaAward,
        ClaimRejection,
    >)
        requires
            old(self).wf(),
            claim_fits(old(self)@, *receipt),
        ensures
            final(self).wf(),
            final(self)@.nodes == old(self)@.nodes,
            final(self)@.mailboxes == old(self)@.mailboxes,
            match claim_check(old(self)@, *receipt) {
                ClaimCheck::Paid => {
                    let balance = karma_of(old(self)@.karma, receipt.worker_node_id@)
                        + receipt.tokens_processed;
                    &&& r matches Ok(a)
                    &&& a.worker_node_id@ == receipt.worker_node_id@
                    &&& a.karma_awarded == receipt.tokens_processed
                    &&& a.new_balance == balance
                    &&& final(self)@.karma == old(self)@.karma.insert(
                        receipt.worker_node_id@,
                        balance as i64,
                    )
                    &&& final(self)@.receipts == old(self)@.receipts.insert(
                        receipt_key_spec(*receipt),
                        now_ms,
                    )
                },
                ClaimCheck::Replayed => (r matches Err(ClaimRejection::AlreadyClaimed(m)) && m@
                    == "Receipt already claimed (anti-replay check failed)"@)
                    && final(self)@.karma == old(self)@.karma && final(self)@.receipts == old(
                    self,
                )@.receipts,
                ClaimCheck::UnknownClient => (r matches Err(ClaimRejection::UnknownClient(m)) && m@
                    == "Client node not recognized for high-token claims"@)
                    && final(self)@.karma == old(self)@.karma && final(self)@.receipts == old(
                    self,
                )@.receipts,
                ClaimCheck::InvalidTokens => (r matches Err(ClaimRejection::InvalidTokens(m)) && m@
                    == "Invalid token range in work receipt"@)
                    && final(self)@.karma == old(self)@.karma && final(self)@.receipts == old(
                    self,
                )@.receipts,
            },
    {
        let key = receipt_key(receipt);
        if receipt_paid(&self.receipts, key.as_str()) {
            return Err(
                ClaimRejection::AlreadyClaimed(
                    "Receipt already claimed (anti-replay check failed)".to_owned(),
                ),
            );
        }
        let client_known = node_known(&self.nodes, receipt.client_node_id.as_str());
        if !client_known && receipt.tokens_processed > UNKNOWN_CLIENT_TOKEN_LIMIT {
            return Err(
                ClaimRejection::UnknownClient(
                    "Client node not recognized for high-token claims".to_owned(),
                ),
            );
        }
        if receipt.tokens_processed == 0 || receipt.tokens_processed > MAX_TOKENS_PER_CLAIM {
            return Err(
                ClaimRejection::InvalidTokens("Invalid token range in work receipt".to_owned()),
            );
        }
        let points = receipt.tokens_processed as i64;
        let current = match karma_lookup(&self.karma, receipt.worker_node_id.as_str()) {
            Some(k) => k,
            None => 0,
        };
        let new_balance = current + points;
        karma_store(&mut self.karma, receipt.worker_node_id.clone(), new_balance);
        receipt_record(&mut self.receipts, key, now_ms);
        Ok(
            KarmaAward {
                worker_node_id: receipt.worker_node_id.clone(),
                karma_awarded: points,
                new_balance,
            },
        )
    }
}


/// Whether a peer answers a query for `model` with at least `min_memory`
/// bytes free: enough memory, and either no model asked for, no model
/// served, or a served model whose id contains the one asked for.
pub open spec fn peer_listed(info: PeerRecord, model: Seq<char>, min_memory: nat) -> bool {
    &&& info.available_memory_bytes >= min_memory
    &&& (model.len() == 0 || match info.serving_model_id {
        Some(m) => contains(m@, model),
        None => true,
    })
}

/// `r` lists, once each and in some order, the registered peers that
/// satisfy `pick`.
pub open spec fn lists_exactly(
    nodes: Map<Seq<char>, NodeEntry>,
    r: Seq<PeerRecord>,
    pick: spec_fn(PeerRecord) -> bool,
) -> bool {
    &&& forall|i: int|
        0 <= i < r.len() ==> nodes.contains_key(#[trigger] r[i].node_id@) && nodes[r[i].node_id@].info
            == r[i] && pick(r[i])
    &&& forall|i: int, j: int| 0 <= i < j < r.len() ==> r[i].node_id@ != r[j].node_id@
    &&& forall|k: Seq<char>|
        #[trigger] nodes.contains_key(k) && pick(nodes[k].info) ==> exists|i: int|
            0 <= i < r.len() && r[i].node_id@ == k
}

impl Coordinator {
    /// Peers with at least `min_memory` bytes free (default 0) that serve
    /// the model asked for (default any).
    pub fn list_peers(&self, model: Option<&str>, min_memory: Option<u64>) -> (r: Vec<PeerRecord>)
        requires
            self.wf(),
        ensures
            lists_exactly(
                self@.nodes,
                r@,
                |p: PeerRecord|
                    peer_listed(
                        p,
                        match model {
                            Some(m) => m@,
                            None => Seq::<char>::empty(),
                        },
                        match min_memory {
                            Some(n) => n as nat,
                            None => 0nat,
                        },
                    ),
            ),
    {
        let ghost model_v: Seq<char> = match model {
            Some(m) => m@,
            None => Seq::<char>::empty(),
        };
        let ghost min_v: nat = match min_memory {
            Some(n) => n as nat,
            None => 0nat,
        };
        let ghost pick = |p: PeerRecord| peer_listed(p, model_v, min_v);
        let target: Vec<char> = match model {
            Some(m) => chars_of(m),
            None => Vec::new(),
        };
        let min_mem: u64 = match min_memory {
            Some(n) => n,
            None => 0,
        };
        let entries = node_entries(&self.nodes);
        let ghost nodes = self@.nodes;
        let mut out: Vec<PeerRecord> = Vec::new();
        let ghost mut src: Seq<int> = Seq::empty();
        let mut i: usize = 0;
        while i < entries.len()
            invariant
                i <= entries@.len(),
                nodes == self@.nodes,
                nodes_wf(nodes),
                target@ == model_v,
                min_mem as nat == min_v,
                pick == (|p: PeerRecord| peer_listed(p, model_v, min_v)),
                forall|j: int|
                    0 <= j < entries@.len() ==> nodes.contains_key(#[trigger] entries@[j].0@)
                        && nodes[entries@[j].0@] == entries@[j].1,
                forall|a: int, b: int|
                    0 <= a < b < entries@.len() ==> entries@[a].0@ != entries@[b].0@,
                src.len() == out@.len(),
                forall|t: int|
                    0 <= t < out@.len() ==> 0 <= #[trigger] src[t] < i && out@[t]
                        == entries@[src[t]].1.info,
                forall|t1: int, t2: int| 0 <= t1 < t2 < out@.len() ==> src[t1] < src[t2],
                forall|t: int| 0 <= t < out@.len() ==> pick(#[trigger] out@[t]),
                forall|j: int|
                    0 <= j < i && pick(#[trigger] entries@[j].1.info) ==> exists|t: int|
                        0 <= t < out@.len() && src[t] == j,
            decreases entries@.len() - i,
        {
            let ghost src_before = src;
            let ghost len_before = out@.len();
            let e = &entries[i].1;
            let info = &e.info;
            let mut ok = info.available_memory_bytes >= min_mem;
            if ok && target.len() > 0 {
                ok = match &info.serving_model_id {
                    Some(m) => {
                        let mc = chars_of(m.as_str());
                        contains_chars(&mc, &target)
                    },
                    None => true,
                };
            }
            if ok {
                out.push(info.duplicate());
                proof {
                    src = src.push(i as int);
                }
            }
            proof {
                assert(ok == pick(entries@[i as int].1.info));
                assert forall|j: int|
                    0 <= j < i + 1 && pick(#[trigger] entries@[j].1.info) implies exists|t: int|
                    0 <= t < out@.len() && src[t] == j by {
                    if j == i {
                        assert(src[out@.len() - 1] == j);
                    } else {
                        let t = choose|t: int| 0 <= t < len_before && src_before[t] == j;
                        assert(src[t] == j);
                    }
                }
            }
            i = i + 1;
        }
        proof {
            assert forall|t: int| 0 <= t < out@.len() implies nodes.contains_key(
                #[trigger] out@[t].node_id@,
            ) && nodes[out@[t].node_id@].info == out@[t] && pick(out@[t]) by {
                let j = src[t];
                assert(nodes.contains_key(entries@[j].0@));
                assert(nodes[entries@[j].0@].info.node_id@ == entries@[j].0@);
            }
            assert forall|t1: int, t2: int| 0 <= t1 < t2 < out@.len() implies out@[t1].node_id@
                != out@[t2].node_id@ by {
                let j1 = src[t1];
                let j2 = src[t2];
                assert(nodes.contains_key(entries@[j1].0@));
                assert(nodes.contains_key(entries@[j2].0@));
            }
            assert forall|k: Seq<char>| #[trigger]
                nodes.contains_key(k) && pick(nodes[k].info) implies exists|t: int|
                0 <= t < out@.len() && out@[t].node_id@ == k by {
                let j = choose|j: int| 0 <= j < entries@.len() && #[trigger] entries@[j].0@ == k;
                assert(pick(entries@[j].1.info));
                let t = choose|t: int| 0 <= t < out@.len() && src[t] == j;
                assert(nodes[k].info.node_id@ == k);
                assert(out@[t].node_id@ == k);
            }
        }
        out
    }
}


/// A peer as ranked for matchmaking.
#[derive(Clone, Debug)]
pub struct RankedPeer {
    pub node_id: String,
    pub addr: String,
    pub karma: i64,
}

/// The server's answer to a matchmaking request.
#[derive(Clone, Debug)]
pub struct MatchmakeReply {
    /// `swarm-` and the preferred model, or `swarm-default`.
    pub swarm_id: String,
    /// Always `worker`.
    pub assigned_role: String,
    /// The number of registered peers.
    pub total_peers_in_swarm: usize,
    pub requester_karma: i64,
    pub priority_tier: Tier,
    /// Every registered peer, highest karma first.
    pub ranked_peers: Vec<RankedPeer>,
}

/// `r` holds each registered node once, as its id, address and karma.
pub open spec fn ranks_all_nodes(
    nodes: Map<Seq<char>, NodeEntry>,
    karma: Map<Seq<char>, i64>,
    r: Seq<RankedPeer>,
) -> bool {
    &&& r.len() == nodes.len()
    &&& forall|i: int|
        0 <= i < r.len() ==> nodes.contains_key(#[trigger] r[i].node_id@) && r[i].addr@
            == nodes[r[i].node_id@].info.addr@ && r[i].karma == karma_of(karma, r[i].node_id@)
    &&& forall|i: int, j: int| 0 <= i < j < r.len() ==> r[i].node_id@ != r[j].node_id@
}

/// Highest karma first.
pub open spec fn by_karma_desc(r: Seq<RankedPeer>) -> bool {
    forall|i: int, j: int| 0 <= i < j < r.len() ==> r[i].karma >= r[j].karma
}

/// Sort peers by karma, highest first, keeping the order of equal ones; the
/// ghost result maps each output position to its input position.
fn rank_by_karma(cand: Vec<RankedPeer>) -> (r: (Vec<RankedPeer>, Ghost<Seq<int>>))
    ensures
        r.0@.len() == cand@.len(),
        by_karma_desc(r.0@),
        r.1@.len() == cand@.len(),
        forall|t: int|
            0 <= t < r.0@.len() ==> 0 <= #[trigger] r.1@[t] < cand@.len() && r.0@[t]
                == cand@[r.1@[t]],
        forall|t1: int, t2: int| 0 <= t1 < t2 < r.0@.len() ==> r.1@[t1] != r.1@[t2],
{
    let mut out: Vec<RankedPeer> = Vec::new();
    let ghost mut perm: Seq<int> = Seq::empty();
    let mut i: usize = 0;
    while i < cand.len()
        invariant
            i <= cand@.len(),
            out@.len() == i,
            perm.len() == i,
            by_karma_desc(out@),
            forall|t: int|
                0 <= t < out@.len() ==> 0 <= #[trigger] perm[t] < i && out@[t] == cand@[perm[t]],
            forall|t1: int, t2: int| 0 <= t1 < t2 < out@.len() ==> perm[t1] != perm[t2],
        decreases cand@.len() - i,
    {
        let k = cand[i].karma;
        let mut p: usize = 0;
        while p < out.len() && out[p].karma >= k
            invariant
                p <= out@.len(),
                forall|t: int| 0 <= t < p ==> (#[trigger] out@[t]).karma >= k,
            decreases out@.len() - p,
        {
            p = p + 1;
        }
        let ghost old_out = out@;
        let ghost old_perm = perm;
        let c = RankedPeer {
            node_id: cand[i].node_id.clone(),
            addr: cand[i].addr.clone(),
            karma: k,
        };
        proof {
            assert(c == cand@[i as int]);
        }
        out.insert(p, c);
        proof {
            perm = perm.insert(p as int, i as int);
            assert forall|t: int| 0 <= t < out@.len() implies 0 <= #[trigger] perm[t] < i + 1
                && out@[t] == cand@[perm[t]] by {
                if t < p {
                    assert(out@[t] == old_out[t]);
                    assert(perm[t] == old_perm[t]);
                } else if t > p {
                    assert(out@[t] == old_out[t - 1]);
                    assert(perm[t] == old_perm[t - 1]);
                }
            }
            assert forall|t1: int, t2: int| 0 <= t1 < t2 < out@.len() implies perm[t1]
                != perm[t2] by {
                if t1 != p && t2 != p {
                    let a = if t1 < p { t1 } else { t1 - 1 };
                    let b = if t2 < p { t2 } else { t2 - 1 };
                    assert(perm[t1] == old_perm[a]);
                    assert(perm[t2] == old_perm[b]);
                } else if t1 == p {
                    assert(perm[t2] == old_perm[t2 - 1]);
                } else {
                    let a = if t1 < p { t1 } else { t1 - 1 };
                    assert(perm[t1] == old_perm[a]);
                }
            }
            assert forall|t1: int, t2: int| 0 <= t1 < t2 < out@.len() implies out@[t1].karma
                >= out@[t2].karma by {
                if p < old_out.len() {
                    assert(old_out[p as int].karma < k);
                }
                if t1 < p && t2 < p {
                    assert(out@[t1] == old_out[t1]);
                    assert(out@[t2] == old_out[t2]);
                } else if t1 < p && t2 == p {
                    assert(out@[t1] == old_out[t1]);
                } else if t1 < p {
                    assert(out@[t1] == old_out[t1]);
                    assert(out@[t2] == old_out[t2 - 1]);
                } else if t1 == p {
                    assert(out@[t2] == old_out[t2 - 1]);
                    assert(old_out[t2 - 1].karma <= old_out[p as int].karma || t2 - 1 == p);
                } else {
                    assert(out@[t1] == old_out[t1 - 1]);
                    assert(out@[t2] == old_out[t2 - 1]);
                }
            }
        }
        i = i + 1;
    }
    (out, Ghost(perm))
}

impl Coordinator {
    /// Match a node into a swarm: its karma and tier, and every registered
    /// peer ranked by karma, highest first.
    pub fn matchmake(&self, node_id: &str, preferred_model: Option<&str>) -> (r: MatchmakeReply)
        requires
            self.wf(),
        ensures
            r.swarm_id@ == "swarm-"@ + match preferred_model {
                Some(m) => m@,
                None => "default"@,
            },
            r.assigned_role@ == "worker"@,
            r.total_peers_in_swarm == self@.nodes.len(),
            r.requester_karma == karma_of(self@.karma, node_id@),
            r.priority_tier == tier_spec(karma_of(self@.karma, node_id@)),
            ranks_all_nodes(self@.nodes, self@.karma, r.ranked_peers@),
            by_karma_desc(r.ranked_peers@),
    {
        let available = node_count(&self.nodes);
        let requester = match karma_lookup(&self.karma, node_id) {
            Some(k) => k,
            None => 0,
        };
        let entries = node_entries(&self.nodes);
        let ghost nodes = self@.nodes;
        let ghost karma = self@.karma;
        let mut cand: Vec<RankedPeer> = Vec::new();
        let mut i: usize = 0;
        while i < entries.len()
            invariant
                i <= entries@.len(),
                nodes == self@.nodes,
                karma == self@.karma,
                nodes_wf(nodes),
                forall|j: int|
                    0 <= j < entries@.len() ==> nodes.contains_key(#[trigger] entries@[j].0@)
                        && nodes[entries@[j].0@] == entries@[j].1,
                cand@.len() == i,
                forall|t: int|
                    0 <= t < i ==> (#[trigger] cand@[t]).node_id@ == entries@[t].0@ && cand@[t].addr@
                        == entries@[t].1.info.addr@ && cand@[t].karma == karma_of(
                        karma,
                        entries@[t].0@,
                    ),
            decreases entries@.len() - i,
        {
            let e = &entries[i].1;
            let k = match karma_lookup(&self.karma, e.info.node_id.as_str()) {
                Some(k) => k,
                None => 0,
            };
            proof {
                assert(nodes[entries@[i as int].0@].info.node_id@ == entries@[i as int].0@);
            }
            cand.push(RankedPeer { node_id: e.info.node_id.clone(), addr: e.info.addr.clone(), karma: k });
            i = i + 1;
        }
        let ghost cand_v = cand@;
        let (ranked, Ghost(perm)) = rank_by_karma(cand);
        proof {
            assert forall|t1: int, t2: int| 0 <= t1 < t2 < ranked@.len() implies ranked@[t1].node_id@
                != ranked@[t2].node_id@ by {
                assert(cand_v[perm[t1]].node_id@ == entries@[perm[t1]].0@);
                assert(cand_v[perm[t2]].node_id@ == entries@[perm[t2]].0@);
            }
            assert forall|t: int| 0 <= t < ranked@.len() implies nodes.contains_key(
                #[trigger] ranked@[t].node_id@,
            ) && ranked@[t].addr@ == nodes[ranked@[t].node_id@].info.addr@ && ranked@[t].karma
                == karma_of(karma, ranked@[t].node_id@) by {
                let j = perm[t];
                assert(cand_v[j].node_id@ == entries@[j].0@);
                assert(nodes.contains_key(entries@[j].0@));
            }
        }
        let mut swarm = "swarm-".to_owned();
        match preferred_model {
            Some(m) => swarm.append(m),
            None => swarm.append("default"),
        }
        MatchmakeReply {
            swarm_id: swarm,
            assigned_role: "worker".to_owned(),
            total_peers_in_swarm: available,
            requester_karma: requester,
            priority_tier: tier_for(requester),
            ranked_peers: ranked,
        }
    }
}


/// A node is live while it was heard from less than a minute ago (a
/// last-seen time after `now` counts as just now).
pub open spec fn node_active(e: NodeEntry, now_ms: u64) -> bool {
    (if now_ms >= e.last_seen_ms {
        now_ms - e.last_seen_ms
    } else {
        0
    }) < 60000
}

/// The ids of the nodes that are no longer live.
pub open spec fn stale_ids(nodes: Map<Seq<char>, NodeEntry>, now_ms: u64) -> Set<Seq<char>> {
    Set::new(|k: Seq<char>| nodes.contains_key(k) && !node_active(nodes[k], now_ms))
}

/// One node's line on the dashboard.
#[derive(Clone, Debug)]
pub struct DashboardNode {
    pub node_id: String,
    pub addr: String,
    pub tier: String,
    pub ram_bytes: u64,
    pub vram_bytes: u64,
    pub karma: i64,
}

/// Aggregate statistics of the network.
#[derive(Clone, Debug)]
pub struct Dashboard {
    pub total_active_nodes: usize,
    /// The sum of the nodes' free memory, modulo 2^64.
    pub total_network_ram_bytes: u64,
    /// The sum of the nodes' free video memory, modulo 2^64.
    pub total_network_vram_bytes: u64,
    pub nodes: Vec<DashboardNode>,
}

/// The free memory of the listed nodes, summed.
pub open spec fn ram_total(s: Seq<DashboardNode>) -> int
    decreases s.len(),
{
    if s.len() == 0 {
        0
    } else {
        ram_total(s.drop_last()) + s.last().ram_bytes
    }
}

/// The free video memory of the listed nodes, summed.
pub open spec fn vram_total(s: Seq<DashboardNode>) -> int
    decreases s.len(),
{
    if s.len() == 0 {
        0
    } else {
        vram_total(s.drop_last()) + s.last().vram_bytes
    }
}

/// `r` holds each registered node once, with its address, tier, memory and
/// karma.
pub open spec fn dashboard_lists(
    nodes: Map<Seq<char>, NodeEntry>,
    karma: Map<Seq<char>, i64>,
    r: Seq<DashboardNode>,
) -> bool {
    &&& r.len() == nodes.len()
    &&& forall|i: int|
        0 <= i < r.len() ==> {
            let k = (#[trigger] r[i]).node_id@;
            &&& nodes.contains_key(k)
            &&& r[i].addr@ == nodes[k].info.addr@
            &&& r[i].tier@ == nodes[k].info.tier@
            &&& r[i].ram_bytes == nodes[k].info.available_memory_bytes
            &&& r[i].vram_bytes == nodes[k].info.available_vram_bytes
            &&& r[i].karma == karma_of(karma, k)
        }
    &&& forall|i: int, j: int| 0 <= i < j < r.len() ==> r[i].node_id@ != r[j].node_id@
}

impl Coordinator {
    /// Drop the nodes not heard from for a minute, with their pending
    /// signals; the ids dropped are returned.
    pub fn prune(&mut self, now_ms: u64) -> (r: Vec<String>)
        requires
            old(self).wf(),
        ensures
            final(self).wf(),
            final(self)@.nodes == old(self)@.nodes.remove_keys(stale_ids(old(self)@.nodes, now_ms)),
            final(self)@.mailboxes == old(self)@.mailboxes.remove_keys(
                stale_ids(old(self)@.nodes, now_ms),
            ),
            final(self)@.karma == old(self)@.karma,
            final(self)@.receipts == old(self)@.receipts,
            forall|i: int| 0 <= i < r@.len() ==> stale_ids(old(self)@.nodes, now_ms).contains(#[trigger] r@[i]@),
            forall|k: Seq<char>| #[trigger] stale_ids(old(self)@.nodes, now_ms).contains(k) ==> exists|i: int|
                0 <= i < r@.len() && r@[i]@ == k,
            forall|i: int, j: int| 0 <= i < j < r@.len() ==> r@[i]@ != r@[j]@,
    {
        let ghost old_nodes = old(self)@.nodes;
        let ghost old_mail = old(self)@.mailboxes;
        let ghost stale = stale_ids(old_nodes, now_ms);
        let entries = node_entries(&self.nodes);
        let mut dead: Vec<String> = Vec::new();
        let ghost mut src: Seq<int> = Seq::empty();
        let mut i: usize = 0;
        while i < entries.len()
            invariant
                i <= entries@.len(),
                self@.nodes == old_nodes,
                forall|j: int|
                    0 <= j < entries@.len() ==> old_nodes.contains_key(#[trigger] entries@[j].0@)
                        && old_nodes[entries@[j].0@] == entries@[j].1,
                forall|a: int, b: int|
                    0 <= a < b < entries@.len() ==> entries@[a].0@ != entries@[b].0@,
                src.len() == dead@.len(),
                forall|t: int|
                    0 <= t < dead@.len() ==> 0 <= #[trigger] src[t] < i && dead@[t]@
                        == entries@[src[t]].0@ && !node_active(entries@[src[t]].1, now_ms),
                forall|t1: int, t2: int| 0 <= t1 < t2 < dead@.len() ==> src[t1] < src[t2],
                forall|j: int|
                    0 <= j < i && !node_active(#[trigger] entries@[j].1, now_ms) ==> exists|t: int|
                        0 <= t < dead@.len() && src[t] == j,
            decreases entries@.len() - i,
        {
            let ghost src_before = src;
            let ghost len_before = dead@.len();
            let seen = entries[i].1.last_seen_ms;
            let age = if now_ms >= seen {
                now_ms - seen
            } else {
                0
            };
            if age >= NODE_TIMEOUT_MS {
                dead.push(entries[i].0.clone());
                proof {
                    src = src.push(i as int);
                }
            }
            proof {
                assert forall|j: int|
                    0 <= j < i + 1 && !node_active(#[trigger] entries@[j].1, now_ms) implies exists|t: int|
                    0 <= t < dead@.len() && src[t] == j by {
                    if j == i {
                        assert(src[dead@.len() - 1] == j);
                    } else {
                        let t = choose|t: int| 0 <= t < len_before && src_before[t] == j;
                        assert(src[t] == j);
                    }
                }
            }
            i = i + 1;
        }
        proof {
            assert forall|i: int| 0 <= i < dead@.len() implies stale.contains(#[trigger] dead@[i]@) by {
                assert(old_nodes.contains_key(entries@[src[i]].0@));
            }
            assert forall|k: Seq<char>| #[trigger] stale.contains(k) implies exists|i: int|
                0 <= i < dead@.len() && dead@[i]@ == k by {
                let j = choose|j: int| 0 <= j < entries@.len() && #[trigger] entries@[j].0@ == k;
                let t = choose|t: int| 0 <= t < dead@.len() && src[t] == j;
                assert(dead@[t]@ == k);
            }
            assert forall|a: int, b: int| 0 <= a < b < dead@.len() implies dead@[a]@ != dead@[b]@ by {
                assert(src[a] < src[b]);
            }
        }
        let mut t: usize = 0;
        while t < dead.len()
            invariant
                t <= dead@.len(),
                nodes_wf(self@.nodes),
                mailboxes_wf(self@.mailboxes),
                forall|a: int, b: int| 0 <= a < b < dead@.len() ==> dead@[a]@ != dead@[b]@,
                self@.nodes == old_nodes.remove_keys(
                    Set::new(|k: Seq<char>| exists|u: int| 0 <= u < t && dead@[u]@ == k),
                ),
                self@.mailboxes == old_mail.remove_keys(
                    Set::new(|k: Seq<char>| exists|u: int| 0 <= u < t && dead@[u]@ == k),
                ),
                self@.karma == old(self)@.karma,
                self@.receipts == old(self)@.receipts,
            decreases dead@.len() - t,
        {
            let ghost before_nodes = self@.nodes;
            let ghost before_mail = self@.mailboxes;
            proof {
                lemma_nodes_remove(before_nodes, dead@[t as int]@);
                lemma_mailboxes_remove(before_mail, dead@[t as int]@);
            }
            node_remove(&mut self.nodes, dead[t].as_str());
            let _ = mailbox_take(&mut self.mailboxes, dead[t].as_str());
            proof {
                let s1 = Set::new(|k: Seq<char>| exists|u: int| 0 <= u < t && dead@[u]@ == k);
                let s2 = Set::new(|k: Seq<char>| exists|u: int| 0 <= u < t + 1 && dead@[u]@ == k);
                assert(s2 =~= s1.insert(dead@[t as int]@));
                assert(self@.nodes =~= old_nodes.remove_keys(s2));
                assert(self@.mailboxes =~= old_mail.remove_keys(s2));
            }
            t = t + 1;
        }
        proof {
            let s = Set::new(|k: Seq<char>| exists|u: int| 0 <= u < dead@.len() && dead@[u]@ == k);
            assert(s =~= stale);
        }
        dead
    }

    /// Totals over the network and one line per node.
    pub fn dashboard(&self) -> (r: Dashboard)
        requires
            self.wf(),
        ensures
            r.total_active_nodes == self@.nodes.len(),
            dashboard_lists(self@.nodes, self@.karma, r.nodes@),
            r.total_network_ram_bytes == ram_total(r.nodes@) % 0x1_0000_0000_0000_0000,
            r.total_network_vram_bytes == vram_total(r.nodes@) % 0x1_0000_0000_0000_0000,
    {
        let total = node_count(&self.nodes);
        let entries = node_entries(&self.nodes);
        let ghost nodes = self@.nodes;
        let ghost karma = self@.karma;
        let mut out: Vec<DashboardNode> = Vec::new();
        let mut ram: u64 = 0;
        let mut vram: u64 = 0;
        let mut i: usize = 0;
        while i < entries.len()
            invariant
                i <= entries@.len(),
                nodes == self@.nodes,
                karma == self@.karma,
                nodes_wf(nodes),
                entries@.len() == nodes.len(),
                forall|j: int|
                    0 <= j < entries@.len() ==> nodes.contains_key(#[trigger] entries@[j].0@)
                        && nodes[entries@[j].0@] == entries@[j].1,
                forall|a: int, b: int|
                    0 <= a < b < entries@.len() ==> entries@[a].0@ != entries@[b].0@,
                out@.len() == i,
                forall|t: int| 0 <= t < i ==> (#[trigger] out@[t]).node_id@ == entries@[t].0@,
                dashboard_lists_part(nodes, karma, out@),
                ram == ram_total(out@) % 0x1_0000_0000_0000_0000,
                vram == vram_total(out@) % 0x1_0000_0000_0000_0000,
            decreases entries@.len() - i,
        {
            let info = &entries[i].1.info;
            let k = match karma_lookup(&self.karma, info.node_id.as_str()) {
                Some(k) => k,
                None => 0,
            };
            proof {
                assert(nodes[entries@[i as int].0@].info.node_id@ == entries@[i as int].0@);
                vstd::arithmetic::div_mod::lemma_add_mod_noop(
                    ram_total(out@),
                    info.available_memory_bytes as int,
                    0x1_0000_0000_0000_0000,
                );
                vstd::arithmetic::div_mod::lemma_add_mod_noop(
                    vram_total(out@),
                    info.available_vram_bytes as int,
                    0x1_0000_0000_0000_0000,
                );
                vstd::arithmetic::div_mod::lemma_small_mod(
                    info.available_memory_bytes as nat,
                    0x1_0000_0000_0000_0000,
                );
                vstd::arithmetic::div_mod::lemma_small_mod(
                    info.available_vram_bytes as nat,
                    0x1_0000_0000_0000_0000,
                );
            }
            let ghost before = out@;
            ram = ram.wrapping_add(info.available_memory_bytes);
            vram = vram.wrapping_add(info.available_vram_bytes);
            out.push(
                DashboardNode {
                    node_id: info.node_id.clone(),
                    addr: info.addr.clone(),
                    tier: info.tier.clone(),
                    ram_bytes: info.available_memory_bytes,
                    vram_bytes: info.available_vram_bytes,
                    karma: k,
                },
            );
            proof {
                assert(out@.drop_last() == before);
                assert forall|a: int, b: int| 0 <= a < b < out@.len() implies out@[a].node_id@
                    != out@[b].node_id@ by {
                    assert(out@[a].node_id@ == entries@[a].0@);
                    assert(out@[b].node_id@ == entries@[b].0@);
                }
            }
            i = i + 1;
        }
        Dashboard {
            total_active_nodes: total,
            total_network_ram_bytes: ram,
            total_network_vram_bytes: vram,
            nodes: out,
        }
    }
}

/// The lines of `r` describe registered nodes, once each.
pub open spec fn dashboard_lists_part(
    nodes: Map<Seq<char>, NodeEntry>,
    karma: Map<Seq<char>, i64>,
    r: Seq<DashboardNode>,
) -> bool {
    &&& forall|i: int|
        0 <= i < r.len() ==> {
            let k = (#[trigger] r[i]).node_id@;
            &&& nodes.contains_key(k)
            &&& r[i].addr@ == nodes[k].info.addr@
            &&& r[i].tier@ == nodes[k].info.tier@
            &&& r[i].ram_bytes == nodes[k].info.available_memory_bytes
            &&& r[i].vram_bytes == nodes[k].info.available_vram_bytes
            &&& r[i].karma == karma_of(karma, k)
        }
    &&& forall|i: int, j: int| 0 <= i < j < r.len() ==> r[i].node_id@ != r[j].node_id@
}


/// A receipt is paid at most once: once its key is recorded, the same
/// receipt is refused as a replay.
pub proof fn paid_receipt_is_not_paid_again(v: CoordinatorView, r: WorkReceipt, at_ms: u64, karma: Map<Seq<char>, i64>)
    requires
        claim_check(v, r) == ClaimCheck::Paid,
    ensures
        claim_check(
            CoordinatorView {
                nodes: v.nodes,
                mailboxes: v.mailboxes,
                karma,
                receipts: v.receipts.insert(receipt_key_spec(r), at_ms),
            },
            r,
        ) == ClaimCheck::Replayed,
{
}

/// Paying a claim raises the worker's balance by the tokens claimed and
/// leaves every other balance as it was; no balance ever goes down.
pub proof fn paying_never_lowers_karma(v: CoordinatorView, r: WorkReceipt, id: Seq<char>)
    requires
        claim_check(v, r) == ClaimCheck::Paid,
        claim_fits(v, r),
    ensures
        ({
            let after = v.karma.insert(
                r.worker_node_id@,
                (karma_of(v.karma, r.worker_node_id@) + r.tokens_processed) as i64,
            );
            &&& karma_of(after, id) >= karma_of(v.karma, id)
            &&& id == r.worker_node_id@ ==> karma_of(after, id) == karma_of(v.karma, id)
                + r.tokens_processed
            &&& id != r.worker_node_id@ ==> karma_of(after, id) == karma_of(v.karma, id)
        }),
{
}

/// A paid claim is worth between 1 and 100000 karma, and over 5000 only
/// when the client is a registered node.
pub proof fn paid_claims_are_bounded(v: CoordinatorView, r: WorkReceipt)
    requires
        claim_check(v, r) == ClaimCheck::Paid,
    ensures
        1 <= r.tokens_processed <= 100000,
        r.tokens_processed > 5000 ==> v.nodes.contains_key(r.client_node_id@),
{
}

/// The rank of a tier, lowest first.
pub open spec fn tier_rank(t: Tier) -> int {
    match t {
        Tier::Community => 0,
        Tier::Contributor => 1,
        Tier::VipAlpha => 2,
    }
}

/// More karma never means a lower tier.
pub proof fn tier_is_monotone(a: int, b: int)
    requires
        a <= b,
    ensures
        tier_rank(tier_spec(a)) <= tier_rank(tier_spec(b)),
{
}

/// After a node polls its mailbox, nothing waits for it until a new signal
/// is sent.
pub proof fn polling_drains_the_mailbox(m: Map<Seq<char>, Seq<serde_json::Value>>, id: Seq<char>)
    ensures
        queue_of(m.remove(id), id).len() == 0,
{
}

/// A full mailbox stays at capacity: refused signals change nothing, and an
/// accepted one never takes it past 50.
pub proof fn mailbox_never_exceeds_capacity(
    m: Map<Seq<char>, Seq<serde_json::Value>>,
    id: Seq<char>,
    v: serde_json::Value,
)
    requires
        mailboxes_wf(m),
    ensures
        queue_of(m, id).len() < 50 ==> mailboxes_wf(m.insert(id, queue_of(m, id).push(v))),
{
    if queue_of(m, id).len() < 50 {
        lemma_mailboxes_insert(m, id, queue_of(m, id).push(v));
    }
}

/// Pruning keeps exactly the live nodes: a node heard from within the
/// minute survives, with its entry unchanged, and a stale one is gone.
pub proof fn pruning_keeps_live_nodes(nodes: Map<Seq<char>, NodeEntry>, now_ms: u64, k: Seq<char>)
    ensures
        nodes.remove_keys(stale_ids(nodes, now_ms)).contains_key(k) <==> (nodes.contains_key(k)
            && node_active(nodes[k], now_ms)),
        nodes.remove_keys(stale_ids(nodes, now_ms)).contains_key(k) ==> nodes.remove_keys(
            stale_ids(nodes, now_ms),
        )[k] == nodes[k],
{
}


/// The mailboxes after signals `vs` are sent to `id`, one after the other,
/// as `send_signal` treats each: queued while there is room, else refused.
pub open spec fn mailbox_after(
    m: Map<Seq<char>, Seq<serde_json::Value>>,
    id: Seq<char>,
    vs: Seq<serde_json::Value>,
) -> Map<Seq<char>, Seq<serde_json::Value>>
    decreases vs.len(),
{
    if vs.len() == 0 {
        m
    } else {
        let prev = mailbox_after(m, id, vs.drop_last());
        if queue_of(prev, id).len() < 50 {
            prev.insert(id, queue_of(prev, id).push(vs.last()))
        } else {
            prev
        }
    }
}

/// Signals are relayed in the order sent: a mailbox keeps, after what it
/// already held, the first signals sent until it is full, and polling
/// hands them over in that order.
pub proof fn mailbox_keeps_first_signals_in_order(
    m: Map<Seq<char>, Seq<serde_json::Value>>,
    id: Seq<char>,
    vs: Seq<serde_json::Value>,
)
    requires
        queue_of(m, id).len() <= 50,
    ensures
        ({
            let room = 50 - queue_of(m, id).len();
            let kept = if vs.len() <= room {
                vs.len() as int
            } else {
                room
            };
            queue_of(mailbox_after(m, id, vs), id) == queue_of(m, id) + vs.take(kept)
        }),
    decreases vs.len(),
{
    let room = 50 - queue_of(m, id).len();
    if vs.len() > 0 {
        let p = vs.drop_last();
        mailbox_keeps_first_signals_in_order(m, id, p);
        let prev = mailbox_after(m, id, p);
        let kp = if p.len() <= room {
            p.len() as int
        } else {
            room
        };
        assert(queue_of(prev, id) == queue_of(m, id) + p.take(kp));
        if vs.len() <= room {
            assert(p.take(kp).push(vs.last()) =~= vs.take(vs.len() as int));
            assert(queue_of(m, id) + p.take(kp).push(vs.last()) =~= (queue_of(m, id) + p.take(kp)).push(vs.last()));
        } else {
            assert(p.take(kp) =~= vs.take(room));
        }
    } else {
        assert(vs.take(0) =~= Seq::<serde_json::Value>::empty());
        assert(queue_of(m, id) + Seq::<serde_json::Value>::empty() =~= queue_of(m, id));
    }
}


/// A peer that has just registered is found by every query it answers:
/// the listing holds its record exactly as registered.
pub proof fn registered_peer_is_listed(
    nodes: Map<Seq<char>, NodeEntry>,
    info: PeerRecord,
    now_ms: u64,
    r: Seq<PeerRecord>,
    pick: spec_fn(PeerRecord) -> bool,
)
    requires
        lists_exactly(nodes.insert(info.node_id@, NodeEntry { info, last_seen_ms: now_ms }), r, pick),
        pick(info),
    ensures
        exists|i: int| 0 <= i < r.len() && r[i] == info,
{
    let after = nodes.insert(info.node_id@, NodeEntry { info, last_seen_ms: now_ms });
    let k = info.node_id@;
    assert(after.contains_key(k) && pick(after[k].info));
    let i = choose|i: int| 0 <= i < r.len() && r[i].node_id@ == k;
    assert(after[r[i].node_id@].info == r[i]);
}

} // verus!
