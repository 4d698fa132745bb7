//! The key rotation manager: which peers have sessions, and when their
//! keys are replaced.

pub use crate::session::KeyMaterial;
pub use crate::session::PeerSession;

use crate::clock::unix_time_now;
use crate::pq_handshake::answers_handshake;
use crate::pq_handshake::copy_peer_info;
use crate::pq_handshake::opens_handshake;
use crate::pq_handshake::same_peer_info;
use crate::pq_handshake::HandshakeError;
use crate::pq_handshake::HandshakeMessage;
use crate::pq_handshake::HandshakeResult;
use crate::pq_handshake::PeerInfo;
use crate::pq_handshake::PostQuantumHandshake;
use crate::session::is_fresh_session;
use crate::session::is_rotated;
use crate::sessions_map::counts;
use crate::sessions_map::no_sessions;
use crate::sessions_map::sessions_contains;
use crate::sessions_map::sessions_insert;
use crate::sessions_map::sessions_keys;
use crate::sessions_map::sessions_len;
use crate::sessions_map::sessions_new;
use crate::sessions_map::sessions_of;
use crate::sessions_map::sessions_remove;
use dashmap::DashMap;
use vstd::prelude::*;

verus! {

/// What the manager can fail with.
#[derive(Debug)]
pub enum RotationError {
    /// A handshake failed.
    HandshakeError(HandshakeError),
    /// No key material could be made or found; the text says why.
    KeyGeneration(String),
    /// A rotation for this peer is already under way.
    RekeyInProgress,
    /// No session is registered under this peer identifier.
    PeerNotFound(String),
}

impl From<HandshakeError> for RotationError {
    /// A handshake error, as an error of the manager.
    fn from(e: HandshakeError) -> (r: Self) {
        RotationError::HandshakeError(e)
    }
}

impl vstd::std_specs::convert::FromSpecImpl<HandshakeError> for RotationError {
    open spec fn obeys_from_spec() -> bool {
        true
    }

    open spec fn from_spec(e: HandshakeError) -> Self {
        RotationError::HandshakeError(e)
    }
}

/// When and how keys are rotated. Times are in seconds.
#[derive(Debug, Clone)]
pub struct RotationConfig {
    /// Time between scheduled rotations.
    pub rotation_interval: u64,
    /// How many generations of keys a peer may have at most.
    pub max_keys_per_peer: usize,
    /// Age at which key material is dropped.
    pub key_expiration: u64,
    /// Whether rotations are scheduled at all.
    pub auto_rotate: bool,
    /// Number of packets after which the keys are rotated, if any.
    pub rekey_packet_threshold: Option<u64>,
}

impl Default for RotationConfig {
    /// Rotation every two hours, five generations kept for up to a day,
    /// and a rotation after a million packets.
    fn default() -> (c: Self)
        ensures
            c.rotation_interval == 7200,
            c.max_keys_per_peer == 5,
            c.key_expiration == 86400,
            c.auto_rotate,
            c.rekey_packet_threshold == Some(1_000_000u64),
    {
        RotationConfig {
            rotation_interval: 7200,
            max_keys_per_peer: 5,
            key_expiration: 86400,
            auto_rotate: true,
            rekey_packet_threshold: Some(1_000_000),
        }
    }
}


/// Numbers that describe the manager's state.
#[derive(Debug, Clone)]
pub struct RotationStats {
    /// Number of registered peers.
    pub total_peers: usize,
    /// Number of generations of key material kept, over all peers.
    pub total_keys: usize,
    /// Number of peers whose keys are overdue for rotation.
    pub peers_needing_rotation: usize,
    /// The configuration in force.
    pub config: RotationConfig,
}

/// The sessions by peer identifier.
pub type Peers = Map<Seq<char>, PeerSession>;

/// The key rotation manager.
pub struct KeyRotationManager {
    config: RotationConfig,
    handshake: PostQuantumHandshake,
    sessions: DashMap<String, PeerSession>,
}

/// A session is overdue when the time since its last rotation exceeds the
/// interval.
pub open spec fn is_overdue(s: PeerSession, now: u64, interval: u64) -> bool {
    now > s.last_rotation && now - s.last_rotation > interval
}

/// The packet count after one more packet; it stops at the largest number
/// it can hold.
pub open spec fn counted(packets: u64) -> u64 {
    if packets < u64::MAX {
        (packets + 1) as u64
    } else {
        packets
    }
}

/// The session with one more packet counted.
pub open spec fn with_packet(s: PeerSession) -> PeerSession {
    PeerSession { packets_sent: counted(s.packets_sent), ..s }
}

/// Whether counting a packet makes a rotation due.
pub open spec fn threshold_reached(s: PeerSession, config: RotationConfig) -> bool {
    match config.rekey_packet_threshold {
        Some(t) => counted(s.packets_sent) >= t && !s.rekeying,
        None => false,
    }
}

/// What registering a peer at `now` owes: a refusal that changes nothing
/// if the identifier is taken, else a new session with its first keys.
pub open spec fn register_post(
    before: Peers,
    after: Peers,
    id: Seq<char>,
    info: PeerInfo,
    initial: HandshakeResult,
    r: Result<(), RotationError>,
    now: u64,
) -> bool {
    if before.contains_key(id) {
        &&& r matches Err(e) && e is KeyGeneration
        &&& after == before
    } else {
        &&& r is Ok
        &&& after.contains_key(id)
        &&& after == before.insert(id, after[id])
        &&& is_fresh_session(after[id], info, initial, now)
    }
}

/// What a lookup of the current keys owes.
pub open spec fn current_keys_post(peers: Peers, id: Seq<char>, r: Result<KeyMaterial, RotationError>) -> bool {
    if !peers.contains_key(id) {
        r matches Err(RotationError::PeerNotFound(name)) && name@ == id
    } else if peers[id].keys@.len() == 0 {
        r matches Err(e) && e is KeyGeneration
    } else {
        r matches Ok(k) && k@ == peers[id].keys@[0]@
    }
}

/// What starting a rotation at `now` owes: an unknown peer and a rotation
/// under way are refused and change nothing; else either the keys of a new
/// handshake are installed, or the handshake fails and nothing changes.
pub open spec fn initiate_rekey_post(
    before: Peers,
    after: Peers,
    id: Seq<char>,
    config: RotationConfig,
    r: Result<HandshakeResult, RotationError>,
    now: u64,
) -> bool {
    if !before.contains_key(id) {
        &&& r matches Err(RotationError::PeerNotFound(name)) && name@ == id
        &&& after == before
    } else if before[id].rekeying {
        &&& r matches Err(e) && e is RekeyInProgress
        &&& after == before
    } else {
        match r {
            Ok(res) => {
                &&& opens_handshake(res)
                &&& after.contains_key(id)
                &&& after == before.insert(id, after[id])
                &&& is_rotated(before[id], after[id], res, config, now, true)
            },
            Err(e) => (e is HandshakeError || e is KeyGeneration) && after == before,
        }
    }
}

/// What answering a peer's rotation at `now` owes.
pub open spec fn complete_rekey_post(
    before: Peers,
    after: Peers,
    id: Seq<char>,
    message: HandshakeMessage,
    config: RotationConfig,
    r: Result<HandshakeResult, RotationError>,
    now: u64,
) -> bool {
    if !before.contains_key(id) {
        &&& r matches Err(RotationError::PeerNotFound(name)) && name@ == id
        &&& after == before
    } else {
        match r {
            Ok(res) => {
                &&& answers_handshake(res, message@)
                &&& after.contains_key(id)
                &&& after == before.insert(id, after[id])
                &&& is_rotated(before[id], after[id], res, config, now, false)
            },
            Err(e) => (e is HandshakeError || e is KeyGeneration) && after == before,
        }
    }
}

/// What installing the keys of an answered handshake at `now` owes: an
/// unknown peer is refused; else the keys become the newest generation
/// and the list is pruned, while the packet count and the mark of a
/// rotation under way stay. If the generation counter cannot grow,
/// nothing changes.
pub open spec fn install_post(
    before: Peers,
    after: Peers,
    id: Seq<char>,
    config: RotationConfig,
    res: HandshakeResult,
    r: Result<HandshakeResult, RotationError>,
    now: u64,
) -> bool {
    if !before.contains_key(id) {
        &&& r matches Err(RotationError::PeerNotFound(name)) && name@ == id
        &&& after == before
    } else if before[id].key_counter < u64::MAX {
        &&& r == Ok::<HandshakeResult, RotationError>(res)
        &&& after.contains_key(id)
        &&& after == before.insert(id, after[id])
        &&& is_rotated(before[id], after[id], res, config, now, false)
    } else {
        &&& r matches Err(e) && e is KeyGeneration
        &&& after == before
    }
}

/// What listing the peers whose keys are due at `now` owes: exactly those
/// peers, each once.
pub open spec fn due_list(peers: Peers, config: RotationConfig, list: Seq<String>, now: u64) -> bool {
    &&& forall|f: int| 0 <= f < list.len() ==> is_due(peers, (#[trigger] list[f])@, config, now)
    &&& forall|f: int, g: int| 0 <= f < g < list.len() ==> (#[trigger] list[f])@ != (#[trigger] list[g])@
    &&& forall|id: Seq<char>| #[trigger] is_due(peers, id, config, now) ==> names(list, id)
}

/// What marking a rotation as under way owes: an unknown peer and a
/// rotation already under way are refused and change nothing; else the
/// session's flag is set and nothing else changes.
pub open spec fn begin_rekey_post(before: Peers, after: Peers, id: Seq<char>, r: Result<(), RotationError>) -> bool {
    if !before.contains_key(id) {
        &&& r matches Err(RotationError::PeerNotFound(name)) && name@ == id
        &&& after == before
    } else if before[id].rekeying {
        &&& r matches Err(e) && e is RekeyInProgress
        &&& after == before
    } else {
        &&& r is Ok
        &&& after == before.insert(id, PeerSession { rekeying: true, ..before[id] })
    }
}

/// What finishing a rotation at `now` with the outcome of a handshake
/// owes: the flag is cleared; the keys of a successful handshake are
/// installed; a failed one changes nothing else.
pub open spec fn finish_rekey_post(
    before: Peers,
    after: Peers,
    id: Seq<char>,
    config: RotationConfig,
    outcome: Result<HandshakeResult, HandshakeError>,
    r: Result<HandshakeResult, RotationError>,
    now: u64,
) -> bool {
    if !before.contains_key(id) {
        &&& r matches Err(RotationError::PeerNotFound(name)) && name@ == id
        &&& after == before
    } else {
        let idle = PeerSession { rekeying: false, ..before[id] };
        match outcome {
            Ok(res) => if before[id].key_counter < u64::MAX {
                &&& r == Ok::<HandshakeResult, RotationError>(res)
                &&& after.contains_key(id)
                &&& after == before.insert(id, after[id])
                &&& is_rotated(idle, after[id], res, config, now, true)
            } else {
                &&& r matches Err(e) && e is KeyGeneration
                &&& after == before.insert(id, idle)
            },
            Err(e) => {
                &&& r == Err::<HandshakeResult, RotationError>(RotationError::HandshakeError(e))
                &&& after == before.insert(id, idle)
            },
        }
    }
}

/// The session `after` is `before` after an attempt to rotate at `now`:
/// rotated, or as it was if the handshake failed.
pub open spec fn rotated_or_kept(
    before: PeerSession,
    after: PeerSession,
    config: RotationConfig,
    now: u64,
) -> bool {
    after == before || exists|res: HandshakeResult| #[trigger]
        is_rotated(before, after, res, config, now, true)
}

/// What counting a packet without rotating owes: an unknown peer is
/// refused; else the count grows by one, nothing else changes, and the
/// answer says whether the threshold is reached while no rotation is under
/// way.
pub open spec fn count_post(
    before: Peers,
    after: Peers,
    id: Seq<char>,
    config: RotationConfig,
    r: Result<bool, RotationError>,
) -> bool {
    if !before.contains_key(id) {
        &&& r matches Err(RotationError::PeerNotFound(name)) && name@ == id
        &&& after == before
    } else {
        &&& r == Ok::<bool, RotationError>(threshold_reached(before[id], config))
        &&& after == before.insert(id, with_packet(before[id]))
    }
}

/// What counting a packet at `now` owes: the count grows by one; if that
/// reaches the threshold while no rotation is under way, a rotation is
/// attempted, and its failure is not an error.
pub open spec fn increment_post(
    before: Peers,
    after: Peers,
    id: Seq<char>,
    config: RotationConfig,
    r: Result<(), RotationError>,
    now: u64,
) -> bool {
    if !before.contains_key(id) {
        &&& r matches Err(RotationError::PeerNotFound(name)) && name@ == id
        &&& after == before
    } else {
        &&& r is Ok
        &&& after.contains_key(id)
        &&& after == before.insert(id, after[id])
        &&& if threshold_reached(before[id], config) {
            rotated_or_kept(with_packet(before[id]), after[id], config, now)
        } else {
            after[id] == with_packet(before[id])
        }
    }
}

/// A peer's keys are due for rotation at `now`: the peer is registered,
/// its session is overdue, and no rotation for it is under way.
pub open spec fn is_due(peers: Peers, id: Seq<char>, config: RotationConfig, now: u64) -> bool {
    &&& peers.contains_key(id)
    &&& is_overdue(peers[id], now, config.rotation_interval)
    &&& !peers[id].rekeying
}

/// The session `after` is `before` rotated at `now` with the keys of a
/// handshake that an initiator can have made.
pub open spec fn rotated_by_handshake(
    before: PeerSession,
    after: PeerSession,
    config: RotationConfig,
    now: u64,
) -> bool {
    exists|res: HandshakeResult| #[trigger]
        is_rotated(before, after, res, config, now, true) && opens_handshake(res)
}

/// What rotating one peer's keys at `now` owes. A peer whose keys are not
/// due is left alone, and that is a success. A peer whose keys are due
/// gets the keys of a new handshake, or, if the handshake fails, keeps
/// its session while the failure is returned.
pub open spec fn rotate_post(
    before: Peers,
    after: Peers,
    id: Seq<char>,
    config: RotationConfig,
    r: Result<(), RotationError>,
    now: u64,
) -> bool {
    if !is_due(before, id, config, now) {
        r is Ok && after == before
    } else {
        match r {
            Ok(_) => {
                &&& after.contains_key(id)
                &&& after == before.insert(id, after[id])
                &&& rotated_by_handshake(before[id], after[id], config, now)
            },
            Err(e) => (e is HandshakeError || e is KeyGeneration) && after == before,
        }
    }
}

/// One of the first `n` entries of the list is the identifier `id`.
pub open spec fn names_among(list: Seq<String>, n: int, id: Seq<char>) -> bool {
    exists|j: int| 0 <= j < n && (#[trigger] list[j])@ == id
}

/// The list holds the identifier `id`.
pub open spec fn names(list: Seq<String>, id: Seq<char>) -> bool {
    names_among(list, list.len() as int, id)
}

/// What a sweep owes one peer: if its keys were due, it is either among
/// the failed and has its session as it was, or it is not and has been
/// rotated; if they were not due, its session is as it was.
pub open spec fn swept(
    before: Peers,
    after: Peers,
    failed: Seq<String>,
    id: Seq<char>,
    config: RotationConfig,
    now: u64,
) -> bool {
    if is_due(before, id, config, now) {
        if names(failed, id) {
            after[id] == before[id]
        } else {
            rotated_by_handshake(before[id], after[id], config, now)
        }
    } else {
        after[id] == before[id]
    }
}

/// What a sweep at `now` owes: the same peers as before, each of them
/// treated as `swept` says; and the list of the failed names, once each,
/// peers whose keys were due.
pub open spec fn sweep_post(
    before: Peers,
    after: Peers,
    config: RotationConfig,
    failed: Seq<String>,
    now: u64,
) -> bool {
    &&& after.dom() == before.dom()
    &&& forall|f: int| 0 <= f < failed.len() ==> is_due(before, (#[trigger] failed[f])@, config, now)
    &&& forall|f: int, g: int|
        0 <= f < g < failed.len() ==> (#[trigger] failed[f])@ != (#[trigger] failed[g])@
    &&& forall|id: Seq<char>| #[trigger]
        before.contains_key(id) ==> swept(before, after, failed, id, config, now)
}

/// The sum of `g` over the first `n` of the listed peers.
pub open spec fn sum_along(ids: Seq<String>, n: nat, g: spec_fn(Seq<char>) -> nat) -> nat
    decreases n,
{
    if n == 0 {
        0
    } else {
        sum_along(ids, (n - 1) as nat, g) + g(ids[n - 1]@)
    }
}

/// Adding `g` of a peer to a running sum.
pub open spec fn adding(g: spec_fn(Seq<char>) -> nat) -> spec_fn(nat, Seq<char>) -> nat {
    |acc: nat, id: Seq<char>| acc + g(id)
}

/// The sum of `g` over a finite set of peers.
pub open spec fn sum_over(ids: Set<Seq<char>>, g: spec_fn(Seq<char>) -> nat) -> nat {
    ids.fold(0nat, adding(g))
}

/// The number of generations that each peer keeps.
pub open spec fn keys_kept(peers: Peers) -> spec_fn(Seq<char>) -> nat {
    |id: Seq<char>| peers[id].keys@.len()
}

/// One for each peer whose session is overdue at `now`, zero for the
/// others.
pub open spec fn overdue_mark(peers: Peers, now: u64, interval: u64) -> spec_fn(Seq<char>) -> nat {
    |id: Seq<char>|
        if is_overdue(peers[id], now, interval) {
            1nat
        } else {
            0nat
        }
}

/// The peers that the first `n` entries of a list name.
pub open spec fn named(ids: Seq<String>, n: nat) -> Set<Seq<char>> {
    Set::new(|k: Seq<char>| exists|j: int| 0 <= j < n && (#[trigger] ids[j])@ == k)
}

/// The list names every peer once.
pub open spec fn lists_peers(peers: Peers, ids: Seq<String>) -> bool {
    &&& forall|i: int, j: int| 0 <= i < j < ids.len() ==> (#[trigger] ids[i])@ != (#[trigger] ids[j])@
    &&& forall|i: int| 0 <= i < ids.len() ==> peers.contains_key(#[trigger] ids[i]@)
    &&& forall|k: Seq<char>|
        peers.contains_key(k) ==> exists|i: int| 0 <= i < ids.len() && (#[trigger] ids[i])@ == k
}

/// A sum along a list that names no peer twice is the sum over the set of
/// the peers it names: the order of the list does not matter.
pub proof fn lemma_sum_along_is_sum_over(ids: Seq<String>, n: nat, g: spec_fn(Seq<char>) -> nat)
    requires
        n <= ids.len(),
        forall|i: int, j: int| 0 <= i < j < ids.len() ==> (#[trigger] ids[i])@ != (#[trigger] ids[j])@,
    ensures
        named(ids, n).finite(),
        sum_along(ids, n, g) == sum_over(named(ids, n), g),
    decreases n,
{
    let f = adding(g);
    assert(vstd::set::fold::is_fun_commutative(f)) by {
        assert forall|a1: Seq<char>, a2: Seq<char>, b: nat| #[trigger] f(f(b, a2), a1) == f(f(b, a1), a2) by {}
    }
    if n == 0 {
        assert(named(ids, 0) =~= Set::<Seq<char>>::empty());
        vstd::set::fold::lemma_fold_empty(0nat, f);
    } else {
        let m = (n - 1) as nat;
        lemma_sum_along_is_sum_over(ids, m, g);
        let last = ids[n - 1]@;
        assert(!named(ids, m).contains(last)) by {
            if named(ids, m).contains(last) {
                let j = choose|j: int| 0 <= j < m && (#[trigger] ids[j])@ == last;
                assert(ids[j]@ != ids[n - 1]@);
            }
        }
        assert(named(ids, n) =~= named(ids, m).insert(last)) by {
            assert forall|k: Seq<char>| named(ids, n).contains(k) implies named(ids, m).insert(
                last,
            ).contains(k) by {
                let j = choose|j: int| 0 <= j < n && (#[trigger] ids[j])@ == k;
                if j < m {
                    assert(named(ids, m).contains(k));
                }
            }
            assert forall|k: Seq<char>| named(ids, m).insert(last).contains(k) implies named(
                ids,
                n,
            ).contains(k) by {
                if k == last {
                    assert(ids[n - 1]@ == k);
                } else {
                    let j = choose|j: int| 0 <= j < m && (#[trigger] ids[j])@ == k;
                    assert(0 <= j < n && ids[j]@ == k);
                }
            }
        }
        vstd::set::fold::lemma_fold_insert(named(ids, m), 0nat, f, last);
    }
}

/// A list that names every peer once names exactly the peers.
pub proof fn lemma_list_names_the_peers(peers: Peers, ids: Seq<String>)
    requires
        lists_peers(peers, ids),
    ensures
        named(ids, ids.len()) == peers.dom(),
{
    assert(named(ids, ids.len()) =~= peers.dom()) by {
        assert forall|k: Seq<char>| named(ids, ids.len()).contains(k) implies peers.dom().contains(
            k,
        ) by {
            let j = choose|j: int| 0 <= j < ids.len() && (#[trigger] ids[j])@ == k;
            assert(peers.contains_key(ids[j]@));
        }
        assert forall|k: Seq<char>| peers.dom().contains(k) implies named(ids, ids.len()).contains(
            k,
        ) by {
            assert(peers.contains_key(k));
            let i = choose|i: int| 0 <= i < ids.len() && (#[trigger] ids[i])@ == k;
            assert(0 <= i < ids.len() && ids[i]@ == k);
        }
    }
}

/// A count, or the largest number if the count does not fit.
pub open spec fn clamped(n: nat) -> usize {
    if n <= usize::MAX {
        n as usize
    } else {
        usize::MAX
    }
}

/// The statistics of the sessions at `now`: the number of peers, the
/// generations of keys they keep in all, and the number of peers whose
/// session is overdue.
pub open spec fn stats_post(peers: Peers, config: RotationConfig, stats: RotationStats, now: u64) -> bool {
    &&& counts(peers, stats.total_peers)
    &&& stats.config == config
    &&& stats.total_keys == clamped(sum_over(peers.dom(), keys_kept(peers)))
    &&& stats.peers_needing_rotation == sum_over(
        peers.dom(),
        overdue_mark(peers, now, config.rotation_interval),
    )
}

impl KeyRotationManager {
    /// The sessions that the manager holds.
    pub closed spec fn peers(&self) -> Peers {
        sessions_of(self.sessions)
    }

    /// The configuration that the manager was made with.
    pub closed spec fn configuration(&self) -> RotationConfig {
        self.config
    }

    /// A manager without peers.
    pub fn new(config: RotationConfig) -> (m: Self)
        ensures
            m.peers() == no_sessions(),
            m.configuration() == config,
    {
        KeyRotationManager {
            config,
            handshake: PostQuantumHandshake::new(),
            sessions: sessions_new(),
        }
    }

    /// The configuration.
    pub fn config(&self) -> (c: &RotationConfig)
        ensures
            *c == self.configuration(),
    {
        &self.config
    }

    /// Registers a peer with the keys of its first handshake, at the time
    /// that the clock shows.
    pub fn register_peer(
        &mut self,
        peer_id: String,
        peer_info: PeerInfo,
        initial_handshake: HandshakeResult,
    ) -> (r: Result<(), RotationError>)
        ensures
            final(self).configuration() == old(self).configuration(),
            (r matches Err(e) && e is KeyGeneration && final(self).peers() == old(self).peers())
                || exists|now: u64| #[trigger]
                register_post(
                    old(self).peers(),
                    final(self).peers(),
                    peer_id@,
                    peer_info,
                    initial_handshake,
                    r,
                    now,
                ),
            old(self).peers().contains_key(peer_id@) ==> {
                &&& r matches Err(e) && e is KeyGeneration
                &&& final(self).peers() == old(self).peers()
            },
    {
        if sessions_contains(&self.sessions, peer_id.as_str()) {
            return Err(RotationError::KeyGeneration("peer already registered".to_owned()));
        }
        match unix_time_now() {
            Some(now) => {
                let ghost before = self.peers();
                let ghost id = peer_id@;
                let r = self.register_peer_at(peer_id, peer_info, initial_handshake, now);
                assert(register_post(before, self.peers(), id, peer_info, initial_handshake, r, now));
                r
            },
            None => Err(RotationError::KeyGeneration("clock unavailable".to_owned())),
        }
    }

    /// Registers a peer at the time `now`. An identifier that is already
    /// registered is refused, and its session stays.
    pub fn register_peer_at(
        &mut self,
        peer_id: String,
        peer_info: PeerInfo,
        initial_handshake: HandshakeResult,
        now: u64,
    ) -> (r: Result<(), RotationError>)
        ensures
            final(self).configuration() == old(self).configuration(),
            register_post(
                old(self).peers(),
                final(self).peers(),
                peer_id@,
                peer_info,
                initial_handshake,
                r,
                now,
            ),
    {
        if sessions_contains(&self.sessions, peer_id.as_str()) {
            return Err(RotationError::KeyGeneration("peer already registered".to_owned()));
        }
        let session: PeerSession = PeerSession::new(peer_info, &initial_handshake, now);
        let _ = sessions_insert(&mut self.sessions, peer_id, session);
        Ok(())
    }

    /// Removes a peer's session, if there is one.
    pub fn unregister_peer(&mut self, peer_id: &str)
        ensures
            final(self).peers() == old(self).peers().remove(peer_id@),
            final(self).configuration() == old(self).configuration(),
    {
        let _ = sessions_remove(&mut self.sessions, peer_id);
    }

    /// A copy of a peer's newest key material.
    pub fn get_current_keys(&mut self, peer_id: &str) -> (r: Result<KeyMaterial, RotationError>)
        ensures
            final(self).peers() == old(self).peers(),
            final(self).configuration() == old(self).configuration(),
            current_keys_post(old(self).peers(), peer_id@, r),
    {
        let session: PeerSession = match sessions_remove(&mut self.sessions, peer_id) {
            Some(s) => s,
            None => {
                assert(self.peers() =~= old(self).peers());
                return Err(RotationError::PeerNotFound(peer_id.to_owned()));
            },
        };
        let key: Option<KeyMaterial> = session.current_key();
        let _ = sessions_insert(&mut self.sessions, peer_id.to_owned(), session);
        assert(self.peers() =~= old(self).peers());
        match key {
            Some(k) => Ok(k),
            None => Err(RotationError::KeyGeneration("No keys available".to_owned())),
        }
    }

    /// Rotates a peer's keys by a new handshake as initiator, at the time
    /// that the clock shows.
    pub fn initiate_rekey(&mut self, peer_id: &str) -> (r: Result<HandshakeResult, RotationError>)
        ensures
            final(self).configuration() == old(self).configuration(),
            (r matches Err(e) && e is KeyGeneration && final(self).peers() == old(self).peers())
                || exists|now: u64| #[trigger]
                initiate_rekey_post(
                    old(self).peers(),
                    final(self).peers(),
                    peer_id@,
                    old(self).configuration(),
                    r,
                    now,
                ),
            old(self).peers().contains_key(peer_id@) && old(self).peers()[peer_id@].rekeying ==> {
                &&& r matches Err(e) && e is RekeyInProgress
                &&& final(self).peers() == old(self).peers()
            },
            !old(self).peers().contains_key(peer_id@) ==> {
                &&& r matches Err(RotationError::PeerNotFound(name)) && name@ == peer_id@
                &&& final(self).peers() == old(self).peers()
            },
    {
        if !sessions_contains(&self.sessions, peer_id) {
            let r: Result<HandshakeResult, RotationError> = Err(
                RotationError::PeerNotFound(peer_id.to_owned()),
            );
            assert(initiate_rekey_post(
                old(self).peers(),
                self.peers(),
                peer_id@,
                self.configuration(),
                r,
                0,
            ));
            return r;
        }
        if self.is_rekeying(peer_id) {
            let r: Result<HandshakeResult, RotationError> = Err(RotationError::RekeyInProgress);
            assert(initiate_rekey_post(
                old(self).peers(),
                self.peers(),
                peer_id@,
                self.configuration(),
                r,
                0,
            ));
            return r;
        }
        match unix_time_now() {
            Some(now) => {
                let ghost before = self.peers();
                let r = self.initiate_rekey_at(peer_id, now);
                assert(initiate_rekey_post(
                    before,
                    self.peers(),
                    peer_id@,
                    self.configuration(),
                    r,
                    now,
                ));
                r
            },
            None => Err(RotationError::KeyGeneration("clock unavailable".to_owned())),
        }
    }

    /// A copy of what is stored of a peer, if the peer is registered.
    pub fn peer_info_of(&mut self, peer_id: &str) -> (info: Option<PeerInfo>)
        ensures
            final(self).peers() == old(self).peers(),
            final(self).configuration() == old(self).configuration(),
            match info {
                Some(i) => old(self).peers().contains_key(peer_id@) && same_peer_info(
                    i,
                    old(self).peers()[peer_id@].peer_info,
                ),
                None => !old(self).peers().contains_key(peer_id@),
            },
    {
        match sessions_remove(&mut self.sessions, peer_id) {
            Some(s) => {
                let info: PeerInfo = copy_peer_info(&s.peer_info);
                let _ = sessions_insert(&mut self.sessions, peer_id.to_owned(), s);
                assert(self.peers() =~= old(self).peers());
                Some(info)
            },
            None => {
                assert(self.peers() =~= old(self).peers());
                None
            },
        }
    }

    /// Installs the keys of a handshake that answered a peer, at the time
    /// `now`, without resetting the packet count.
    pub fn install_responder_keys_at(&mut self, peer_id: &str, res: HandshakeResult, now: u64) -> (r:
        Result<HandshakeResult, RotationError>)
        ensures
            final(self).configuration() == old(self).configuration(),
            install_post(
                old(self).peers(),
                final(self).peers(),
                peer_id@,
                old(self).configuration(),
                res,
                r,
                now,
            ),
    {
        let mut session: PeerSession = match sessions_remove(&mut self.sessions, peer_id) {
            Some(s) => s,
            None => {
                assert(self.peers() =~= old(self).peers());
                return Err(RotationError::PeerNotFound(peer_id.to_owned()));
            },
        };
        let r = match session.install_key(&res, &self.config, now, false) {
            Ok(()) => Ok(res),
            Err(e) => Err(e),
        };
        let _ = sessions_insert(&mut self.sessions, peer_id.to_owned(), session);
        proof {
            if r is Err {
                assert(self.peers() =~= old(self).peers());
            } else {
                assert(self.peers() =~= old(self).peers().insert(peer_id@, session));
            }
        }
        r
    }

    /// The peers whose keys are due for rotation at `now`.
    pub fn due_peers_at(&mut self, now: u64) -> (due: Vec<String>)
        ensures
            final(self).peers() == old(self).peers(),
            final(self).configuration() == old(self).configuration(),
            due_list(old(self).peers(), old(self).configuration(), due@, now),
    {
        let ids: Vec<String> = sessions_keys(&self.sessions);
        let ghost peers = self.peers();
        let ghost config = self.configuration();
        let mut due: Vec<String> = Vec::new();
        let mut i: usize = 0;
        while i < ids.len()
            invariant
                i <= ids@.len(),
                self.peers() == peers,
                self.configuration() == config,
                lists_peers(peers, ids@),
                forall|f: int| 0 <= f < due@.len() ==> is_due(peers, (#[trigger] due@[f])@, config, now),
                forall|f: int|
                    0 <= f < due@.len() ==> names_among(ids@, i as int, (#[trigger] due@[f])@),
                forall|f: int, g: int|
                    0 <= f < g < due@.len() ==> (#[trigger] due@[f])@ != (#[trigger] due@[g])@,
                forall|j: int|
                    0 <= j < i && is_due(peers, (#[trigger] ids@[j])@, config, now) ==> names(
                        due@,
                        ids@[j]@,
                    ),
            decreases ids@.len() - i,
        {
            let ghost earlier = due@;
            let ghost id = ids@[i as int]@;
            let is_now_due: bool = self.rotation_due(ids[i].as_str(), now);
            if is_now_due {
                due.push(ids[i].clone());
            }
            proof {
                assert forall|f: int| 0 <= f < due@.len() implies names_among(
                    ids@,
                    i + 1,
                    (#[trigger] due@[f])@,
                ) by {
                    if f < earlier.len() {
                        assert(due@[f] == earlier[f]);
                        assert(names_among(ids@, i as int, earlier[f]@));
                        let j = choose|j: int| 0 <= j < i && (#[trigger] ids@[j])@ == earlier[f]@;
                        assert(0 <= j < i + 1 && ids@[j]@ == due@[f]@);
                    } else {
                        assert(0 <= i < i + 1 && ids@[i as int]@ == due@[f]@);
                    }
                }
                assert forall|f: int, g: int| 0 <= f < g < due@.len() implies (#[trigger] due@[f])@
                    != (#[trigger] due@[g])@ by {
                    if g < earlier.len() {
                        assert(due@[f] == earlier[f] && due@[g] == earlier[g]);
                    } else {
                        assert(due@[f] == earlier[f]);
                        assert(names_among(ids@, i as int, earlier[f]@));
                        let j = choose|j: int| 0 <= j < i && (#[trigger] ids@[j])@ == earlier[f]@;
                        assert(ids@[j]@ != ids@[i as int]@);
                    }
                }
                assert forall|j: int|
                    0 <= j < i + 1 && is_due(peers, (#[trigger] ids@[j])@, config, now) implies names(
                    due@,
                    ids@[j]@,
                ) by {
                    if j < i {
                        assert(names(earlier, ids@[j]@));
                        let f = choose|f: int|
                            0 <= f < earlier.len() && (#[trigger] earlier[f])@ == ids@[j]@;
                        assert(due@[f]@ == ids@[j]@);
                    } else {
                        let last = due@.len() - 1;
                        assert(due@[last]@ == id);
                    }
                }
            }
            i += 1;
        }
        proof {
            assert forall|id: Seq<char>| #[trigger] is_due(peers, id, config, now) implies names(
                due@,
                id,
            ) by {
                let j = choose|j: int| 0 <= j < ids@.len() && (#[trigger] ids@[j])@ == id;
                assert(is_due(peers, ids@[j]@, config, now));
            }
        }
        due
    }

    /// Marks a rotation for a peer as under way, so that the handshake
    /// can run while others use the manager. A second rotation for the
    /// same peer is refused until the first is finished.
    pub fn begin_rekey(&mut self, peer_id: &str) -> (r: Result<(), RotationError>)
        ensures
            final(self).configuration() == old(self).configuration(),
            begin_rekey_post(old(self).peers(), final(self).peers(), peer_id@, r),
    {
        let mut session: PeerSession = match sessions_remove(&mut self.sessions, peer_id) {
            Some(s) => s,
            None => {
                assert(self.peers() =~= old(self).peers());
                return Err(RotationError::PeerNotFound(peer_id.to_owned()));
            },
        };
        if session.rekeying {
            let _ = sessions_insert(&mut self.sessions, peer_id.to_owned(), session);
            assert(self.peers() =~= old(self).peers());
            return Err(RotationError::RekeyInProgress);
        }
        session.rekeying = true;
        let _ = sessions_insert(&mut self.sessions, peer_id.to_owned(), session);
        assert(self.peers() =~= old(self).peers().insert(peer_id@, session));
        Ok(())
    }

    /// Finishes a rotation at the time `now` with the outcome of the
    /// handshake: clears the mark, and installs the keys if there are any.
    pub fn finish_rekey_at(
        &mut self,
        peer_id: &str,
        outcome: Result<HandshakeResult, HandshakeError>,
        now: u64,
    ) -> (r: Result<HandshakeResult, RotationError>)
        ensures
            final(self).configuration() == old(self).configuration(),
            finish_rekey_post(
                old(self).peers(),
                final(self).peers(),
                peer_id@,
                old(self).configuration(),
                outcome,
                r,
                now,
            ),
    {
        let mut session: PeerSession = match sessions_remove(&mut self.sessions, peer_id) {
            Some(s) => s,
            None => {
                assert(self.peers() =~= old(self).peers());
                return Err(RotationError::PeerNotFound(peer_id.to_owned()));
            },
        };
        session.rekeying = false;
        let r = match outcome {
            Ok(res) => {
                match session.install_key(&res, &self.config, now, true) {
                    Ok(()) => Ok(res),
                    Err(e) => Err(e),
                }
            },
            Err(e) => Err(RotationError::HandshakeError(e)),
        };
        let _ = sessions_insert(&mut self.sessions, peer_id.to_owned(), session);
        assert(self.peers() =~= old(self).peers().insert(peer_id@, session));
        r
    }

    /// Whether a rotation for this peer is under way.
    pub fn is_rekeying(&mut self, peer_id: &str) -> (busy: bool)
        ensures
            final(self).peers() == old(self).peers(),
            final(self).configuration() == old(self).configuration(),
            busy == (old(self).peers().contains_key(peer_id@) && old(self).peers()[peer_id@].rekeying),
    {
        match sessions_remove(&mut self.sessions, peer_id) {
            Some(s) => {
                let busy: bool = s.rekeying;
                let _ = sessions_insert(&mut self.sessions, peer_id.to_owned(), s);
                assert(self.peers() =~= old(self).peers());
                busy
            },
            None => {
                assert(self.peers() =~= old(self).peers());
                false
            },
        }
    }

    /// Rotates a peer's keys at the time `now`. While a rotation for the
    /// peer is under way it fails with `RekeyInProgress` and the session,
    /// its key list included, stays as it is.
    pub fn initiate_rekey_at(&mut self, peer_id: &str, now: u64) -> (r: Result<
        HandshakeResult,
        RotationError,
    >)
        ensures
            final(self).configuration() == old(self).configuration(),
            initiate_rekey_post(
                old(self).peers(),
                final(self).peers(),
                peer_id@,
                old(self).configuration(),
                r,
                now,
            ),
    {
        let mut session: PeerSession = match sessions_remove(&mut self.sessions, peer_id) {
            Some(s) => s,
            None => {
                assert(self.peers() =~= old(self).peers());
                return Err(RotationError::PeerNotFound(peer_id.to_owned()));
            },
        };
        let ghost before = session;
        if session.rekeying {
            let _ = sessions_insert(&mut self.sessions, peer_id.to_owned(), session);
            assert(self.peers() =~= old(self).peers());
            return Err(RotationError::RekeyInProgress);
        }
        session.rekeying = true;
        let outcome = self.handshake.perform_initiator_handshake(&session.peer_info);
        session.rekeying = false;
        assert(session == before);
        let r = match outcome {
            Ok(res) => {
                match session.install_key(&res, &self.config, now, true) {
                    Ok(()) => Ok(res),
                    Err(e) => Err(e),
                }
            },
            Err(e) => Err(RotationError::HandshakeError(e)),
        };
        let _ = sessions_insert(&mut self.sessions, peer_id.to_owned(), session);
        proof {
            if r is Err {
                assert(self.peers() =~= old(self).peers());
            } else {
                assert(self.peers() =~= old(self).peers().insert(peer_id@, session));
            }
        }
        r
    }

    /// Rotates a peer's keys by answering the peer's handshake message, at
    /// the time that the clock shows.
    pub fn complete_rekey(&mut self, peer_id: &str, peer_message: HandshakeMessage) -> (r: Result<
        HandshakeResult,
        RotationError,
    >)
        ensures
            final(self).configuration() == old(self).configuration(),
            (r matches Err(e) && e is KeyGeneration && final(self).peers() == old(self).peers())
                || exists|now: u64| #[trigger]
                complete_rekey_post(
                    old(self).peers(),
                    final(self).peers(),
                    peer_id@,
                    peer_message,
                    old(self).configuration(),
                    r,
                    now,
                ),
            !old(self).peers().contains_key(peer_id@) ==> {
                &&& r matches Err(RotationError::PeerNotFound(name)) && name@ == peer_id@
                &&& final(self).peers() == old(self).peers()
            },
    {
        if !sessions_contains(&self.sessions, peer_id) {
            let r: Result<HandshakeResult, RotationError> = Err(
                RotationError::PeerNotFound(peer_id.to_owned()),
            );
            assert(complete_rekey_post(
                old(self).peers(),
                self.peers(),
                peer_id@,
                peer_message,
                self.configuration(),
                r,
                0,
            ));
            return r;
        }
        match unix_time_now() {
            Some(now) => {
                let ghost before = self.peers();
                let r = self.complete_rekey_at(peer_id, &peer_message, now);
                assert(complete_rekey_post(
                    before,
                    self.peers(),
                    peer_id@,
                    peer_message,
                    self.configuration(),
                    r,
                    now,
                ));
                r
            },
            None => Err(RotationError::KeyGeneration("clock unavailable".to_owned())),
        }
    }

    /// Rotates a peer's keys by answering the peer's handshake message at
    /// the time `now`. The packet count stays.
    pub fn complete_rekey_at(&mut self, peer_id: &str, peer_message: &HandshakeMessage, now: u64) -> (r:
        Result<HandshakeResult, RotationError>)
        ensures
            final(self).configuration() == old(self).configuration(),
            complete_rekey_post(
                old(self).peers(),
                final(self).peers(),
                peer_id@,
                *peer_message,
                old(self).configuration(),
                r,
                now,
            ),
    {
        let mut session: PeerSession = match sessions_remove(&mut self.sessions, peer_id) {
            Some(s) => s,
            None => {
                assert(self.peers() =~= old(self).peers());
                return Err(RotationError::PeerNotFound(peer_id.to_owned()));
            },
        };
        let outcome = self.handshake.perform_responder_handshake(peer_message, &session.peer_info);
        let r = match outcome {
            Ok(res) => {
                match session.install_key(&res, &self.config, now, false) {
                    Ok(()) => Ok(res),
                    Err(e) => Err(e),
                }
            },
            Err(e) => Err(RotationError::HandshakeError(e)),
        };
        let _ = sessions_insert(&mut self.sessions, peer_id.to_owned(), session);
        proof {
            if r is Err {
                assert(self.peers() =~= old(self).peers());
            } else {
                assert(self.peers() =~= old(self).peers().insert(peer_id@, session));
            }
        }
        r
    }

    /// Counts one packet for a peer and says whether the count has reached
    /// the configured threshold while no rotation is under way. Nothing is
    /// rotated.
    pub fn count_packet(&mut self, peer_id: &str) -> (r: Result<bool, RotationError>)
        ensures
            final(self).configuration() == old(self).configuration(),
            count_post(old(self).peers(), final(self).peers(), peer_id@, old(self).configuration(), r),
    {
        let mut session: PeerSession = match sessions_remove(&mut self.sessions, peer_id) {
            Some(s) => s,
            None => {
                assert(self.peers() =~= old(self).peers());
                return Err(RotationError::PeerNotFound(peer_id.to_owned()));
            },
        };
        let ghost before = session;
        let due: bool = session.record_packet(self.config.rekey_packet_threshold);
        assert(session == with_packet(before));
        let _ = sessions_insert(&mut self.sessions, peer_id.to_owned(), session);
        assert(self.peers() =~= old(self).peers().insert(peer_id@, session));
        Ok(due)
    }

    /// Counts one packet for a peer, and rotates the peer's keys at the
    /// time that the clock shows when the count reaches the threshold. The
    /// packet of a registered peer is always counted; if the clock cannot
    /// be read, only the rotation is left out.
    pub fn increment_packet_count(&mut self, peer_id: &str) -> (r: Result<(), RotationError>)
        ensures
            final(self).configuration() == old(self).configuration(),
            !old(self).peers().contains_key(peer_id@) ==> {
                &&& r matches Err(RotationError::PeerNotFound(name)) && name@ == peer_id@
                &&& final(self).peers() == old(self).peers()
            },
            old(self).peers().contains_key(peer_id@) ==> {
                &&& r is Ok
                &&& final(self).peers().contains_key(peer_id@)
                &&& final(self).peers() == old(self).peers().insert(
                    peer_id@,
                    final(self).peers()[peer_id@],
                )
                &&& final(self).peers()[peer_id@] == with_packet(old(self).peers()[peer_id@])
                    || exists|now: u64| #[trigger]
                    increment_post(
                        old(self).peers(),
                        final(self).peers(),
                        peer_id@,
                        old(self).configuration(),
                        r,
                        now,
                    )
            },
            old(self).peers().contains_key(peer_id@) && !threshold_reached(
                old(self).peers()[peer_id@],
                old(self).configuration(),
            ) ==> final(self).peers()[peer_id@] == with_packet(old(self).peers()[peer_id@]),
    {
        match unix_time_now() {
            Some(now) => {
                let ghost before = self.peers();
                let r = self.increment_packet_count_at(peer_id, now);
                assert(increment_post(
                    before,
                    self.peers(),
                    peer_id@,
                    self.configuration(),
                    r,
                    now,
                ));
                r
            },
            None => {
                match self.count_packet(peer_id) {
                    Ok(_) => Ok(()),
                    Err(e) => Err(e),
                }
            },
        }
    }

    /// Counts one packet for a peer at the time `now`, and rotates the
    /// peer's keys when the count reaches the configured threshold while
    /// no rotation is under way. A rotation that fails is not an error:
    /// the current keys stay in use.
    pub fn increment_packet_count_at(&mut self, peer_id: &str, now: u64) -> (r: Result<
        (),
        RotationError,
    >)
        ensures
            final(self).configuration() == old(self).configuration(),
            increment_post(
                old(self).peers(),
                final(self).peers(),
                peer_id@,
                old(self).configuration(),
                r,
                now,
            ),
    {
        let mut session: PeerSession = match sessions_remove(&mut self.sessions, peer_id) {
            Some(s) => s,
            None => {
                assert(self.peers() =~= old(self).peers());
                return Err(RotationError::PeerNotFound(peer_id.to_owned()));
            },
        };
        let ghost before = session;
        let due: bool = session.record_packet(self.config.rekey_packet_threshold);
        assert(session == with_packet(before));
        let _ = sessions_insert(&mut self.sessions, peer_id.to_owned(), session);
        let ghost middle = self.peers();
        assert(middle =~= old(self).peers().insert(peer_id@, session));
        if due {
            let outcome = self.initiate_rekey_at(peer_id, now);
            proof {
                let after = self.peers();
                match outcome {
                    Ok(res) => {
                        assert(is_rotated(
                            with_packet(before),
                            after[peer_id@],
                            res,
                            self.configuration(),
                            now,
                            true,
                        ));
                        assert(after =~= old(self).peers().insert(peer_id@, after[peer_id@]));
                    },
                    Err(_) => {
                        assert(after == middle);
                    },
                }
            }
        }
        Ok(())
    }

    /// The statistics at the time that the clock shows; a clock that
    /// cannot be read counts as time zero.
    pub fn get_stats(&mut self) -> (stats: RotationStats)
        ensures
            final(self).peers() == old(self).peers(),
            final(self).configuration() == old(self).configuration(),
            exists|now: u64| #[trigger] stats_post(old(self).peers(), old(self).configuration(), stats, now),
    {
        let now: u64 = match unix_time_now() {
            Some(t) => t,
            None => 0,
        };
        let stats = self.get_stats_at(now);
        assert(stats_post(old(self).peers(), old(self).configuration(), stats, now));
        stats
    }

    /// The statistics at the time `now`: how many peers there are, how
    /// many generations of keys they keep in all, and how many of them
    /// are overdue for rotation.
    pub fn get_stats_at(&mut self, now: u64) -> (stats: RotationStats)
        ensures
            final(self).peers() == old(self).peers(),
            final(self).configuration() == old(self).configuration(),
            stats_post(old(self).peers(), old(self).configuration(), stats, now),
    {
        let total_peers: usize = sessions_len(&self.sessions);
        let ids: Vec<String> = sessions_keys(&self.sessions);
        let ghost peers = self.peers();
        let mut total_keys: usize = 0;
        let mut overdue: usize = 0;
        let mut i: usize = 0;
        while i < ids.len()
            invariant
                i <= ids@.len(),
                self.peers() == peers,
                self.configuration() == old(self).configuration(),
                lists_peers(peers, ids@),
                total_keys == clamped(sum_along(ids@, i as nat, keys_kept(peers))),
                overdue == sum_along(
                    ids@,
                    i as nat,
                    overdue_mark(peers, now, self.config.rotation_interval),
                ),
                overdue <= i,
            decreases ids@.len() - i,
        {
            match sessions_remove(&mut self.sessions, ids[i].as_str()) {
                Some(s) => {
                    let n: usize = s.keys.len();
                    if total_keys > usize::MAX - n {
                        total_keys = usize::MAX;
                    } else {
                        total_keys = total_keys + n;
                    }
                    if s.needs_rotation(now, self.config.rotation_interval) {
                        overdue = overdue + 1;
                    }
                    let _ = sessions_insert(&mut self.sessions, ids[i].clone(), s);
                    assert(self.peers() =~= peers);
                },
                None => {
                    assert(false);
                },
            }
            i += 1;
        }
        proof {
            lemma_list_names_the_peers(peers, ids@);
            lemma_sum_along_is_sum_over(ids@, ids@.len(), keys_kept(peers));
            lemma_sum_along_is_sum_over(
                ids@,
                ids@.len(),
                overdue_mark(peers, now, self.config.rotation_interval),
            );
        }
        let config: RotationConfig = copy_config(&self.config);
        RotationStats { total_peers, total_keys, peers_needing_rotation: overdue, config }
    }

    /// Whether a peer's keys are overdue at `now` and no rotation for the
    /// peer is under way.
    pub fn rotation_due(&mut self, peer_id: &str, now: u64) -> (due: bool)
        ensures
            final(self).peers() == old(self).peers(),
            final(self).configuration() == old(self).configuration(),
            due == (old(self).peers().contains_key(peer_id@) && is_overdue(
                old(self).peers()[peer_id@],
                now,
                old(self).configuration().rotation_interval,
            ) && !old(self).peers()[peer_id@].rekeying),
    {
        match sessions_remove(&mut self.sessions, peer_id) {
            Some(s) => {
                let due: bool = s.needs_rotation(now, self.config.rotation_interval) && !s.rekeying;
                let _ = sessions_insert(&mut self.sessions, peer_id.to_owned(), s);
                assert(self.peers() =~= old(self).peers());
                due
            },
            None => {
                assert(self.peers() =~= old(self).peers());
                false
            },
        }
    }

    /// Rotates one peer's keys if they are due at `now`. If the handshake
    /// fails, the session stays as it is and the failure is returned.
    pub fn rotate_peer_keys(&mut self, peer_id: &str, now: u64) -> (r: Result<(), RotationError>)
        ensures
            final(self).configuration() == old(self).configuration(),
            rotate_post(
                old(self).peers(),
                final(self).peers(),
                peer_id@,
                old(self).configuration(),
                r,
                now,
            ),
    {
        if self.rotation_due(peer_id, now) {
            match self.initiate_rekey_at(peer_id, now) {
                Ok(res) => {
                    assert(is_rotated(
                        old(self).peers()[peer_id@],
                        self.peers()[peer_id@],
                        res,
                        self.configuration(),
                        now,
                        true,
                    ) && opens_handshake(res));
                    Ok(())
                },
                Err(e) => Err(e),
            }
        } else {
            Ok(())
        }
    }

    /// One pass of the scheduled rotation, at the time `now`: every peer
    /// whose keys are due is rotated. A peer whose handshake fails keeps
    /// its session, and the pass goes on; the peers that failed are
    /// returned.
    pub fn sweep_at(&mut self, now: u64) -> (failed: Vec<String>)
        ensures
            final(self).configuration() == old(self).configuration(),
            sweep_post(
                old(self).peers(),
                final(self).peers(),
                old(self).configuration(),
                failed@,
                now,
            ),
    {
        let ids: Vec<String> = sessions_keys(&self.sessions);
        let ghost before = self.peers();
        let ghost config = self.configuration();
        let mut failed: Vec<String> = Vec::new();
        let mut i: usize = 0;
        while i < ids.len()
            invariant
                i <= ids@.len(),
                self.configuration() == config,
                lists_peers(before, ids@),
                self.peers().dom() == before.dom(),
                forall|j: int|
                    i <= j < ids@.len() ==> self.peers()[#[trigger] ids@[j]@] == before[ids@[j]@],
                forall|j: int|
                    0 <= j < i ==> swept(
                        before,
                        self.peers(),
                        failed@,
                        (#[trigger] ids@[j])@,
                        config,
                        now,
                    ),
                forall|f: int|
                    0 <= f < failed@.len() ==> names_among(ids@, i as int, (#[trigger] failed@[f])@),
                forall|f: int|
                    0 <= f < failed@.len() ==> is_due(before, (#[trigger] failed@[f])@, config, now),
                forall|f: int, g: int|
                    0 <= f < g < failed@.len() ==> (#[trigger] failed@[f])@ != (
                    #[trigger] failed@[g])@,
            decreases ids@.len() - i,
        {
            let ghost current = self.peers();
            let ghost earlier = failed@;
            let ghost id = ids@[i as int]@;
            proof {
                assert(before.contains_key(id));
                if names(earlier, id) {
                    let f = choose|f: int| 0 <= f < earlier.len() && (#[trigger] earlier[f])@ == id;
                    assert(names_among(ids@, i as int, earlier[f]@));
                    let j = choose|j: int| 0 <= j < i && (#[trigger] ids@[j])@ == earlier[f]@;
                    assert(ids@[j]@ != ids@[i as int]@);
                }
                assert(!names(earlier, id));
            }
            match self.rotate_peer_keys(ids[i].as_str(), now) {
                Ok(_) => {},
                Err(_) => {
                    failed.push(ids[i].clone());
                },
            }
            proof {
                let after = self.peers();
                assert(current[id] == before[id]);
                assert(is_due(current, id, config, now) == is_due(before, id, config, now));
                assert forall|j: int| 0 <= j < ids@.len() && j != i implies after[#[trigger] ids@[j]@]
                    == current[ids@[j]@] by {
                    assert(ids@[j]@ != ids@[i as int]@);
                    assert(current.contains_key(ids@[j]@));
                }
                assert forall|f: int| 0 <= f < failed@.len() implies names_among(
                    ids@,
                    i + 1,
                    (#[trigger] failed@[f])@,
                ) by {
                    if f < earlier.len() {
                        assert(failed@[f] == earlier[f]);
                        assert(names_among(ids@, i as int, earlier[f]@));
                        let j = choose|j: int| 0 <= j < i && (#[trigger] ids@[j])@ == earlier[f]@;
                        assert(0 <= j < i + 1 && ids@[j]@ == failed@[f]@);
                    } else {
                        assert(failed@[f]@ == id);
                        assert(0 <= i < i + 1 && ids@[i as int]@ == failed@[f]@);
                    }
                }
                assert forall|f: int, g: int| 0 <= f < g < failed@.len() implies (
                #[trigger] failed@[f])@ != (#[trigger] failed@[g])@ by {
                    if g < earlier.len() {
                        assert(failed@[f] == earlier[f] && failed@[g] == earlier[g]);
                    } else {
                        assert(failed@[f] == earlier[f]);
                        assert(failed@[g]@ == id);
                        if earlier[f]@ == id {
                            assert(names(earlier, id));
                        }
                    }
                }
                assert forall|j: int| 0 <= j < i + 1 implies swept(
                    before,
                    after,
                    failed@,
                    (#[trigger] ids@[j])@,
                    config,
                    now,
                ) by {
                    let x = ids@[j]@;
                    if j < i {
                        assert(x != id);
                        assert(after[x] == current[x]);
                        assert(swept(before, current, earlier, x, config, now));
                        if names(failed@, x) {
                            let f = choose|f: int|
                                0 <= f < failed@.len() && (#[trigger] failed@[f])@ == x;
                            assert(f < earlier.len());
                            assert(earlier[f]@ == x);
                            assert(names(earlier, x));
                        }
                        if names(earlier, x) {
                            let f = choose|f: int|
                                0 <= f < earlier.len() && (#[trigger] earlier[f])@ == x;
                            assert(failed@[f]@ == x);
                            assert(names(failed@, x));
                        }
                    } else {
                        assert(x == id);
                        if is_due(before, id, config, now) {
                            if failed@.len() > earlier.len() {
                                let last = failed@.len() - 1;
                                assert(failed@[last]@ == id);
                                assert(names(failed@, id));
                                assert(after == current);
                            } else {
                                assert(failed@ == earlier);
                                assert(!names(failed@, id));
                                assert(rotated_by_handshake(current[id], after[id], config, now));
                            }
                        } else {
                            assert(after == current);
                        }
                    }
                }
                assert(after.dom() =~= before.dom());
            }
            i += 1;
        }
        proof {
            let after = self.peers();
            assert forall|id: Seq<char>| #[trigger] before.contains_key(id) implies swept(
                before,
                after,
                failed@,
                id,
                config,
                now,
            ) by {
                let j = choose|j: int| 0 <= j < ids@.len() && (#[trigger] ids@[j])@ == id;
                assert(swept(before, after, failed@, ids@[j]@, config, now));
            }
        }
        failed
    }

    /// One pass of the scheduled rotation at the time that the clock
    /// shows; the peers whose rotation failed are returned. Nothing
    /// happens if rotations are not scheduled or the clock cannot be read.
    pub fn sweep(&mut self) -> (failed: Vec<String>)
        ensures
            final(self).configuration() == old(self).configuration(),
            (final(self).peers() == old(self).peers() && failed@.len() == 0) || exists|now: u64| #[trigger]
                sweep_post(
                    old(self).peers(),
                    final(self).peers(),
                    old(self).configuration(),
                    failed@,
                    now,
                ),
            !old(self).configuration().auto_rotate ==> final(self).peers() == old(self).peers()
                && failed@.len() == 0,
    {
        if !self.config.auto_rotate {
            return Vec::new();
        }
        match unix_time_now() {
            Some(now) => {
                let failed: Vec<String> = self.sweep_at(now);
                assert(sweep_post(
                    old(self).peers(),
                    self.peers(),
                    old(self).configuration(),
                    failed@,
                    now,
                ));
                failed
            },
            None => Vec::new(),
        }
    }
}

/// A copy of a configuration.
pub fn copy_config(c: &RotationConfig) -> (out: RotationConfig)
    ensures
        out == *c,
{
    RotationConfig {
        rotation_interval: c.rotation_interval,
        max_keys_per_peer: c.max_keys_per_peer,
        key_expiration: c.key_expiration,
        auto_rotate: c.auto_rotate,
        rekey_packet_threshold: c.rekey_packet_threshold,
    }
}

/// A rotation that is refused because one is under way changes nothing:
/// the peer's key list is the one it had.
pub proof fn lemma_rekey_in_progress_keeps_keys(
    before: Peers,
    after: Peers,
    id: Seq<char>,
    config: RotationConfig,
    r: Result<HandshakeResult, RotationError>,
    now: u64,
)
    requires
        initiate_rekey_post(before, after, id, config, r, now),
        before.contains_key(id),
        before[id].rekeying,
    ensures
        r matches Err(e) && e is RekeyInProgress,
        after[id].keys@ == before[id].keys@,
        after == before,
{
}

/// After a rotation, no peer keeps more generations than the configured
/// maximum, and if the configuration lets a fresh generation stay, the
/// current keys are those of the new handshake, numbered by the counter.
pub proof fn lemma_rekey_installs_newest(
    before: Peers,
    after: Peers,
    id: Seq<char>,
    config: RotationConfig,
    res: HandshakeResult,
    now: u64,
)
    requires
        initiate_rekey_post(before, after, id, config, Ok(res), now),
    ensures
        after.contains_key(id),
        after[id].keys@.len() <= config.max_keys_per_peer,
        config.max_keys_per_peer >= 1 && config.key_expiration > 0 ==> {
            &&& after[id].keys@.len() >= 1
            &&& after[id].keys@[0]@.key_id == before[id].key_counter
            &&& after[id].keys@[0]@.session_id == res.session_id@
            &&& after[id].keys@[0]@.send_key == res.send_key@
            &&& after[id].keys@[0]@.recv_key == res.recv_key@
        },
{
    crate::session::lemma_rotation_keeps_newest(before[id], after[id], res, config, now, true);
}

} // verus!
