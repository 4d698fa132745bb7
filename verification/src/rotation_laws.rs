//! Laws of the rotation manager: in every state that its operations
//! reach, no peer keeps more generations of keys than the configuration
//! allows.

use crate::key_rotation::begin_rekey_post;
use crate::key_rotation::complete_rekey_post;
use crate::key_rotation::finish_rekey_post;
use crate::key_rotation::increment_post;
use crate::key_rotation::initiate_rekey_post;
use crate::key_rotation::register_post;
use crate::key_rotation::rotate_post;
use crate::key_rotation::rotated_by_handshake;
use crate::key_rotation::rotated_or_kept;
use crate::key_rotation::sweep_post;
use crate::key_rotation::threshold_reached;
use crate::key_rotation::swept;
use crate::key_rotation::with_packet;
use crate::key_rotation::Peers;
use crate::key_rotation::RotationConfig;
use crate::key_rotation::RotationError;
use crate::pq_handshake::opens_handshake;
use crate::pq_handshake::HandshakeError;
use crate::pq_handshake::HandshakeMessage;
use crate::pq_handshake::HandshakeResult;
use crate::pq_handshake::PeerInfo;
use crate::session::is_rotated;
use crate::session::key_material_of;
use crate::session::lemma_rotation_keeps_newest;
use crate::session::PeerSession;
use crate::sessions_map::no_sessions;
use vstd::prelude::*;

verus! {

/// The most generations a peer may keep: the configured maximum, and the
/// one generation that a peer registers with.
pub open spec fn key_limit(config: RotationConfig) -> int {
    if config.max_keys_per_peer >= 1 {
        config.max_keys_per_peer as int
    } else {
        1
    }
}

/// No peer keeps more generations than the limit.
pub open spec fn within_limit(peers: Peers, config: RotationConfig) -> bool {
    forall|id: Seq<char>| #[trigger] peers.contains_key(id) ==> peers[id].keys@.len() <= key_limit(config)
}

/// A manager without peers is within the limit.
pub proof fn lemma_limit_at_start(config: RotationConfig)
    ensures
        within_limit(no_sessions(), config),
{
}

/// A rotated session is within the limit.
pub proof fn lemma_limit_of_rotated(
    before: PeerSession,
    after: PeerSession,
    res: HandshakeResult,
    config: RotationConfig,
    now: u64,
    reset_packets: bool,
)
    requires
        is_rotated(before, after, res, config, now, reset_packets),
    ensures
        after.keys@.len() <= key_limit(config),
{
    lemma_rotation_keeps_newest(before, after, res, config, now, reset_packets);
}

/// A session after an attempt to rotate is within the limit if it was
/// before.
pub proof fn lemma_limit_of_rotated_or_kept(
    before: PeerSession,
    after: PeerSession,
    config: RotationConfig,
    now: u64,
)
    requires
        rotated_or_kept(before, after, config, now),
        before.keys@.len() <= key_limit(config),
    ensures
        after.keys@.len() <= key_limit(config),
{
    if after != before {
        let res = choose|res: HandshakeResult| #[trigger]
            is_rotated(before, after, res, config, now, true);
        lemma_limit_of_rotated(before, after, res, config, now, true);
    }
}

/// Registration keeps the sessions within the limit.
pub proof fn lemma_limit_after_register(
    before: Peers,
    after: Peers,
    id: Seq<char>,
    info: PeerInfo,
    initial: HandshakeResult,
    r: Result<(), RotationError>,
    now: u64,
    config: RotationConfig,
)
    requires
        register_post(before, after, id, info, initial, r, now),
        within_limit(before, config),
    ensures
        within_limit(after, config),
{
    assert forall|k: Seq<char>| #[trigger] after.contains_key(k) implies after[k].keys@.len()
        <= key_limit(config) by {
        if k != id {
            assert(before.contains_key(k));
        }
    }
}

/// Removing a peer keeps the sessions within the limit.
pub proof fn lemma_limit_after_unregister(before: Peers, id: Seq<char>, config: RotationConfig)
    requires
        within_limit(before, config),
    ensures
        within_limit(before.remove(id), config),
{
    assert forall|k: Seq<char>| #[trigger] before.remove(id).contains_key(k) implies before.remove(
        id,
    )[k].keys@.len() <= key_limit(config) by {
        assert(before.contains_key(k));
    }
}

/// A rotation as initiator keeps the sessions within the limit.
pub proof fn lemma_limit_after_initiate_rekey(
    before: Peers,
    after: Peers,
    id: Seq<char>,
    config: RotationConfig,
    r: Result<HandshakeResult, RotationError>,
    now: u64,
)
    requires
        initiate_rekey_post(before, after, id, config, r, now),
        within_limit(before, config),
    ensures
        within_limit(after, config),
{
    assert forall|k: Seq<char>| #[trigger] after.contains_key(k) implies after[k].keys@.len()
        <= key_limit(config) by {
        if after != before {
            if k == id {
                lemma_limit_of_rotated(before[id], after[id], r->Ok_0, config, now, true);
            } else {
                assert(before.contains_key(k));
            }
        }
    }
}

/// A rotation as responder keeps the sessions within the limit.
pub proof fn lemma_limit_after_complete_rekey(
    before: Peers,
    after: Peers,
    id: Seq<char>,
    message: HandshakeMessage,
    config: RotationConfig,
    r: Result<HandshakeResult, RotationError>,
    now: u64,
)
    requires
        complete_rekey_post(before, after, id, message, config, r, now),
        within_limit(before, config),
    ensures
        within_limit(after, config),
{
    assert forall|k: Seq<char>| #[trigger] after.contains_key(k) implies after[k].keys@.len()
        <= key_limit(config) by {
        if after != before {
            if k == id {
                lemma_limit_of_rotated(before[id], after[id], r->Ok_0, config, now, false);
            } else {
                assert(before.contains_key(k));
            }
        }
    }
}

/// Marking a rotation keeps the sessions within the limit.
pub proof fn lemma_limit_after_begin_rekey(
    before: Peers,
    after: Peers,
    id: Seq<char>,
    r: Result<(), RotationError>,
    config: RotationConfig,
)
    requires
        begin_rekey_post(before, after, id, r),
        within_limit(before, config),
    ensures
        within_limit(after, config),
{
    assert forall|k: Seq<char>| #[trigger] after.contains_key(k) implies after[k].keys@.len()
        <= key_limit(config) by {
        assert(before.contains_key(k));
    }
}

/// Finishing a rotation keeps the sessions within the limit.
pub proof fn lemma_limit_after_finish_rekey(
    before: Peers,
    after: Peers,
    id: Seq<char>,
    config: RotationConfig,
    outcome: Result<HandshakeResult, HandshakeError>,
    r: Result<HandshakeResult, RotationError>,
    now: u64,
)
    requires
        finish_rekey_post(before, after, id, config, outcome, r, now),
        within_limit(before, config),
    ensures
        within_limit(after, config),
{
    assert forall|k: Seq<char>| #[trigger] after.contains_key(k) implies after[k].keys@.len()
        <= key_limit(config) by {
        if before.contains_key(id) {
            if k == id {
                let idle = PeerSession { rekeying: false, ..before[id] };
                if outcome is Ok && before[id].key_counter < u64::MAX {
                    lemma_limit_of_rotated(idle, after[id], outcome->Ok_0, config, now, true);
                }
            } else {
                assert(before.contains_key(k));
            }
        }
    }
}

/// Counting a packet keeps the sessions within the limit.
pub proof fn lemma_limit_after_increment(
    before: Peers,
    after: Peers,
    id: Seq<char>,
    config: RotationConfig,
    r: Result<(), RotationError>,
    now: u64,
)
    requires
        increment_post(before, after, id, config, r, now),
        within_limit(before, config),
    ensures
        within_limit(after, config),
{
    assert forall|k: Seq<char>| #[trigger] after.contains_key(k) implies after[k].keys@.len()
        <= key_limit(config) by {
        if before.contains_key(id) {
            if k == id {
                lemma_limit_of_rotated_or_kept(with_packet(before[id]), after[id], config, now);
            } else {
                assert(before.contains_key(k));
            }
        }
    }
}

/// Rotating one peer's keys keeps the sessions within the limit.
pub proof fn lemma_limit_after_rotate(
    before: Peers,
    after: Peers,
    id: Seq<char>,
    config: RotationConfig,
    r: Result<(), RotationError>,
    now: u64,
)
    requires
        rotate_post(before, after, id, config, r, now),
        within_limit(before, config),
    ensures
        within_limit(after, config),
{
    assert forall|k: Seq<char>| #[trigger] after.contains_key(k) implies after[k].keys@.len()
        <= key_limit(config) by {
        if after != before {
            if k == id {
                lemma_limit_of_rotated_by_handshake(before[id], after[id], config, now);
            } else {
                assert(before.contains_key(k));
            }
        }
    }
}

/// A session rotated by a handshake is within the limit.
pub proof fn lemma_limit_of_rotated_by_handshake(
    before: PeerSession,
    after: PeerSession,
    config: RotationConfig,
    now: u64,
)
    requires
        rotated_by_handshake(before, after, config, now),
    ensures
        after.keys@.len() <= key_limit(config),
{
    let res = choose|res: HandshakeResult| #[trigger]
        is_rotated(before, after, res, config, now, true) && opens_handshake(res);
    lemma_limit_of_rotated(before, after, res, config, now, true);
}

/// A sweep keeps the sessions within the limit.
pub proof fn lemma_limit_after_sweep(
    before: Peers,
    after: Peers,
    config: RotationConfig,
    failed: Seq<String>,
    now: u64,
)
    requires
        sweep_post(before, after, config, failed, now),
        within_limit(before, config),
    ensures
        within_limit(after, config),
{
    assert forall|k: Seq<char>| #[trigger] after.contains_key(k) implies after[k].keys@.len()
        <= key_limit(config) by {
        assert(before.dom().contains(k));
        assert(before.contains_key(k));
        assert(swept(before, after, failed, k, config, now));
        if after[k] != before[k] {
            lemma_limit_of_rotated_by_handshake(before[k], after[k], config, now);
        }
    }
}

/// A run of rotations of one session: each session of the list is the one
/// before it, rotated with the keys of the handshake result and at the
/// time of the same place.
pub open spec fn is_rotation_run(
    sessions: Seq<PeerSession>,
    results: Seq<HandshakeResult>,
    times: Seq<u64>,
    resets: Seq<bool>,
    config: RotationConfig,
) -> bool {
    &&& sessions.len() == results.len() + 1
    &&& times.len() == results.len()
    &&& resets.len() == results.len()
    &&& forall|i: int|
        0 <= i < results.len() ==> is_rotated(
            #[trigger] sessions[i],
            sessions[i + 1],
            results[i],
            config,
            times[i],
            resets[i],
        )
}

/// In a run of rotations the generation counter grows by one each time.
pub proof fn lemma_counter_in_run(
    sessions: Seq<PeerSession>,
    results: Seq<HandshakeResult>,
    times: Seq<u64>,
    resets: Seq<bool>,
    config: RotationConfig,
    n: int,
)
    requires
        is_rotation_run(sessions, results, times, resets, config),
        0 <= n <= results.len(),
    ensures
        sessions[n].key_counter == sessions[0].key_counter + n,
    decreases n,
{
    if n > 0 {
        lemma_counter_in_run(sessions, results, times, resets, config, n - 1);
        assert(is_rotated(
            sessions[n - 1],
            sessions[n - 1 + 1],
            results[n - 1],
            config,
            times[n - 1],
            resets[n - 1],
        ));
    }
}

/// After any number of rotations, however many more than the configured
/// maximum, the session keeps no more generations than the maximum, and,
/// if the configuration lets a fresh generation stay, its current keys
/// are those of the last handshake, numbered by the count of rotations. A
/// session that was registered with generation 0 has, after `n`
/// rotations, generation `n` as its current one.
pub proof fn lemma_after_many_rotations(
    sessions: Seq<PeerSession>,
    results: Seq<HandshakeResult>,
    times: Seq<u64>,
    resets: Seq<bool>,
    config: RotationConfig,
)
    requires
        is_rotation_run(sessions, results, times, resets, config),
        results.len() >= 1,
    ensures
        sessions.last().keys@.len() <= config.max_keys_per_peer,
        sessions.last().key_counter == sessions[0].key_counter + results.len(),
        config.max_keys_per_peer >= 1 && config.key_expiration > 0 ==> {
            &&& sessions.last().keys@.len() >= 1
            &&& sessions.last().keys@[0]@ == key_material_of(
                results.last(),
                (sessions[0].key_counter + results.len() - 1) as u64,
                times.last(),
            )
        },
{
    let n = results.len() as int;
    lemma_counter_in_run(sessions, results, times, resets, config, n);
    lemma_counter_in_run(sessions, results, times, resets, config, n - 1);
    assert(is_rotated(
        sessions[n - 1],
        sessions[n - 1 + 1],
        results[n - 1],
        config,
        times[n - 1],
        resets[n - 1],
    ));
    lemma_rotation_keeps_newest(
        sessions[n - 1],
        sessions[n],
        results[n - 1],
        config,
        times[n - 1],
        resets[n - 1],
    );
}

/// The session after `n` packets were counted and nothing else happened.
pub open spec fn after_packets(s: PeerSession, n: nat) -> PeerSession
    decreases n,
{
    if n == 0 {
        s
    } else {
        with_packet(after_packets(s, (n - 1) as nat))
    }
}

/// Counting `n` packets from zero leaves the count at `n` and everything
/// else as it was.
pub proof fn lemma_count_after_packets(s: PeerSession, n: nat)
    requires
        s.packets_sent == 0,
        n <= u64::MAX,
    ensures
        after_packets(s, n) == (PeerSession { packets_sent: n as u64, ..s }),
    decreases n,
{
    if n > 0 {
        lemma_count_after_packets(s, (n - 1) as nat);
    }
}

/// With a threshold of `t` packets, a session that starts at zero and is
/// not being rotated reaches the threshold with the call that counts
/// packet number `t`, and with none before it: after `n` counted packets
/// the next call asks for a rotation exactly if `n + 1 >= t`.
pub proof fn lemma_threshold_is_crossed_at(s: PeerSession, config: RotationConfig, t: u64, n: nat)
    requires
        config.rekey_packet_threshold == Some(t),
        s.packets_sent == 0,
        !s.rekeying,
        n < u64::MAX,
    ensures
        threshold_reached(after_packets(s, n), config) <==> n + 1 >= t,
{
    lemma_count_after_packets(s, n);
}

} // verus!
