//! One peer's key material over time: the newest generation first, older
//! ones kept until they expire or are pushed out by newer ones.

use crate::hash::copy_range;
use crate::key_rotation::RotationConfig;
use crate::key_rotation::RotationError;
use crate::kyber::KyberSecretKey;
use crate::pq_handshake::HandshakeResult;
use crate::pq_handshake::PeerInfo;
use vstd::prelude::*;

verus! {

/// One generation of session keys.
#[derive(Debug, Clone)]
pub struct KeyMaterial {
    /// The KEM secret key of the handshake that made these keys.
    pub kyber_sk: KyberSecretKey,
    /// The X25519 secret scalar of that handshake.
    pub x25519_sk: Vec<u8>,
    /// Key for sending data.
    pub send_key: Vec<u8>,
    /// Key for receiving data.
    pub recv_key: Vec<u8>,
    /// The session identifier.
    pub session_id: String,
    /// When the keys were made, in seconds since the epoch.
    pub created_at: u64,
    /// The number of this generation; the first is 0.
    pub key_id: u64,
}

/// Key material as plain values.
pub struct KeyMaterialView {
    pub kyber_sk: Seq<u8>,
    pub x25519_sk: Seq<u8>,
    pub send_key: Seq<u8>,
    pub recv_key: Seq<u8>,
    pub session_id: Seq<char>,
    pub created_at: u64,
    pub key_id: u64,
}

impl View for KeyMaterial {
    type V = KeyMaterialView;

    open spec fn view(&self) -> KeyMaterialView {
        KeyMaterialView {
            kyber_sk: self.kyber_sk.data@,
            x25519_sk: self.x25519_sk@,
            send_key: self.send_key@,
            recv_key: self.recv_key@,
            session_id: self.session_id@,
            created_at: self.created_at,
            key_id: self.key_id,
        }
    }
}

/// The state that the manager keeps for one peer.
#[derive(Debug)]
pub struct PeerSession {
    /// What is known of the peer.
    pub peer_info: PeerInfo,
    /// Key material, newest first.
    pub keys: Vec<KeyMaterial>,
    /// The number that the next generation gets.
    pub key_counter: u64,
    /// Packets sent since the last rotation.
    pub packets_sent: u64,
    /// When the keys were last rotated, in seconds since the epoch.
    pub last_rotation: u64,
    /// Whether a rotation is under way.
    pub rekeying: bool,
}

/// The key material that a handshake result gives, as generation `key_id`
/// made at `now`.
pub open spec fn key_material_of(res: HandshakeResult, key_id: u64, now: u64) -> KeyMaterialView {
    KeyMaterialView {
        kyber_sk: res.kyber_sk.data@,
        x25519_sk: res.x25519_sk@,
        send_key: res.send_key@,
        recv_key: res.recv_key@,
        session_id: res.session_id@,
        created_at: now,
        key_id: key_id,
    }
}

/// The age of key material at `now`; material dated after `now` has age
/// zero.
pub open spec fn key_age(k: KeyMaterial, now: u64) -> int {
    if now >= k.created_at {
        now - k.created_at
    } else {
        0
    }
}

/// Key material is fresh while its age is below the expiration.
pub open spec fn is_fresh(k: KeyMaterial, expiration: u64, now: u64) -> bool {
    key_age(k, now) < expiration
}

/// What pruning keeps of the first `n` entries: the fresh ones, in order,
/// up to `max` of them.
pub open spec fn retained(keys: Seq<KeyMaterial>, n: nat, expiration: u64, max: usize, now: u64) -> Seq<
    KeyMaterial,
>
    decreases n,
{
    if n == 0 {
        Seq::<KeyMaterial>::empty()
    } else {
        let prev = retained(keys, (n - 1) as nat, expiration, max, now);
        if is_fresh(keys[n - 1], expiration, now) && prev.len() < max {
            prev.push(keys[n - 1])
        } else {
            prev
        }
    }
}

/// What pruning keeps of a whole list.
pub open spec fn pruned(keys: Seq<KeyMaterial>, config: RotationConfig, now: u64) -> Seq<
    KeyMaterial,
> {
    retained(keys, keys.len(), config.key_expiration, config.max_keys_per_peer, now)
}

/// Pruning never keeps more than the configured maximum, nor more than
/// there was.
pub proof fn lemma_retained_bounded(
    keys: Seq<KeyMaterial>,
    n: nat,
    expiration: u64,
    max: usize,
    now: u64,
)
    ensures
        retained(keys, n, expiration, max, now).len() <= max,
        retained(keys, n, expiration, max, now).len() <= n,
    decreases n,
{
    if n > 0 {
        lemma_retained_bounded(keys, (n - 1) as nat, expiration, max, now);
    }
}

/// Pruning keeps the newest entry in front, if it is fresh and at least
/// one entry may be kept.
pub proof fn lemma_retained_keeps_newest(
    keys: Seq<KeyMaterial>,
    n: nat,
    expiration: u64,
    max: usize,
    now: u64,
)
    requires
        1 <= n <= keys.len(),
        max >= 1,
        is_fresh(keys[0], expiration, now),
    ensures
        retained(keys, n, expiration, max, now).len() >= 1,
        retained(keys, n, expiration, max, now)[0] == keys[0],
    decreases n,
{
    if n > 1 {
        lemma_retained_keeps_newest(keys, (n - 1) as nat, expiration, max, now);
    } else {
        assert(retained(keys, 0, expiration, max, now).len() == 0);
    }
}

/// The first `max` entries of a list, or all of it if it is shorter.
pub open spec fn truncated(keys: Seq<KeyMaterial>, max: usize) -> Seq<KeyMaterial> {
    if keys.len() <= max {
        keys
    } else {
        keys.take(max as int)
    }
}

/// What pruning keeps is the list without its expired entries, cut down
/// to the first `max` of what is left.
pub proof fn lemma_retained_is_filter_then_truncate(
    keys: Seq<KeyMaterial>,
    n: nat,
    expiration: u64,
    max: usize,
    now: u64,
)
    requires
        n <= keys.len(),
    ensures
        retained(keys, n, expiration, max, now) == truncated(
            keys.take(n as int).filter(|k: KeyMaterial| is_fresh(k, expiration, now)),
            max,
        ),
    decreases n,
{
    let fresh = |k: KeyMaterial| is_fresh(k, expiration, now);
    reveal(Seq::filter);
    if n == 0 {
        assert(keys.take(0).len() == 0);
        assert(keys.take(0).filter(fresh).len() == 0);
        assert(retained(keys, 0, expiration, max, now) =~= truncated(keys.take(0).filter(fresh), max));
    } else {
        let m = (n - 1) as nat;
        lemma_retained_is_filter_then_truncate(keys, m, expiration, max, now);
        let head = keys.take(n as int);
        assert(head.drop_last() =~= keys.take(m as int));
        assert(head.last() == keys[n - 1]);
        let before = keys.take(m as int).filter(fresh);
        let after = head.filter(fresh);
        let prev = retained(keys, m, expiration, max, now);
        assert(prev == truncated(before, max));
        if is_fresh(keys[n - 1], expiration, now) {
            assert(after == before.push(keys[n - 1]));
            if prev.len() < max {
                assert(prev == before);
                assert(truncated(after, max) == after);
            } else {
                assert(before.len() >= max);
                assert(truncated(after, max) =~= truncated(before, max));
            }
        } else {
            assert(after == before);
        }
    }
}

/// Pruning is dropping the expired entries and then cutting the list down
/// to the configured maximum.
pub proof fn lemma_pruned_is_filter_then_truncate(
    keys: Seq<KeyMaterial>,
    config: RotationConfig,
    now: u64,
)
    ensures
        pruned(keys, config, now) == truncated(
            keys.filter(|k: KeyMaterial| is_fresh(k, config.key_expiration, now)),
            config.max_keys_per_peer,
        ),
{
    lemma_retained_is_filter_then_truncate(
        keys,
        keys.len(),
        config.key_expiration,
        config.max_keys_per_peer,
        now,
    );
    assert(keys.take(keys.len() as int) =~= keys);
}

/// A session right after registration: one generation, numbered 0.
pub open spec fn is_fresh_session(s: PeerSession, info: PeerInfo, res: HandshakeResult, now: u64) -> bool {
    &&& s.peer_info == info
    &&& s.keys@.len() == 1
    &&& s.keys@[0]@ == key_material_of(res, 0, now)
    &&& s.key_counter == 1
    &&& s.packets_sent == 0
    &&& s.last_rotation == now
    &&& !s.rekeying
}

/// The session `after` is `before` with the keys of `res` installed at
/// `now` as a new generation in front, then pruned.
pub open spec fn is_rotated(
    before: PeerSession,
    after: PeerSession,
    res: HandshakeResult,
    config: RotationConfig,
    now: u64,
    reset_packets: bool,
) -> bool {
    &&& after.peer_info == before.peer_info
    &&& after.key_counter == before.key_counter + 1
    &&& after.last_rotation == now
    &&& after.rekeying == before.rekeying
    &&& after.packets_sent == if reset_packets {
        0
    } else {
        before.packets_sent
    }
    &&& exists|new_key: KeyMaterial|
        {
            &&& new_key@ == key_material_of(res, before.key_counter, now)
            &&& #[trigger] pruned(seq![new_key] + before.keys@, config, now) == after.keys@
        }
}

/// After a rotation no more than the configured maximum is kept, and if
/// the configuration lets at least one fresh generation stay, the newest
/// generation is the current one.
pub proof fn lemma_rotation_keeps_newest(
    before: PeerSession,
    after: PeerSession,
    res: HandshakeResult,
    config: RotationConfig,
    now: u64,
    reset_packets: bool,
)
    requires
        is_rotated(before, after, res, config, now, reset_packets),
    ensures
        after.keys@.len() <= config.max_keys_per_peer,
        config.max_keys_per_peer >= 1 && config.key_expiration > 0 ==> {
            &&& after.keys@.len() >= 1
            &&& after.keys@[0]@ == key_material_of(res, before.key_counter, now)
        },
{
    let new_key = choose|new_key: KeyMaterial|
        {
            &&& new_key@ == key_material_of(res, before.key_counter, now)
            &&& #[trigger] pruned(seq![new_key] + before.keys@, config, now) == after.keys@
        };
    let all = seq![new_key] + before.keys@;
    lemma_retained_bounded(all, all.len(), config.key_expiration, config.max_keys_per_peer, now);
    if config.max_keys_per_peer >= 1 && config.key_expiration > 0 {
        assert(all[0] == new_key);
        lemma_retained_keeps_newest(
            all,
            all.len(),
            config.key_expiration,
            config.max_keys_per_peer,
            now,
        );
    }
}

/// A copy of key material.
pub fn copy_key_material(k: &KeyMaterial) -> (out: KeyMaterial)
    ensures
        out@ == k@,
{
    let kyber_sk: Vec<u8> = copy_range(k.kyber_sk.data.as_slice(), 0, k.kyber_sk.data.len());
    let x25519_sk: Vec<u8> = copy_range(k.x25519_sk.as_slice(), 0, k.x25519_sk.len());
    let send_key: Vec<u8> = copy_range(k.send_key.as_slice(), 0, k.send_key.len());
    let recv_key: Vec<u8> = copy_range(k.recv_key.as_slice(), 0, k.recv_key.len());
    assert(kyber_sk@ =~= k.kyber_sk.data@);
    assert(x25519_sk@ =~= k.x25519_sk@);
    assert(send_key@ =~= k.send_key@);
    assert(recv_key@ =~= k.recv_key@);
    KeyMaterial {
        kyber_sk: KyberSecretKey { data: kyber_sk },
        x25519_sk,
        send_key,
        recv_key,
        session_id: k.session_id.clone(),
        created_at: k.created_at,
        key_id: k.key_id,
    }
}

/// The key material of a handshake result.
pub fn key_material_from(res: &HandshakeResult, key_id: u64, now: u64) -> (out: KeyMaterial)
    ensures
        out@ == key_material_of(*res, key_id, now),
{
    let kyber_sk: Vec<u8> = copy_range(res.kyber_sk.data.as_slice(), 0, res.kyber_sk.data.len());
    let x25519_sk: Vec<u8> = copy_range(res.x25519_sk.as_slice(), 0, res.x25519_sk.len());
    let send_key: Vec<u8> = copy_range(res.send_key.as_slice(), 0, res.send_key.len());
    let recv_key: Vec<u8> = copy_range(res.recv_key.as_slice(), 0, res.recv_key.len());
    assert(kyber_sk@ =~= res.kyber_sk.data@);
    assert(x25519_sk@ =~= res.x25519_sk@);
    assert(send_key@ =~= res.send_key@);
    assert(recv_key@ =~= res.recv_key@);
    KeyMaterial {
        kyber_sk: KyberSecretKey { data: kyber_sk },
        x25519_sk,
        send_key,
        recv_key,
        session_id: res.session_id.clone(),
        created_at: now,
        key_id,
    }
}

impl PeerSession {
    /// The session of a peer that registers at `now` with the keys of its
    /// first handshake.
    pub fn new(peer_info: PeerInfo, initial: &HandshakeResult, now: u64) -> (s: PeerSession)
        ensures
            is_fresh_session(s, peer_info, *initial, now),
    {
        let mut keys: Vec<KeyMaterial> = Vec::new();
        keys.push(key_material_from(initial, 0, now));
        PeerSession {
            peer_info,
            keys,
            key_counter: 1,
            packets_sent: 0,
            last_rotation: now,
            rekeying: false,
        }
    }

    /// A copy of the newest key material, if any is kept.
    pub fn current_key(&self) -> (k: Option<KeyMaterial>)
        ensures
            match k {
                Some(key) => self.keys@.len() > 0 && key@ == self.keys@[0]@,
                None => self.keys@.len() == 0,
            },
    {
        if self.keys.len() == 0 {
            None
        } else {
            Some(copy_key_material(&self.keys[0]))
        }
    }

    /// Whether the keys are overdue: the time since the last rotation
    /// exceeds the interval.
    pub fn needs_rotation(&self, now: u64, interval: u64) -> (due: bool)
        ensures
            due == (now > self.last_rotation && now - self.last_rotation > interval),
    {
        now > self.last_rotation && now - self.last_rotation > interval
    }

    /// Counts one packet and says whether the count has reached the
    /// threshold while no rotation is under way. The count stops at the
    /// largest number it can hold.
    pub fn record_packet(&mut self, threshold: Option<u64>) -> (rekey: bool)
        ensures
            final(self).packets_sent == if old(self).packets_sent < u64::MAX {
                (old(self).packets_sent + 1) as u64
            } else {
                old(self).packets_sent
            },
            final(self).keys == old(self).keys,
            final(self).peer_info == old(self).peer_info,
            final(self).key_counter == old(self).key_counter,
            final(self).last_rotation == old(self).last_rotation,
            final(self).rekeying == old(self).rekeying,
            rekey == match threshold {
                Some(t) => final(self).packets_sent >= t && !old(self).rekeying,
                None => false,
            },
    {
        if self.packets_sent < u64::MAX {
            self.packets_sent = self.packets_sent + 1;
        }
        match threshold {
            Some(t) => self.packets_sent >= t && !self.rekeying,
            None => false,
        }
    }

    /// Drops expired key material, then all but the newest
    /// `max_keys_per_peer` entries.
    pub fn cleanup_old_keys(&mut self, config: &RotationConfig, now: u64)
        ensures
            final(self).keys@ == pruned(old(self).keys@, *config, now),
            final(self).peer_info == old(self).peer_info,
            final(self).key_counter == old(self).key_counter,
            final(self).packets_sent == old(self).packets_sent,
            final(self).last_rotation == old(self).last_rotation,
            final(self).rekeying == old(self).rekeying,
    {
        let ghost orig = self.keys@;
        let mut kept: Vec<KeyMaterial> = Vec::new();
        let total: usize = self.keys.len();
        let mut n: usize = 0;
        while n < total
            invariant
                n <= total,
                total == orig.len(),
                self.keys@.len() == total - n,
                forall|i: int| 0 <= i < total - n ==> self.keys@[i] == orig[n + i],
                kept@ == retained(
                    orig,
                    n as nat,
                    config.key_expiration,
                    config.max_keys_per_peer,
                    now,
                ),
                self.peer_info == old(self).peer_info,
                self.key_counter == old(self).key_counter,
                self.packets_sent == old(self).packets_sent,
                self.last_rotation == old(self).last_rotation,
                self.rekeying == old(self).rekeying,
            decreases total - n,
        {
            let k: KeyMaterial = self.keys.remove(0);
            let age: u64 = if now >= k.created_at {
                now - k.created_at
            } else {
                0
            };
            if age < config.key_expiration && kept.len() < config.max_keys_per_peer {
                kept.push(k);
            }
            n += 1;
        }
        self.keys = kept;
    }

    /// Installs the keys of a handshake as a new generation in front, then
    /// prunes. Fails, and leaves the session as it was, only when the
    /// generation counter cannot grow.
    pub fn install_key(
        &mut self,
        res: &HandshakeResult,
        config: &RotationConfig,
        now: u64,
        reset_packets: bool,
    ) -> (r: Result<(), RotationError>)
        ensures
            old(self).key_counter == u64::MAX ==> r is Err && *final(self) == *old(self),
            old(self).key_counter < u64::MAX ==> r is Ok && is_rotated(
                *old(self),
                *final(self),
                *res,
                *config,
                now,
                reset_packets,
            ),
            r matches Err(e) ==> e is KeyGeneration,
    {
        if self.key_counter == u64::MAX {
            return Err(RotationError::KeyGeneration("key counter exhausted".to_owned()));
        }
        let new_key: KeyMaterial = key_material_from(res, self.key_counter, now);
        self.keys.insert(0, new_key);
        assert(self.keys@ =~= seq![new_key] + old(self).keys@);
        self.key_counter = self.key_counter + 1;
        self.last_rotation = now;
        if reset_packets {
            self.packets_sent = 0;
        }
        self.cleanup_old_keys(config, now);
        assert(pruned(seq![new_key] + old(self).keys@, *config, now) == self.keys@);
        Ok(())
    }
}

} // verus!
