//! The concurrent map from peer identifier to session.

use crate::session::PeerSession;
use dashmap::DashMap;
use vstd::prelude::*;

verus! {

/// The concurrent hash map `dashmap::DashMap`.
#[verifier::external_type_specification]
#[verifier::external_body]
#[verifier::reject_recursive_types(K)]
#[verifier::reject_recursive_types(V)]
#[verifier::reject_recursive_types(S)]
pub struct ExDashMap<K, V, S>(DashMap<K, V, S>);

/// The sessions that a map holds, by the characters of the peer
/// identifier.
pub uninterp spec fn sessions_of(m: DashMap<String, PeerSession>) -> Map<Seq<char>, PeerSession>;

/// The map that holds no session.
pub open spec fn no_sessions() -> Map<Seq<char>, PeerSession> {
    Map::empty()
}

/// The map holds finitely many sessions, `n` of them.
pub open spec fn counts(contents: Map<Seq<char>, PeerSession>, n: usize) -> bool {
    contents.dom().finite() && contents.dom().len() == n
}

/// Calls `DashMap::new`.
///
/// Trusted: a new map holds nothing.
#[verifier::external_body]
pub(crate) fn sessions_new() -> (sessions: DashMap<String, PeerSession>)
    ensures
        sessions_of(sessions) == no_sessions(),
{
    DashMap::new()
}

/// Calls `DashMap::insert`.
///
/// Trusted: the map then holds `value` under `key` and is otherwise as
/// before; what `key` held before comes back.
#[verifier::external_body]
pub(crate) fn sessions_insert(
    m: &mut DashMap<String, PeerSession>,
    key: String,
    value: PeerSession,
) -> (prev: Option<PeerSession>)
    ensures
        sessions_of(*final(m)) == sessions_of(*old(m)).insert(key@, value),
        prev == if sessions_of(*old(m)).contains_key(key@) {
            Some(sessions_of(*old(m))[key@])
        } else {
            None
        },
{
    m.insert(key, value)
}

/// Calls `DashMap::remove` and hands out the value of the removed entry.
///
/// Trusted: the map then holds nothing under `key` and is otherwise as
/// before; what `key` held before comes back.
#[verifier::external_body]
pub(crate) fn sessions_remove(m: &mut DashMap<String, PeerSession>, key: &str) -> (prev: Option<
    PeerSession,
>)
    ensures
        sessions_of(*final(m)) == sessions_of(*old(m)).remove(key@),
        prev == if sessions_of(*old(m)).contains_key(key@) {
            Some(sessions_of(*old(m))[key@])
        } else {
            None
        },
{
    match m.remove(key) {
        Some((_, value)) => Some(value),
        None => None,
    }
}

/// Calls `DashMap::contains_key`.
///
/// Trusted: the answer is whether the map holds something under `key`.
#[verifier::external_body]
pub(crate) fn sessions_contains(m: &DashMap<String, PeerSession>, key: &str) -> (found: bool)
    ensures
        found == sessions_of(*m).contains_key(key@),
{
    m.contains_key(key)
}

/// Calls `DashMap::len`.
///
/// Trusted: a map holds finitely many entries, and this is their number.
#[verifier::external_body]
pub(crate) fn sessions_len(m: &DashMap<String, PeerSession>) -> (n: usize)
    ensures
        counts(sessions_of(*m), n),
{
    m.len()
}

/// Walks the map with `DashMap::iter` and collects a copy of each key.
///
/// Trusted: every key of the map comes out once, in no stated order.
#[verifier::external_body]
pub(crate) fn sessions_keys(m: &DashMap<String, PeerSession>) -> (keys: Vec<String>)
    ensures
        forall|i: int, j: int|
            0 <= i < j < keys@.len() ==> (#[trigger] keys@[i])@ != (#[trigger] keys@[j])@,
        forall|i: int| 0 <= i < keys@.len() ==> sessions_of(*m).contains_key(#[trigger] keys@[i]@),
        forall|k: Seq<char>|
            sessions_of(*m).contains_key(k) ==> exists|i: int|
                0 <= i < keys@.len() && (#[trigger] keys@[i])@ == k,
{
    m.iter().map(|entry| entry.key().clone()).collect()
}

} // verus!
