//! Pure session apply paths: the roster and the spawn acknowledgement.

use vstd::prelude::*;

use super::phase::{spec_can_go, ActiveWeapon, MpPhase};
use super::remotes::{
    distinct_ids, find_id, has_id, joined, lemma_find_id_from, lemma_select_distinct, lemma_select_filter, select, PlayerId, RemoteSample, RemoteTable,
};

verus! {

/// A player's role in the room.
#[derive(Debug, Clone, Copy, PartialEq, Eq, Structural)]
pub enum NetRole {
    Player,
    Spectator,
}

/// One row of the server's roster.
#[derive(Debug)]
pub struct RosterEntry {
    pub id: PlayerId,
    pub display_name: String,
    pub score: u32,
    pub living: bool,
    pub role: NetRole,
    pub character: u8,
    pub room_leader: bool,
}

/// The loadout a spawn applies.
#[derive(Debug, Clone, Copy, PartialEq, Eq, Structural)]
pub struct PendingSpawnLoadout {
    pub primary: Option<u8>,
    pub secondary: Option<u8>,
    pub active: ActiveWeapon,
}

/// Whether roster row `e` is a remote player for the local player `me`.
pub open spec fn is_remote_player(e: RosterEntry, me: Option<PlayerId>) -> bool {
    e.role == NetRole::Player && me != Some(e.id)
}

/// Whether `id` is a remote player according to `entries`.
pub open spec fn listed_remote(entries: Seq<RosterEntry>, me: Option<PlayerId>, id: PlayerId) -> bool {
    exists|i: int| 0 <= i < entries.len() && entries[i].id == id && is_remote_player(entries[i], me)
}

/// The remote table after noting every remote player of `entries`, in order.
pub open spec fn joined_all<D>(
    m: Seq<(PlayerId, Option<RemoteSample<D>>)>,
    entries: Seq<RosterEntry>,
    me: Option<PlayerId>,
) -> Seq<(PlayerId, Option<RemoteSample<D>>)>
    decreases entries.len(),
{
    if entries.len() == 0 {
        m
    } else {
        let prev = joined_all(m, entries.drop_last(), me);
        if is_remote_player(entries.last(), me) {
            joined(prev, entries.last().id)
        } else {
            prev
        }
    }
}

/// The remote table after a roster: remotes no longer listed as remote
/// players are dropped (keeping their order and samples), then every listed
/// remote player that is new gets an entry, in roster order.
pub open spec fn roster_remotes<D>(
    m: Seq<(PlayerId, Option<RemoteSample<D>>)>,
    entries: Seq<RosterEntry>,
    me: Option<PlayerId>,
) -> Seq<(PlayerId, Option<RemoteSample<D>>)> {
    joined_all(
        m.filter(|e: (PlayerId, Option<RemoteSample<D>>)| listed_remote(entries, me, e.0)),
        entries,
        me,
    )
}

fn lists_remote(entries: &Vec<RosterEntry>, me: Option<PlayerId>, id: PlayerId) -> (r: bool)
    ensures
        r == listed_remote(entries@, me, id),
{
    let n = entries.len();
    let mut i: usize = 0;
    while i < n
        invariant
            n == entries@.len(),
            i <= n,
            forall|k: int|
                0 <= k < i ==> !(entries@[k].id == id && is_remote_player(entries@[k], me)),
        decreases n - i,
    {
        let e = &entries[i];
        if e.id == id && e.role == NetRole::Player && me != Some(e.id) {
            return true;
        }
        i = i + 1;
    }
    false
}

/// Roster and remote membership. Remotes are the non-local players only;
/// this is the one place membership changes.
pub fn apply_roster<D>(
    roster: &mut Vec<RosterEntry>,
    remotes: &mut RemoteTable<D>,
    player_id: Option<PlayerId>,
    entries: Vec<RosterEntry>,
)
    ensures
        final(roster)@ == entries@,
        final(remotes)@ == roster_remotes(old(remotes)@, entries@, player_id),
        distinct_ids(final(remotes)@),
{
    proof {
        use_type_invariant(&*remotes);
    }
    let ghost m0 = remotes@;
    let ghost pred = |e: (PlayerId, Option<RemoteSample<D>>)| listed_remote(entries@, player_id, e.0);
    let keep = |id: PlayerId| -> (r: bool)
        ensures
            r == listed_remote(entries@, player_id, id),
        { lists_remote(&entries, player_id, id) };
    remotes.retain(keep);
    proof {
        let kept = choose|kept: Seq<bool>|
            #![trigger select(m0, kept)]
            kept.len() == m0.len() && (forall|i: int|
                0 <= i < kept.len() ==> keep.ensures((m0[i].0,), #[trigger] kept[i]))
                && remotes@ == select(m0, kept);
        assert forall|i: int| 0 <= i < m0.len() implies kept[i] == pred(m0[i]) by {
            assert(keep.ensures((m0[i].0,), kept[i]));
        }
        lemma_select_filter(m0, kept, pred);
        assert(joined_all(remotes@, entries@.take(0), player_id) == remotes@);
    }
    let n = entries.len();
    let mut i: usize = 0;
    while i < n
        invariant
            n == entries@.len(),
            i <= n,
            distinct_ids(remotes@),
            remotes@ == joined_all(
                m0.filter(|e: (PlayerId, Option<RemoteSample<D>>)| listed_remote(entries@, player_id, e.0)),
                entries@.take(i as int),
                player_id,
            ),
        decreases n - i,
    {
        let e = &entries[i];
        if player_id != Some(e.id) && e.role == NetRole::Player {
            remotes.note_joined(e.id);
        }
        assert(entries@.take(i + 1).drop_last() =~= entries@.take(i as int));
        i = i + 1;
    }
    assert(entries@.take(n as int) =~= entries@);
    *roster = entries;
}

/// Local pose + phase on the server's spawn acknowledgement. Accepted only
/// on the loadout bench: the phase becomes living, the spawn request is
/// settled and `spawn` (pose and staged loadout) is handed to the frame.
pub fn apply_you_spawned<T>(
    phase: &mut MpPhase,
    spawn_requested: &mut bool,
    pending_spawn: &mut Option<T>,
    spawn: T,
) -> (accepted: bool)
    ensures
        accepted == (*old(phase) == MpPhase::Ready),
        accepted ==> *final(phase) == MpPhase::Living && !*final(spawn_requested)
            && *final(pending_spawn) == Some(spawn),
        !accepted ==> *final(phase) == *old(phase) && *final(spawn_requested) == *old(
            spawn_requested,
        ) && *final(pending_spawn) == *old(pending_spawn),
        accepted ==> spec_can_go(*old(phase), *final(phase)),
{
    if *phase != MpPhase::Ready || !phase.can_go(MpPhase::Living) {
        return false;
    }
    *phase = MpPhase::Living;
    *spawn_requested = false;
    *pending_spawn = Some(spawn);
    true
}

} // verus!

verus! {

proof fn lemma_has_id_exists<D>(m: Seq<(PlayerId, Option<RemoteSample<D>>)>, id: PlayerId)
    ensures
        has_id(m, id) <==> exists|k: int| 0 <= k < m.len() && m[k].0 == id,
{
    lemma_find_id_from(m, id, 0);
}

proof fn lemma_joined_all_ids<D>(
    m: Seq<(PlayerId, Option<RemoteSample<D>>)>,
    entries: Seq<RosterEntry>,
    me: Option<PlayerId>,
    id: PlayerId,
)
    ensures
        has_id(joined_all(m, entries, me), id) <==> (has_id(m, id) || listed_remote(entries, me, id)),
        distinct_ids(m) ==> distinct_ids(joined_all(m, entries, me)),
        forall|k: int| 0 <= k < m.len() ==> #[trigger] joined_all(m, entries, me)[k] == m[k],
        joined_all(m, entries, me).len() >= m.len(),
    decreases entries.len(),
{
    if entries.len() > 0 {
        let prev = joined_all(m, entries.drop_last(), me);
        let l = entries.last();
        lemma_joined_all_ids(m, entries.drop_last(), me, id);
        lemma_has_id_exists(prev, id);
        lemma_has_id_exists(prev, l.id);
        lemma_has_id_exists(prev.push((l.id, None)), id);
        if listed_remote(entries.drop_last(), me, id) {
            let i = choose|i: int|
                0 <= i < entries.drop_last().len() && entries.drop_last()[i].id == id
                    && is_remote_player(entries.drop_last()[i], me);
            assert(entries[i] == entries.drop_last()[i]);
        }
        if listed_remote(entries, me, id) && !listed_remote(entries.drop_last(), me, id) {
            let i = choose|i: int|
                0 <= i < entries.len() && entries[i].id == id && is_remote_player(entries[i], me);
            if i < entries.len() - 1 {
                assert(entries.drop_last()[i] == entries[i]);
            }
        }
        if is_remote_player(l, me) && l.id == id {
            assert(entries[entries.len() - 1] == l);
        }
        if is_remote_player(l, me) && !has_id(prev, l.id) {
            let q = prev.push((l.id, None));
            assert(joined_all(m, entries, me) == q);
            if has_id(prev, id) {
                let k = choose|k: int| 0 <= k < prev.len() && prev[k].0 == id;
                assert(q[k] == prev[k]);
            }
            if id == l.id {
                assert(q[q.len() - 1].0 == id);
            }
            if has_id(q, id) {
                let k = choose|k: int| 0 <= k < q.len() && q[k].0 == id;
                if k < prev.len() {
                    assert(q[k] == prev[k]);
                }
            }
            if distinct_ids(prev) {
                assert forall|i: int, j: int| 0 <= i < j < q.len() implies q[i].0 != q[j].0 by {
                    if j == q.len() - 1 {
                        assert(q[i] == prev[i]);
                    } else {
                        assert(q[i] == prev[i] && q[j] == prev[j]);
                    }
                }
            }
        }
    }
}

proof fn lemma_filter_ids<D>(
    m: Seq<(PlayerId, Option<RemoteSample<D>>)>,
    entries: Seq<RosterEntry>,
    me: Option<PlayerId>,
    id: PlayerId,
)
    requires
        distinct_ids(m),
    ensures
        has_id(
            m.filter(|e: (PlayerId, Option<RemoteSample<D>>)| listed_remote(entries, me, e.0)),
            id,
        ) <==> (has_id(m, id) && listed_remote(entries, me, id)),
{
    let pred = |e: (PlayerId, Option<RemoteSample<D>>)| listed_remote(entries, me, e.0);
    let f = m.filter(pred);
    lemma_has_id_exists(m, id);
    lemma_has_id_exists(f, id);
    if has_id(f, id) {
        let k = choose|k: int| 0 <= k < f.len() && f[k].0 == id;
        m.lemma_filter_pred(pred, k);
        assert(f.contains(f[k]));
        m.lemma_filter_contains_rev(pred, f[k]);
    }
    if has_id(m, id) && listed_remote(entries, me, id) {
        let k = choose|k: int| 0 <= k < m.len() && m[k].0 == id;
        m.lemma_filter_contains(pred, k);
        let j = choose|j: int| 0 <= j < f.len() && f[j] == m[k];
        assert(f[j].0 == id);
    }
}

/// After a roster, the remote table holds exactly the players that the
/// roster lists as remote players (role player, not the local player), each
/// once; a remote that stays keeps its latest sample.
pub proof fn law_roster_membership<D>(
    m: Seq<(PlayerId, Option<RemoteSample<D>>)>,
    entries: Seq<RosterEntry>,
    me: Option<PlayerId>,
    id: PlayerId,
)
    requires
        distinct_ids(m),
    ensures
        has_id(roster_remotes(m, entries, me), id) <==> listed_remote(entries, me, id),
        distinct_ids(roster_remotes(m, entries, me)),
        has_id(m, id) && listed_remote(entries, me, id) ==> exists|k: int, j: int|
            #![trigger m[k], roster_remotes(m, entries, me)[j]]
            0 <= k < m.len() && 0 <= j < roster_remotes(m, entries, me).len() && m[k].0 == id
                && roster_remotes(m, entries, me)[j] == m[k],
{
    let pred = |e: (PlayerId, Option<RemoteSample<D>>)| listed_remote(entries, me, e.0);
    let f = m.filter(pred);
    lemma_filter_ids(m, entries, me, id);
    lemma_joined_all_ids(f, entries, me, id);
    assert(distinct_ids(f)) by {
        let flags = Seq::new(m.len(), |i: int| pred(m[i]));
        lemma_select_filter(m, flags, pred);
        lemma_select_distinct(m, flags);
    }
    if has_id(m, id) && listed_remote(entries, me, id) {
        lemma_has_id_exists(f, id);
        let j = choose|j: int| 0 <= j < f.len() && f[j].0 == id;
        m.lemma_filter_pred(pred, j);
        assert(f.contains(f[j]));
        m.lemma_filter_contains_rev(pred, f[j]);
        let k = choose|k: int| 0 <= k < m.len() && m[k] == f[j];
        assert(roster_remotes(m, entries, me)[j] == f[j]);
    }
}

} // verus!
