//! Load slots for presented objects (remote players, corpses, dropped
//! blasters): which loads to start, and which finished loads to keep.
//!
//! Each object id has at most one slot. A slot is loading or ready for one
//! kit key (a character letter, a blaster letter, a remote kit); a load
//! result counts only if its slot is still loading the same key. The GPU
//! object type is a parameter.

use vstd::prelude::*;

use crate::mp::remotes::RemoteKitKey;

verus! {

/// Keys that say which kit a slot was loaded for.
pub trait SlotKey: Copy + Sized {
    /// Whether two keys name the same kit.
    fn same(&self, other: &Self) -> (r: bool)
        ensures
            r == (*self == *other),
    ;
}

impl SlotKey for u8 {
    fn same(&self, other: &Self) -> (r: bool) {
        *self == *other
    }
}

impl SlotKey for RemoteKitKey {
    fn same(&self, other: &Self) -> (r: bool) {
        self.character == other.character && self.primary == other.primary && self.secondary
            == other.secondary
    }
}

/// One object's slot.
pub enum Slot<K, G> {
    Loading { key: K },
    Ready { gpu: G, key: K },
    Failed,
}

/// The slots, one per object id, in the order the ids got theirs.
pub struct LoadSlots<K, G> {
    slots: Vec<(u64, Slot<K, G>)>,
}

impl<K, G> View for LoadSlots<K, G> {
    type V = Seq<(u64, Slot<K, G>)>;

    closed spec fn view(&self) -> Seq<(u64, Slot<K, G>)> {
        self.slots@
    }
}

/// No id has two slots.
pub open spec fn slots_distinct<K, G>(s: Seq<(u64, Slot<K, G>)>) -> bool {
    forall|i: int, j: int| 0 <= i < j < s.len() ==> s[i].0 != s[j].0
}

/// Index of the slot of `id` at or after `i`.
pub open spec fn slot_index_from<K, G>(s: Seq<(u64, Slot<K, G>)>, id: u64, i: int) -> Option<int>
    decreases s.len() - i,
{
    if i < 0 || i >= s.len() {
        None
    } else if s[i].0 == id {
        Some(i)
    } else {
        slot_index_from(s, id, i + 1)
    }
}

/// Index of the slot of `id`, if it has one.
pub open spec fn slot_index<K, G>(s: Seq<(u64, Slot<K, G>)>, id: u64) -> Option<int> {
    slot_index_from(s, id, 0)
}

/// Whether the slot of `id` needs no new load for `key`: it is loading or
/// ready for the same key, or (when failures stick) it failed.
pub open spec fn satisfied<K, G>(s: Seq<(u64, Slot<K, G>)>, id: u64, key: K, failures_stick: bool) -> bool {
    match slot_index(s, id) {
        Some(k) => match s[k].1 {
            Slot::Loading { key: k2 } => k2 == key,
            Slot::Ready { key: k2, .. } => k2 == key,
            Slot::Failed => failures_stick,
        },
        None => false,
    }
}

/// The slots with `id` set to `slot` (replacing its slot or added at the end).
pub open spec fn put<K, G>(s: Seq<(u64, Slot<K, G>)>, id: u64, slot: Slot<K, G>) -> Seq<(u64, Slot<K, G>)> {
    match slot_index(s, id) {
        Some(k) => s.update(k, (id, slot)),
        None => s.push((id, slot)),
    }
}

/// The slots without the slot of `id`.
pub open spec fn without<K, G>(s: Seq<(u64, Slot<K, G>)>, id: u64) -> Seq<(u64, Slot<K, G>)> {
    match slot_index(s, id) {
        Some(k) => s.remove(k),
        None => s,
    }
}

/// Planning over the wanted `(id, key)` pairs in order: the slots after,
/// and the loads to start.
pub open spec fn plan<K, G>(s: Seq<(u64, Slot<K, G>)>, wanted: Seq<(u64, K)>, failures_stick: bool) -> (
    Seq<(u64, Slot<K, G>)>,
    Seq<(u64, K)>,
)
    decreases wanted.len(),
{
    if wanted.len() == 0 {
        (s, seq![])
    } else {
        let (s1, need) = plan(s, wanted.drop_last(), failures_stick);
        let (id, key) = wanted.last();
        if satisfied(s1, id, key, failures_stick) {
            (s1, need)
        } else {
            (put(s1, id, Slot::Loading { key }), need.push((id, key)))
        }
    }
}

/// The slots whose id is in `live`, in order.
pub open spec fn kept<K, G>(s: Seq<(u64, Slot<K, G>)>, live: Seq<u64>) -> Seq<(u64, Slot<K, G>)> {
    s.filter(|e: (u64, Slot<K, G>)| live.contains(e.0))
}

/// The slots after a load for `(id, key)` finished with success `ok` (the
/// GPU object being `gpu` when it succeeded).
pub open spec fn finished<K, G>(
    s: Seq<(u64, Slot<K, G>)>,
    id: u64,
    key: K,
    result: Option<G>,
    failures_stick: bool,
) -> Seq<(u64, Slot<K, G>)> {
    let still = match slot_index(s, id) {
        Some(k) => s[k].1 matches Slot::Loading { key: k2 } && k2 == key,
        None => false,
    };
    if !still {
        s
    } else {
        match result {
            Some(gpu) => put(s, id, Slot::Ready { gpu, key }),
            None => if failures_stick {
                put(s, id, Slot::Failed)
            } else {
                without(s, id)
            },
        }
    }
}

pub proof fn lemma_slot_index_from<K, G>(s: Seq<(u64, Slot<K, G>)>, id: u64, i: int)
    requires
        0 <= i,
    ensures
        slot_index_from(s, id, i) matches Some(k) ==> i <= k < s.len() && s[k].0 == id,
        slot_index_from(s, id, i) is None ==> forall|k: int| i <= k < s.len() ==> s[k].0 != id,
    decreases s.len() - i,
{
    if i < s.len() && s[i].0 != id {
        lemma_slot_index_from(s, id, i + 1);
    }
}

proof fn lemma_put_distinct<K, G>(s: Seq<(u64, Slot<K, G>)>, id: u64, slot: Slot<K, G>)
    requires
        slots_distinct(s),
    ensures
        slots_distinct(put(s, id, slot)),
{
    lemma_slot_index_from(s, id, 0);
    let t = put(s, id, slot);
    assert forall|i: int, j: int| 0 <= i < j < t.len() implies t[i].0 != t[j].0 by {
        if slot_index(s, id) is None && j == s.len() {
            assert(t[i] == s[i]);
        }
    }
}

proof fn lemma_without_distinct<K, G>(s: Seq<(u64, Slot<K, G>)>, id: u64)
    requires
        slots_distinct(s),
    ensures
        slots_distinct(without(s, id)),
{
    lemma_slot_index_from(s, id, 0);
    let t = without(s, id);
    if let Some(k) = slot_index(s, id) {
        assert forall|i: int, j: int| 0 <= i < j < t.len() implies t[i].0 != t[j].0 by {
            let a = if i < k {
                i
            } else {
                i + 1
            };
            let b = if j < k {
                j
            } else {
                j + 1
            };
            assert(t[i] == s[a] && t[j] == s[b]);
        }
    }
}

impl<K: SlotKey, G> LoadSlots<K, G> {
    pub fn new() -> (r: Self)
        ensures
            r@ == Seq::<(u64, Slot<K, G>)>::empty(),
            slots_distinct(r@),
    {
        LoadSlots { slots: Vec::new() }
    }

    pub fn clear(&mut self)
        ensures
            final(self)@ == Seq::<(u64, Slot<K, G>)>::empty(),
            slots_distinct(final(self)@),
    {
        self.slots = Vec::new();
    }

    fn index_of(&self, id: u64) -> (r: Option<usize>)
        ensures
            r matches Some(k) ==> slot_index(self@, id) == Some(k as int),
            r is None ==> slot_index(self@, id) is None,
    {
        let n = self.slots.len();
        let mut i: usize = 0;
        while i < n
            invariant
                n == self.slots@.len(),
                i <= n,
                slot_index(self@, id) == slot_index_from(self@, id, i as int),
            decreases n - i,
        {
            if self.slots[i].0 == id {
                return Some(i);
            }
            i = i + 1;
        }
        None
    }

    fn set_slot(&mut self, id: u64, slot: Slot<K, G>)
        requires
            slots_distinct(old(self)@),
        ensures
            final(self)@ == put(old(self)@, id, slot),
            slots_distinct(final(self)@),
    {
        proof {
            lemma_put_distinct(self@, id, slot);
            lemma_slot_index_from(self@, id, 0);
        }
        match self.index_of(id) {
            Some(k) => {
                self.slots.set(k, (id, slot));
            },
            None => {
                self.slots.push((id, slot));
            },
        }
    }

    /// Drops the slots whose id is not in `live`, keeping the order.
    pub fn retain_live(&mut self, live: &[u64])
        requires
            slots_distinct(old(self)@),
        ensures
            final(self)@ == kept(old(self)@, live@),
            slots_distinct(final(self)@),
    {
        let mut rest: Vec<(u64, Slot<K, G>)> = Vec::new();
        std::mem::swap(&mut rest, &mut self.slots);
        let ghost o = rest@;
        let ghost pred = |e: (u64, Slot<K, G>)| live@.contains(e.0);
        let mut out: Vec<(u64, Slot<K, G>)> = Vec::new();
        let n = rest.len();
        let mut i: usize = 0;
        while i < n
            invariant
                n == o.len(),
                i <= n,
                rest@ == o.skip(i as int),
                out@ == o.take(i as int).filter(pred),
                pred == (|e: (u64, Slot<K, G>)| live@.contains(e.0)),
            decreases n - i,
        {
            let e = rest.remove(0);
            proof {
                assert(o.skip(i as int).remove(0) =~= o.skip(i + 1));
                assert(o.take(i + 1).drop_last() =~= o.take(i as int));
                reveal_with_fuel(Seq::<_>::filter, 1);
            }
            if contains_id(live, e.0) {
                out.push(e);
            }
            i = i + 1;
        }
        assert(o.take(n as int) =~= o);
        proof {
            lemma_filter_distinct(o, pred);
        }
        self.slots = out;
    }

    /// Goes through the wanted `(id, key)` pairs in order and starts a load
    /// (slot set to loading) for each whose slot does not already hold or
    /// load the same key; a failed slot counts as settled when
    /// `failures_stick`. Returns the loads to start, in order.
    pub fn plan(&mut self, wanted: &[(u64, K)], failures_stick: bool) -> (need: Vec<(u64, K)>)
        requires
            slots_distinct(old(self)@),
        ensures
            (final(self)@, need@) == plan(old(self)@, wanted@, failures_stick),
            slots_distinct(final(self)@),
    {
        let mut need: Vec<(u64, K)> = Vec::new();
        let n = wanted.len();
        let mut i: usize = 0;
        let ghost s0 = self@;
        while i < n
            invariant
                n == wanted@.len(),
                i <= n,
                slots_distinct(self@),
                (self@, need@) == plan(s0, wanted@.take(i as int), failures_stick),
            decreases n - i,
        {
            let (id, key) = wanted[i];
            proof {
                assert(wanted@.take(i + 1).drop_last() =~= wanted@.take(i as int));
                assert(wanted@.take(i + 1).last() == (id, key));
            }
            if !self.is_satisfied(id, &key, failures_stick) {
                self.set_slot(id, Slot::Loading { key });
                need.push((id, key));
            }
            i = i + 1;
        }
        assert(wanted@.take(n as int) =~= wanted@);
        need
    }

    fn is_satisfied(&self, id: u64, key: &K, failures_stick: bool) -> (r: bool)
        ensures
            r == satisfied(self@, id, *key, failures_stick),
    {
        proof {
            lemma_slot_index_from(self@, id, 0);
        }
        match self.index_of(id) {
            Some(k) => match &self.slots[k].1 {
                Slot::Loading { key: k2 } => k2.same(key),
                Slot::Ready { key: k2, .. } => k2.same(key),
                Slot::Failed => failures_stick,
            },
            None => false,
        }
    }

    /// A load for `(id, key)` finished: `result` is the GPU object, or `None`
    /// on failure. It is kept only if the slot still loads `key`; a failure
    /// marks the slot failed when `failures_stick`, else frees it.
    pub fn finish(&mut self, id: u64, key: K, result: Option<G>, failures_stick: bool)
        requires
            slots_distinct(old(self)@),
        ensures
            final(self)@ == finished(old(self)@, id, key, result, failures_stick),
            slots_distinct(final(self)@),
    {
        proof {
            lemma_slot_index_from(self@, id, 0);
            lemma_without_distinct(self@, id);
        }
        let k = match self.index_of(id) {
            Some(k) => k,
            None => return,
        };
        let still = match &self.slots[k].1 {
            Slot::Loading { key: k2 } => k2.same(&key),
            _ => false,
        };
        if !still {
            return;
        }
        match result {
            Some(gpu) => {
                self.set_slot(id, Slot::Ready { gpu, key });
            },
            None => {
                if failures_stick {
                    self.set_slot(id, Slot::Failed);
                } else {
                    let _ = self.slots.remove(k);
                }
            },
        }
    }

    /// The ready GPU object of `id` and its key.
    pub fn ready(&self, id: u64) -> (r: Option<(&G, K)>)
        ensures
            match slot_index(self@, id) {
                Some(k) => match self@[k].1 {
                    Slot::Ready { gpu, key } => r == Some((&gpu, key)),
                    _ => r is None,
                },
                None => r is None,
            },
    {
        proof {
            lemma_slot_index_from(self@, id, 0);
        }
        match self.index_of(id) {
            Some(k) => match &self.slots[k].1 {
                Slot::Ready { gpu, key } => Some((gpu, *key)),
                _ => None,
            },
            None => None,
        }
    }

    /// The ready GPU object of `id`, for updating in place.
    pub fn ready_mut(&mut self, id: u64) -> (r: Option<&mut G>)
        ensures
            match slot_index(old(self)@, id) {
                Some(k) => match old(self)@[k].1 {
                    Slot::Ready { gpu, key } => r is Some && *r.unwrap() == gpu && final(self)@
                        == old(self)@.update(k, (id, Slot::Ready { gpu: *final(r.unwrap()), key })),
                    _ => r is None && final(self)@ == old(self)@,
                },
                None => r is None && final(self)@ == old(self)@,
            },
    {
        proof {
            lemma_slot_index_from(self@, id, 0);
        }
        match self.index_of(id) {
            Some(k) => match &mut self.slots[k].1 {
                Slot::Ready { gpu, .. } => Some(gpu),
                _ => None,
            },
            None => None,
        }
    }

    /// The ids with a ready slot, in order.
    pub fn ready_ids(&self) -> (r: Vec<u64>)
        ensures
            r@ == ready_ids_of(self@),
    {
        let mut r: Vec<u64> = Vec::new();
        let n = self.slots.len();
        let mut i: usize = 0;
        while i < n
            invariant
                n == self.slots@.len(),
                i <= n,
                r@ == ready_ids_of(self@.take(i as int)),
            decreases n - i,
        {
            assert(self@.take(i + 1).drop_last() =~= self@.take(i as int));
            if let Slot::Ready { .. } = &self.slots[i].1 {
                r.push(self.slots[i].0);
            }
            i = i + 1;
        }
        assert(self@.take(n as int) =~= self@);
        r
    }
}

/// The ids with a ready slot, in order.
pub open spec fn ready_ids_of<K, G>(s: Seq<(u64, Slot<K, G>)>) -> Seq<u64>
    decreases s.len(),
{
    if s.len() == 0 {
        seq![]
    } else if s.last().1 is Ready {
        ready_ids_of(s.drop_last()).push(s.last().0)
    } else {
        ready_ids_of(s.drop_last())
    }
}

/// Whether `live` holds `id`.
fn contains_id(live: &[u64], id: u64) -> (r: bool)
    ensures
        r == live@.contains(id),
{
    let n = live.len();
    let mut i: usize = 0;
    while i < n
        invariant
            n == live@.len(),
            i <= n,
            forall|k: int| 0 <= k < i ==> live@[k] != id,
        decreases n - i,
    {
        if live[i] == id {
            assert(live@[i as int] == id);
            return true;
        }
        i = i + 1;
    }
    false
}

/// Filtering keeps ids distinct.
proof fn lemma_filter_distinct<K, G>(s: Seq<(u64, Slot<K, G>)>, pred: spec_fn((u64, Slot<K, G>)) -> bool)
    requires
        slots_distinct(s),
    ensures
        slots_distinct(s.filter(pred)),
    decreases s.len(),
{
    reveal_with_fuel(Seq::<_>::filter, 1);
    if s.len() > 0 {
        let d = s.drop_last();
        lemma_filter_distinct(d, pred);
        let f = d.filter(pred);
        if pred(s.last()) {
            assert forall|k: int| 0 <= k < f.len() implies f[k].0 != s.last().0 by {
                assert(f.contains(f[k]));
                d.lemma_filter_contains_rev(pred, f[k]);
                let j = choose|j: int| 0 <= j < d.len() && d[j] == f[k];
                assert(s[j] == d[j]);
            }
            let t = f.push(s.last());
            assert forall|i: int, j: int| 0 <= i < j < t.len() implies t[i].0 != t[j].0 by {
                if j == t.len() - 1 {
                    assert(t[i] == f[i]);
                } else {
                    assert(t[i] == f[i] && t[j] == f[j]);
                }
            }
        }
    }
}

/// Two slot lists that agree on where `id` sits (and the longer one has no
/// `id` past the shorter) find `id` at the same index.
proof fn lemma_index_agrees<K, G>(s: Seq<(u64, Slot<K, G>)>, t: Seq<(u64, Slot<K, G>)>, id: u64, i: int)
    requires
        0 <= i,
        s.len() <= t.len(),
        forall|j: int| 0 <= j < s.len() ==> ((#[trigger] t[j]).0 == id) == (s[j].0 == id),
        forall|j: int| s.len() <= j < t.len() ==> (#[trigger] t[j]).0 != id,
    ensures
        slot_index_from(t, id, i) == slot_index_from(s, id, i),
    decreases t.len() - i,
{
    if i < t.len() {
        lemma_index_agrees(s, t, id, i + 1);
    }
}

/// Putting a slot for `id` makes it the slot found for `id`, and leaves the
/// slot found for every other id where it was.
proof fn lemma_put_lookup<K, G>(s: Seq<(u64, Slot<K, G>)>, id: u64, slot: Slot<K, G>, other: u64)
    ensures
        slot_index(put(s, id, slot), id) matches Some(k) && put(s, id, slot)[k] == (id, slot),
        other != id ==> slot_index(put(s, id, slot), other) == slot_index(s, other),
        other != id ==> (slot_index(s, other) matches Some(k) ==> put(s, id, slot)[k] == s[k]),
{
    lemma_slot_index_from(s, id, 0);
    lemma_slot_index_from(s, other, 0);
    let t = put(s, id, slot);
    match slot_index(s, id) {
        Some(k) => {
            assert forall|j: int| 0 <= j < s.len() implies ((#[trigger] t[j]).0 == id) == (s[j].0
                == id) by {}
            lemma_index_agrees(s, t, id, 0);
            if other != id {
                assert forall|j: int| 0 <= j < s.len() implies ((#[trigger] t[j]).0 == other) == (
                s[j].0 == other) by {}
                lemma_index_agrees(s, t, other, 0);
            }
        },
        None => {
            if other != id {
                assert forall|j: int| 0 <= j < s.len() implies ((#[trigger] t[j]).0 == other) == (
                s[j].0 == other) by {}
                lemma_index_agrees(s, t, other, 0);
            }
            lemma_index_after_push(s, (id, slot), 0);
        },
    }
}

/// Appending an entry for `id` to slots without `id` (from `i` on) makes
/// it the one found.
proof fn lemma_index_after_push<K, G>(s: Seq<(u64, Slot<K, G>)>, e: (u64, Slot<K, G>), i: int)
    requires
        0 <= i <= s.len(),
        forall|j: int| i <= j < s.len() ==> (#[trigger] s[j]).0 != e.0,
    ensures
        slot_index_from(s.push(e), e.0, i) == Some(s.len() as int),
    decreases s.len() - i,
{
    if i < s.len() {
        assert(s.push(e)[i] == s[i]);
        lemma_index_after_push(s, e, i + 1);
    }
}

/// Planning settles every wanted object: afterwards each wanted `(id, key)`
/// (ids listed once) has a slot loading or ready for `key`, or a sticky
/// failure.
pub proof fn law_plan_settles_wanted<K, G>(
    s: Seq<(u64, Slot<K, G>)>,
    wanted: Seq<(u64, K)>,
    failures_stick: bool,
)
    requires
        forall|i: int, j: int| 0 <= i < j < wanted.len() ==> wanted[i].0 != wanted[j].0,
    ensures
        forall|i: int|
            0 <= i < wanted.len() ==> satisfied(
                plan(s, wanted, failures_stick).0,
                (#[trigger] wanted[i]).0,
                wanted[i].1,
                failures_stick,
            ),
    decreases wanted.len(),
{
    if wanted.len() > 0 {
        let w = wanted.drop_last();
        law_plan_settles_wanted(s, w, failures_stick);
        let (s1, need) = plan(s, w, failures_stick);
        let (id, key) = wanted.last();
        if !satisfied(s1, id, key, failures_stick) {
            let s2 = put(s1, id, Slot::Loading { key });
            assert forall|i: int| 0 <= i < wanted.len() implies satisfied(
                s2,
                (#[trigger] wanted[i]).0,
                wanted[i].1,
                failures_stick,
            ) by {
                lemma_put_lookup(s1, id, Slot::Loading { key }, wanted[i].0);
                if i < wanted.len() - 1 {
                    assert(wanted[i] == w[i]);
                    assert(wanted[i].0 != id);
                }
            }
        } else {
            assert forall|i: int| 0 <= i < wanted.len() implies satisfied(
                s1,
                (#[trigger] wanted[i]).0,
                wanted[i].1,
                failures_stick,
            ) by {
                if i < wanted.len() - 1 {
                    assert(wanted[i] == w[i]);
                }
            }
        }
    }
}

/// Planning when every wanted object is already settled changes nothing
/// and starts no load.
proof fn lemma_plan_settled<K, G>(s: Seq<(u64, Slot<K, G>)>, wanted: Seq<(u64, K)>, failures_stick: bool)
    requires
        forall|i: int|
            0 <= i < wanted.len() ==> satisfied(s, (#[trigger] wanted[i]).0, wanted[i].1, failures_stick),
    ensures
        plan(s, wanted, failures_stick) == (s, Seq::<(u64, K)>::empty()),
    decreases wanted.len(),
{
    if wanted.len() > 0 {
        let w = wanted.drop_last();
        assert forall|i: int| 0 <= i < w.len() implies satisfied(s, (#[trigger] w[i]).0, w[i].1, failures_stick) by {
            assert(w[i] == wanted[i]);
        }
        lemma_plan_settled(s, w, failures_stick);
        assert(satisfied(s, wanted[wanted.len() - 1].0, wanted[wanted.len() - 1].1, failures_stick));
    }
}

/// Planning one wanted `(id, key)`: a slot already loading or ready for
/// `key` (or, when failures stick, a failed one) is left alone and no load
/// starts; any other slot (none, loading or ready for another key, or a
/// failed one that does not stick) becomes a load of `key`, and that load is
/// the one started.
pub proof fn law_plan_one<K, G>(s: Seq<(u64, Slot<K, G>)>, id: u64, key: K, failures_stick: bool)
    ensures
        ({
            let (s1, need) = plan(s, seq![(id, key)], failures_stick);
            let settled = match slot_index(s, id) {
                Some(k) => match s[k].1 {
                    Slot::Loading { key: k2 } => k2 == key,
                    Slot::Ready { key: k2, .. } => k2 == key,
                    Slot::Failed => failures_stick,
                },
                None => false,
            };
            &&& settled ==> s1 == s && need == Seq::<(u64, K)>::empty()
            &&& !settled ==> need == seq![(id, key)] && (slot_index(s1, id) matches Some(j) && s1[j] == (
                id,
                Slot::<K, G>::Loading { key },
            ))
        }),
{
    let w = seq![(id, key)];
    assert(w.drop_last() =~= Seq::<(u64, K)>::empty());
    assert(w.last() == (id, key));
    assert(plan(s, w.drop_last(), failures_stick) == (s, Seq::<(u64, K)>::empty()));
    lemma_put_lookup(s, id, Slot::<K, G>::Loading { key }, id);
    assert(Seq::<(u64, K)>::empty().push((id, key)) =~= seq![(id, key)]);
}

/// A load result for the key its slot is still loading is kept: success
/// makes the slot ready with the GPU object for that key; a failure marks it
/// failed when failures stick and otherwise frees it.
pub proof fn law_current_result_kept<K, G>(
    s: Seq<(u64, Slot<K, G>)>,
    id: u64,
    key: K,
    result: Option<G>,
    failures_stick: bool,
)
    requires
        slots_distinct(s),
        slot_index(s, id) matches Some(k) && s[k].1 == (Slot::<K, G>::Loading { key }),
    ensures
        ({
            let t = finished(s, id, key, result, failures_stick);
            match result {
                Some(gpu) => slot_index(t, id) matches Some(j) && t[j] == (id, Slot::Ready { gpu, key }),
                None => if failures_stick {
                    slot_index(t, id) matches Some(j) && t[j] == (id, Slot::<K, G>::Failed)
                } else {
                    slot_index(t, id) is None
                },
            }
        }),
{
    match result {
        Some(gpu) => {
            lemma_put_lookup(s, id, Slot::Ready { gpu, key }, id);
        },
        None => {
            if failures_stick {
                lemma_put_lookup(s, id, Slot::<K, G>::Failed, id);
            } else {
                let k = slot_index(s, id)->0;
                lemma_slot_index_from(s, id, 0);
                let t = s.remove(k);
                assert forall|j: int| 0 <= j < t.len() implies t[j].0 != id by {
                    if j < k {
                        assert(t[j] == s[j]);
                    } else {
                        assert(t[j] == s[j + 1]);
                    }
                }
                lemma_slot_index_from(t, id, 0);
            }
        },
    }
}

/// Planning twice in a row over the same wanted objects (ids listed once):
/// the second pass changes no slot and starts no load.
pub proof fn law_second_plan_is_empty<K, G>(
    s: Seq<(u64, Slot<K, G>)>,
    wanted: Seq<(u64, K)>,
    failures_stick: bool,
)
    requires
        forall|i: int, j: int| 0 <= i < j < wanted.len() ==> wanted[i].0 != wanted[j].0,
    ensures
        plan(plan(s, wanted, failures_stick).0, wanted, failures_stick) == (
            plan(s, wanted, failures_stick).0,
            Seq::<(u64, K)>::empty(),
        ),
{
    law_plan_settles_wanted(s, wanted, failures_stick);
    lemma_plan_settled(plan(s, wanted, failures_stick).0, wanted, failures_stick);
}

/// Every slot belongs to an id in `live`.
pub open spec fn ids_within<K, G>(s: Seq<(u64, Slot<K, G>)>, live: Seq<u64>) -> bool {
    forall|i: int| 0 <= i < s.len() ==> live.contains((#[trigger] s[i]).0)
}

proof fn lemma_kept_within<K, G>(s: Seq<(u64, Slot<K, G>)>, live: Seq<u64>)
    ensures
        ids_within(kept(s, live), live),
        ids_within(s, live) ==> kept(s, live) == s,
    decreases s.len(),
{
    reveal_with_fuel(Seq::<_>::filter, 1);
    let pred = |e: (u64, Slot<K, G>)| live.contains(e.0);
    if s.len() > 0 {
        let d = s.drop_last();
        lemma_kept_within(d, live);
        let f = d.filter(pred);
        assert(kept(d, live) == f);
        if ids_within(s, live) {
            assert(ids_within(d, live)) by {
                assert forall|i: int| 0 <= i < d.len() implies live.contains((#[trigger] d[i]).0) by {
                    assert(d[i] == s[i]);
                }
            }
            assert(live.contains(s[s.len() - 1].0));
            assert(f.push(s.last()) =~= s);
        }
        if pred(s.last()) {
            let t = f.push(s.last());
            assert forall|i: int| 0 <= i < t.len() implies live.contains((#[trigger] t[i]).0) by {
                if i < f.len() {
                    assert(t[i] == f[i]);
                }
            }
        }
    } else {
        assert(s.filter(pred) =~= s);
    }
}

proof fn lemma_plan_within<K, G>(
    s: Seq<(u64, Slot<K, G>)>,
    wanted: Seq<(u64, K)>,
    failures_stick: bool,
    live: Seq<u64>,
)
    requires
        ids_within(s, live),
        forall|i: int| 0 <= i < wanted.len() ==> live.contains((#[trigger] wanted[i]).0),
    ensures
        ids_within(plan(s, wanted, failures_stick).0, live),
    decreases wanted.len(),
{
    if wanted.len() > 0 {
        let w = wanted.drop_last();
        assert forall|i: int| 0 <= i < w.len() implies live.contains((#[trigger] w[i]).0) by {
            assert(w[i] == wanted[i]);
        }
        lemma_plan_within(s, w, failures_stick, live);
        let s1 = plan(s, w, failures_stick).0;
        let (id, key) = wanted.last();
        assert(live.contains(wanted[wanted.len() - 1].0));
        lemma_slot_index_from(s1, id, 0);
        let t = put(s1, id, Slot::Loading { key });
        assert forall|i: int| 0 <= i < t.len() implies live.contains((#[trigger] t[i]).0) by {
            if i < s1.len() && !(slot_index(s1, id) == Some(i)) {
                assert(t[i] == s1[i]);
            }
        }
    }
}

/// One pass drops the slots of ids no longer live and plans the wanted
/// objects (ids listed once, all live); a second pass right after keeps
/// every slot, changes none and starts no load.
pub proof fn law_second_pass_is_empty<K, G>(
    s: Seq<(u64, Slot<K, G>)>,
    live: Seq<u64>,
    wanted: Seq<(u64, K)>,
    failures_stick: bool,
)
    requires
        forall|i: int, j: int| 0 <= i < j < wanted.len() ==> wanted[i].0 != wanted[j].0,
        forall|i: int| 0 <= i < wanted.len() ==> live.contains((#[trigger] wanted[i]).0),
    ensures
        ({
            let s1 = plan(kept(s, live), wanted, failures_stick).0;
            &&& kept(s1, live) == s1
            &&& plan(kept(s1, live), wanted, failures_stick) == (s1, Seq::<(u64, K)>::empty())
        }),
{
    let s0 = kept(s, live);
    lemma_kept_within(s, live);
    lemma_plan_within(s0, wanted, failures_stick, live);
    let s1 = plan(s0, wanted, failures_stick).0;
    lemma_kept_within(s1, live);
    law_second_plan_is_empty(s0, wanted, failures_stick);
}

/// A load result counts only for the key its slot is still loading: a
/// finished load for any other key leaves the slots as they were.
pub proof fn law_stale_result_ignored<K, G>(
    s: Seq<(u64, Slot<K, G>)>,
    id: u64,
    key: K,
    result: Option<G>,
    failures_stick: bool,
)
    requires
        !(slot_index(s, id) matches Some(k) && s[k].1 matches Slot::Loading { key: k2 } && k2 == key),
    ensures
        finished(s, id, key, result, failures_stick) == s,
{
}

/// Where the own body's present stands.
#[derive(Debug, Clone, Copy, PartialEq, Eq, Structural)]
pub enum SelfPresentStatus {
    Idle,
    Loading,
    Ready,
    Failed,
}

/// Whether the own body must be loaded again: it is ready but does not
/// carry the current loadout (`covers_loadout`), or its load failed.
pub fn self_present_needs_reload(status: SelfPresentStatus, covers_loadout: bool) -> (r: bool)
    ensures
        r == match status {
            SelfPresentStatus::Ready => !covers_loadout,
            SelfPresentStatus::Failed => true,
            _ => false,
        },
{
    match status {
        SelfPresentStatus::Ready => !covers_loadout,
        SelfPresentStatus::Failed => true,
        SelfPresentStatus::Idle | SelfPresentStatus::Loading => false,
    }
}

} // verus!
