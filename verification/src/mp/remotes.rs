//! Remote players: membership and their latest drive samples.
//!
//! The table keeps one entry per remote player id, in the order the ids
//! joined; an entry holds the latest sample once one arrived. The sample's
//! drive payload is a type parameter (the wire pose type lives elsewhere).

use vstd::prelude::*;

verus! {

/// Player ids on the wire.
pub type PlayerId = u64;

/// What a remote's kit is built from.
#[derive(Debug, Clone, Copy, PartialEq, Eq, Hash, Structural)]
pub struct RemoteKitKey {
    pub character: u8,
    pub primary: Option<u8>,
    pub secondary: Option<u8>,
}

impl RemoteKitKey {
    /// The kit a drive sample shows: its character and the two slot letters.
    pub fn from_drive(character: u8, primary: Option<u8>, secondary: Option<u8>) -> (r: Self)
        ensures
            r == (RemoteKitKey { character, primary, secondary }),
    {
        RemoteKitKey { character, primary, secondary }
    }
}

/// A drive sample with the server tick it belongs to.
#[derive(Debug)]
pub struct RemoteSample<D> {
    /// Server tick of this drive sample (present / adaptive delay).
    pub tick: u64,
    pub drive: D,
}

pub struct RemoteTable<D> {
    entries: Vec<(PlayerId, Option<RemoteSample<D>>)>,
}

/// The ids of a table model, in order.
pub open spec fn ids_of<D>(m: Seq<(PlayerId, Option<RemoteSample<D>>)>) -> Seq<PlayerId> {
    m.map_values(|e: (PlayerId, Option<RemoteSample<D>>)| e.0)
}

/// No id occurs twice.
pub open spec fn distinct_ids<D>(m: Seq<(PlayerId, Option<RemoteSample<D>>)>) -> bool {
    forall|i: int, j: int| 0 <= i < j < m.len() ==> m[i].0 != m[j].0
}

/// Index of the first entry for `id` at or after `i`.
pub open spec fn find_id_from<D>(m: Seq<(PlayerId, Option<RemoteSample<D>>)>, id: PlayerId, i: int) -> Option<int>
    decreases m.len() - i,
{
    if i < 0 || i >= m.len() {
        None
    } else if m[i].0 == id {
        Some(i)
    } else {
        find_id_from(m, id, i + 1)
    }
}

/// Index of the entry for `id`, if any.
pub open spec fn find_id<D>(m: Seq<(PlayerId, Option<RemoteSample<D>>)>, id: PlayerId) -> Option<int> {
    find_id_from(m, id, 0)
}

/// Whether `id` has an entry.
pub open spec fn has_id<D>(m: Seq<(PlayerId, Option<RemoteSample<D>>)>, id: PlayerId) -> bool {
    find_id(m, id) is Some
}

/// The table after `note_joined(id)`: a new, sample-less entry at the end
/// unless the id is already there.
pub open spec fn joined<D>(m: Seq<(PlayerId, Option<RemoteSample<D>>)>, id: PlayerId) -> Seq<
    (PlayerId, Option<RemoteSample<D>>),
> {
    if has_id(m, id) {
        m
    } else {
        m.push((id, None))
    }
}

/// The table after `upsert_drive`: the entry for the id holds the sample,
/// added at the end if the id was new.
pub open spec fn upserted<D>(
    m: Seq<(PlayerId, Option<RemoteSample<D>>)>,
    id: PlayerId,
    s: RemoteSample<D>,
) -> Seq<(PlayerId, Option<RemoteSample<D>>)> {
    match find_id(m, id) {
        Some(k) => m.update(k, (id, Some(s))),
        None => m.push((id, Some(s))),
    }
}

/// The elements of `s` whose flag is set, in order.
pub open spec fn select<T>(s: Seq<T>, flags: Seq<bool>) -> Seq<T>
    decreases s.len(),
{
    if s.len() == 0 || flags.len() < s.len() {
        seq![]
    } else if flags[s.len() - 1] {
        select(s.drop_last(), flags).push(s.last())
    } else {
        select(s.drop_last(), flags)
    }
}

pub proof fn lemma_find_id_from<D>(m: Seq<(PlayerId, Option<RemoteSample<D>>)>, id: PlayerId, i: int)
    requires
        0 <= i,
    ensures
        find_id_from(m, id, i) matches Some(k) ==> i <= k < m.len() && m[k].0 == id,
        find_id_from(m, id, i) is None ==> forall|k: int| i <= k < m.len() ==> m[k].0 != id,
    decreases m.len() - i,
{
    if i < m.len() && m[i].0 != id {
        lemma_find_id_from(m, id, i + 1);
    }
}

/// Selecting by flags computed from a predicate is filtering by it.
pub proof fn lemma_select_filter<T>(s: Seq<T>, flags: Seq<bool>, pred: spec_fn(T) -> bool)
    requires
        flags.len() == s.len(),
        forall|i: int| 0 <= i < s.len() ==> flags[i] == pred(s[i]),
    ensures
        select(s, flags) == s.filter(pred),
    decreases s.len(),
{
    reveal_with_fuel(Seq::<_>::filter, 1);
    if s.len() > 0 {
        lemma_select_prefix(s.drop_last(), flags, flags.drop_last());
        lemma_select_filter(s.drop_last(), flags.drop_last(), pred);
    }
}

proof fn lemma_select_extend<T>(s: Seq<T>, flags: Seq<bool>, x: T, b: bool)
    requires
        flags.len() == s.len(),
    ensures
        select(s.push(x), flags.push(b)) == if b {
            select(s, flags).push(x)
        } else {
            select(s, flags)
        },
{
    lemma_select_prefix(s, flags, flags.push(b));
    assert(s.push(x).drop_last() == s);
}

proof fn lemma_select_prefix<T>(s: Seq<T>, f: Seq<bool>, g: Seq<bool>)
    requires
        s.len() <= f.len(),
        s.len() <= g.len(),
        forall|k: int| 0 <= k < s.len() ==> f[k] == g[k],
    ensures
        select(s, f) == select(s, g),
    decreases s.len(),
{
    if s.len() > 0 {
        lemma_select_prefix(s.drop_last(), f, g);
    }
}

/// A selection keeps distinct ids distinct.
pub proof fn lemma_select_distinct<D>(m: Seq<(PlayerId, Option<RemoteSample<D>>)>, flags: Seq<bool>)
    requires
        distinct_ids(m),
    ensures
        distinct_ids(select(m, flags)),
        forall|k: int| 0 <= k < select(m, flags).len() ==> m.contains(#[trigger] select(m, flags)[k]),
    decreases m.len(),
{
    if m.len() > 0 && flags.len() >= m.len() {
        let d = m.drop_last();
        lemma_select_distinct(d, flags);
        let p = select(d, flags);
        assert forall|k: int| 0 <= k < p.len() implies m.contains(#[trigger] p[k]) by {
            assert(d.contains(p[k]));
            let j = choose|j: int| 0 <= j < d.len() && d[j] == p[k];
            assert(m[j] == p[k]);
        }
        if flags[m.len() - 1] {
            assert forall|k: int| 0 <= k < p.len() implies p[k].0 != m.last().0 by {
                assert(d.contains(p[k]));
                let j = choose|j: int| 0 <= j < d.len() && d[j] == p[k];
                assert(m[j] == p[k]);
            }
            let q = p.push(m.last());
            assert(select(m, flags) == q);
            assert forall|k: int| 0 <= k < q.len() implies m.contains(#[trigger] q[k]) by {
                if k < p.len() {
                    assert(q[k] == p[k]);
                } else {
                    assert(q[k] == m[m.len() - 1]);
                }
            }
        } else {
            assert(select(m, flags) == p);
        }
    }
}

impl<D> View for RemoteTable<D> {
    type V = Seq<(PlayerId, Option<RemoteSample<D>>)>;

    closed spec fn view(&self) -> Seq<(PlayerId, Option<RemoteSample<D>>)> {
        self.entries@
    }
}

impl<D> RemoteTable<D> {
    /// No id has two entries.
    #[verifier::type_invariant]
    pub open spec fn ids_distinct(self) -> bool {
        distinct_ids(self@)
    }

    pub fn new() -> (r: Self)
        ensures
            r@ == Seq::<(PlayerId, Option<RemoteSample<D>>)>::empty(),
            distinct_ids(r@),
    {
        Self { entries: Vec::new() }
    }

    pub fn clear(&mut self)
        ensures
            final(self)@ == Seq::<(PlayerId, Option<RemoteSample<D>>)>::empty(),
            distinct_ids(final(self)@),
    {
        self.entries = Vec::new();
    }

    fn position(&self, id: PlayerId) -> (r: Option<usize>)
        ensures
            r matches Some(k) ==> find_id(self@, id) == Some(k as int),
            r is None ==> find_id(self@, id) is None,
    {
        let n = self.entries.len();
        let mut k: usize = 0;
        while k < n
            invariant
                n == self.entries@.len(),
                k <= n,
                find_id(self@, id) == find_id_from(self@, id, k as int),
            decreases n - k,
        {
            if self.entries[k].0 == id {
                return Some(k);
            }
            k = k + 1;
        }
        None
    }

    /// Adds a sample-less entry for `id` unless it already has one.
    pub fn note_joined(&mut self, id: PlayerId)
        ensures
            final(self)@ == joined(old(self)@, id),
            distinct_ids(final(self)@),
    {
        proof {
            use_type_invariant(&*self);
            lemma_find_id_from(self@, id, 0);
        }
        if self.position(id).is_none() {
            let mut entries: Vec<(PlayerId, Option<RemoteSample<D>>)> = Vec::new();
            std::mem::swap(&mut entries, &mut self.entries);
            entries.push((id, None));
            self.entries = entries;
        }
    }

    /// Keeps the entries whose id `keep` accepts, in order.
    pub fn retain<F: Fn(PlayerId) -> bool>(&mut self, keep: F)
        requires
            forall|id: PlayerId| keep.requires((id,)),
        ensures
            distinct_ids(final(self)@),
            exists|kept: Seq<bool>|
                #![trigger select(old(self)@, kept)]
                kept.len() == old(self)@.len() && (forall|i: int|
                    0 <= i < kept.len() ==> keep.ensures((old(self)@[i].0,), #[trigger] kept[i]))
                    && final(self)@ == select(old(self)@, kept),
    {
        proof {
            use_type_invariant(&*self);
        }
        let mut rest: Vec<(PlayerId, Option<RemoteSample<D>>)> = Vec::new();
        std::mem::swap(&mut rest, &mut self.entries);
        let ghost o = rest@;
        let mut out: Vec<(PlayerId, Option<RemoteSample<D>>)> = Vec::new();
        let ghost mut kept: Seq<bool> = seq![];
        let n = rest.len();
        let mut i: usize = 0;
        while i < n
            invariant
                n == o.len(),
                i <= n,
                rest@ == o.skip(i as int),
                forall|id: PlayerId| keep.requires((id,)),
                kept.len() == i,
                forall|k: int| 0 <= k < i ==> keep.ensures((o[k].0,), #[trigger] kept[k]),
                out@ == select(o.take(i as int), kept),
            decreases n - i,
        {
            let e = rest.remove(0);
            assert(e == o[i as int]);
            let b = keep(e.0);
            proof {
                lemma_select_extend(o.take(i as int), kept, e, b);
                assert(o.take(i as int).push(e) == o.take(i + 1));
                kept = kept.push(b);
                assert(o.skip(i as int).remove(0) == o.skip(i + 1));
            }
            if b {
                out.push(e);
            }
            i = i + 1;
        }
        assert(o.take(n as int) == o);
        proof {
            lemma_select_distinct(o, kept);
        }
        self.entries = out;
    }

    /// Stores the latest sample for `id`, adding an entry if needed.
    pub fn upsert_drive(&mut self, id: PlayerId, tick: u64, drive: D)
        ensures
            final(self)@ == upserted(old(self)@, id, RemoteSample { tick, drive }),
            distinct_ids(final(self)@),
    {
        proof {
            use_type_invariant(&*self);
            lemma_find_id_from(self@, id, 0);
        }
        let pos = self.position(id);
        let mut entries: Vec<(PlayerId, Option<RemoteSample<D>>)> = Vec::new();
        std::mem::swap(&mut entries, &mut self.entries);
        match pos {
            Some(k) => {
                entries.set(k, (id, Some(RemoteSample { tick, drive })));
            },
            None => {
                entries.push((id, Some(RemoteSample { tick, drive })));
            },
        }
        self.entries = entries;
    }

    /// Number of remote players.
    pub fn count(&self) -> (r: usize)
        ensures
            r == self@.len(),
    {
        self.entries.len()
    }

    /// The remote ids, in join order.
    pub fn ids(&self) -> (r: Vec<PlayerId>)
        ensures
            r@ == ids_of(self@),
    {
        let mut r: Vec<PlayerId> = Vec::new();
        let n = self.entries.len();
        let mut k: usize = 0;
        while k < n
            invariant
                n == self.entries@.len(),
                k <= n,
                r@ == ids_of(self@.take(k as int)),
            decreases n - k,
        {
            r.push(self.entries[k].0);
            assert(ids_of(self@.take(k + 1)) =~= ids_of(self@.take(k as int)).push(
                self@[k as int].0,
            ));
            k = k + 1;
        }
        assert(self@.take(n as int) =~= self@);
        r
    }
}

} // verus!

verus! {

/// The entries that hold a sample, as (id, sample), in table order.
pub open spec fn samples_of<'a, D>(m: Seq<(PlayerId, Option<RemoteSample<D>>)>) -> Seq<(PlayerId, &'a RemoteSample<D>)>
    decreases m.len(),
{
    if m.len() == 0 {
        seq![]
    } else {
        let rest = samples_of(m.drop_last());
        match m.last().1 {
            Some(s) => rest.push((m.last().0, &s)),
            None => rest,
        }
    }
}

impl<D> RemoteTable<D> {
    /// The remotes that have a sample, with it, in table order.
    pub fn samples<'a>(&'a self) -> (r: Vec<(PlayerId, &'a RemoteSample<D>)>)
        ensures
            r@ == samples_of::<'a, D>(self@),
    {
        let mut r: Vec<(PlayerId, &'a RemoteSample<D>)> = Vec::new();
        let n = self.entries.len();
        let mut k: usize = 0;
        while k < n
            invariant
                n == self.entries@.len(),
                k <= n,
                r@ == samples_of::<'a, D>(self@.take(k as int)),
            decreases n - k,
        {
            assert(self@.take(k + 1).drop_last() =~= self@.take(k as int));
            match &self.entries[k].1 {
                Some(s) => {
                    r.push((self.entries[k].0, s));
                },
                None => {},
            }
            k = k + 1;
        }
        assert(self@.take(n as int) =~= self@);
        r
    }
}

} // verus!
