//! Send stamps of input sequence numbers for round-trip sampling: the
//! stamp of an acknowledged input is looked up, and every stamp the ack
//! covers is dropped. The stamps themselves (send times) are the caller's.

use vstd::prelude::*;

use std::collections::VecDeque;

verus! {

/// At most this many stamps are kept; the oldest go first.
pub const INPUT_SEND_TIME_CAP: usize = 256;

/// The stamps of inputs not yet covered by an ack, oldest first.
pub struct SendStamps<T> {
    stamps: VecDeque<(u64, T)>,
}

impl<T> View for SendStamps<T> {
    type V = Seq<(u64, T)>;

    closed spec fn view(&self) -> Seq<(u64, T)> {
        self.stamps@
    }
}

/// The newest `INPUT_SEND_TIME_CAP` entries of `s`.
pub open spec fn capped<T>(s: Seq<(u64, T)>) -> Seq<(u64, T)> {
    if s.len() > INPUT_SEND_TIME_CAP {
        s.skip(s.len() - INPUT_SEND_TIME_CAP)
    } else {
        s
    }
}

/// Index of the first entry for `seq` at or after `i`.
pub open spec fn first_stamp_from<T>(s: Seq<(u64, T)>, seq: u64, i: int) -> Option<int>
    decreases s.len() - i,
{
    if i < 0 || i >= s.len() {
        None
    } else if s[i].0 == seq {
        Some(i)
    } else {
        first_stamp_from(s, seq, i + 1)
    }
}

/// The entries an ack of `ack` leaves: those with a later sequence number.
pub open spec fn after_ack<T>(s: Seq<(u64, T)>, ack: u64) -> Seq<(u64, T)> {
    s.filter(|e: (u64, T)| e.0 > ack)
}

impl<T: Copy> SendStamps<T> {
    pub fn new() -> (r: Self)
        ensures
            r@ == Seq::<(u64, T)>::empty(),
    {
        Self { stamps: VecDeque::new() }
    }

    /// How many stamps are kept.
    pub fn len(&self) -> (r: usize)
        ensures
            r == self@.len(),
    {
        self.stamps.len()
    }

    /// The sequence numbers of the kept stamps, oldest first.
    pub fn seqs(&self) -> (r: Vec<u64>)
        ensures
            r@ == self@.map_values(|e: (u64, T)| e.0),
    {
        let mut r: Vec<u64> = Vec::new();
        let n = self.stamps.len();
        let mut i: usize = 0;
        while i < n
            invariant
                n == self@.len(),
                i <= n,
                r@ == self@.take(i as int).map_values(|e: (u64, T)| e.0),
            decreases n - i,
        {
            r.push(self.stamps[i].0);
            assert(self@.take(i + 1).map_values(|e: (u64, T)| e.0) =~= self@.take(i as int).map_values(
                |e: (u64, T)| e.0,
            ).push(self@[i as int].0));
            i = i + 1;
        }
        assert(self@.take(n as int) =~= self@);
        r
    }

    /// Forgets every stamp.
    pub fn clear(&mut self)
        ensures
            final(self)@ == Seq::<(u64, T)>::empty(),
    {
        self.stamps.clear();
    }

    /// Records the stamp of input `seq` as it is queued for sending,
    /// dropping the oldest stamps beyond the cap.
    pub fn note_sent(&mut self, seq: u64, stamp: T)
        ensures
            final(self)@ == capped(old(self)@.push((seq, stamp))),
    {
        self.stamps.push_back((seq, stamp));
        let ghost s = self@;
        while self.stamps.len() > INPUT_SEND_TIME_CAP
            invariant
                s.len() >= self@.len(),
                self@ == s.skip(s.len() - self@.len()),
                self@.len() >= INPUT_SEND_TIME_CAP || self@ == s,
            decreases self@.len(),
        {
            let _ = self.stamps.pop_front();
            assert(self@ =~= s.skip(s.len() - self@.len()));
        }
        assert(self@ =~= capped(s));
    }

    /// On an ack of input `ack`: the stamp of the first entry for `ack`, if
    /// one is kept, and every entry up to and including `ack` is dropped.
    pub fn ack(&mut self, ack: u64) -> (r: Option<T>)
        ensures
            r == match first_stamp_from(old(self)@, ack, 0) {
                Some(k) => Some(old(self)@[k].1),
                None => None::<T>,
            },
            final(self)@ == after_ack(old(self)@, ack),
    {
        let ghost s0 = self@;
        let n = self.stamps.len();
        let mut found: Option<T> = None;
        let mut i: usize = 0;
        while i < n
            invariant
                n == s0.len(),
                self@ == s0,
                i <= n,
                found is None ==> first_stamp_from(s0, ack, 0) == first_stamp_from(s0, ack, i as int),
                found is Some ==> found == match first_stamp_from(s0, ack, 0) {
                    Some(k) => Some(s0[k].1),
                    None => None::<T>,
                },
            decreases n - i,
        {
            if found.is_none() && self.stamps[i].0 == ack {
                found = Some(self.stamps[i].1);
            }
            i = i + 1;
        }
        let mut kept: VecDeque<(u64, T)> = VecDeque::new();
        let mut j: usize = 0;
        proof {
            reveal_with_fuel(Seq::<_>::filter, 1);
        }
        assert(s0.take(0).filter(|e: (u64, T)| e.0 > ack) =~= Seq::<(u64, T)>::empty());
        while j < n
            invariant
                n == s0.len(),
                self@ == s0,
                j <= n,
                kept@ == s0.take(j as int).filter(|e: (u64, T)| e.0 > ack),
            decreases n - j,
        {
            let e = self.stamps[j];
            proof {
                reveal_with_fuel(Seq::<_>::filter, 1);
                assert(s0.take(j + 1).drop_last() =~= s0.take(j as int));
            }
            if e.0 > ack {
                kept.push_back(e);
            }
            j = j + 1;
        }
        assert(s0.take(n as int) =~= s0);
        self.stamps = kept;
        found
    }
}

/// After an ack, no kept stamp is for the acked input or an earlier one,
/// and a second ack of the same input finds nothing.
pub proof fn law_ack_covers_earlier<T>(s: Seq<(u64, T)>, ack: u64)
    ensures
        forall|i: int| 0 <= i < after_ack(s, ack).len() ==> #[trigger] after_ack(s, ack)[i].0 > ack,
        first_stamp_from(after_ack(s, ack), ack, 0) is None,
{
    let t = after_ack(s, ack);
    assert forall|i: int| 0 <= i < t.len() implies #[trigger] t[i].0 > ack by {
        s.lemma_filter_contains_rev(|e: (u64, T)| e.0 > ack, t[i]);
    }
    lemma_no_stamp_from(t, ack, 0);
}

proof fn lemma_no_stamp_from<T>(t: Seq<(u64, T)>, ack: u64, i: int)
    requires
        0 <= i,
        forall|j: int| 0 <= j < t.len() ==> #[trigger] t[j].0 > ack,
    ensures
        first_stamp_from(t, ack, i) is None,
    decreases t.len() - i,
{
    if i < t.len() {
        assert(t[i].0 > ack);
        lemma_no_stamp_from(t, ack, i + 1);
    }
}

} // verus!
