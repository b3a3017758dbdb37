//! The client's message queues: decoded server messages waiting for the
//! frame loop, and client messages waiting to be encoded and sent. The wire
//! codec belongs to the caller; `M` is the message type.

use vstd::prelude::*;

use std::collections::VecDeque;

verus! {

/// A decoded server message is dropped when it is a welcome for another
/// content revision than `content_rev`.
pub open spec fn discards(welcome_content_rev: Option<u32>, content_rev: u32) -> bool {
    welcome_content_rev matches Some(r) && r != content_rev
}

/// Whether a decoded message is dropped: a welcome (its content revision
/// given) for another content revision.
pub fn should_discard_content(welcome_content_rev: Option<u32>, content_rev: u32) -> (r: bool)
    ensures
        r == discards(welcome_content_rev, content_rev),
{
    match welcome_content_rev {
        Some(r) => r != content_rev,
        None => false,
    }
}

/// Inbound server-to-client queue, with counts of decoded and discarded
/// frames (both wrap around).
pub struct InboundQueue<M> {
    pending: VecDeque<M>,
    pub decoded: u32,
    pub discarded: u32,
}

/// What an inbound queue holds: the queued messages, oldest first, and the
/// two counts.
pub struct InboundView<M> {
    pub pending: Seq<M>,
    pub decoded: u32,
    pub discarded: u32,
}

impl<M> View for InboundQueue<M> {
    type V = InboundView<M>;

    closed spec fn view(&self) -> InboundView<M> {
        InboundView { pending: self.pending@, decoded: self.decoded, discarded: self.discarded }
    }
}

/// `n + 1`, wrapping at `u32::MAX`.
pub open spec fn bump(n: u32) -> u32 {
    if n == u32::MAX {
        0
    } else {
        (n + 1) as u32
    }
}

impl<M> InboundQueue<M> {
    pub fn new() -> (r: Self)
        ensures
            r@.pending == Seq::<M>::empty(),
            r@.decoded == 0,
            r@.discarded == 0,
    {
        Self { pending: VecDeque::new(), decoded: 0, discarded: 0 }
    }

    /// Takes one decoded frame: `None` when the bytes did not decode, else
    /// the message and, for a welcome, its content revision. Malformed
    /// frames and welcomes for another content revision are counted as
    /// discarded; the rest are queued and counted as decoded.
    pub fn push_decoded(&mut self, frame: Option<(M, Option<u32>)>, content_rev: u32)
        ensures
            final(self)@ == match frame {
                None => InboundView { discarded: bump(old(self)@.discarded), ..old(self)@ },
                Some((msg, rev)) => if discards(rev, content_rev) {
                    InboundView { discarded: bump(old(self)@.discarded), ..old(self)@ }
                } else {
                    InboundView {
                        pending: old(self)@.pending.push(msg),
                        decoded: bump(old(self)@.decoded),
                        ..old(self)@
                    }
                },
            },
    {
        match frame {
            None => {
                self.discarded = self.discarded.wrapping_add(1);
            },
            Some((msg, rev)) => {
                if should_discard_content(rev, content_rev) {
                    self.discarded = self.discarded.wrapping_add(1);
                } else {
                    self.decoded = self.decoded.wrapping_add(1);
                    self.pending.push_back(msg);
                }
            },
        }
    }

    /// Decodes one binary frame with `decode` (the message and, for a
    /// welcome, its content revision; `None` for malformed bytes) and takes
    /// it as `push_decoded` does.
    pub fn push_bytes<F: Fn(&[u8]) -> Option<(M, Option<u32>)>>(
        &mut self,
        bytes: &[u8],
        decode: F,
        content_rev: u32,
    )
        requires
            decode.requires((bytes,)),
        ensures
            exists|frame: Option<(M, Option<u32>)>|
                #![trigger decode.ensures((bytes,), frame)]
                decode.ensures((bytes,), frame) && final(self)@ == match frame {
                    None => InboundView { discarded: bump(old(self)@.discarded), ..old(self)@ },
                    Some((msg, rev)) => if discards(rev, content_rev) {
                        InboundView { discarded: bump(old(self)@.discarded), ..old(self)@ }
                    } else {
                        InboundView {
                            pending: old(self)@.pending.push(msg),
                            decoded: bump(old(self)@.decoded),
                            ..old(self)@
                        }
                    },
                },
    {
        let frame = decode(bytes);
        self.push_decoded(frame, content_rev);
    }

    /// The oldest queued message.
    pub fn pop(&mut self) -> (r: Option<M>)
        ensures
            old(self)@.pending.len() == 0 ==> r is None && final(self)@ == old(self)@,
            old(self)@.pending.len() > 0 ==> r == Some(old(self)@.pending[0]) && final(self)@ == (
            InboundView { pending: old(self)@.pending.drop_first(), ..old(self)@ }),
    {
        let r = self.pending.pop_front();
        proof {
            if old(self)@.pending.len() > 0 {
                assert(self@.pending =~= old(self)@.pending.drop_first());
            }
        }
        r
    }
}

/// Outbound client-to-server queue.
pub struct OutboundQueue<M> {
    pending: VecDeque<M>,
}

impl<M> View for OutboundQueue<M> {
    type V = Seq<M>;

    closed spec fn view(&self) -> Seq<M> {
        self.pending@
    }
}

impl<M> OutboundQueue<M> {
    pub fn new() -> (r: Self)
        ensures
            r@ == Seq::<M>::empty(),
    {
        Self { pending: VecDeque::new() }
    }

    pub fn push(&mut self, msg: M)
        ensures
            final(self)@ == old(self)@.push(msg),
    {
        self.pending.push_back(msg);
    }

    pub fn len(&self) -> (r: usize)
        ensures
            r == self@.len(),
    {
        self.pending.len()
    }

    pub fn is_empty(&self) -> (r: bool)
        ensures
            r == (self@.len() == 0),
    {
        self.pending.len() == 0
    }

    /// Drops the oldest queued message; whether there was one.
    pub fn pop_discard(&mut self) -> (r: bool)
        ensures
            r == (old(self)@.len() > 0),
            final(self)@ == if r {
                old(self)@.drop_first()
            } else {
                old(self)@
            },
    {
        let r = self.pending.pop_front().is_some();
        proof {
            if r {
                assert(self@ =~= old(self)@.drop_first());
            }
        }
        r
    }

    /// Encodes the queued messages oldest first with `encode`, taking each
    /// off the queue. On the first encoding error the error is returned:
    /// the failed message is gone and the later ones stay queued.
    pub fn drain_encoded<E, F: Fn(&M) -> Result<Vec<u8>, E>>(&mut self, encode: F) -> (r: Result<
        Vec<Vec<u8>>,
        E,
    >)
        requires
            forall|m: &M| #[trigger] encode.requires((m,)),
        ensures
            r matches Ok(out) ==> {
                &&& final(self)@ == Seq::<M>::empty()
                &&& out@.len() == old(self)@.len()
                &&& forall|i: int|
                    0 <= i < out@.len() ==> encode.ensures(
                        (&old(self)@[i],),
                        Ok::<Vec<u8>, E>(#[trigger] out@[i]),
                    )
            },
            r matches Err(e) ==> {
                let k = old(self)@.len() - final(self)@.len() - 1;
                &&& 0 <= k < old(self)@.len()
                &&& final(self)@ == old(self)@.skip(k + 1)
                &&& encode.ensures((&old(self)@[k],), Err::<Vec<u8>, E>(e))
            },
    {
        let ghost q0 = self@;
        let mut out: Vec<Vec<u8>> = Vec::new();
        let mut failed: Option<E> = None;
        while failed.is_none() && self.pending.len() > 0
            invariant
                forall|m: &M| #[trigger] encode.requires((m,)),
                failed is None ==> out@.len() + self@.len() == q0.len() && self@ == q0.skip(
                    out@.len() as int,
                ),
                failed matches Some(e) ==> {
                    let k = q0.len() - self@.len() - 1;
                    &&& 0 <= k < q0.len()
                    &&& self@ == q0.skip(k + 1)
                    &&& encode.ensures((&q0[k],), Err::<Vec<u8>, E>(e))
                },
                forall|i: int|
                    0 <= i < out@.len() ==> encode.ensures(
                        (&q0[i],),
                        Ok::<Vec<u8>, E>(#[trigger] out@[i]),
                    ),
            decreases self@.len(),
        {
            let ghost k = out@.len() as int;
            let popped = self.pending.pop_front();
            let msg = popped.unwrap();
            assert(msg == q0[k]);
            assert(self@ =~= q0.skip(k + 1));
            match encode(&msg) {
                Ok(bytes) => {
                    out.push(bytes);
                },
                Err(e) => {
                    failed = Some(e);
                },
            }
        }
        match failed {
            Some(e) => Err(e),
            None => Ok(out),
        }
    }
}

} // verus!
