//! Holding area for vertices whose dependencies are not yet known.
//!
//! Each queued vertex is keyed by the dependency it waits for; when that
//! dependency arrives the vertex is handed back in original order for
//! revalidation, and vertices that wait longer than the configured timeout
//! are evicted with an observable disconnect for the peer that sent them —
//! never dropped silently.

use vstd::prelude::*;
use crate::base::{NodeId, Timestamp};
use crate::panorama::UnitHash;
use crate::units::{Vertex, VertexView};

verus! {

/// Mathematical image of one queued vertex.
pub struct PendingView {
    pub sender: NodeId,
    pub vertex: VertexView,
    pub received_at: Timestamp,
    pub missing: Seq<u8>,
}

/// A vertex waiting for one missing dependency.
pub struct PendingVertex {
    pub sender: NodeId,
    pub vertex: Vertex,
    pub received_at: Timestamp,
    pub missing: UnitHash,
}

impl View for PendingVertex {
    type V = PendingView;

    open spec fn view(&self) -> PendingView {
        PendingView {
            sender: self.sender,
            vertex: self.vertex@,
            received_at: self.received_at,
            missing: self.missing@,
        }
    }
}

/// Whether a queued vertex waits for the dependency `h`.
pub open spec fn waits_for(p: PendingView, h: Seq<u8>) -> bool {
    p.missing == h
}

/// Whether a queued vertex has outlived the timeout at `now`.
pub open spec fn expired(p: PendingView, now: Timestamp, timeout: u64) -> bool {
    p.received_at <= now && now - p.received_at > timeout
}

/// The queued vertices waiting for `h`, from index `i` on, in order.
pub open spec fn resolved_from(s: Seq<PendingView>, h: Seq<u8>, i: int) -> Seq<PendingView>
    decreases s.len() - i,
{
    if i < 0 || i >= s.len() {
        Seq::empty()
    } else if waits_for(s[i], h) {
        seq![s[i]] + resolved_from(s, h, i + 1)
    } else {
        resolved_from(s, h, i + 1)
    }
}

/// The queued vertices not waiting for `h`, from index `i` on, in order.
pub open spec fn unresolved_from(s: Seq<PendingView>, h: Seq<u8>, i: int) -> Seq<PendingView>
    decreases s.len() - i,
{
    if i < 0 || i >= s.len() {
        Seq::empty()
    } else if waits_for(s[i], h) {
        unresolved_from(s, h, i + 1)
    } else {
        seq![s[i]] + unresolved_from(s, h, i + 1)
    }
}

/// The queued vertices expired at `now`, from index `i` on, in order.
pub open spec fn expired_from(s: Seq<PendingView>, now: Timestamp, timeout: u64, i: int) -> Seq<
    PendingView,
>
    decreases s.len() - i,
{
    if i < 0 || i >= s.len() {
        Seq::empty()
    } else if expired(s[i], now, timeout) {
        seq![s[i]] + expired_from(s, now, timeout, i + 1)
    } else {
        expired_from(s, now, timeout, i + 1)
    }
}

/// The queued vertices still alive at `now`, from index `i` on, in order.
pub open spec fn alive_from(s: Seq<PendingView>, now: Timestamp, timeout: u64, i: int) -> Seq<
    PendingView,
>
    decreases s.len() - i,
{
    if i < 0 || i >= s.len() {
        Seq::empty()
    } else if expired(s[i], now, timeout) {
        alive_from(s, now, timeout, i + 1)
    } else {
        seq![s[i]] + alive_from(s, now, timeout, i + 1)
    }
}

/// The queue of vertices with unresolved dependencies.
pub struct Synchronizer {
    pub pending: Vec<PendingVertex>,
    pub timeout: u64,
}

impl View for Synchronizer {
    type V = Seq<PendingView>;

    open spec fn view(&self) -> Seq<PendingView> {
        self.pending@.map_values(|p: PendingVertex| p@)
    }
}

impl Synchronizer {
    /// An empty queue with the given eviction timeout.
    pub fn new(timeout: u64) -> (r: Synchronizer)
        ensures
            r@.len() == 0,
            r.timeout == timeout,
    {
        let r = Synchronizer { pending: Vec::new(), timeout };
        assert(r@ =~= Seq::<PendingView>::empty());
        r
    }

    /// Number of queued vertices.
    pub fn len(&self) -> (r: usize)
        ensures
            r == self@.len(),
    {
        self.pending.len()
    }

    /// Queues a vertex until its missing dependency arrives.
    pub fn enqueue(&mut self, sender: NodeId, vertex: Vertex, missing: UnitHash, now: Timestamp)
        ensures
            final(self)@.len() == old(self)@.len() + 1,
            final(self)@.subrange(0, old(self)@.len() as int) == old(self)@,
            final(self)@.last() == (PendingView {
                sender,
                vertex: vertex@,
                received_at: now,
                missing: missing@,
            }),
            final(self).timeout == old(self).timeout,
    {
        let ghost v = vertex@;
        let ghost m = missing@;
        self.pending.push(PendingVertex { sender, vertex, received_at: now, missing });
        proof {
            assert(self@ =~= old(self)@.push(
                PendingView { sender, vertex: v, received_at: now, missing: m },
            ));
            assert(self@.subrange(0, old(self)@.len() as int) =~= old(self)@);
        }
    }

    /// Removes and returns, in original arrival order, every queued vertex
    /// that was waiting for the dependency `h`.
    pub fn take_resolved(&mut self, h: &UnitHash) -> (r: Vec<PendingVertex>)
        ensures
            r@.map_values(|p: PendingVertex| p@) == resolved_from(old(self)@, h@, 0),
            final(self)@ == unresolved_from(old(self)@, h@, 0),
            final(self).timeout == old(self).timeout,
    {
        let mut taken: Vec<PendingVertex> = Vec::new();
        let mut kept: Vec<PendingVertex> = Vec::new();
        let mut i: usize = 0;
        while i < self.pending.len()
            invariant
                i <= self@.len(),
                taken@.map_values(|p: PendingVertex| p@) + resolved_from(self@, h@, i as int)
                    =~= resolved_from(self@, h@, 0),
                kept@.map_values(|p: PendingVertex| p@) + unresolved_from(self@, h@, i as int)
                    =~= unresolved_from(self@, h@, 0),
            decreases self@.len() - i,
        {
            let ghost pre_t = taken@.map_values(|p: PendingVertex| p@);
            let ghost pre_k = kept@.map_values(|p: PendingVertex| p@);
            let p = &self.pending[i];
            let pd = PendingVertex {
                sender: p.sender,
                vertex: p.vertex.duplicate(),
                received_at: p.received_at,
                missing: p.missing.duplicate(),
            };
            if pd.missing.eq_hash(h) {
                assert(waits_for(self@[i as int], h@));
                taken.push(pd);
                assert(taken@.map_values(|p: PendingVertex| p@) =~= pre_t.push(self@[i as int]));
            } else {
                assert(!waits_for(self@[i as int], h@));
                kept.push(pd);
                assert(kept@.map_values(|p: PendingVertex| p@) =~= pre_k.push(self@[i as int]));
            }
            i = i + 1;
        }
        let ghost old_view = self@;
        self.pending = kept;
        proof {
            assert(resolved_from(old_view, h@, old_view.len() as int) =~= Seq::<
                PendingView,
            >::empty());
            assert(unresolved_from(old_view, h@, old_view.len() as int) =~= Seq::<
                PendingView,
            >::empty());
            assert(taken@.map_values(|p: PendingVertex| p@) =~= resolved_from(old_view, h@, 0));
            assert(self@ =~= unresolved_from(old_view, h@, 0));
        }
        taken
    }

    /// Evicts every queued vertex older than the timeout and returns the
    /// peers that sent them, in order: no eviction is silent.
    pub fn purge(&mut self, now: Timestamp) -> (r: Vec<NodeId>)
        ensures
            r@ == expired_from(old(self)@, now, old(self).timeout, 0).map_values(
                |p: PendingView| p.sender,
            ),
            final(self)@ == alive_from(old(self)@, now, old(self).timeout, 0),
            final(self).timeout == old(self).timeout,
    {
        let timeout = self.timeout;
        let mut evicted: Vec<NodeId> = Vec::new();
        let mut kept: Vec<PendingVertex> = Vec::new();
        let mut i: usize = 0;
        while i < self.pending.len()
            invariant
                i <= self@.len(),
                timeout == self.timeout,
                evicted@ + expired_from(self@, now, timeout, i as int).map_values(
                    |p: PendingView| p.sender,
                ) =~= expired_from(self@, now, timeout, 0).map_values(|p: PendingView| p.sender),
                kept@.map_values(|p: PendingVertex| p@) + alive_from(self@, now, timeout, i as int)
                    =~= alive_from(self@, now, timeout, 0),
            decreases self@.len() - i,
        {
            let ghost pre_e = evicted@;
            let ghost pre_k = kept@.map_values(|p: PendingVertex| p@);
            let p = &self.pending[i];
            let is_expired = p.received_at <= now && now - p.received_at > timeout;
            if is_expired {
                assert(expired(self@[i as int], now, timeout));
                evicted.push(p.sender);
                assert(evicted@ =~= pre_e.push(self@[i as int].sender));
                proof {
                    let rest = expired_from(self@, now, timeout, i as int + 1);
                    assert(expired_from(self@, now, timeout, i as int).map_values(
                        |q: PendingView| q.sender,
                    ) =~= seq![self@[i as int].sender] + rest.map_values(|q: PendingView| q.sender));
                }
            } else {
                assert(!expired(self@[i as int], now, timeout));
                let pd = PendingVertex {
                    sender: p.sender,
                    vertex: p.vertex.duplicate(),
                    received_at: p.received_at,
                    missing: p.missing.duplicate(),
                };
                kept.push(pd);
                assert(kept@.map_values(|q: PendingVertex| q@) =~= pre_k.push(self@[i as int]));
                proof {
                    let rest = alive_from(self@, now, timeout, i as int + 1);
                    assert(alive_from(self@, now, timeout, i as int) =~= seq![self@[i as int]]
                        + rest);
                }
            }
            i = i + 1;
        }
        let ghost old_view = self@;
        self.pending = kept;
        proof {
            assert(expired_from(old_view, now, timeout, old_view.len() as int) =~= Seq::<
                PendingView,
            >::empty());
            assert(alive_from(old_view, now, timeout, old_view.len() as int) =~= Seq::<
                PendingView,
            >::empty());
            assert(evicted@ =~= expired_from(old_view, now, timeout, 0).map_values(
                |p: PendingView| p.sender,
            ));
            assert(self@ =~= alive_from(old_view, now, timeout, 0));
        }
        evicted
    }
}

} // verus!
