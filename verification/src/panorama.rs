//! Observations and panoramas: the causal-ordering primitive.
//!
//! A panorama holds, for every validator of the era, what a unit's creator
//! had observed from that validator when the unit was created: nothing yet,
//! a latest correct unit, or evidence of equivocation.  Once `Faulty` is
//! recorded for a validator it is never downgraded.

use vstd::prelude::*;
use crate::base::{bytes_eq, copy_bytes};

verus! {

/// Content hash of a unit, as produced by the era's digest function.
pub struct UnitHash {
    pub bytes: Vec<u8>,
}

impl View for UnitHash {
    type V = Seq<u8>;

    open spec fn view(&self) -> Seq<u8> {
        self.bytes@
    }
}

impl UnitHash {
    /// Byte-for-byte equality of two hashes.
    pub fn eq_hash(&self, other: &UnitHash) -> (r: bool)
        ensures
            r <==> self@ == other@,
    {
        bytes_eq(&self.bytes, &other.bytes)
    }

    /// A copy with the same bytes.
    pub fn duplicate(&self) -> (r: UnitHash)
        ensures
            r@ == self@,
    {
        UnitHash { bytes: copy_bytes(&self.bytes) }
    }
}

/// What one validator has seen of another, mathematically.
pub enum ObsView {
    Unseen,
    Correct(Seq<u8>),
    Faulty,
}

/// What one validator has seen of another: nothing, a latest correct unit,
/// or proof of equivocation.
pub enum Observation {
    Unseen,
    Correct(UnitHash),
    Faulty,
}

impl View for Observation {
    type V = ObsView;

    open spec fn view(&self) -> ObsView {
        match self {
            Observation::Unseen => ObsView::Unseen,
            Observation::Correct(h) => ObsView::Correct(h@),
            Observation::Faulty => ObsView::Faulty,
        }
    }
}

impl Observation {
    /// A copy with the same content.
    pub fn duplicate(&self) -> (r: Observation)
        ensures
            r@ == self@,
    {
        match self {
            Observation::Unseen => Observation::Unseen,
            Observation::Correct(h) => Observation::Correct(h.duplicate()),
            Observation::Faulty => Observation::Faulty,
        }
    }
}

/// A unit creator's complete causal view: one observation per validator.
pub struct Panorama {
    pub obs: Vec<Observation>,
}

impl View for Panorama {
    type V = Seq<ObsView>;

    open spec fn view(&self) -> Seq<ObsView> {
        self.obs@.map_values(|o: Observation| o@)
    }
}

impl Panorama {
    /// The panorama of a validator that has seen nothing yet, over `n`
    /// validators.
    pub fn all_unseen(n: usize) -> (r: Panorama)
        ensures
            r@.len() == n,
            forall|i: int| 0 <= i < n ==> r@[i] is Unseen,
    {
        let mut obs: Vec<Observation> = Vec::new();
        let mut i: usize = 0;
        while i < n
            invariant
                i <= n,
                obs@.len() == i,
                forall|j: int| 0 <= j < i ==> obs@[j]@ is Unseen,
            decreases n - i,
        {
            obs.push(Observation::Unseen);
            i = i + 1;
        }
        let r = Panorama { obs };
        assert(forall|i: int| 0 <= i < n ==> r@[i] == r.obs@[i]@);
        r
    }

    /// Number of observations, one per validator.
    pub fn len(&self) -> (r: usize)
        ensures
            r == self@.len(),
    {
        self.obs.len()
    }

    /// The observation for one validator.
    pub fn get(&self, idx: usize) -> (r: &Observation)
        requires
            idx < self@.len(),
        ensures
            r@ == self@[idx as int],
    {
        &self.obs[idx]
    }

    /// A copy with the same content.
    pub fn duplicate(&self) -> (r: Panorama)
        ensures
            r@ == self@,
    {
        let mut obs: Vec<Observation> = Vec::new();
        let mut i: usize = 0;
        while i < self.obs.len()
            invariant
                i <= self.obs.len(),
                obs@.len() == i,
                forall|j: int| 0 <= j < i ==> obs@[j]@ == self.obs@[j]@,
            decreases self.obs.len() - i,
        {
            obs.push(self.obs[i].duplicate());
            i = i + 1;
        }
        let r = Panorama { obs };
        assert(r@ =~= self@);
        r
    }

    /// Records equivocation evidence for one validator; never downgraded.
    pub fn mark_faulty(&mut self, idx: usize)
        requires
            idx < old(self)@.len(),
        ensures
            final(self)@.len() == old(self)@.len(),
            final(self)@[idx as int] is Faulty,
            forall|j: int| 0 <= j < old(self)@.len() && j != idx ==> final(self)@[j] == old(self)@[j],
    {
        self.obs.set(idx, Observation::Faulty);
        assert(self@ =~= old(self)@.update(idx as int, ObsView::Faulty));
    }

    /// Records a new latest correct unit for one validator, unless that
    /// validator is already known faulty: `Faulty` is never downgraded.
    pub fn observe_correct(&mut self, idx: usize, hash: UnitHash)
        requires
            idx < old(self)@.len(),
        ensures
            final(self)@.len() == old(self)@.len(),
            old(self)@[idx as int] is Faulty ==> final(self)@[idx as int] is Faulty,
            !(old(self)@[idx as int] is Faulty) ==> final(self)@[idx as int] == ObsView::Correct(hash@),
            forall|j: int| 0 <= j < old(self)@.len() && j != idx ==> final(self)@[j] == old(self)@[j],
    {
        let faulty = match &self.obs[idx] {
            Observation::Faulty => true,
            _ => false,
        };
        if !faulty {
            let ghost hv = hash@;
            self.obs.set(idx, Observation::Correct(hash));
            assert(self@ =~= old(self)@.update(idx as int, ObsView::Correct(hv)));
        }
    }
}

} // verus!
