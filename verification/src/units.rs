//! The wire-level message model: units, equivocation evidence,
//! endorsements, the vertex envelope, and the protocol message union.

use vstd::prelude::*;
use crate::base::{ValidatorIndex, copy_bytes};
use crate::panorama::{ObsView, Panorama, UnitHash};

verus! {

/// Mathematical image of a `WireUnit`.
pub struct WireUnitView {
    pub panorama: Seq<ObsView>,
    pub creator: ValidatorIndex,
    pub instance_id: Seq<u8>,
    pub value: Option<Seq<u8>>,
    pub seq_number: u64,
    pub timestamp: u64,
    pub round_exp: u8,
    pub endorsed: Seq<Seq<u8>>,
}

/// A validator's proposal or vote: the signable content of a unit.
pub struct WireUnit {
    /// The creator's causal view at creation time.
    pub panorama: Panorama,
    /// Index of the creator in the era's registry.
    pub creator: ValidatorIndex,
    /// Hash of the era context; scopes every signature to this era.
    pub instance_id: Vec<u8>,
    /// Proposed block payload, or `None` for a pure vote.
    pub value: Option<Vec<u8>>,
    /// One more than the creator's own observation in `panorama`.
    pub seq_number: u64,
    /// Creation time claimed by the creator.
    pub timestamp: u64,
    /// Log2 of the creator's current round length.
    pub round_exp: u8,
    /// Hashes of units this unit endorses.
    pub endorsed: Vec<UnitHash>,
}

impl View for WireUnit {
    type V = WireUnitView;

    open spec fn view(&self) -> WireUnitView {
        WireUnitView {
            panorama: self.panorama@,
            creator: self.creator,
            instance_id: self.instance_id@,
            value: match self.value {
                Option::None => Option::None,
                Option::Some(v) => Option::Some(v@),
            },
            seq_number: self.seq_number,
            timestamp: self.timestamp,
            round_exp: self.round_exp,
            endorsed: self.endorsed@.map_values(|h: UnitHash| h@),
        }
    }
}

impl WireUnit {
    /// A copy with the same content.
    pub fn duplicate(&self) -> (r: WireUnit)
        ensures
            r@ == self@,
    {
        let value = match &self.value {
            Option::None => Option::None,
            Option::Some(v) => Option::Some(copy_bytes(v)),
        };
        let mut endorsed: Vec<UnitHash> = Vec::new();
        let mut i: usize = 0;
        while i < self.endorsed.len()
            invariant
                i <= self.endorsed.len(),
                endorsed@.len() == i,
                forall|j: int| 0 <= j < i ==> endorsed@[j]@ == self.endorsed@[j]@,
            decreases self.endorsed.len() - i,
        {
            endorsed.push(self.endorsed[i].duplicate());
            i = i + 1;
        }
        let r = WireUnit {
            panorama: self.panorama.duplicate(),
            creator: self.creator,
            instance_id: copy_bytes(&self.instance_id),
            value,
            seq_number: self.seq_number,
            timestamp: self.timestamp,
            round_exp: self.round_exp,
            endorsed,
        };
        assert(r@.endorsed =~= self@.endorsed);
        assert(r@.panorama =~= self@.panorama);
        r
    }
}

/// Mathematical image of a `SignedWireUnit`.
pub struct SignedWireUnitView {
    pub unit: WireUnitView,
    pub signature: Seq<u8>,
}

/// A wire unit plus a detached signature over the unit's content hash.
pub struct SignedWireUnit {
    pub unit: WireUnit,
    pub signature: Vec<u8>,
}

impl View for SignedWireUnit {
    type V = SignedWireUnitView;

    open spec fn view(&self) -> SignedWireUnitView {
        SignedWireUnitView { unit: self.unit@, signature: self.signature@ }
    }
}

impl SignedWireUnit {
    /// A copy with the same content.
    pub fn duplicate(&self) -> (r: SignedWireUnit)
        ensures
            r@ == self@,
    {
        SignedWireUnit { unit: self.unit.duplicate(), signature: copy_bytes(&self.signature) }
    }
}

/// Mathematical image of an `Evidence` vertex.
pub struct EvidenceView {
    pub unit1: SignedWireUnitView,
    pub unit2: SignedWireUnitView,
}

/// Proof of equivocation: two distinct signed units by the same creator
/// with the same sequence number.
pub struct Evidence {
    pub unit1: SignedWireUnit,
    pub unit2: SignedWireUnit,
}

impl View for Evidence {
    type V = EvidenceView;

    open spec fn view(&self) -> EvidenceView {
        EvidenceView { unit1: self.unit1@, unit2: self.unit2@ }
    }
}

/// Mathematical image of a `SignedEndorsement`.
pub struct EndorsementView {
    pub unit_hash: Seq<u8>,
    pub validator: ValidatorIndex,
    pub signature: Seq<u8>,
}

/// A validator's signed statement that it endorses one unit.
pub struct SignedEndorsement {
    pub unit_hash: UnitHash,
    pub validator: ValidatorIndex,
    pub signature: Vec<u8>,
}

impl View for SignedEndorsement {
    type V = EndorsementView;

    open spec fn view(&self) -> EndorsementView {
        EndorsementView {
            unit_hash: self.unit_hash@,
            validator: self.validator,
            signature: self.signature@,
        }
    }
}

/// Mathematical image of a `Vertex`.
pub enum VertexView {
    Unit(SignedWireUnitView),
    Evidence(EvidenceView),
    Endorsement(EndorsementView),
}

/// The polymorphic wire envelope the DAG stores.
pub enum Vertex {
    Unit(SignedWireUnit),
    Evidence(Evidence),
    Endorsement(SignedEndorsement),
}

impl View for Vertex {
    type V = VertexView;

    open spec fn view(&self) -> VertexView {
        match self {
            Vertex::Unit(u) => VertexView::Unit(u@),
            Vertex::Evidence(e) => VertexView::Evidence(e@),
            Vertex::Endorsement(e) => VertexView::Endorsement(e@),
        }
    }
}

/// Mathematical image of a `HighwayMessage`.
pub enum MessageView {
    NewVertex(VertexView),
    RequestDependency(Seq<u8>),
}

/// The tagged union exchanged between peers.
pub enum HighwayMessage {
    NewVertex(Vertex),
    RequestDependency(UnitHash),
}

impl View for HighwayMessage {
    type V = MessageView;

    open spec fn view(&self) -> MessageView {
        match self {
            HighwayMessage::NewVertex(v) => MessageView::NewVertex(v@),
            HighwayMessage::RequestDependency(h) => MessageView::RequestDependency(h@),
        }
    }
}

impl Evidence {
    /// A copy with the same content.
    pub fn duplicate(&self) -> (r: Evidence)
        ensures
            r@ == self@,
    {
        Evidence { unit1: self.unit1.duplicate(), unit2: self.unit2.duplicate() }
    }
}

impl SignedEndorsement {
    /// A copy with the same content.
    pub fn duplicate(&self) -> (r: SignedEndorsement)
        ensures
            r@ == self@,
    {
        SignedEndorsement {
            unit_hash: self.unit_hash.duplicate(),
            validator: self.validator,
            signature: copy_bytes(&self.signature),
        }
    }
}

impl Vertex {
    /// A copy with the same content.
    pub fn duplicate(&self) -> (r: Vertex)
        ensures
            r@ == self@,
    {
        match self {
            Vertex::Unit(u) => Vertex::Unit(u.duplicate()),
            Vertex::Evidence(e) => Vertex::Evidence(e.duplicate()),
            Vertex::Endorsement(e) => Vertex::Endorsement(e.duplicate()),
        }
    }
}

} // verus!
