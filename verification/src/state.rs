//! The authoritative DAG store and finality engine of one era.
//!
//! `State` exclusively owns all validated units, evidence and endorsements,
//! keyed by content hash, and never shrinks.  Over the stored DAG it
//! computes the weighted fork choice and summit-based finality.  The
//! finalized chain only ever grows, so a finalized block is never
//! retracted and no conflicting block at an already finalized height can
//! become final.

use vstd::prelude::*;
use crate::base::{ValidatorIndex, Weight, lex_less, spec_lex_less};
use crate::panorama::{Observation, ObsView, Panorama, UnitHash};
use crate::units::{Evidence, EvidenceView, SignedEndorsement, EndorsementView, SignedWireUnit,
    SignedWireUnitView, Vertex, VertexView, WireUnit, WireUnitView};
use crate::codec::enc_wire_unit;
use crate::crypto::hash_of;

verus! {

/// Immutable per-era protocol parameters.
#[derive(Clone, Copy)]
pub struct Params {
    /// Random seed for leader-sequence derivation.
    pub seed: u64,
    /// Reward for a finalized block proposed at its round's start.
    pub block_reward: u64,
    /// Reward for a finalized block proposed late.
    pub reduced_block_reward: u64,
    /// Smallest admissible round exponent.
    pub min_round_exp: u8,
    /// Largest admissible round exponent.
    pub max_round_exp: u8,
    /// Round exponent a fresh validator starts with.
    pub init_round_exp: u8,
    /// Height after which the era accepts no further blocks.
    pub end_height: u64,
    /// First timestamp of the era.
    pub start_timestamp: u64,
    /// Last timestamp of the era.
    pub end_timestamp: u64,
    /// How many units an endorsement-evidence record may cite.
    pub endorsement_evidence_limit: u64,
    /// Summit level a block must reach to be finalized.
    pub finality_level: u64,
}

impl Params {
    /// Parameter set with the standard single-confirmation finality level.
    pub fn new(
        seed: u64,
        block_reward: u64,
        reduced_block_reward: u64,
        min_round_exp: u8,
        max_round_exp: u8,
        init_round_exp: u8,
        end_height: u64,
        start_timestamp: u64,
        end_timestamp: u64,
        endorsement_evidence_limit: u64,
    ) -> (r: Params)
        ensures
            r.seed == seed,
            r.block_reward == block_reward,
            r.reduced_block_reward == reduced_block_reward,
            r.min_round_exp == min_round_exp,
            r.max_round_exp == max_round_exp,
            r.init_round_exp == init_round_exp,
            r.end_height == end_height,
            r.start_timestamp == start_timestamp,
            r.end_timestamp == end_timestamp,
            r.endorsement_evidence_limit == endorsement_evidence_limit,
            r.finality_level == 1,
    {
        Params {
            seed,
            block_reward,
            reduced_block_reward,
            min_round_exp,
            max_round_exp,
            init_round_exp,
            end_height,
            start_timestamp,
            end_timestamp,
            endorsement_evidence_limit,
            finality_level: 1,
        }
    }
}

/// Mathematical image of one stored unit.
pub struct UnitRecView {
    pub hash: Seq<u8>,
    pub swu: SignedWireUnitView,
    pub vote: Option<usize>,
}

/// One stored unit: its content hash, the signed unit, and the block its
/// creator thereby supports.
pub struct UnitRecord {
    pub hash: UnitHash,
    pub swu: SignedWireUnit,
    pub vote: Option<usize>,
}

impl View for UnitRecord {
    type V = UnitRecView;

    open spec fn view(&self) -> UnitRecView {
        UnitRecView { hash: self.hash@, swu: self.swu@, vote: self.vote }
    }
}

/// Mathematical image of one block.
pub struct BlockView {
    pub hash: Seq<u8>,
    pub parent: Option<usize>,
    pub height: u64,
    pub payload: Seq<u8>,
}

/// A proposed block: the proposal unit's hash, its parent block, its
/// height, and the opaque payload.
pub struct BlockMeta {
    pub hash: UnitHash,
    pub parent: Option<usize>,
    pub height: u64,
    pub payload: Vec<u8>,
}

impl View for BlockMeta {
    type V = BlockView;

    open spec fn view(&self) -> BlockView {
        BlockView {
            hash: self.hash@,
            parent: self.parent,
            height: self.height,
            payload: self.payload@,
        }
    }
}

/// Mathematical image of the DAG proper: everything fork choice and
/// finality read.
pub struct DagView {
    pub weights: Seq<Weight>,
    pub units: Seq<UnitRecView>,
    pub blocks: Seq<BlockView>,
    pub panorama: Seq<ObsView>,
}

/// Mathematical image of the whole store.
pub struct StateView {
    pub params: Params,
    pub dag: DagView,
    pub evidence: Seq<EvidenceView>,
    pub endorsements: Seq<EndorsementView>,
    pub finalized: Seq<usize>,
}

/// The era's DAG store.
pub struct State {
    pub params: Params,
    pub weights: Vec<Weight>,
    pub units: Vec<UnitRecord>,
    pub blocks: Vec<BlockMeta>,
    pub evidence: Vec<Evidence>,
    pub endorsements: Vec<SignedEndorsement>,
    pub panorama: Panorama,
    pub finalized: Vec<usize>,
}

impl View for State {
    type V = StateView;

    open spec fn view(&self) -> StateView {
        StateView {
            params: self.params,
            dag: DagView {
                weights: self.weights@,
                units: self.units@.map_values(|u: UnitRecord| u@),
                blocks: self.blocks@.map_values(|b: BlockMeta| b@),
                panorama: self.panorama@,
            },
            evidence: self.evidence@.map_values(|e: Evidence| e@),
            endorsements: self.endorsements@.map_values(|e: SignedEndorsement| e@),
            finalized: self.finalized@,
        }
    }
}

/// Sum of the first `n` validator weights.
pub open spec fn wsum_upto(w: Seq<Weight>, n: int) -> int
    decreases n,
{
    if n <= 0 {
        0
    } else {
        wsum_upto(w, n - 1) + w[n - 1]
    }
}

/// First stored unit with the given hash.
pub open spec fn spec_find_unit(s: DagView, h: Seq<u8>) -> Option<int>
    decreases s.units.len(),
{
    spec_find_unit_from(s, h, 0)
}

pub open spec fn spec_find_unit_from(s: DagView, h: Seq<u8>, i: int) -> Option<int>
    decreases s.units.len() - i,
{
    if i < 0 || i >= s.units.len() {
        Option::None
    } else if s.units[i].hash == h {
        Option::Some(i)
    } else {
        spec_find_unit_from(s, h, i + 1)
    }
}

/// The sequence number the creator's next unit must carry, given a
/// panorama: one more than its own observation there, zero if none.
pub open spec fn spec_next_seq(s: DagView, pan: Seq<ObsView>, c: ValidatorIndex) -> u64 {
    if c.0 < pan.len() {
        match pan[c.0 as int] {
            ObsView::Correct(h) => match spec_find_unit(s, h) {
                Option::Some(i) => if s.units[i].swu.unit.seq_number == u64::MAX {
                    u64::MAX
                } else {
                    (s.units[i].swu.unit.seq_number + 1) as u64
                },
                Option::None => 0,
            },
            _ => 0,
        }
    } else {
        0
    }
}

/// Whether block `t` lies on the parent chain of block `b` (inclusive).
pub open spec fn chain_has(s: DagView, b: int, t: int) -> bool
    decreases s.blocks[b].height,
{
    0 <= b < s.blocks.len() && 0 <= t < s.blocks.len() && (b == t || {
        match s.blocks[b].parent {
            Option::Some(p) => 0 <= p < b && s.blocks[p as int].height < s.blocks[b].height && chain_has(
                s,
                p as int,
                t,
            ),
            Option::None => false,
        }
    })
}

/// Weight of the validators whose observation in `pan` supports block `b`:
/// their observed unit votes for a block whose chain contains `b`.
/// Faulty and unseen validators contribute nothing.
pub open spec fn sup_weight_upto(s: DagView, pan: Seq<ObsView>, b: int, n: int) -> int
    decreases n,
{
    if n <= 0 {
        0
    } else {
        sup_weight_upto(s, pan, b, n - 1) + if validator_supports(s, pan, b, n - 1) {
            s.weights[n - 1]
        } else {
            0
        }
    }
}

/// Whether validator `v`'s observation in `pan` supports block `b`.
pub open spec fn validator_supports(s: DagView, pan: Seq<ObsView>, b: int, v: int) -> bool {
    0 <= v < pan.len() && match pan[v] {
        ObsView::Correct(h) => match spec_find_unit(s, h) {
            Option::Some(i) => match s.units[i].vote {
                Option::Some(vb) => chain_has(s, vb as int, b),
                Option::None => false,
            },
            Option::None => false,
        },
        _ => false,
    }
}

/// The child of `cur` with the greatest supporting weight, ties broken
/// towards the lexicographically greater block hash; `None` if no child
/// has positive support.  Considers the first `n` blocks.
pub open spec fn best_child_upto(s: DagView, pan: Seq<ObsView>, cur: Option<usize>, n: int)
    -> Option<int>
    decreases n,
{
    if n <= 0 {
        Option::None
    } else {
        let rest = best_child_upto(s, pan, cur, n - 1);
        let i = n - 1;
        if s.blocks[i].parent == cur && sup_weight_upto(s, pan, i, s.weights.len() as int) > 0 {
            match rest {
                Option::None => Option::Some(i),
                Option::Some(j) => {
                    let wi = sup_weight_upto(s, pan, i, s.weights.len() as int);
                    let wj = sup_weight_upto(s, pan, j, s.weights.len() as int);
                    if wi > wj || (wi == wj && spec_lex_less(s.blocks[j].hash, s.blocks[i].hash)) {
                        Option::Some(i)
                    } else {
                        Option::Some(j)
                    }
                },
            }
        } else {
            rest
        }
    }
}

pub open spec fn opt_height(s: DagView, cur: Option<usize>) -> int {
    match cur {
        Option::None => 0,
        Option::Some(b) => s.blocks[b as int].height + 1,
    }
}

/// The fork-choice walk: starting at `cur`, repeatedly descend to the
/// child with the greatest supporting weight until no child has support.
pub open spec fn spec_fc(s: DagView, pan: Seq<ObsView>, cur: Option<usize>) -> Option<usize>
    decreases s.blocks.len() - opt_height(s, cur) + 1,
{
    match best_child_upto(s, pan, cur, s.blocks.len() as int) {
        Option::None => cur,
        Option::Some(c) => if 0 <= c < s.blocks.len() && opt_height(s, Option::Some(c as usize))
            > opt_height(s, cur) && opt_height(s, Option::Some(c as usize)) <= s.blocks.len() {
            spec_fc(s, pan, Option::Some(c as usize))
        } else {
            cur
        },
    }
}

/// The head chosen from a panorama.
pub open spec fn spec_fork_choice(s: DagView, pan: Seq<ObsView>) -> Option<usize> {
    spec_fc(s, pan, Option::None)
}

/// Fault-tolerance threshold: the largest weight strictly below one third
/// of the total.
pub open spec fn spec_ftt(total: int) -> int {
    if total <= 0 {
        0
    } else {
        (total - 1) / 3
    }
}

/// Summit quorum: total weight minus the fault-tolerance threshold.
pub open spec fn spec_quorum(s: DagView) -> int {
    wsum_upto(s.weights, s.weights.len() as int) - spec_ftt(
        wsum_upto(s.weights, s.weights.len() as int),
    )
}

/// Well-formedness of the DAG store.
pub open spec fn wf(s: StateView) -> bool {
    &&& s.dag.panorama.len() == s.dag.weights.len()
    &&& wsum_upto(s.dag.weights, s.dag.weights.len() as int) <= u64::MAX
    &&& forall|i: int|
        0 <= i < s.dag.blocks.len() ==> ((#[trigger] s.dag.blocks[i].parent) matches Option::Some(p) ==> 0
            <= p < i && s.dag.blocks[i].height == s.dag.blocks[p as int].height + 1)
    &&& forall|i: int|
        0 <= i < s.dag.blocks.len() ==> ((#[trigger] s.dag.blocks[i].parent) is None ==> s.dag.blocks[i].height
            == 0)
    &&& forall|i: int| 0 <= i < s.dag.blocks.len() ==> #[trigger] s.dag.blocks[i].height <= i
    &&& forall|i: int|
        0 <= i < s.dag.units.len() ==> ((#[trigger] s.dag.units[i].vote) matches Option::Some(b) ==> 0 <= b
            < s.dag.blocks.len())
    &&& forall|i: int|
        0 <= i < s.dag.units.len() ==> (#[trigger] s.dag.units[i].swu.unit.creator).0 < s.dag.weights.len()
    &&& forall|i: int|
        0 <= i < s.dag.units.len() ==> (#[trigger] s.dag.units[i].swu.unit.panorama).len()
            == s.dag.weights.len()
    &&& forall|i: int, j: int|
        0 <= i < j < s.dag.units.len() ==> (#[trigger] s.dag.units[i].hash) != (#[trigger] s.dag.units[j].hash)
    &&& forall|i: int| 0 <= i < s.finalized.len() ==> 0 <= #[trigger] s.finalized[i] < s.dag.blocks.len()
    &&& forall|i: int|
        0 <= i < s.finalized.len() ==> s.dag.blocks[#[trigger] s.finalized[i] as int].height == i
    &&& forall|i: int|
        1 <= i < s.finalized.len() ==> s.dag.blocks[#[trigger] s.finalized[i] as int].parent
            == Option::Some(s.finalized[i - 1])
    &&& (s.finalized.len() > 0 ==> s.dag.blocks[s.finalized[0] as int].parent is None)
}

impl State {
    /// A fresh, empty DAG store over the given weights.
    pub fn new(weights: Vec<Weight>, params: Params) -> (r: State)
        requires
            wsum_upto(weights@, weights@.len() as int) <= u64::MAX,
        ensures
            wf(r@),
            r@.params == params,
            r@.dag.weights == weights@,
            r@.dag.units.len() == 0,
            r@.dag.blocks.len() == 0,
            r@.evidence.len() == 0,
            r@.finalized.len() == 0,
            forall|i: int| 0 <= i < r@.dag.panorama.len() ==> r@.dag.panorama[i] is Unseen,
    {
        let n = weights.len();
        let r = State {
            params,
            weights,
            units: Vec::new(),
            blocks: Vec::new(),
            evidence: Vec::new(),
            endorsements: Vec::new(),
            panorama: Panorama::all_unseen(n),
            finalized: Vec::new(),
        };
        assert(r@.dag.units =~= Seq::<UnitRecView>::empty());
        assert(r@.dag.blocks =~= Seq::<BlockView>::empty());
        assert(r@.evidence =~= Seq::<EvidenceView>::empty());
        assert(r@.finalized =~= Seq::<usize>::empty());
        r
    }

    /// Number of validators in the era.
    pub fn validator_count(&self) -> (r: usize)
        ensures
            r == self@.dag.weights.len(),
    {
        self.weights.len()
    }

    /// Index of the stored unit with the given hash, if any.
    pub fn find_unit(&self, h: &UnitHash) -> (r: Option<usize>)
        ensures
            match r {
                Option::Some(i) => i < self@.dag.units.len() && spec_find_unit(self@.dag, h@)
                    == Option::Some(i as int),
                Option::None => spec_find_unit(self@.dag, h@) is None,
            },
    {
        let mut i: usize = 0;
        while i < self.units.len()
            invariant
                i <= self.units.len(),
                spec_find_unit(self@.dag, h@) == spec_find_unit_from(self@.dag, h@, i as int),
            decreases self.units.len() - i,
        {
            if self.units[i].hash.eq_hash(h) {
                return Some(i);
            }
            i = i + 1;
        }
        None
    }

    /// Whether a unit with this hash is already stored.
    pub fn has_unit(&self, h: &UnitHash) -> (r: bool)
        ensures
            r == (spec_find_unit(self@.dag, h@) is Some),
    {
        match self.find_unit(h) {
            Option::Some(_) => true,
            Option::None => false,
        }
    }

    /// The sequence number the creator's next unit must carry under `pan`.
    pub fn next_seq_num(&self, pan: &Panorama, creator: ValidatorIndex) -> (r: u64)
        ensures
            r == spec_next_seq(self@.dag, pan@, creator),
    {
        if creator.0 < pan.len() as u64 {
            let idx = creator.0 as usize;
            match pan.get(idx) {
                Observation::Correct(h) => {
                    let hh = h.duplicate();
                    match self.find_unit(&hh) {
                        Option::Some(i) => {
                            let sq = self.units[i].swu.unit.seq_number;
                            if sq == u64::MAX {
                                u64::MAX
                            } else {
                                sq + 1
                            }
                        },
                        Option::None => 0,
                    }
                },
                _ => 0,
            }
        } else {
            0
        }
    }

    /// First stored unit by the same creator at the same sequence number
    /// but with a different hash: an equivocation.
    pub fn find_conflict(&self, creator: ValidatorIndex, seq_number: u64, h: &UnitHash) -> (r:
        Option<usize>)
        ensures
            r matches Some(i) ==> i < self@.dag.units.len() && self@.dag.units[i as int].swu.unit.creator
                == creator && self@.dag.units[i as int].swu.unit.seq_number == seq_number
                && self@.dag.units[i as int].hash != h@,
            r is None ==> forall|i: int|
                0 <= i < self@.dag.units.len() ==> !((#[trigger] self@.dag.units[i].swu.unit.creator)
                    == creator && self@.dag.units[i].swu.unit.seq_number == seq_number
                    && self@.dag.units[i].hash != h@),
    {
        let mut i: usize = 0;
        while i < self.units.len()
            invariant
                i <= self.units.len(),
                forall|j: int|
                    0 <= j < i ==> !((#[trigger] self@.dag.units[j].swu.unit.creator) == creator
                        && self@.dag.units[j].swu.unit.seq_number == seq_number && self@.dag.units[j].hash
                        != h@),
            decreases self.units.len() - i,
        {
            let u = &self.units[i];
            if u.swu.unit.creator.0 == creator.0 && u.swu.unit.seq_number == seq_number
                && !u.hash.eq_hash(h) {
                assert(u.swu.unit.creator == creator);
                return Some(i);
            }
            i = i + 1;
        }
        None
    }
}

/// If the scan from `i` finds nothing, no unit from `i` on has the hash.
pub proof fn lemma_find_none(s: DagView, h: Seq<u8>, i: int)
    requires
        spec_find_unit_from(s, h, i) is None,
        0 <= i,
    ensures
        forall|j: int| i <= j < s.units.len() ==> (#[trigger] s.units[j].hash) != h,
    decreases s.units.len() - i,
{
    if i < s.units.len() {
        lemma_find_none(s, h, i + 1);
    }
}

/// If the last unit alone has the hash, the scan finds exactly it.
pub proof fn lemma_find_last(s: DagView, h: Seq<u8>, i: int)
    requires
        0 <= i < s.units.len(),
        s.units.last().hash == h,
        forall|j: int| 0 <= j < s.units.len() - 1 ==> (#[trigger] s.units[j].hash) != h,
    ensures
        spec_find_unit_from(s, h, i) == Option::Some(s.units.len() - 1),
    decreases s.units.len() - i,
{
    if i < s.units.len() - 1 {
        lemma_find_last(s, h, i + 1);
    }
}

/// Prefix sums agree on sequences that agree up to the prefix.
pub proof fn lemma_wsum_prefix(a: Seq<Weight>, b: Seq<Weight>, n: int)
    requires
        n <= a.len(),
        n <= b.len(),
        forall|k: int| 0 <= k < n ==> a[k] == b[k],
    ensures
        wsum_upto(a, n) == wsum_upto(b, n),
    decreases n,
{
    if n > 0 {
        lemma_wsum_prefix(a, b, n - 1);
    }
}

/// The scan's hit really carries the hash it was looking for.
pub proof fn lemma_find_hash(d: DagView, h: Seq<u8>, j: int)
    requires
        0 <= j,
        spec_find_unit_from(d, h, j) is Some,
    ensures
        ({
            let i = spec_find_unit_from(d, h, j).unwrap();
            0 <= i < d.units.len() && d.units[i].hash == h
        }),
    decreases d.units.len() - j,
{
    if j < d.units.len() && d.units[j].hash != h {
        lemma_find_hash(d, h, j + 1);
    }
}

/// Weight prefix sums are monotone.
pub proof fn lemma_wsum_mono(w: Seq<Weight>, i: int, j: int)
    requires
        0 <= i <= j <= w.len(),
    ensures
        wsum_upto(w, i) <= wsum_upto(w, j),
    decreases j - i,
{
    if i < j {
        lemma_wsum_mono(w, i, j - 1);
    }
}


/// A chosen best child is a child of `cur` with positive support.
pub proof fn lemma_best_child_props(s: DagView, pan: Seq<ObsView>, cur: Option<usize>, n: int)
    requires
        best_child_upto(s, pan, cur, n) is Some,
        n <= s.blocks.len(),
    ensures
        ({
            let j = best_child_upto(s, pan, cur, n).unwrap();
            0 <= j < n && s.blocks[j].parent == cur && sup_weight_upto(
                s,
                pan,
                j,
                s.weights.len() as int,
            ) > 0
        }),
    decreases n,
{
    if n > 0 {
        let rest = best_child_upto(s, pan, cur, n - 1);
        if rest is Some {
            lemma_best_child_props(s, pan, cur, n - 1);
        }
    }
}

/// The ancestor of block `b` at height `h` on its parent chain (`b`
/// itself if its height is not above `h`).
pub open spec fn chain_ancestor_at(d: DagView, b: int, h: int) -> int
    decreases d.blocks[b].height,
{
    if 0 <= b < d.blocks.len() && d.blocks[b].height > h {
        match d.blocks[b].parent {
            Option::Some(p) => if 0 <= p < b && d.blocks[p as int].height < d.blocks[b].height {
                chain_ancestor_at(d, p as int, h)
            } else {
                b
            },
            Option::None => b,
        }
    } else {
        b
    }
}

/// No further block can be finalized right now: there is no fork-choice
/// head, the head's chain is not long enough for a next block, the
/// candidate does not extend the finalized chain, or it lacks the
/// required summit.
pub open spec fn finality_blocked(s: StateView) -> bool {
    match spec_fork_choice(s.dag, s.dag.panorama) {
        Option::None => true,
        Option::Some(head) => {
            let t = s.finalized.len() as int;
            ||| s.dag.blocks[head as int].height < t
            ||| ({
                let c = chain_ancestor_at(s.dag, head as int, t);
                ||| (t > 0 && s.dag.blocks[c].parent != Option::Some(s.finalized[t - 1]))
                ||| !spec_summit_reached(s.dag, c, s.params.finality_level)
            })
        },
    }
}

/// Whether a list of endorsed hashes is strictly increasing.
fn endorsed_in_canonical_order(hs: &Vec<UnitHash>) -> (r: bool)
    ensures
        r == (forall|k: int|
            0 <= k < hs@.len() - 1 ==> spec_lex_less(#[trigger] hs@[k]@, hs@[k + 1]@)),
{
    let n = hs.len();
    if n == 0 {
        return true;
    }
    let mut i: usize = 0;
    while i < n - 1
        invariant
            n == hs@.len(),
            1 <= n,
            i <= n - 1,
            forall|k: int| 0 <= k < i ==> spec_lex_less(#[trigger] hs@[k]@, hs@[k + 1]@),
        decreases n - 1 - i,
    {
        if !lex_less(&hs[i].bytes, &hs[i + 1].bytes) {
            assert(!spec_lex_less(hs@[i as int]@, hs@[i as int + 1]@));
            return false;
        }
        i = i + 1;
    }
    true
}

fn opt_eq(a: Option<usize>, b: Option<usize>) -> (r: bool)
    ensures
        r == (a == b),
{
    match (a, b) {
        (Option::None, Option::None) => true,
        (Option::Some(x), Option::Some(y)) => x == y,
        _ => false,
    }
}

impl State {
    /// Whether block `t` lies on the parent chain of block `b`.
    pub fn chain_contains(&self, b: usize, t: usize) -> (r: bool)
        requires
            wf(self@),
            b < self@.dag.blocks.len(),
            t < self@.dag.blocks.len(),
        ensures
            r == chain_has(self@.dag, b as int, t as int),
    {
        let mut cur: usize = b;
        loop
            invariant
                wf(self@),
                cur < self@.dag.blocks.len(),
                t < self@.dag.blocks.len(),
                b < self@.dag.blocks.len(),
                chain_has(self@.dag, b as int, t as int) == chain_has(self@.dag, cur as int, t as int),
            decreases self@.dag.blocks[cur as int].height,
        {
            if cur == t {
                return true;
            }
            match self.blocks[cur].parent {
                Option::Some(p) => {
                    assert(self@.dag.blocks[cur as int].parent == Option::Some(p));
                    assert(chain_has(self@.dag, cur as int, t as int) == chain_has(
                        self@.dag,
                        p as int,
                        t as int,
                    ));
                    cur = p;
                },
                Option::None => {
                    assert(!chain_has(self@.dag, cur as int, t as int));
                    return false;
                },
            }
        }
    }

    /// Whether validator `v`'s observation in `pan` supports block `b`.
    fn supports_exec(&self, pan: &Panorama, b: usize, v: usize) -> (r: bool)
        requires
            wf(self@),
            b < self@.dag.blocks.len(),
            v < pan@.len(),
        ensures
            r == validator_supports(self@.dag, pan@, b as int, v as int),
    {
        match pan.get(v) {
            Observation::Correct(h) => {
                let hh = h.duplicate();
                match self.find_unit(&hh) {
                    Option::Some(i) => {
                        match self.units[i].vote {
                            Option::Some(vb) => {
                                assert(self@.dag.units[i as int].vote == Option::Some(vb));
                                self.chain_contains(vb, b)
                            },
                            Option::None => false,
                        }
                    },
                    Option::None => false,
                }
            },
            _ => false,
        }
    }

    /// Total weight of the validators whose observation in `pan` supports
    /// block `b`.
    pub fn sup_weight(&self, pan: &Panorama, b: usize) -> (r: u64)
        requires
            wf(self@),
            b < self@.dag.blocks.len(),
            pan@.len() == self@.dag.weights.len(),
        ensures
            r == sup_weight_upto(self@.dag, pan@, b as int, self@.dag.weights.len() as int),
    {
        let mut acc: u64 = 0;
        let mut v: usize = 0;
        while v < self.weights.len()
            invariant
                wf(self@),
                b < self@.dag.blocks.len(),
                pan@.len() == self@.dag.weights.len(),
                v <= self@.dag.weights.len(),
                acc == sup_weight_upto(self@.dag, pan@, b as int, v as int),
                acc <= wsum_upto(self@.dag.weights, v as int),
            decreases self@.dag.weights.len() - v,
        {
            let sup = self.supports_exec(pan, b, v);
            proof {
                lemma_wsum_mono(self@.dag.weights, v as int + 1, self@.dag.weights.len() as int);
            }
            if sup {
                acc = acc + self.weights[v];
            }
            v = v + 1;
        }
        acc
    }

    /// The child of `cur` with the greatest supporting weight under `pan`,
    /// ties broken towards the lexicographically greater block hash.
    fn best_child_exec(&self, pan: &Panorama, cur: Option<usize>) -> (r: Option<usize>)
        requires
            wf(self@),
            pan@.len() == self@.dag.weights.len(),
        ensures
            match r {
                Option::Some(i) => i < self@.dag.blocks.len() && best_child_upto(
                    self@.dag,
                    pan@,
                    cur,
                    self@.dag.blocks.len() as int,
                ) == Option::Some(i as int),
                Option::None => best_child_upto(
                    self@.dag,
                    pan@,
                    cur,
                    self@.dag.blocks.len() as int,
                ) is None,
            },
    {
        let mut best: Option<usize> = Option::None;
        let mut wbest: u64 = 0;
        let mut i: usize = 0;
        while i < self.blocks.len()
            invariant
                wf(self@),
                pan@.len() == self@.dag.weights.len(),
                i <= self@.dag.blocks.len(),
                match best {
                    Option::Some(j) => j < self@.dag.blocks.len() && best_child_upto(
                        self@.dag,
                        pan@,
                        cur,
                        i as int,
                    ) == Option::Some(j as int) && wbest == sup_weight_upto(
                        self@.dag,
                        pan@,
                        j as int,
                        self@.dag.weights.len() as int,
                    ),
                    Option::None => best_child_upto(self@.dag, pan@, cur, i as int) is None,
                },
            decreases self@.dag.blocks.len() - i,
        {
            let parent_matches = opt_eq(self.blocks[i].parent, cur);
            if parent_matches {
                let wi = self.sup_weight(pan, i);
                if wi > 0 {
                    match best {
                        Option::None => {
                            best = Option::Some(i);
                            wbest = wi;
                        },
                        Option::Some(j) => {
                            let take = wi > wbest || (wi == wbest && lex_less(
                                &self.blocks[j].hash.bytes,
                                &self.blocks[i].hash.bytes,
                            ));
                            if take {
                                best = Option::Some(i);
                                wbest = wi;
                            }
                        },
                    }
                }
            }
            i = i + 1;
        }
        best
    }

    /// The fork-choice head as seen from an arbitrary panorama: repeatedly
    /// descend to the child with the greatest supporting weight.
    pub fn fork_choice_from(&self, pan: &Panorama) -> (r: Option<usize>)
        requires
            wf(self@),
            pan@.len() == self@.dag.weights.len(),
        ensures
            r == spec_fork_choice(self@.dag, pan@),
            r matches Some(c) ==> c < self@.dag.blocks.len(),
    {
        let mut cur: Option<usize> = Option::None;
        loop
            invariant
                wf(self@),
                pan@.len() == self@.dag.weights.len(),
                cur matches Some(c) ==> c < self@.dag.blocks.len(),
                opt_height(self@.dag, cur) <= self@.dag.blocks.len(),
                spec_fc(self@.dag, pan@, cur) == spec_fc(self@.dag, pan@, Option::None),
            decreases self@.dag.blocks.len() - opt_height(self@.dag, cur),
        {
            match self.best_child_exec(pan, cur) {
                Option::None => {
                    return cur;
                },
                Option::Some(c) => {
                    proof {
                        lemma_best_child_props(self@.dag, pan@, cur, self@.dag.blocks.len() as int);
                        assert(self@.dag.blocks[c as int].parent == cur);
                    }
                    cur = Option::Some(c);
                },
            }
        }
    }

    /// The fork-choice head implied by all known units.
    pub fn fork_choice(&self) -> (r: Option<usize>)
        requires
            wf(self@),
        ensures
            r == spec_fork_choice(self@.dag, self@.dag.panorama),
            r matches Some(c) ==> c < self@.dag.blocks.len(),
    {
        self.fork_choice_from(&self.panorama)
    }
}

impl State {
    /// Marks a validator faulty in the current panorama (initial faults or
    /// newly found evidence); never downgraded afterwards.
    #[verifier::spinoff_prover]
    #[verifier::rlimit(80)]
    pub fn mark_faulty_validator(&mut self, idx: usize)
        requires
            wf(old(self)@),
            idx < old(self)@.dag.weights.len(),
        ensures
            wf(final(self)@),
            final(self)@.params == old(self)@.params,
            final(self)@.dag.weights == old(self)@.dag.weights,
            final(self)@.dag.units == old(self)@.dag.units,
            final(self)@.dag.blocks == old(self)@.dag.blocks,
            final(self)@.evidence == old(self)@.evidence,
            final(self)@.endorsements == old(self)@.endorsements,
            final(self)@.finalized == old(self)@.finalized,
            final(self)@.dag.panorama.len() == old(self)@.dag.panorama.len(),
            final(self)@.dag.panorama[idx as int] is Faulty,
            forall|j: int|
                0 <= j < old(self)@.dag.panorama.len() && j != idx ==> final(self)@.dag.panorama[j]
                    == old(self)@.dag.panorama[j],
    {
        self.panorama.mark_faulty(idx);
    }

    /// Inserts a fully validated, dependency-resolved, conflict-free unit.
    /// The store is append-only: everything already present is unchanged,
    /// and the finalized chain is untouched.
    #[verifier::spinoff_prover]
    #[verifier::rlimit(80)]
    pub fn add_unit(&mut self, swu: SignedWireUnit, hash: UnitHash)
        requires
            wf(old(self)@),
            swu@.unit.creator.0 < old(self)@.dag.weights.len(),
            swu@.unit.panorama.len() == old(self)@.dag.weights.len(),
            spec_find_unit(old(self)@.dag, hash@) is None,
        ensures
            wf(final(self)@),
            final(self)@.params == old(self)@.params,
            final(self)@.dag.weights == old(self)@.dag.weights,
            final(self)@.evidence == old(self)@.evidence,
            final(self)@.endorsements == old(self)@.endorsements,
            final(self)@.finalized == old(self)@.finalized,
            final(self)@.dag.units.len() == old(self)@.dag.units.len() + 1,
            final(self)@.dag.units.subrange(0, old(self)@.dag.units.len() as int) == old(self)@.dag.units,
            final(self)@.dag.units.last().hash == hash@,
            final(self)@.dag.units.last().swu == swu@,
            spec_find_unit(final(self)@.dag, hash@) == Option::Some(old(self)@.dag.units.len() as int),
            final(self)@.dag.panorama.len() == old(self)@.dag.panorama.len(),
            forall|j: int|
                0 <= j < old(self)@.dag.panorama.len() && j != swu@.unit.creator.0 ==> final(self)@.dag.panorama[j] == old(self)@.dag.panorama[j],
            old(self)@.dag.panorama[swu@.unit.creator.0 as int] is Faulty ==> final(self)@.dag.panorama[swu@.unit.creator.0 as int] is Faulty,
            !(old(self)@.dag.panorama[swu@.unit.creator.0 as int] is Faulty) ==> final(self)@.dag.panorama[swu@.unit.creator.0 as int] == ObsView::Correct(hash@),
            swu@.unit.value is None ==> final(self)@.dag.blocks == old(self)@.dag.blocks,
            final(self)@.dag.units.last().vote == (if swu@.unit.value is Some {
                Option::Some(old(self)@.dag.blocks.len() as usize)
            } else {
                spec_fork_choice(old(self)@.dag, swu@.unit.panorama)
            }),
            swu@.unit.value is Some ==> final(self)@.dag.blocks.last().parent == spec_fork_choice(
                old(self)@.dag,
                swu@.unit.panorama,
            ) && final(self)@.dag.blocks.last().height == opt_height(
                old(self)@.dag,
                spec_fork_choice(old(self)@.dag, swu@.unit.panorama),
            ),
            swu@.unit.value is Some ==> final(self)@.dag.blocks.len() == old(self)@.dag.blocks.len() + 1
                && final(self)@.dag.blocks.subrange(0, old(self)@.dag.blocks.len() as int) == old(self)@.dag.blocks && final(self)@.dag.blocks.last().hash == hash@ && final(self)@.dag.blocks.last().payload == swu@.unit.value.unwrap(),
    {
        let ghost old_s = self@;
        let creator = swu.unit.creator;
        let nvals: usize = self.weights.len();
        let cidx = creator.0 as usize;
        proof {
            assert(creator.0 < nvals as u64);
            assert(cidx as int == creator.0 as int);
        }
        let h_for_pan = hash.duplicate();
        let vote: Option<usize>;
        match &swu.unit.value {
            Option::None => {
                vote = self.fork_choice_from(&swu.unit.panorama);
                assert(self@.dag.blocks =~= old_s.dag.blocks);
            },
            Option::Some(payload) => {
                let parent = self.fork_choice_from(&swu.unit.panorama);
                let bl: usize = self.blocks.len();
                let height: u64 = match parent {
                    Option::Some(p) => {
                        assert(p < bl);
                        assert(self@.dag.blocks[p as int].height <= p);
                        self.blocks[p].height + 1
                    },
                    Option::None => 0,
                };
                let b = BlockMeta {
                    hash: hash.duplicate(),
                    parent,
                    height,
                    payload: crate::base::copy_bytes(payload),
                };
                let newidx = self.blocks.len();
                self.blocks.push(b);
                vote = Option::Some(newidx);
                assert(self@.dag.blocks =~= old_s.dag.blocks.push(
                    BlockView {
                        hash: hash@,
                        parent,
                        height,
                        payload: swu@.unit.value.unwrap(),
                    },
                ));
            },
        }
        let ghost swu_v = swu@;
        let ghost hv = hash@;
        let rec = UnitRecord { hash, swu, vote };
        self.units.push(rec);
        self.panorama.observe_correct(cidx, h_for_pan);
        proof {
            let s2 = self@;
            let newrec = UnitRecView { hash: hv, swu: swu_v, vote };
            assert(s2.dag.units =~= old_s.dag.units.push(newrec));
            assert(s2.dag.units.subrange(0, old_s.dag.units.len() as int) =~= old_s.dag.units);
            assert(s2.dag.blocks == self@.dag.blocks);
            lemma_find_none(old_s.dag, hv, 0);
            assert(forall|j: int|
                0 <= j < s2.dag.units.len() - 1 ==> (#[trigger] s2.dag.units[j].hash) == old_s.dag.units[j].hash
                    && old_s.dag.units[j].hash != hv);
            lemma_find_last(s2.dag, hv, 0);
            assert(wf(s2)) by {
                assert(forall|i: int|
                    0 <= i < s2.dag.blocks.len() ==> s2.dag.blocks[i] == if i < old_s.dag.blocks.len() {
                        old_s.dag.blocks[i]
                    } else {
                        s2.dag.blocks[i]
                    });
                assert(forall|i: int|
                    0 <= i < s2.dag.units.len() - 1 ==> (#[trigger] s2.dag.units[i]) == old_s.dag.units[i]);
            }
        }
    }
}

/// Whether validator `v`'s latest unit observes a correct unit of `w`.
pub open spec fn observes(d: DagView, v: int, w: int) -> bool {
    0 <= v < d.panorama.len() && match d.panorama[v] {
        ObsView::Correct(h) => match spec_find_unit(d, h) {
            Option::Some(i) => 0 <= w < d.units[i].swu.unit.panorama.len()
                && d.units[i].swu.unit.panorama[w] is Correct,
            Option::None => false,
        },
        _ => false,
    }
}

/// Whether validator `v` confirms block `b` at summit level `k`: at level
/// zero its latest unit supports `b`; at level `k` it confirms at `k - 1`
/// and observes a quorum of validators confirming at `k - 1`.
pub open spec fn conf_at(d: DagView, b: int, v: int, k: nat) -> bool
    decreases k, 0int,
{
    if k == 0 {
        validator_supports(d, d.panorama, b, v)
    } else {
        conf_at(d, b, v, (k - 1) as nat) && conf_obs_weight_upto(
            d,
            b,
            (k - 1) as nat,
            v,
            d.weights.len() as int,
        ) >= spec_quorum(d)
    }
}

/// Weight of the validators among the first `n` that `v` observes and that
/// confirm `b` at level `k`.
pub open spec fn conf_obs_weight_upto(d: DagView, b: int, k: nat, v: int, n: int) -> int
    decreases k, n + 1,
{
    if n <= 0 {
        0
    } else {
        conf_obs_weight_upto(d, b, k, v, n - 1) + if observes(d, v, n - 1) && conf_at(
            d,
            b,
            n - 1,
            k,
        ) {
            d.weights[n - 1]
        } else {
            0
        }
    }
}

/// Weight of the validators among the first `n` that confirm `b` at level
/// `k`.
pub open spec fn conf_weight_upto(d: DagView, b: int, k: nat, n: int) -> int
    decreases n,
{
    if n <= 0 {
        0
    } else {
        conf_weight_upto(d, b, k, n - 1) + if conf_at(d, b, n - 1, k) {
            d.weights[n - 1]
        } else {
            0
        }
    }
}

/// A summit of the required level stands behind block `b`: the validators
/// confirming `b` at level `lvl` hold at least a quorum of the weight.
pub open spec fn spec_summit_reached(d: DagView, b: int, lvl: u64) -> bool {
    conf_weight_upto(d, b, lvl as nat, d.weights.len() as int) >= spec_quorum(d)
}



impl State {
    /// The summit quorum: total weight minus the fault-tolerance
    /// threshold, which is the largest weight strictly below one third.
    pub fn quorum(&self) -> (r: u64)
        requires
            wf(self@),
        ensures
            r as int == spec_quorum(self@.dag),
    {
        let n = self.weights.len();
        let mut total: u64 = 0;
        let mut v: usize = 0;
        while v < n
            invariant
                wf(self@),
                n == self@.dag.weights.len(),
                v <= n,
                total == wsum_upto(self@.dag.weights, v as int),
            decreases n - v,
        {
            proof {
                lemma_wsum_mono(self@.dag.weights, v as int + 1, n as int);
            }
            total = total + self.weights[v];
            v = v + 1;
        }
        let ftt = if total == 0 {
            0
        } else {
            (total - 1) / 3
        };
        total - ftt
    }

    fn observes_exec(&self, v: usize, w: usize) -> (r: bool)
        requires
            wf(self@),
            v < self@.dag.panorama.len(),
            w < self@.dag.weights.len(),
        ensures
            r == observes(self@.dag, v as int, w as int),
    {
        match self.panorama.get(v) {
            Observation::Correct(h) => {
                let hh = h.duplicate();
                match self.find_unit(&hh) {
                    Option::Some(i) => {
                        assert(self@.dag.units[i as int].swu.unit.panorama.len()
                            == self@.dag.weights.len());
                        match self.units[i].swu.unit.panorama.get(w) {
                            Observation::Correct(_) => true,
                            _ => false,
                        }
                    },
                    Option::None => false,
                }
            },
            _ => false,
        }
    }

    /// Whether block `b` has reached summit level `lvl`.
    pub fn summit_reached(&self, b: usize, lvl: u64) -> (r: bool)
        requires
            wf(self@),
            b < self@.dag.blocks.len(),
        ensures
            r == spec_summit_reached(self@.dag, b as int, lvl),
    {
        let n = self.weights.len();
        let q = self.quorum();
        let mut conf: Vec<bool> = Vec::new();
        let mut v: usize = 0;
        while v < n
            invariant
                wf(self@),
                b < self@.dag.blocks.len(),
                n == self@.dag.weights.len(),
                v <= n,
                conf@.len() == v,
                forall|j: int| 0 <= j < v ==> conf@[j] == conf_at(self@.dag, b as int, j, 0),
            decreases n - v,
        {
            conf.push(self.supports_exec(&self.panorama, b, v));
            v = v + 1;
        }
        let mut k: u64 = 0;
        while k < lvl
            invariant
                wf(self@),
                b < self@.dag.blocks.len(),
                n == self@.dag.weights.len(),
                q as int == spec_quorum(self@.dag),
                k <= lvl,
                conf@.len() == n,
                forall|j: int| 0 <= j < n ==> conf@[j] == conf_at(self@.dag, b as int, j, k as nat),
            decreases lvl - k,
        {
            let mut next: Vec<bool> = Vec::new();
            let mut v: usize = 0;
            while v < n
                invariant
                    wf(self@),
                    b < self@.dag.blocks.len(),
                    n == self@.dag.weights.len(),
                    q as int == spec_quorum(self@.dag),
                    k < lvl,
                    v <= n,
                    conf@.len() == n,
                    forall|j: int| 0 <= j < n ==> conf@[j] == conf_at(self@.dag, b as int, j, k as nat),
                    next@.len() == v,
                    forall|j: int|
                        0 <= j < v ==> next@[j] == conf_at(self@.dag, b as int, j, (k + 1) as nat),
                decreases n - v,
            {
                if !conf[v] {
                    next.push(false);
                } else {
                    let mut acc: u64 = 0;
                    let mut w: usize = 0;
                    while w < n
                        invariant
                            wf(self@),
                            b < self@.dag.blocks.len(),
                            n == self@.dag.weights.len(),
                            v < n,
                            w <= n,
                            conf@.len() == n,
                            forall|j: int|
                                0 <= j < n ==> conf@[j] == conf_at(self@.dag, b as int, j, k as nat),
                            acc == conf_obs_weight_upto(self@.dag, b as int, k as nat, v as int, w as int),
                            acc <= wsum_upto(self@.dag.weights, w as int),
                        decreases n - w,
                    {
                        proof {
                            lemma_wsum_mono(self@.dag.weights, w as int + 1, n as int);
                        }
                        if self.observes_exec(v, w) && conf[w] {
                            acc = acc + self.weights[w];
                        }
                        w = w + 1;
                    }
                    next.push(acc >= q);
                }
                v = v + 1;
            }
            conf = next;
            k = k + 1;
        }
        let mut acc: u64 = 0;
        let mut v: usize = 0;
        while v < n
            invariant
                wf(self@),
                b < self@.dag.blocks.len(),
                n == self@.dag.weights.len(),
                v <= n,
                conf@.len() == n,
                forall|j: int| 0 <= j < n ==> conf@[j] == conf_at(self@.dag, b as int, j, lvl as nat),
                acc == conf_weight_upto(self@.dag, b as int, lvl as nat, v as int),
                acc <= wsum_upto(self@.dag.weights, v as int),
            decreases n - v,
        {
            proof {
                lemma_wsum_mono(self@.dag.weights, v as int + 1, n as int);
            }
            if conf[v] {
                acc = acc + self.weights[v];
            }
            v = v + 1;
        }
        acc >= q
    }

    /// Advances finality: extends the finalized chain block by block along
    /// the fork-choice head while each next block has reached the
    /// configured summit level.  Finalization is monotonic: the previously
    /// finalized prefix is never touched.
    #[verifier::rlimit(80)]
    pub fn run_finality(&mut self) -> (newly: Vec<usize>)
        requires
            wf(old(self)@),
        ensures
            wf(final(self)@),
            final(self)@.dag == old(self)@.dag,
            final(self)@.params == old(self)@.params,
            final(self)@.evidence == old(self)@.evidence,
            final(self)@.endorsements == old(self)@.endorsements,
            final(self)@.finalized == old(self)@.finalized + newly@,
            forall|j: int|
                0 <= j < newly@.len() ==> spec_summit_reached(
                    final(self)@.dag,
                    newly@[j] as int,
                    final(self)@.params.finality_level,
                ),
            finality_blocked(final(self)@),
    {
        let ghost old_s = self@;
        let mut newly: Vec<usize> = Vec::new();
        assert(old_s.finalized + newly@ =~= old_s.finalized);
        proof {
            if self@.finalized.len() > 0 {
                let l = self@.finalized.len() - 1;
                assert(self@.dag.blocks[self@.finalized[l] as int].height == l);
                assert(self@.dag.blocks[self@.finalized[l] as int].height <= self@.finalized[l]);
            }
        }
        let head = match self.fork_choice() {
            Option::None => {
                return newly;
            },
            Option::Some(h) => h,
        };
        loop
            invariant
                old_s == old(self)@,
                wf(self@),
                self@.dag == old_s.dag,
                self@.params == old_s.params,
                self@.evidence == old_s.evidence,
                self@.endorsements == old_s.endorsements,
                self@.finalized == old_s.finalized + newly@,
                head < self@.dag.blocks.len(),
                Option::Some(head) == spec_fork_choice(self@.dag, self@.dag.panorama),
                self@.finalized.len() <= self@.dag.blocks.len(),
                forall|j: int|
                    0 <= j < newly@.len() ==> spec_summit_reached(
                        self@.dag,
                        newly@[j] as int,
                        self@.params.finality_level,
                    ),
            decreases self@.dag.blocks.len() - self@.finalized.len(),
        {
            let target_h: usize = self.finalized.len();
            if self.blocks[head].height < target_h as u64 {
                assert(finality_blocked(self@));
                return newly;
            }
            let mut cur: usize = head;
            while self.blocks[cur].height > target_h as u64
                invariant
                    old_s == old(self)@,
                    wf(self@),
                    self@.dag == old_s.dag,
                    self@.params == old_s.params,
                    self@.evidence == old_s.evidence,
                    self@.endorsements == old_s.endorsements,
                    self@.finalized == old_s.finalized + newly@,
                    cur < self@.dag.blocks.len(),
                    self@.dag.blocks[cur as int].height >= target_h as u64,
                    target_h == self@.finalized.len(),
                    head < self@.dag.blocks.len(),
                    Option::Some(head) == spec_fork_choice(self@.dag, self@.dag.panorama),
                    self@.dag.blocks[head as int].height >= target_h as u64,
                    chain_ancestor_at(self@.dag, head as int, target_h as int)
                        == chain_ancestor_at(self@.dag, cur as int, target_h as int),
                    forall|j: int|
                        0 <= j < newly@.len() ==> spec_summit_reached(
                            self@.dag,
                            newly@[j] as int,
                            self@.params.finality_level,
                        ),
                decreases self@.dag.blocks[cur as int].height,
            {
                match self.blocks[cur].parent {
                    Option::Some(p) => {
                        assert(self@.dag.blocks[cur as int].parent == Option::Some(p));
                        assert(chain_ancestor_at(self@.dag, cur as int, target_h as int)
                            == chain_ancestor_at(self@.dag, p as int, target_h as int));
                        cur = p;
                    },
                    Option::None => {
                        proof {
                            assert(self@.dag.blocks[cur as int].parent is None);
                            assert(self@.dag.blocks[cur as int].height == 0);
                            assert(false);
                        }
                        return newly;
                    },
                }
            }
            assert(self@.dag.blocks[cur as int].height == target_h as u64);
            proof {
                assert(chain_ancestor_at(self@.dag, cur as int, target_h as int) == cur as int);
                assert(chain_ancestor_at(self@.dag, head as int, target_h as int) == cur as int);
            }
            let ok = if target_h == 0 {
                true
            } else {
                opt_eq(self.blocks[cur].parent, Option::Some(self.finalized[target_h - 1]))
            };
            if !ok {
                assert(finality_blocked(self@));
                return newly;
            }
            if !self.summit_reached(cur, self.params.finality_level) {
                assert(finality_blocked(self@));
                return newly;
            }
            let ghost pre_fin = self@.finalized;
            self.finalized.push(cur);
            newly.push(cur);
            proof {
                assert(self@.finalized =~= pre_fin.push(cur));
                assert(self@.finalized =~= old_s.finalized + newly@);
                if target_h == 0 {
                    assert(self@.dag.blocks[cur as int].parent is None);
                }
                assert(self@.dag.blocks[cur as int].height <= cur);
                assert(self@.finalized.len() <= self@.dag.blocks.len());
                assert(wf(self@));
            }
        }
    }
}

/// Fork-choice agreement: two stores holding the same DAG choose the same
/// head, whatever evidence, endorsements or finality bookkeeping they
/// carry besides it.
pub proof fn lemma_fork_choice_agreement(a: StateView, b: StateView)
    requires
        a.dag == b.dag,
    ensures
        spec_fork_choice(a.dag, a.dag.panorama) == spec_fork_choice(b.dag, b.dag.panorama),
{
}

/// Finality safety: the finalized chain holds exactly one block per
/// height, so once a block is final at some height, no conflicting block
/// at that height can ever be final in the same instance.
pub proof fn lemma_finalized_unique_per_height(s: StateView, i: int, j: int)
    requires
        wf(s),
        0 <= i < s.finalized.len(),
        0 <= j < s.finalized.len(),
        s.dag.blocks[s.finalized[i] as int].height == s.dag.blocks[s.finalized[j] as int].height,
    ensures
        s.finalized[i] == s.finalized[j],
{
}

/// Finality is never retracted: whenever the finalized chain of a later
/// store extends that of an earlier one (as every operation of this
/// module guarantees), every block finalized earlier is still finalized,
/// at its old height.
pub proof fn lemma_finalized_stays(pre: StateView, post: StateView, h: int)
    requires
        0 <= h < pre.finalized.len(),
        pre.finalized.len() <= post.finalized.len(),
        pre.finalized == post.finalized.subrange(0, pre.finalized.len() as int),
    ensures
        post.finalized[h] == pre.finalized[h],
{
    assert(post.finalized[h] == post.finalized.subrange(0, pre.finalized.len() as int)[h]);
}

/// Why a vertex was rejected outright.
pub enum VertexError {
    /// The creator index is not in the era's registry.
    UnknownCreator,
    /// The sequence number does not follow the creator's own observation.
    SequenceNumber,
    /// The panorama does not have one entry per validator.
    Panorama,
    /// The round exponent lies outside the era's bounds.
    RoundExp,
    /// The two units do not prove an equivocation.
    Evidence,
    /// The endorsement is not admissible.
    Endorsement,
}

/// What `add_vertex` did with a vertex.
pub enum AddOutcome {
    /// Accepted and stored.
    Added,
    /// Already known: adding again is a no-op.
    Duplicate,
    /// The unit conflicted with a stored unit of the same creator and
    /// sequence number: evidence was recorded instead.
    Equivocation(Evidence),
    /// A cited unit is not stored yet; the vertex was not added.
    MissingDependency(UnitHash),
    /// Structurally inadmissible; the store is untouched.
    Invalid(VertexError),
}

/// Every unit a panorama or endorsement list cites is already stored.
pub open spec fn deps_present(d: DagView, u: WireUnitView) -> bool {
    &&& forall|i: int|
        0 <= i < u.panorama.len() ==> ((#[trigger] u.panorama[i]) matches ObsView::Correct(h)
            ==> spec_find_unit(d, h) is Some)
    &&& forall|i: int|
        0 <= i < u.endorsed.len() ==> spec_find_unit(d, #[trigger] u.endorsed[i]) is Some
}

/// Whether the store already holds this vertex's information.
pub open spec fn vertex_known(s: StateView, v: VertexView) -> bool {
    match v {
        VertexView::Unit(su) => spec_find_unit(
            s.dag,
            crate::crypto::hash_of(enc_wire_unit(su.unit)),
        ) is Some,
        VertexView::Evidence(e) => e.unit1.unit.creator.0 < s.dag.panorama.len()
            && s.dag.panorama[e.unit1.unit.creator.0 as int] is Faulty,
        VertexView::Endorsement(e) => exists|i: int|
            0 <= i < s.endorsements.len() && (#[trigger] s.endorsements[i]).unit_hash == e.unit_hash
                && s.endorsements[i].validator == e.validator,
    }
}

/// A stored unit by the same creator at the same sequence number but
/// with a different hash.
pub open spec fn has_conflict(s: StateView, c: ValidatorIndex, seq: u64, h: Seq<u8>) -> bool {
    exists|i: int|
        0 <= i < s.dag.units.len() && (#[trigger] s.dag.units[i]).swu.unit.creator == c
            && s.dag.units[i].swu.unit.seq_number == seq && s.dag.units[i].hash != h
}

/// The endorsed hashes stand in the canonical set form: strictly
/// increasing, so no duplicates and no order ambiguity can make two
/// units with the same endorsement set hash differently.
pub open spec fn endorsed_canonical(u: WireUnitView) -> bool {
    forall|k: int|
        0 <= k < u.endorsed.len() - 1 ==> spec_lex_less(
            #[trigger] u.endorsed[k],
            u.endorsed[k + 1],
        )
}

/// The checks a unit passes before the conflict and sequence checks:
/// fresh hash, round exponent in bounds, registered creator, full
/// panorama, canonical endorsement set, and every cited unit present.
pub open spec fn unit_passes_checks(s: StateView, su: SignedWireUnitView) -> bool {
    &&& spec_find_unit(s.dag, crate::crypto::hash_of(enc_wire_unit(su.unit))) is None
    &&& s.params.min_round_exp <= su.unit.round_exp
    &&& su.unit.round_exp <= s.params.max_round_exp
    &&& su.unit.creator.0 < s.dag.weights.len()
    &&& su.unit.panorama.len() == s.dag.weights.len()
    &&& endorsed_canonical(su.unit)
    &&& deps_present(s.dag, su.unit)
}

/// A fresh unit the store is obliged to accept.
pub open spec fn unit_admissible(s: StateView, su: SignedWireUnitView) -> bool {
    &&& unit_passes_checks(s, su)
    &&& !has_conflict(
        s,
        su.unit.creator,
        su.unit.seq_number,
        crate::crypto::hash_of(enc_wire_unit(su.unit)),
    )
    &&& su.unit.seq_number == spec_next_seq(s.dag, su.unit.panorama, su.unit.creator)
}

/// Evidence the store is obliged to accept: a registered, not yet faulty
/// creator and two distinct same-sequence units of its own.
pub open spec fn evidence_admissible(s: StateView, e: EvidenceView) -> bool {
    &&& e.unit1.unit.creator.0 < s.dag.weights.len()
    &&& s.dag.panorama.len() == s.dag.weights.len()
    &&& !(s.dag.panorama[e.unit1.unit.creator.0 as int] is Faulty)
    &&& e.unit2.unit.creator == e.unit1.unit.creator
    &&& e.unit2.unit.seq_number == e.unit1.unit.seq_number
    &&& crate::crypto::hash_of(enc_wire_unit(e.unit1.unit)) != crate::crypto::hash_of(
        enc_wire_unit(e.unit2.unit),
    )
}

/// An endorsement the store is obliged to accept.
pub open spec fn endorsement_admissible(s: StateView, e: EndorsementView) -> bool {
    &&& !vertex_known(s, VertexView::Endorsement(e))
    &&& e.validator.0 < s.dag.weights.len()
    &&& spec_find_unit(s.dag, e.unit_hash) is Some
}

/// A unit found by the scan is still found after the store has grown.
pub proof fn lemma_find_monotone(pre: DagView, post: DagView, h: Seq<u8>, j: int)
    requires
        0 <= j,
        spec_find_unit_from(pre, h, j) is Some,
        post.units.len() >= pre.units.len(),
        forall|k: int| 0 <= k < pre.units.len() ==> post.units[k] == pre.units[k],
    ensures
        spec_find_unit_from(post, h, j) is Some,
    decreases pre.units.len() - j,
{
    if j < pre.units.len() {
        if pre.units[j].hash != h {
            lemma_find_monotone(pre, post, h, j + 1);
        }
    }
}

/// Whatever the store knows, it still knows after it has grown: units,
/// endorsements and fault flags are never forgotten.
pub proof fn lemma_known_monotone(pre: StateView, post: StateView, v: VertexView)
    requires
        vertex_known(pre, v),
        post.dag.units.len() >= pre.dag.units.len(),
        forall|k: int| 0 <= k < pre.dag.units.len() ==> post.dag.units[k] == pre.dag.units[k],
        post.endorsements.len() >= pre.endorsements.len(),
        forall|k: int|
            0 <= k < pre.endorsements.len() ==> post.endorsements[k] == pre.endorsements[k],
        post.dag.panorama.len() == pre.dag.panorama.len(),
        forall|k: int|
            0 <= k < pre.dag.panorama.len() && pre.dag.panorama[k] is Faulty
                ==> post.dag.panorama[k] is Faulty,
    ensures
        vertex_known(post, v),
{
    match v {
        VertexView::Unit(su) => {
            lemma_find_monotone(
                pre.dag,
                post.dag,
                crate::crypto::hash_of(enc_wire_unit(su.unit)),
                0,
            );
        },
        VertexView::Evidence(e) => {},
        VertexView::Endorsement(e) => {
            let i = choose|i: int|
                0 <= i < pre.endorsements.len() && (#[trigger] pre.endorsements[i]).unit_hash
                    == e.unit_hash && pre.endorsements[i].validator == e.validator;
            assert(post.endorsements[i] == pre.endorsements[i]);
        },
    }
}

impl State {
    fn first_missing_dep(&self, u: &WireUnit) -> (r: Option<UnitHash>)
        ensures
            r is None ==> deps_present(self@.dag, u@),
            r matches Some(h) ==> spec_find_unit(self@.dag, h@) is None,
            r is Some ==> !deps_present(self@.dag, u@),
    {
        let mut i: usize = 0;
        while i < u.panorama.len()
            invariant
                i <= u@.panorama.len(),
                forall|j: int|
                    0 <= j < i ==> ((#[trigger] u@.panorama[j]) matches ObsView::Correct(h)
                        ==> spec_find_unit(self@.dag, h) is Some),
            decreases u@.panorama.len() - i,
        {
            match u.panorama.get(i) {
                Observation::Correct(h) => {
                    let hh = h.duplicate();
                    if !self.has_unit(&hh) {
                        proof {
                            assert(u@.panorama[i as int] == ObsView::Correct(hh@));
                            assert(!deps_present(self@.dag, u@));
                        }
                        return Some(hh);
                    }
                },
                _ => {},
            }
            i = i + 1;
        }
        let mut i: usize = 0;
        while i < u.endorsed.len()
            invariant
                i <= u@.endorsed.len(),
                forall|j: int|
                    0 <= j < i ==> spec_find_unit(self@.dag, #[trigger] u@.endorsed[j]) is Some,
                forall|j: int|
                    0 <= j < u@.panorama.len() ==> ((#[trigger] u@.panorama[j]) matches
                        ObsView::Correct(h) ==> spec_find_unit(self@.dag, h) is Some),
            decreases u@.endorsed.len() - i,
        {
            let hh = u.endorsed[i].duplicate();
            if !self.has_unit(&hh) {
                proof {
                    assert(u@.endorsed[i as int] == hh@);
                    assert(!deps_present(self@.dag, u@));
                }
                return Some(hh);
            }
            i = i + 1;
        }
        None
    }

    fn endorsement_known(&self, e: &SignedEndorsement) -> (r: bool)
        ensures
            r == (exists|i: int|
                0 <= i < self@.endorsements.len() && (#[trigger] self@.endorsements[i]).unit_hash
                    == e@.unit_hash && self@.endorsements[i].validator == e@.validator),
    {
        let mut i: usize = 0;
        while i < self.endorsements.len()
            invariant
                i <= self@.endorsements.len(),
                forall|j: int|
                    0 <= j < i ==> !((#[trigger] self@.endorsements[j]).unit_hash == e@.unit_hash
                        && self@.endorsements[j].validator == e@.validator),
            decreases self@.endorsements.len() - i,
        {
            if self.endorsements[i].unit_hash.eq_hash(&e.unit_hash) && self.endorsements[i].validator.0
                == e.validator.0 {
                assert(self@.endorsements[i as int].validator == e@.validator);
                return true;
            }
            i = i + 1;
        }
        false
    }

    /// Inserts any vertex: idempotent (a known vertex is a no-op, never an
    /// error), append-only, and rejecting inadmissible vertices with the
    /// store left untouched.  A unit conflicting with a stored unit of the
    /// same creator and sequence number yields equivocation evidence and
    /// marks the creator faulty.
    #[verifier::rlimit(80)]
    pub fn add_vertex(&mut self, v: Vertex) -> (r: AddOutcome)
        requires
            wf(old(self)@),
        ensures
            wf(final(self)@),
            final(self)@.params == old(self)@.params,
            final(self)@.dag.weights == old(self)@.dag.weights,
            final(self)@.finalized == old(self)@.finalized,
            final(self)@.dag.units.len() >= old(self)@.dag.units.len(),
            forall|k: int|
                0 <= k < old(self)@.dag.units.len() ==> final(self)@.dag.units[k] == old(self)@.dag.units[k],
            final(self)@.dag.blocks.len() >= old(self)@.dag.blocks.len(),
            forall|k: int|
                0 <= k < old(self)@.dag.blocks.len() ==> final(self)@.dag.blocks[k] == old(self)@.dag.blocks[k],
            final(self)@.evidence.len() >= old(self)@.evidence.len(),
            forall|k: int|
                0 <= k < old(self)@.evidence.len() ==> final(self)@.evidence[k] == old(self)@.evidence[k],
            final(self)@.endorsements.len() >= old(self)@.endorsements.len(),
            forall|k: int|
                0 <= k < old(self)@.endorsements.len() ==> final(self)@.endorsements[k] == old(self)@.endorsements[k],
            final(self)@.dag.panorama.len() == old(self)@.dag.panorama.len(),
            forall|k: int|
                0 <= k < old(self)@.dag.panorama.len() && old(self)@.dag.panorama[k] is Faulty
                    ==> final(self)@.dag.panorama[k] is Faulty,
            vertex_known(old(self)@, v@) <==> r is Duplicate,
            r is Duplicate ==> *final(self) == *old(self),
            r matches AddOutcome::Invalid(err) ==> *final(self) == *old(self),
            r matches AddOutcome::MissingDependency(d) ==> *final(self) == *old(self)
                && spec_find_unit(old(self)@.dag, d@) is None,
            r is Added ==> vertex_known(final(self)@, v@),
            v@ matches VertexView::Unit(su) ==> (!vertex_known(old(self)@, v@) && (su.unit.round_exp
                < old(self)@.params.min_round_exp || su.unit.round_exp > old(self)@.params.max_round_exp) ==> r == AddOutcome::Invalid(VertexError::RoundExp)),
            r matches AddOutcome::Equivocation(ev) ==> (v@ matches VertexView::Unit(su) && {
                &&& su.unit.creator.0 < final(self)@.dag.panorama.len()
                &&& final(self)@.dag.panorama[su.unit.creator.0 as int] is Faulty
                &&& final(self)@.evidence.len() == old(self)@.evidence.len() + 1
                &&& final(self)@.evidence.last() == ev@
                &&& ev@.unit2 == su
                &&& ev@.unit1.unit.creator == su.unit.creator
                &&& ev@.unit1.unit.seq_number == su.unit.seq_number
            }),
            v@ matches VertexView::Unit(su) ==> (unit_admissible(old(self)@, su) ==> r is Added),
            v@ matches VertexView::Unit(su) ==> ((unit_passes_checks(old(self)@, su)
                && has_conflict(
                old(self)@,
                su.unit.creator,
                su.unit.seq_number,
                crate::crypto::hash_of(enc_wire_unit(su.unit)),
            )) ==> r is Equivocation),
            v@ matches VertexView::Unit(su) ==> ((!vertex_known(old(self)@, v@)
                && old(self)@.params.min_round_exp <= su.unit.round_exp && su.unit.round_exp <= old(self)@.params.max_round_exp && su.unit.creator.0 < old(self)@.dag.weights.len()
                && su.unit.panorama.len() == old(self)@.dag.weights.len() && endorsed_canonical(
                su.unit,
            ) && !deps_present(old(self)@.dag, su.unit)) ==> r is MissingDependency),
            v@ matches VertexView::Unit(su) ==> ((unit_passes_checks(old(self)@, su)
                && !has_conflict(
                old(self)@,
                su.unit.creator,
                su.unit.seq_number,
                crate::crypto::hash_of(enc_wire_unit(su.unit)),
            ) && su.unit.seq_number != spec_next_seq(
                old(self)@.dag,
                su.unit.panorama,
                su.unit.creator,
            )) ==> r == AddOutcome::Invalid(VertexError::SequenceNumber)),
            v@ matches VertexView::Unit(su) ==> (r is Added ==> {
                let h = crate::crypto::hash_of(enc_wire_unit(su.unit));
                &&& final(self)@.dag.units.len() == old(self)@.dag.units.len() + 1
                &&& final(self)@.dag.units.last().swu == su
                &&& final(self)@.dag.units.last().hash == h
                &&& (su.unit.value is None ==> final(self)@.dag.units.last().vote
                    == spec_fork_choice(old(self)@.dag, su.unit.panorama) && final(self)@.dag.blocks
                    == old(self)@.dag.blocks)
                &&& (su.unit.value is Some ==> final(self)@.dag.units.last().vote == Option::Some(
                    old(self)@.dag.blocks.len() as usize,
                ) && final(self)@.dag.blocks.last().parent == spec_fork_choice(
                    old(self)@.dag,
                    su.unit.panorama,
                ) && final(self)@.dag.blocks.last().height == opt_height(
                    old(self)@.dag,
                    spec_fork_choice(old(self)@.dag, su.unit.panorama),
                ))
                &&& (!(old(self)@.dag.panorama[su.unit.creator.0 as int] is Faulty) ==> final(self)@.dag.panorama[su.unit.creator.0 as int] == ObsView::Correct(h))
            }),
            v@ matches VertexView::Evidence(e) ==> (evidence_admissible(old(self)@, e) ==> r
                is Added),
            v@ matches VertexView::Evidence(e) ==> (r is Added ==> final(self)@.evidence.len()
                == old(self)@.evidence.len() + 1 && final(self)@.evidence.last() == e && final(self)@.dag.panorama[e.unit1.unit.creator.0 as int] is Faulty),
            v@ matches VertexView::Endorsement(e) ==> (endorsement_admissible(old(self)@, e) ==> r
                is Added),
            v@ matches VertexView::Endorsement(e) ==> (r is Added ==> final(self)@.endorsements.len() == old(self)@.endorsements.len() + 1 && final(self)@.endorsements.last() == e),
    {
        match v {
            Vertex::Unit(su) => {
                let h = crate::codec::hash_unit(&su.unit);
                if self.has_unit(&h) {
                    return AddOutcome::Duplicate;
                }
                if su.unit.round_exp < self.params.min_round_exp || su.unit.round_exp
                    > self.params.max_round_exp {
                    return AddOutcome::Invalid(VertexError::RoundExp);
                }
                if su.unit.creator.0 >= self.weights.len() as u64 {
                    return AddOutcome::Invalid(VertexError::UnknownCreator);
                }
                if su.unit.panorama.len() != self.weights.len() {
                    return AddOutcome::Invalid(VertexError::Panorama);
                }
                if !endorsed_in_canonical_order(&su.unit.endorsed) {
                    proof {
                        let hs = su.unit.endorsed@;
                        assert(exists|k: int|
                            0 <= k < hs.len() - 1 && !spec_lex_less(
                                (#[trigger] hs[k])@,
                                hs[k + 1]@,
                            ));
                        let k = choose|k: int|
                            0 <= k < hs.len() - 1 && !spec_lex_less(
                                (#[trigger] hs[k])@,
                                hs[k + 1]@,
                            );
                        assert(su@.unit.endorsed[k] == hs[k]@);
                        assert(su@.unit.endorsed[k + 1] == hs[k + 1]@);
                        assert(!endorsed_canonical(su@.unit));
                    }
                    return AddOutcome::Invalid(VertexError::Endorsement);
                }
                proof {
                    assert forall|k: int|
                        0 <= k < su@.unit.endorsed.len() - 1 implies spec_lex_less(
                        #[trigger] su@.unit.endorsed[k],
                        su@.unit.endorsed[k + 1],
                    ) by {
                        assert(su@.unit.endorsed[k] == su.unit.endorsed@[k]@);
                        assert(su@.unit.endorsed[k + 1] == su.unit.endorsed@[k + 1]@);
                    }
                    assert(endorsed_canonical(su@.unit));
                }
                match self.first_missing_dep(&su.unit) {
                    Option::Some(d) => {
                        return AddOutcome::MissingDependency(d);
                    },
                    Option::None => {},
                }
                match self.find_conflict(su.unit.creator, su.unit.seq_number, &h) {
                    Option::Some(ci) => {
                        let stored = self.units[ci].swu.duplicate();
                        let ghost old_s = self@;
                        let ev = Evidence { unit1: stored, unit2: su };
                        let nvals: usize = self.weights.len();
                        let cidx = ev.unit2.unit.creator.0 as usize;
                        proof {
                            assert(ev.unit2.unit.creator.0 < nvals as u64);
                            assert(cidx as int == ev.unit2.unit.creator.0 as int);
                        }
                        self.evidence.push(ev.duplicate());
                        self.panorama.mark_faulty(cidx);
                        proof {
                            assert(self@.evidence =~= old_s.evidence.push(ev@));
                            assert(self@.dag.units =~= old_s.dag.units);
                            assert(self@.dag.blocks =~= old_s.dag.blocks);
                            assert(self@.endorsements =~= old_s.endorsements);
                        }
                        return AddOutcome::Equivocation(ev);
                    },
                    Option::None => {},
                }
                let ns = self.next_seq_num(&su.unit.panorama, su.unit.creator);
                if su.unit.seq_number != ns {
                    return AddOutcome::Invalid(VertexError::SequenceNumber);
                }
                let ghost suv = su@;
                self.add_unit(su, h);
                proof {
                    assert(forall|k: int|
                        0 <= k < old(self)@.dag.units.len() ==> self@.dag.units[k] == self@.dag.units.subrange(
                            0,
                            old(self)@.dag.units.len() as int,
                        )[k]);
                    if suv.unit.value is Some {
                        assert(forall|k: int|
                            0 <= k < old(self)@.dag.blocks.len() ==> self@.dag.blocks[k]
                                == self@.dag.blocks.subrange(
                                0,
                                old(self)@.dag.blocks.len() as int,
                            )[k]);
                    }
                }
                AddOutcome::Added
            },
            Vertex::Evidence(ev) => {
                let c = ev.unit1.unit.creator;
                if c.0 >= self.weights.len() as u64 {
                    return AddOutcome::Invalid(VertexError::UnknownCreator);
                }
                let nvals: usize = self.weights.len();
                let cidx = c.0 as usize;
                proof {
                    assert(c.0 < nvals as u64);
                    assert(cidx as int == c.0 as int);
                }
                let already = match self.panorama.get(cidx) {
                    Observation::Faulty => true,
                    _ => false,
                };
                if already {
                    return AddOutcome::Duplicate;
                }
                if ev.unit2.unit.creator.0 != c.0 {
                    return AddOutcome::Invalid(VertexError::Evidence);
                }
                if ev.unit1.unit.seq_number != ev.unit2.unit.seq_number {
                    return AddOutcome::Invalid(VertexError::Evidence);
                }
                let h1 = crate::codec::hash_unit(&ev.unit1.unit);
                let h2 = crate::codec::hash_unit(&ev.unit2.unit);
                if h1.eq_hash(&h2) {
                    return AddOutcome::Invalid(VertexError::Evidence);
                }
                let ghost old_s = self@;
                let ghost evv = ev@;
                self.evidence.push(ev);
                self.panorama.mark_faulty(cidx);
                proof {
                    assert(self@.evidence =~= old_s.evidence.push(evv));
                    assert(self@.dag.units =~= old_s.dag.units);
                    assert(self@.dag.blocks =~= old_s.dag.blocks);
                    assert(self@.endorsements =~= old_s.endorsements);
                }
                AddOutcome::Added
            },
            Vertex::Endorsement(e) => {
                if self.endorsement_known(&e) {
                    return AddOutcome::Duplicate;
                }
                if e.validator.0 >= self.weights.len() as u64 {
                    return AddOutcome::Invalid(VertexError::Endorsement);
                }
                let hh = e.unit_hash.duplicate();
                if !self.has_unit(&hh) {
                    return AddOutcome::MissingDependency(hh);
                }
                let ghost old_s = self@;
                let ghost evw = e@;
                self.endorsements.push(e);
                proof {
                    assert(self@.endorsements =~= old_s.endorsements.push(evw));
                    assert(self@.dag.units =~= old_s.dag.units);
                    assert(self@.dag.blocks =~= old_s.dag.blocks);
                    assert(self@.evidence =~= old_s.evidence);
                    assert(self@.endorsements.last() == evw);
                }
                AddOutcome::Added
            },
        }
    }

    /// Replays a write-ahead-log record sequence through `add_vertex`.
    /// Replaying records the store already holds leaves it bit-identical:
    /// together with `add_vertex`'s own idempotence this makes crash
    /// recovery a plain fold over the log.
    pub fn replay(&mut self, records: &Vec<Vertex>)
        requires
            wf(old(self)@),
        ensures
            wf(final(self)@),
            final(self)@.params == old(self)@.params,
            final(self)@.dag.weights == old(self)@.dag.weights,
            final(self)@.finalized == old(self)@.finalized,
            final(self)@.dag.units.len() >= old(self)@.dag.units.len(),
            forall|k: int|
                0 <= k < old(self)@.dag.units.len() ==> final(self)@.dag.units[k] == old(self)@.dag.units[k],
            final(self)@.dag.blocks.len() >= old(self)@.dag.blocks.len(),
            forall|k: int|
                0 <= k < old(self)@.dag.blocks.len() ==> final(self)@.dag.blocks[k] == old(self)@.dag.blocks[k],
            final(self)@.evidence.len() >= old(self)@.evidence.len(),
            forall|k: int|
                0 <= k < old(self)@.evidence.len() ==> final(self)@.evidence[k] == old(self)@.evidence[k],
            final(self)@.endorsements.len() >= old(self)@.endorsements.len(),
            forall|k: int|
                0 <= k < old(self)@.endorsements.len() ==> final(self)@.endorsements[k] == old(self)@.endorsements[k],
            final(self)@.dag.panorama.len() == old(self)@.dag.panorama.len(),
            forall|k: int|
                0 <= k < old(self)@.dag.panorama.len() && old(self)@.dag.panorama[k] is Faulty
                    ==> final(self)@.dag.panorama[k] is Faulty,
            forall|j: int|
                0 <= j < records@.len() && vertex_known(old(self)@, #[trigger] records@[j]@)
                    ==> vertex_known(final(self)@, records@[j]@),
            (forall|j: int|
                0 <= j < records@.len() ==> vertex_known(old(self)@, records@[j]@)) ==> *final(self)
                == *old(self),
    {
        let mut i: usize = 0;
        while i < records.len()
            invariant
                wf(self@),
                i <= records@.len(),
                self@.params == old(self)@.params,
                self@.dag.weights == old(self)@.dag.weights,
                self@.finalized == old(self)@.finalized,
                self@.dag.units.len() >= old(self)@.dag.units.len(),
                forall|k: int|
                    0 <= k < old(self)@.dag.units.len() ==> self@.dag.units[k] == old(self)@.dag.units[k],
                self@.dag.blocks.len() >= old(self)@.dag.blocks.len(),
                forall|k: int|
                    0 <= k < old(self)@.dag.blocks.len() ==> self@.dag.blocks[k] == old(self)@.dag.blocks[k],
                self@.evidence.len() >= old(self)@.evidence.len(),
                forall|k: int|
                    0 <= k < old(self)@.evidence.len() ==> self@.evidence[k] == old(self)@.evidence[k],
                self@.endorsements.len() >= old(self)@.endorsements.len(),
                forall|k: int|
                    0 <= k < old(self)@.endorsements.len() ==> self@.endorsements[k] == old(self)@.endorsements[k],
                self@.dag.panorama.len() == old(self)@.dag.panorama.len(),
                forall|k: int|
                    0 <= k < old(self)@.dag.panorama.len() && old(self)@.dag.panorama[k] is Faulty
                        ==> self@.dag.panorama[k] is Faulty,
                forall|j: int|
                    0 <= j < records@.len() && vertex_known(old(self)@, #[trigger] records@[j]@)
                        ==> vertex_known(self@, records@[j]@),
                (forall|j: int|
                    0 <= j < records@.len() ==> vertex_known(old(self)@, records@[j]@)) ==> *self
                    == *old(self),
            decreases records@.len() - i,
        {
            let v = records[i].duplicate();
            let ghost pre = *self;
            let _ = self.add_vertex(v);
            proof {
                if forall|j: int| 0 <= j < records@.len() ==> vertex_known(old(self)@, records@[j]@) {
                    assert(pre == *old(self));
                    assert(vertex_known(pre@, records@[i as int]@));
                }
                assert(forall|k: int|
                    0 <= k < old(self)@.dag.units.len() ==> self@.dag.units[k] == pre@.dag.units[k]
                        && pre@.dag.units[k] == old(self)@.dag.units[k]);
                assert(forall|k: int|
                    0 <= k < old(self)@.dag.blocks.len() ==> self@.dag.blocks[k] == pre@.dag.blocks[k]
                        && pre@.dag.blocks[k] == old(self)@.dag.blocks[k]);
                assert(forall|k: int|
                    0 <= k < old(self)@.evidence.len() ==> self@.evidence[k] == pre@.evidence[k]
                        && pre@.evidence[k] == old(self)@.evidence[k]);
                assert(forall|k: int|
                    0 <= k < old(self)@.endorsements.len() ==> self@.endorsements[k]
                        == pre@.endorsements[k] && pre@.endorsements[k] == old(self)@.endorsements[k]);
                assert forall|j: int|
                    0 <= j < records@.len() && vertex_known(
                        old(self)@,
                        #[trigger] records@[j]@,
                    ) implies vertex_known(self@, records@[j]@) by {
                    assert(vertex_known(pre@, records@[j]@));
                    lemma_known_monotone(pre@, self@, records@[j]@);
                }
            }
            i = i + 1;
        }
    }
}

/// Appending a weight does not change a prefix sum.
pub proof fn lemma_wsum_push(w: Seq<Weight>, x: Weight, n: int)
    requires
        0 <= n <= w.len(),
    ensures
        wsum_upto(w.push(x), n) == wsum_upto(w, n),
    decreases n,
{
    if n > 0 {
        lemma_wsum_push(w, x, n - 1);
    }
}

} // verus!
