//! The top-level protocol driver: a state machine that turns inbound
//! messages and timer firings into protocol outcomes.
//!
//! The driver performs no I/O itself.  Every externally observable effect
//! — gossip, finalized blocks, disconnects, timers — is returned as a
//! `ProtocolOutcome` for the host to execute.  Undecodable payloads yield
//! exactly a disconnect; units from this node's own signing identity that
//! it did not produce yield `DoppelgangerDetected` before anything else.

use vstd::prelude::*;
use crate::base::{NodeId, Timestamp, Weight, bytes_eq, copy_bytes};
use crate::codec::{decode_message, enc_message, enc_wire_unit, encode_message, hash_unit};
use crate::crypto::{hash_of, sig_valid, verify_sig, ed25519_sign};
use crate::panorama::UnitHash;
use crate::state::{AddOutcome, Params, State, StateView, has_conflict, spec_find_unit,
    spec_next_seq, unit_admissible, unit_passes_checks, vertex_known, wf, wsum_upto};
use crate::synchronizer::{PendingVertex, PendingView, Synchronizer, alive_from, expired_from};
use crate::units::{
    HighwayMessage, MessageView, SignedWireUnit, SignedWireUnitView, Vertex, VertexView, WireUnit,
};

verus! {

/// Action identifier: process one queued, now dependency-free vertex.
pub const ACTION_ID_VERTEX: u32 = 0;

/// Action identifier: log participation, then reschedule itself.
pub const ACTION_ID_LOG_PARTICIPATION: u32 = 1;

/// Action identifier: log the synchronizer queue length, then reschedule.
pub const ACTION_ID_LOG_SYNCHRONIZER_QUEUE: u32 = 2;

/// Action identifier: purge timed-out queued vertices, then reschedule.
pub const ACTION_ID_PURGE_VERTICES: u32 = 3;

/// Action identifier: end of this validator's current round.
pub const ACTION_ID_ROUND: u32 = 4;

/// Interval between participation-log firings, in milliseconds.
pub const LOG_PARTICIPATION_INTERVAL: u64 = 10000;

/// One externally observable effect, executed by the host.
pub enum ProtocolOutcome {
    /// Relay these serialized message bytes to the network.
    CreatedGossipMessage(Vec<u8>),
    /// This block payload is now final.
    FinalizedBlock(Vec<u8>),
    /// A proposed block payload was accepted for handling.
    HandledProposedBlock(Vec<u8>),
    /// Drop the connection to this peer.
    Disconnect(NodeId),
    /// A unit under our own signing identity arrived that we did not
    /// produce; signing has been deactivated.
    DoppelgangerDetected,
    /// Call `handle_action` with this identifier as soon as possible.
    QueueAction(u32),
    /// Call `handle_action` with this identifier at the given time.
    ScheduleTimer(u32, Timestamp),
}

/// Mathematical image of the active signing role.
pub struct ActiveView {
    pub index: u64,
    pub pk: Seq<u8>,
    pub seed: Seq<u8>,
    pub round_exp: u8,
    pub own: Seq<Seq<u8>>,
    pub last_finalized_count: usize,
}

/// This node's signing role, when it is a bonded validator of the era.
/// The signing seed is owned here exclusively and never leaves the role.
pub struct ActiveRole {
    pub index: u64,
    pub pk: Vec<u8>,
    pub seed: Vec<u8>,
    pub round_exp: u8,
    pub own: Vec<UnitHash>,
    pub last_finalized_count: usize,
}

impl View for ActiveRole {
    type V = ActiveView;

    open spec fn view(&self) -> ActiveView {
        ActiveView {
            index: self.index,
            pk: self.pk@,
            seed: self.seed@,
            round_exp: self.round_exp,
            own: self.own@.map_values(|h: UnitHash| h@),
            last_finalized_count: self.last_finalized_count,
        }
    }
}

/// Mathematical image of the whole driver.
pub struct HighwayView {
    pub instance_id: Seq<u8>,
    pub keys: Seq<Seq<u8>>,
    pub state: StateView,
    pub sync: Seq<PendingView>,
    pub ready: Seq<PendingView>,
    pub active: Option<ActiveView>,
}

/// One era's protocol instance.
pub struct HighwayProtocol {
    pub instance_id: Vec<u8>,
    pub keys: Vec<Vec<u8>>,
    pub state: State,
    pub synchronizer: Synchronizer,
    pub ready: Vec<PendingVertex>,
    pub active: Option<ActiveRole>,
}

impl View for HighwayProtocol {
    type V = HighwayView;

    open spec fn view(&self) -> HighwayView {
        HighwayView {
            instance_id: self.instance_id@,
            keys: self.keys@.map_values(|k: Vec<u8>| k@),
            state: self.state@,
            sync: self.synchronizer@,
            ready: self.ready@.map_values(|p: PendingVertex| p@),
            active: match self.active {
                Option::None => Option::None,
                Option::Some(av) => Option::Some(av@),
            },
        }
    }
}

/// Well-formedness of a driver instance.
pub open spec fn wf_protocol(h: HighwayView) -> bool {
    &&& wf(h.state)
    &&& h.keys.len() == h.state.dag.weights.len()
    &&& h.state.params.min_round_exp <= h.state.params.max_round_exp
    &&& h.state.params.max_round_exp < 64
}

/// A unit that passes the driver's authentication checks: registered
/// creator, valid signature over the unit's content hash, and this era's
/// instance identifier.
pub open spec fn unit_presentable(h: HighwayView, su: SignedWireUnitView) -> bool {
    &&& su.unit.creator.0 < h.keys.len()
    &&& sig_valid(
        h.keys[su.unit.creator.0 as int],
        hash_of(enc_wire_unit(su.unit)),
        su.signature,
    )
    &&& su.unit.instance_id == h.instance_id
}

/// An incoming unit claims this node's own active identity but was not
/// produced by this node's signing calls.
pub open spec fn doppelganger(h: HighwayView, su: SignedWireUnitView) -> bool {
    &&& h.active is Some
    &&& su.unit.creator.0 < h.keys.len()
    &&& h.keys[su.unit.creator.0 as int] == h.active.unwrap().pk
    &&& !h.active.unwrap().own.contains(hash_of(enc_wire_unit(su.unit)))
}

/// The finalized chain never shrinks from `pre` to `post`.
pub open spec fn finality_monotone(pre: HighwayView, post: HighwayView) -> bool {
    &&& post.state.finalized.len() >= pre.state.finalized.len()
    &&& forall|k: int|
        0 <= k < pre.state.finalized.len() ==> post.state.finalized[k]
            == pre.state.finalized[k]
}

/// An outcome the valid-unit path may produce: gossip, a finalized or
/// handled block, or queuing the vertex-processing action — never a
/// disconnect, a doppelganger alarm or a stray timer.
pub open spec fn benign_outcome(o: ProtocolOutcome) -> bool {
    match o {
        ProtocolOutcome::CreatedGossipMessage(b) => true,
        ProtocolOutcome::FinalizedBlock(p) => true,
        ProtocolOutcome::HandledProposedBlock(p) => true,
        ProtocolOutcome::QueueAction(a) => a == ACTION_ID_VERTEX,
        _ => false,
    }
}

/// Saturating addition on timestamps.
pub open spec fn spec_sat_add(a: u64, b: u64) -> u64 {
    if a + b <= u64::MAX {
        (a + b) as u64
    } else {
        u64::MAX
    }
}

/// The start of the round after `now` for round length `2^re`.
pub open spec fn spec_next_round_time(now: Timestamp, re: u8) -> Timestamp
    recommends
        re < 64,
{
    let len = (1u64 << re) as int;
    let base = now as int - (now as int % len);
    if base + len <= u64::MAX {
        (base + len) as u64
    } else {
        u64::MAX
    }
}

/// The round exponent this node's next round uses: adapted from the
/// current one by whether finality progressed since the last round.
pub open spec fn spec_round_exp_next(h: HighwayView) -> u8
    recommends
        h.active is Some,
{
    spec_adapted_round_exp(
        h.active.unwrap().round_exp,
        !(h.state.finalized.len() > h.active.unwrap().last_finalized_count),
        h.state.params.min_round_exp,
        h.state.params.max_round_exp,
    )
}

/// The unit this node creates at its round's end: a proposal with an
/// empty payload when it leads the round, a plain vote otherwise.
pub open spec fn spec_round_wire_unit(h: HighwayView, now: Timestamp) -> crate::units::WireUnitView
    recommends
        h.active is Some,
        h.state.params.max_round_exp < 64,
{
    let re2 = spec_round_exp_next(h);
    let creator = crate::base::ValidatorIndex(h.active.unwrap().index);
    crate::units::WireUnitView {
        panorama: h.state.dag.panorama,
        creator,
        instance_id: h.instance_id,
        value: if spec_leader(
            h.state.dag,
            h.state.params.seed,
            (now / (1u64 << re2)) as u64,
        ) == h.active.unwrap().index as int {
            Option::Some(Seq::empty())
        } else {
            Option::<Seq<u8>>::None
        },
        seq_number: spec_next_seq(h.state.dag, h.state.dag.panorama, creator),
        timestamp: now,
        round_exp: re2,
        endorsed: Seq::empty(),
    }
}

/// The signed unit this node creates at its round's end.
pub open spec fn spec_round_unit(h: HighwayView, now: Timestamp) -> SignedWireUnitView {
    let u = spec_round_wire_unit(h, now);
    SignedWireUnitView {
        unit: u,
        signature: crate::crypto::sig_bytes_of(
            h.active.unwrap().seed,
            hash_of(enc_wire_unit(u)),
        ),
    }
}

fn sat_add(a: u64, b: u64) -> (r: u64)
    ensures
        r == spec_sat_add(a, b),
{
    if a <= u64::MAX - b {
        a + b
    } else {
        u64::MAX
    }
}

impl HighwayProtocol {
    /// A fresh era instance.  Returns the driver plus the three initial
    /// self-sustaining timers (participation log, synchronizer-queue log,
    /// synchronizer purge), or `None` if the validator set is unusable
    /// (total weight overflows, or the round-exponent bounds are invalid).
    pub fn new(
        instance_id: Vec<u8>,
        validators: Vec<(Vec<u8>, Weight)>,
        faulty: Vec<u64>,
        params: Params,
        pending_vertex_timeout: u64,
        now: Timestamp,
    ) -> (r: Option<(HighwayProtocol, Vec<ProtocolOutcome>)>)
        ensures
            r matches Some(pr) ==> {
                &&& wf_protocol(pr.0@)
                &&& pr.1@.len() == 3
                &&& pr.0@.state.finalized.len() == 0
                &&& pr.0@.state.dag.units.len() == 0
                &&& pr.0@.active is None
                &&& pr.0@.instance_id == instance_id@
                &&& pr.0@.state.params == params
                &&& pr.0@.keys == validators@.map_values(|p: (Vec<u8>, Weight)| p.0@)
                &&& pr.0@.state.dag.weights == validators@.map_values(
                    |p: (Vec<u8>, Weight)| p.1,
                )
                &&& pr.0@.state.dag.panorama.len() == validators@.len()
                &&& forall|j: int|
                    0 <= j < faulty@.len() && faulty@[j] < validators@.len()
                        ==> pr.0@.state.dag.panorama[faulty@[j] as int] is Faulty
                &&& forall|t: int|
                    0 <= t < validators@.len() && pr.0@.state.dag.panorama[t] is Faulty
                        ==> exists|j: int| 0 <= j < faulty@.len() && faulty@[j] == t
            },
            (params.min_round_exp <= params.max_round_exp && params.max_round_exp < 64
                && wsum_upto(
                validators@.map_values(|p: (Vec<u8>, Weight)| p.1),
                validators@.len() as int,
            ) <= u64::MAX) ==> r is Some,
            r matches Some(pr) ==> pr.1@ =~= seq![
                ProtocolOutcome::ScheduleTimer(
                    ACTION_ID_LOG_PARTICIPATION,
                    spec_sat_add(now, LOG_PARTICIPATION_INTERVAL),
                ),
                ProtocolOutcome::ScheduleTimer(
                    ACTION_ID_LOG_SYNCHRONIZER_QUEUE,
                    spec_sat_add(now, LOG_PARTICIPATION_INTERVAL),
                ),
                ProtocolOutcome::ScheduleTimer(
                    ACTION_ID_PURGE_VERTICES,
                    spec_sat_add(now, pending_vertex_timeout),
                ),
            ],
    {
        let ghost vmap = validators@.map_values(|p: (Vec<u8>, Weight)| p.1);
        if params.min_round_exp > params.max_round_exp || params.max_round_exp >= 64 {
            return None;
        }
        let mut keys: Vec<Vec<u8>> = Vec::new();
        let mut weights: Vec<Weight> = Vec::new();
        let mut total: u64 = 0;
        let mut i: usize = 0;
        while i < validators.len()
            invariant
                vmap == validators@.map_values(|p: (Vec<u8>, Weight)| p.1),
                i <= validators@.len(),
                keys@.len() == i,
                weights@.len() == i,
                forall|k: int| 0 <= k < i ==> weights@[k] == vmap[k],
                forall|k: int| 0 <= k < i ==> keys@[k]@ == validators@[k].0@,
                total == wsum_upto(weights@, weights@.len() as int),
            decreases validators@.len() - i,
        {
            let (pk, w) = (copy_bytes(&validators[i].0), validators[i].1);
            if total > u64::MAX - w {
                proof {
                    crate::state::lemma_wsum_prefix(weights@, vmap, i as int);
                    assert(vmap[i as int] == w);
                    crate::state::lemma_wsum_mono(vmap, i as int + 1, vmap.len() as int);
                    assert(wsum_upto(vmap, vmap.len() as int) > u64::MAX);
                }
                return None;
            }
            total = total + w;
            keys.push(pk);
            let ghost wpre = weights@;
            weights.push(w);
            proof {
                crate::state::lemma_wsum_push(wpre, w, wpre.len() as int);
                assert(weights@ =~= wpre.push(w));
            }
            i = i + 1;
        }
        let ghost ws = weights@;
        proof {
            assert(ws =~= vmap);
        }
        let mut state = State::new(weights, params);
        let mut i: usize = 0;
        while i < faulty.len()
            invariant
                i <= faulty@.len(),
                wf(state@),
                state@.params == params,
                state@.dag.weights == ws,
                state@.finalized.len() == 0,
                state@.dag.units.len() == 0,
                state@.dag.panorama.len() == ws.len(),
                forall|j: int|
                    0 <= j < i && faulty@[j] < ws.len() ==> state@.dag.panorama[faulty@[j] as int]
                        is Faulty,
                forall|t: int|
                    0 <= t < state@.dag.panorama.len() && state@.dag.panorama[t] is Faulty
                        ==> exists|j: int| 0 <= j < i && faulty@[j] == t,
            decreases faulty@.len() - i,
        {
            let idx = faulty[i];
            if idx < state.validator_count() as u64 {
                state.mark_faulty_validator(idx as usize);
            }
            i = i + 1;
        }
        let synchronizer = Synchronizer::new(pending_vertex_timeout);
        let proto = HighwayProtocol {
            instance_id,
            keys,
            state,
            synchronizer,
            ready: Vec::new(),
            active: None,
        };
        proof {
            assert(proto@.keys =~= validators@.map_values(|p: (Vec<u8>, Weight)| p.0@));
            assert(proto@.state.dag.weights =~= vmap);
        }
        let mut outcomes: Vec<ProtocolOutcome> = Vec::new();
        outcomes.push(
            ProtocolOutcome::ScheduleTimer(
                ACTION_ID_LOG_PARTICIPATION,
                sat_add(now, LOG_PARTICIPATION_INTERVAL),
            ),
        );
        outcomes.push(
            ProtocolOutcome::ScheduleTimer(
                ACTION_ID_LOG_SYNCHRONIZER_QUEUE,
                sat_add(now, LOG_PARTICIPATION_INTERVAL),
            ),
        );
        outcomes.push(
            ProtocolOutcome::ScheduleTimer(
                ACTION_ID_PURGE_VERTICES,
                sat_add(now, pending_vertex_timeout),
            ),
        );
        assert(outcomes@ =~= seq![
            ProtocolOutcome::ScheduleTimer(
                ACTION_ID_LOG_PARTICIPATION,
                spec_sat_add(now, LOG_PARTICIPATION_INTERVAL),
            ),
            ProtocolOutcome::ScheduleTimer(
                ACTION_ID_LOG_SYNCHRONIZER_QUEUE,
                spec_sat_add(now, LOG_PARTICIPATION_INTERVAL),
            ),
            ProtocolOutcome::ScheduleTimer(
                ACTION_ID_PURGE_VERTICES,
                spec_sat_add(now, pending_vertex_timeout),
            ),
        ]);
        Some((proto, outcomes))
    }

    /// Whether this node currently holds an active signing role.
    pub fn is_active(&self) -> (r: bool)
        ensures
            r == (self@.active is Some),
    {
        match &self.active {
            Option::Some(_) => true,
            Option::None => false,
        }
    }

    fn find_validator(&self, pk: &Vec<u8>) -> (r: Option<usize>)
        ensures
            r matches Some(i) ==> i < self@.keys.len() && self@.keys[i as int] == pk@,
            r is None ==> forall|i: int| 0 <= i < self@.keys.len() ==> self@.keys[i] != pk@,
    {
        let mut i: usize = 0;
        while i < self.keys.len()
            invariant
                i <= self@.keys.len(),
                forall|j: int| 0 <= j < i ==> self@.keys[j] != pk@,
            decreases self@.keys.len() - i,
        {
            if bytes_eq(&self.keys[i], pk) {
                return Some(i);
            }
            i = i + 1;
        }
        None
    }

    /// Engages this node's signing role for the era, if the key is bonded:
    /// schedules the first round action.  The caller hands over the
    /// Ed25519 seed; it is owned by the role from here on.
    pub fn activate_validator(&mut self, pk: Vec<u8>, seed: Vec<u8>, now: Timestamp) -> (out: Vec<
        ProtocolOutcome,
    >)
        requires
            wf_protocol(old(self)@),
        ensures
            wf_protocol(final(self)@),
            final(self)@.state == old(self)@.state,
            final(self)@.keys == old(self)@.keys,
            final(self)@.instance_id == old(self)@.instance_id,
            (exists|i: int| 0 <= i < old(self)@.keys.len() && old(self)@.keys[i] == pk@) ==> (
            final(self)@.active is Some && out@.len() == 1 && (out@[0] matches
                ProtocolOutcome::ScheduleTimer(a, t) && a == ACTION_ID_ROUND && t
                == spec_next_round_time(now, final(self)@.active.unwrap().round_exp))),
            !(exists|i: int| 0 <= i < old(self)@.keys.len() && old(self)@.keys[i] == pk@) ==> (
            *final(self) == *old(self) && out@ =~= Seq::<ProtocolOutcome>::empty()),
            (exists|i: int| 0 <= i < old(self)@.keys.len() && old(self)@.keys[i] == pk@) ==> (
            final(self)@.active matches Some(av) ==> {
                &&& av.pk == pk@
                &&& av.seed == seed@
                &&& av.own.len() == 0
                &&& av.index < old(self)@.keys.len()
                &&& old(self)@.keys[av.index as int] == pk@
                &&& old(self)@.state.params.min_round_exp <= av.round_exp
                &&& av.round_exp <= old(self)@.state.params.max_round_exp
            }),
    {
        let mut out: Vec<ProtocolOutcome> = Vec::new();
        let idx = match self.find_validator(&pk) {
            Option::Some(i) => i,
            Option::None => {
                assert(out@ =~= Seq::<ProtocolOutcome>::empty());
                return out;
            },
        };
        let mut re = self.state.params.init_round_exp;
        if re < self.state.params.min_round_exp {
            re = self.state.params.min_round_exp;
        }
        if re > self.state.params.max_round_exp {
            re = self.state.params.max_round_exp;
        }
        let role = ActiveRole {
            index: idx as u64,
            pk,
            seed,
            round_exp: re,
            own: Vec::new(),
            last_finalized_count: self.state.finalized.len(),
        };
        self.active = Some(role);
        out.push(ProtocolOutcome::ScheduleTimer(ACTION_ID_ROUND, self.next_round_time(now, re)));
        assert(out@ =~= seq![
            ProtocolOutcome::ScheduleTimer(ACTION_ID_ROUND, spec_next_round_time(now, re)),
        ]);
        out
    }

    /// The start of the next round of length `2^re` after `now`.
    fn next_round_time(&self, now: Timestamp, re: u8) -> (r: Timestamp)
        requires
            re < 64,
        ensures
            r == spec_next_round_time(now, re),
    {
        let len: u64 = 1u64 << re;
        assert(len > 0) by (bit_vector)
            requires
                re < 64 && len == 1u64 << re,
        ;
        proof {
            assert(now % len <= now) by (nonlinear_arith)
                requires
                    len > 0,
            ;
        }
        sat_add(now - (now % len), len)
    }

    /// Handles one inbound network message.  A payload that is not the
    /// canonical encoding of any protocol message — the empty payload in
    /// particular — yields exactly a disconnect of the sender and leaves
    /// the whole instance untouched.
    pub fn handle_message(&mut self, sender: NodeId, msg: &Vec<u8>, now: Timestamp) -> (out: Vec<
        ProtocolOutcome,
    >)
        requires
            wf_protocol(old(self)@),
        ensures
            wf_protocol(final(self)@),
            finality_monotone(old(self)@, final(self)@),
            final(self)@.keys == old(self)@.keys,
            final(self)@.instance_id == old(self)@.instance_id,
            msg@.len() == 0 ==> (out@ =~= seq![ProtocolOutcome::Disconnect(sender)] && *final(self)
                == *old(self)),
            (forall|m: MessageView| enc_message(m) != msg@) ==> (out@ =~= seq![
                ProtocolOutcome::Disconnect(sender),
            ] && *final(self) == *old(self)),
    {
        match decode_message(msg) {
            Option::None => {
                let mut out: Vec<ProtocolOutcome> = Vec::new();
                out.push(ProtocolOutcome::Disconnect(sender));
                assert(out@ =~= seq![ProtocolOutcome::Disconnect(sender)]);
                out
            },
            Option::Some(m) => {
                proof {
                    assert(enc_message(m@) == msg@);
                }
                match m {
                    HighwayMessage::NewVertex(v) => self.handle_vertex(sender, v, now),
                    HighwayMessage::RequestDependency(h) => {
                        let mut out: Vec<ProtocolOutcome> = Vec::new();
                        match self.dependency_response(&h) {
                            Option::Some(bytes) => {
                                out.push(ProtocolOutcome::CreatedGossipMessage(bytes));
                            },
                            Option::None => {},
                        }
                        out
                    },
                }
            },
        }
    }

    /// Answers a dependency request: exactly when the unit is stored, its
    /// gossip message is returned for the requesting peer.
    pub fn dependency_response(&self, h: &UnitHash) -> (r: Option<Vec<u8>>)
        requires
            wf_protocol(self@),
        ensures
            r is Some <==> spec_find_unit(self@.state.dag, h@) is Some,
            r matches Some(b) ==> exists|i: int|
                0 <= i < self@.state.dag.units.len() && (#[trigger] self@.state.dag.units[i]).hash
                    == h@ && b@ == enc_message(
                    MessageView::NewVertex(VertexView::Unit(self@.state.dag.units[i].swu)),
                ),
    {
        match self.state.find_unit(h) {
            Option::Some(i) => {
                proof {
                    crate::state::lemma_find_hash(self@.state.dag, h@, 0);
                }
                let su = self.state.units[i].swu.duplicate();
                let bytes = encode_message(&HighwayMessage::NewVertex(Vertex::Unit(su)));
                proof {
                    assert(self@.state.dag.units[i as int].hash == h@);
                    assert(bytes@ == enc_message(
                        MessageView::NewVertex(VertexView::Unit(self@.state.dag.units[i as int].swu)),
                    ));
                }
                Some(bytes)
            },
            Option::None => None,
        }
    }

    /// Handles one decoded vertex: authentication, doppelganger detection,
    /// DAG insertion, dependency queuing, and finality, in that order.
    /// Once the era has ended the instance is terminated: it accepts no
    /// further vertices and changes nothing.
    pub fn handle_vertex(&mut self, sender: NodeId, v: Vertex, now: Timestamp) -> (out: Vec<
        ProtocolOutcome,
    >)
        requires
            wf_protocol(old(self)@),
        ensures
            wf_protocol(final(self)@),
            finality_monotone(old(self)@, final(self)@),
            final(self)@.keys == old(self)@.keys,
            final(self)@.instance_id == old(self)@.instance_id,
            now >= old(self)@.state.params.end_timestamp ==> (out@ =~= Seq::<
                ProtocolOutcome,
            >::empty() && *final(self) == *old(self)),
            v@ matches VertexView::Unit(su) && now < old(self)@.state.params.end_timestamp
                && !unit_presentable(old(self)@, su) ==> (out@ =~= seq![
                ProtocolOutcome::Disconnect(sender),
            ] && *final(self) == *old(self)),
            v@ matches VertexView::Unit(su) && now < old(self)@.state.params.end_timestamp
                && unit_presentable(old(self)@, su) && doppelganger(
                old(self)@,
                su,
            ) ==> (out@.len() >= 1 && out@[0] == ProtocolOutcome::DoppelgangerDetected && final(self)@.active is None),
            v@ matches VertexView::Unit(su) ==> ((now < old(self)@.state.params.end_timestamp
                && unit_presentable(old(self)@, su) && !doppelganger(old(self)@, su)
                && !vertex_known(old(self)@.state, VertexView::Unit(su)) && (su.unit.round_exp
                < old(self)@.state.params.min_round_exp || su.unit.round_exp > old(self)@.state.params.max_round_exp)) ==> (out@ =~= seq![
                ProtocolOutcome::Disconnect(sender),
            ] && *final(self) == *old(self))),
            v@ matches VertexView::Unit(su) ==> ((now < old(self)@.state.params.end_timestamp
                && unit_presentable(old(self)@, su) && !doppelganger(old(self)@, su)
                && unit_passes_checks(old(self)@.state, su) && !has_conflict(
                old(self)@.state,
                su.unit.creator,
                su.unit.seq_number,
                hash_of(enc_wire_unit(su.unit)),
            ) && su.unit.seq_number != spec_next_seq(
                old(self)@.state.dag,
                su.unit.panorama,
                su.unit.creator,
            )) ==> (out@ =~= seq![ProtocolOutcome::Disconnect(sender)] && *final(self) == *old(self))),
            v@ matches VertexView::Unit(su) ==> ((now < old(self)@.state.params.end_timestamp
                && unit_presentable(old(self)@, su) && !doppelganger(old(self)@, su)
                && unit_passes_checks(old(self)@.state, su) && has_conflict(
                old(self)@.state,
                su.unit.creator,
                su.unit.seq_number,
                hash_of(enc_wire_unit(su.unit)),
            )) ==> (out@.len() == 1 && (out@[0] matches ProtocolOutcome::CreatedGossipMessage(b))
                && final(self)@.state.evidence.len() == old(self)@.state.evidence.len() + 1
                && final(self)@.state.dag.panorama[su.unit.creator.0 as int] is Faulty)),
            v@ matches VertexView::Unit(su) ==> ((now < old(self)@.state.params.end_timestamp
                && unit_presentable(old(self)@, su) && !doppelganger(old(self)@, su)
                && unit_admissible(old(self)@.state, su)) ==> ((forall|k: int|
                0 <= k < out@.len() ==> benign_outcome(#[trigger] out@[k])) && vertex_known(
                final(self)@.state,
                VertexView::Unit(su),
            ) && (exists|k: int|
                0 <= k < out@.len() && ((#[trigger] out@[k]) matches
                    ProtocolOutcome::CreatedGossipMessage(b) && b@ == enc_message(
                    MessageView::NewVertex(VertexView::Unit(su)),
                ))))),
            v@ matches VertexView::Unit(su) ==> ((now < old(self)@.state.params.end_timestamp
                && unit_presentable(old(self)@, su) && !doppelganger(old(self)@, su)
                && !vertex_known(old(self)@.state, VertexView::Unit(su))
                && old(self)@.state.params.min_round_exp <= su.unit.round_exp
                && su.unit.round_exp <= old(self)@.state.params.max_round_exp
                && su.unit.creator.0 < old(self)@.state.dag.weights.len()
                && su.unit.panorama.len() == old(self)@.state.dag.weights.len()
                && crate::state::endorsed_canonical(su.unit)
                && !crate::state::deps_present(old(self)@.state.dag, su.unit)) ==> (final(self)@.state == old(self)@.state && final(self)@.sync.len() == old(self)@.sync.len()
                + 1 && final(self)@.sync.last().vertex == VertexView::Unit(su))),
            final(self)@.ready.len() >= old(self)@.ready.len(),
            forall|k: int|
                0 <= k < old(self)@.ready.len() ==> final(self)@.ready[k] == old(self)@.ready[k],
    {
        if now >= self.state.params.end_timestamp {
            let out: Vec<ProtocolOutcome> = Vec::new();
            assert(out@ =~= Seq::<ProtocolOutcome>::empty());
            return out;
        }
        match v {
            Vertex::Unit(su) => self.handle_unit(sender, su, now),
            Vertex::Evidence(ev) => self.handle_evidence(sender, ev, now),
            Vertex::Endorsement(e) => self.handle_endorsement(sender, e, now),
        }
    }

    #[verifier::rlimit(80)]
    fn handle_unit(&mut self, sender: NodeId, su: SignedWireUnit, now: Timestamp) -> (out: Vec<
        ProtocolOutcome,
    >)
        requires
            wf_protocol(old(self)@),
        ensures
            wf_protocol(final(self)@),
            finality_monotone(old(self)@, final(self)@),
            final(self)@.keys == old(self)@.keys,
            final(self)@.instance_id == old(self)@.instance_id,
            !unit_presentable(old(self)@, su@) ==> (out@ =~= seq![
                ProtocolOutcome::Disconnect(sender),
            ] && *final(self) == *old(self)),
            unit_presentable(old(self)@, su@) && doppelganger(old(self)@, su@) ==> (out@.len() >= 1
                && out@[0] == ProtocolOutcome::DoppelgangerDetected && final(self)@.active is None),
            unit_presentable(old(self)@, su@) && !doppelganger(old(self)@, su@) && vertex_known(
                old(self)@.state,
                VertexView::Unit(su@),
            ) ==> (out@ =~= Seq::<ProtocolOutcome>::empty() && *final(self) == *old(self)),
            unit_presentable(old(self)@, su@) && !doppelganger(old(self)@, su@) && !vertex_known(
                old(self)@.state,
                VertexView::Unit(su@),
            ) && (su@.unit.round_exp < old(self)@.state.params.min_round_exp || su@.unit.round_exp
                > old(self)@.state.params.max_round_exp) ==> (out@ =~= seq![
                ProtocolOutcome::Disconnect(sender),
            ] && *final(self) == *old(self)),
            unit_presentable(old(self)@, su@) && !doppelganger(old(self)@, su@)
                && unit_passes_checks(old(self)@.state, su@) && !has_conflict(
                old(self)@.state,
                su@.unit.creator,
                su@.unit.seq_number,
                hash_of(enc_wire_unit(su@.unit)),
            ) && su@.unit.seq_number != spec_next_seq(
                old(self)@.state.dag,
                su@.unit.panorama,
                su@.unit.creator,
            ) ==> (out@ =~= seq![ProtocolOutcome::Disconnect(sender)] && *final(self) == *old(self)),
            unit_presentable(old(self)@, su@) && !doppelganger(old(self)@, su@)
                && unit_passes_checks(old(self)@.state, su@) && has_conflict(
                old(self)@.state,
                su@.unit.creator,
                su@.unit.seq_number,
                hash_of(enc_wire_unit(su@.unit)),
            ) ==> (out@.len() == 1 && (out@[0] matches ProtocolOutcome::CreatedGossipMessage(b))
                && final(self)@.state.evidence.len() == old(self)@.state.evidence.len() + 1
                && final(self)@.state.dag.panorama[su@.unit.creator.0 as int] is Faulty),
            unit_presentable(old(self)@, su@) && !doppelganger(old(self)@, su@) && !vertex_known(
                old(self)@.state,
                VertexView::Unit(su@),
            ) && old(self)@.state.params.min_round_exp <= su@.unit.round_exp
                && su@.unit.round_exp <= old(self)@.state.params.max_round_exp
                && su@.unit.creator.0 < old(self)@.state.dag.weights.len()
                && su@.unit.panorama.len() == old(self)@.state.dag.weights.len()
                && crate::state::endorsed_canonical(su@.unit)
                && !crate::state::deps_present(old(self)@.state.dag, su@.unit) ==> (out@.len() == 1
                && (out@[0] matches ProtocolOutcome::CreatedGossipMessage(b) && (exists|d: Seq<u8>|
                b@ == enc_message(MessageView::RequestDependency(d)) && spec_find_unit(
                    old(self)@.state.dag,
                    d,
                ) is None)) && final(self)@.state == old(self)@.state && final(self)@.sync.len()
                == old(self)@.sync.len() + 1 && final(self)@.sync.last().vertex
                == VertexView::Unit(su@)),
            unit_presentable(old(self)@, su@) && !doppelganger(old(self)@, su@) && unit_admissible(
                old(self)@.state,
                su@,
            ) ==> ((forall|k: int| 0 <= k < out@.len() ==> benign_outcome(#[trigger] out@[k]))
                && vertex_known(final(self)@.state, VertexView::Unit(su@)) && (exists|k: int|
                0 <= k < out@.len() && ((#[trigger] out@[k]) matches
                    ProtocolOutcome::CreatedGossipMessage(b) && b@ == enc_message(
                    MessageView::NewVertex(VertexView::Unit(su@)),
                )))),
            final(self)@.ready.len() >= old(self)@.ready.len(),
            forall|k: int|
                0 <= k < old(self)@.ready.len() ==> final(self)@.ready[k] == old(self)@.ready[k],
    {
        let mut out: Vec<ProtocolOutcome> = Vec::new();
        if su.unit.creator.0 >= self.keys.len() as u64 {
            out.push(ProtocolOutcome::Disconnect(sender));
            assert(out@ =~= seq![ProtocolOutcome::Disconnect(sender)]);
            return out;
        }
        let nkeys: usize = self.keys.len();
        let cidx = su.unit.creator.0 as usize;
        proof {
            assert(su.unit.creator.0 < nkeys as u64);
            assert(cidx as int == su@.unit.creator.0 as int);
            assert(self@.keys[cidx as int] == self.keys@[cidx as int]@);
        }
        let h = hash_unit(&su.unit);
        if !verify_sig(&self.keys[cidx], &h.bytes, &su.signature) {
            out.push(ProtocolOutcome::Disconnect(sender));
            assert(out@ =~= seq![ProtocolOutcome::Disconnect(sender)]);
            return out;
        }
        if !bytes_eq(&su.unit.instance_id, &self.instance_id) {
            out.push(ProtocolOutcome::Disconnect(sender));
            assert(out@ =~= seq![ProtocolOutcome::Disconnect(sender)]);
            return out;
        }
        assert(unit_presentable(old(self)@, su@));
        // Doppelganger check: before the unit is otherwise processed.
        let mut dop = false;
        match &self.active {
            Option::Some(av) => {
                if bytes_eq(&self.keys[cidx], &av.pk) && !hash_in(&av.own, &h) {
                    dop = true;
                }
            },
            Option::None => {},
        }
        proof {
            if doppelganger(old(self)@, su@) {
                assert(dop);
            }
            if dop {
                assert(doppelganger(old(self)@, su@));
            }
        }
        if dop {
            out.push(ProtocolOutcome::DoppelgangerDetected);
            // Continuing to sign beside a doppelganger would equivocate
            // under our own identity: deactivate immediately.
            self.active = None;
        }
        let ghost suv = su@;
        let gossip = encode_message(&HighwayMessage::NewVertex(Vertex::Unit(su.duplicate())));
        let keep = su.duplicate();
        let payload: Option<Vec<u8>> = match &su.unit.value {
            Option::Some(p) => Option::Some(copy_bytes(p)),
            Option::None => Option::None,
        };
        let ghost fin_before_add = self.state@.finalized;
        match self.state.add_vertex(Vertex::Unit(su)) {
            AddOutcome::Duplicate => {
                assert(!dop ==> out@ =~= Seq::<ProtocolOutcome>::empty());
                out
            },
            AddOutcome::Invalid(_) => {
                out.push(ProtocolOutcome::Disconnect(sender));
                assert(!dop ==> out@ =~= seq![ProtocolOutcome::Disconnect(sender)]);
                out
            },
            AddOutcome::MissingDependency(d) => {
                let req = encode_message(&HighwayMessage::RequestDependency(d.duplicate()));
                self.synchronizer.enqueue(sender, Vertex::Unit(keep), d, now);
                out.push(ProtocolOutcome::CreatedGossipMessage(req));
                assert(!dop ==> out@ =~= seq![ProtocolOutcome::CreatedGossipMessage(req)]);
                out
            },
            AddOutcome::Equivocation(ev) => {
                let bytes = encode_message(&HighwayMessage::NewVertex(Vertex::Evidence(ev)));
                out.push(ProtocolOutcome::CreatedGossipMessage(bytes));
                assert(!dop ==> out@ =~= seq![ProtocolOutcome::CreatedGossipMessage(bytes)]);
                out
            },
            AddOutcome::Added => {
                let ghost pas = self.state@;
                match payload {
                    Option::Some(p) => {
                        out.push(ProtocolOutcome::HandledProposedBlock(p));
                    },
                    Option::None => {},
                }
                out.push(ProtocolOutcome::CreatedGossipMessage(gossip));
                proof {
                    let gi = out@.len() - 1;
                    assert(out@[gi] matches ProtocolOutcome::CreatedGossipMessage(b) && b@
                        == enc_message(MessageView::NewVertex(VertexView::Unit(suv))));
                }
                let resolved = self.synchronizer.take_resolved(&h);
                let ghost snap = self@;
                let mut i: usize = 0;
                let mut any = false;
                let mut resolved = resolved;
                while i < resolved.len()
                    invariant
                        i <= resolved@.len(),
                        self@.state == snap.state,
                        self@.keys == snap.keys,
                        self@.instance_id == snap.instance_id,
                        self@.active == snap.active,
                        self@.ready.len() >= old(self)@.ready.len(),
                        forall|k: int|
                            0 <= k < old(self)@.ready.len() ==> self@.ready[k] == old(self)@.ready[k],
                        self@.sync == snap.sync,
                    decreases resolved@.len() - i,
                {
                    let p = PendingVertex {
                        sender: resolved[i].sender,
                        vertex: resolved[i].vertex.duplicate(),
                        received_at: resolved[i].received_at,
                        missing: resolved[i].missing.duplicate(),
                    };
                    self.ready.push(p);
                    any = true;
                    i = i + 1;
                }
                if any {
                    let ghost pre_out = out@;
                    out.push(ProtocolOutcome::QueueAction(ACTION_ID_VERTEX));
                    proof {
                        assert(forall|k: int| 0 <= k < pre_out.len() ==> out@[k] == pre_out[k]);
                        let kk = choose|k: int|
                            0 <= k < pre_out.len() && ((#[trigger] pre_out[k]) matches
                                ProtocolOutcome::CreatedGossipMessage(b) && b@ == enc_message(
                                MessageView::NewVertex(VertexView::Unit(suv)),
                            ));
                        assert(out@[kk] matches ProtocolOutcome::CreatedGossipMessage(b) && b@
                            == enc_message(MessageView::NewVertex(VertexView::Unit(suv))));
                    }
                }
                let ghost fin_pre = self.state@.finalized;
                let newly = self.state.run_finality();
                proof {
                    assert forall|k: int|
                        0 <= k < newly@.len() implies newly@[k]
                        < self.state@.dag.blocks.len() by {
                        assert(self.state@.finalized[fin_pre.len() + k] == (fin_pre + newly@)[
                            fin_pre.len() + k
                        ]);
                        assert((fin_pre + newly@)[fin_pre.len() + k] == newly@[k]);
                    }
                    crate::state::lemma_known_monotone(
                        pas,
                        self.state@,
                        VertexView::Unit(suv),
                    );
                }
                let ghost pf = *self;
                let mut j: usize = 0;
                while j < newly.len()
                    invariant
                        *self == pf,
                        j <= newly@.len(),
                        wf(self.state@),
                        forall|k: int|
                            0 <= k < newly@.len() ==> newly@[k] < self.state@.dag.blocks.len(),
                        dop ==> out@.len() >= 1 && out@[0]
                            == ProtocolOutcome::DoppelgangerDetected,
                        !dop ==> forall|k: int|
                            0 <= k < out@.len() ==> benign_outcome(#[trigger] out@[k]),
                        exists|k: int|
                            0 <= k < out@.len() && ((#[trigger] out@[k]) matches
                                ProtocolOutcome::CreatedGossipMessage(b) && b@ == enc_message(
                                MessageView::NewVertex(VertexView::Unit(suv)),
                            )),
                    decreases newly@.len() - j,
                {
                    let b = newly[j];
                    let ghost pre_out = out@;
                    out.push(
                        ProtocolOutcome::FinalizedBlock(copy_bytes(&self.state.blocks[b].payload)),
                    );
                    proof {
                        assert(forall|k: int| 0 <= k < pre_out.len() ==> out@[k] == pre_out[k]);
                        let kk = choose|k: int|
                            0 <= k < pre_out.len() && ((#[trigger] pre_out[k]) matches
                                ProtocolOutcome::CreatedGossipMessage(b) && b@ == enc_message(
                                MessageView::NewVertex(VertexView::Unit(suv)),
                            ));
                        assert(out@[kk] matches ProtocolOutcome::CreatedGossipMessage(b) && b@
                            == enc_message(MessageView::NewVertex(VertexView::Unit(suv))));
                    }
                    j = j + 1;
                }
                out
            },
        }
    }

    fn handle_evidence(&mut self, sender: NodeId, ev: crate::units::Evidence, now: Timestamp)
        -> (out: Vec<ProtocolOutcome>)
        requires
            wf_protocol(old(self)@),
        ensures
            wf_protocol(final(self)@),
            finality_monotone(old(self)@, final(self)@),
            final(self)@.keys == old(self)@.keys,
            final(self)@.instance_id == old(self)@.instance_id,
            final(self)@.ready == old(self)@.ready,
            unit_presentable(old(self)@, ev@.unit1) && unit_presentable(old(self)@, ev@.unit2)
                && crate::state::evidence_admissible(old(self)@.state, ev@) ==> (out@.len() == 1
                && (out@[0] matches ProtocolOutcome::CreatedGossipMessage(b) && b@ == enc_message(
                MessageView::NewVertex(VertexView::Evidence(ev@)),
            )) && final(self)@.state.evidence.len() == old(self)@.state.evidence.len() + 1
                && final(self)@.state.evidence.last() == ev@ && final(self)@.state.dag.panorama[ev@.unit1.unit.creator.0 as int] is Faulty),
    {
        let mut out: Vec<ProtocolOutcome> = Vec::new();
        if !self.check_unit_auth(&ev.unit1) || !self.check_unit_auth(&ev.unit2) {
            out.push(ProtocolOutcome::Disconnect(sender));
            return out;
        }
        let gossip = encode_message(&HighwayMessage::NewVertex(Vertex::Evidence(ev.duplicate())));
        match self.state.add_vertex(Vertex::Evidence(ev)) {
            AddOutcome::Added => {
                out.push(ProtocolOutcome::CreatedGossipMessage(gossip));
                assert(out@ =~= seq![ProtocolOutcome::CreatedGossipMessage(gossip)]);
                out
            },
            AddOutcome::Duplicate => out,
            _ => {
                out.push(ProtocolOutcome::Disconnect(sender));
                out
            },
        }
    }

    fn handle_endorsement(
        &mut self,
        sender: NodeId,
        e: crate::units::SignedEndorsement,
        now: Timestamp,
    ) -> (out: Vec<ProtocolOutcome>)
        requires
            wf_protocol(old(self)@),
        ensures
            wf_protocol(final(self)@),
            finality_monotone(old(self)@, final(self)@),
            final(self)@.keys == old(self)@.keys,
            final(self)@.instance_id == old(self)@.instance_id,
            final(self)@.ready == old(self)@.ready,
            e@.validator.0 < old(self)@.keys.len() && sig_valid(
                old(self)@.keys[e@.validator.0 as int],
                e@.unit_hash,
                e@.signature,
            ) && crate::state::endorsement_admissible(old(self)@.state, e@) ==> (out@.len() == 1
                && (out@[0] matches ProtocolOutcome::CreatedGossipMessage(b) && b@ == enc_message(
                MessageView::NewVertex(VertexView::Endorsement(e@)),
            )) && final(self)@.state.endorsements.len() == old(self)@.state.endorsements.len() + 1
                && final(self)@.state.endorsements.last() == e@),
    {
        let mut out: Vec<ProtocolOutcome> = Vec::new();
        if e.validator.0 >= self.keys.len() as u64 {
            out.push(ProtocolOutcome::Disconnect(sender));
            return out;
        }
        let nkeys: usize = self.keys.len();
        let vidx = e.validator.0 as usize;
        proof {
            assert(e.validator.0 < nkeys as u64);
        }
        if !verify_sig(&self.keys[vidx], &e.unit_hash.bytes, &e.signature) {
            out.push(ProtocolOutcome::Disconnect(sender));
            return out;
        }
        let gossip = encode_message(
            &HighwayMessage::NewVertex(Vertex::Endorsement(e.duplicate())),
        );
        match self.state.add_vertex(Vertex::Endorsement(e)) {
            AddOutcome::Added => {
                out.push(ProtocolOutcome::CreatedGossipMessage(gossip));
                assert(out@ =~= seq![ProtocolOutcome::CreatedGossipMessage(gossip)]);
                out
            },
            AddOutcome::Duplicate => out,
            AddOutcome::MissingDependency(d) => {
                let req = encode_message(&HighwayMessage::RequestDependency(d));
                out.push(ProtocolOutcome::CreatedGossipMessage(req));
                out
            },
            _ => {
                out.push(ProtocolOutcome::Disconnect(sender));
                out
            },
        }
    }

    fn check_unit_auth(&self, su: &SignedWireUnit) -> (r: bool)
        requires
            wf_protocol(self@),
        ensures
            r == unit_presentable(self@, su@),
    {
        if su.unit.creator.0 >= self.keys.len() as u64 {
            return false;
        }
        let nkeys: usize = self.keys.len();
        let cidx = su.unit.creator.0 as usize;
        proof {
            assert(su.unit.creator.0 < nkeys as u64);
            assert(self@.keys[cidx as int] == self.keys@[cidx as int]@);
        }
        let h = hash_unit(&su.unit);
        verify_sig(&self.keys[cidx], &h.bytes, &su.signature) && bytes_eq(
            &su.unit.instance_id,
            &self.instance_id,
        )
    }
}

/// Whether a hash occurs in a list of hashes.
fn hash_in(own: &Vec<UnitHash>, h: &UnitHash) -> (r: bool)
    ensures
        r == own@.map_values(|x: UnitHash| x@).contains(h@),
{
    let mut i: usize = 0;
    while i < own.len()
        invariant
            i <= own@.len(),
            forall|j: int| 0 <= j < i ==> own@[j]@ != h@,
        decreases own@.len() - i,
    {
        if own[i].eq_hash(h) {
            assert(own@.map_values(|x: UnitHash| x@)[i as int] == h@);
            return true;
        }
        i = i + 1;
    }
    proof {
        let m = own@.map_values(|x: UnitHash| x@);
        assert forall|j: int| 0 <= j < m.len() implies #[trigger] m[j] != h@ by {
            assert(m[j] == own@[j]@);
        }
    }
    false
}

/// The validator picked by walking the cumulative weights with target
/// `x`; the first validator if the target overshoots.
pub open spec fn spec_pick_by_weight(w: Seq<crate::base::Weight>, x: int, i: int) -> int
    decreases w.len() - i,
{
    if i < 0 || i >= w.len() {
        0
    } else if x < w[i] {
        i
    } else {
        spec_pick_by_weight(w, x - w[i], i + 1)
    }
}

/// The weighted leader target for one round, derived from the era seed
/// and the round identifier alone.
pub open spec fn spec_round_target(seed: u64, round_id: u64, total: int) -> int
    recommends
        total > 0,
{
    ((seed * 0x9E3779B97F4A7C15) % total + (round_id * 0xBF58476D1CE4E5B9) % total) % total
}

/// The round's leader: deterministic in the era seed, the round
/// identifier and the weights, each validator drawn with probability
/// proportional to its weight.
pub open spec fn spec_leader(d: crate::state::DagView, seed: u64, round_id: u64) -> int {
    let total = wsum_upto(d.weights, d.weights.len() as int);
    if total <= 0 {
        0
    } else {
        spec_pick_by_weight(d.weights, spec_round_target(seed, round_id, total), 0)
    }
}

/// The adapted round exponent: doubled round length after a round without
/// progress, halved after progress, clamped to the era bounds.
pub open spec fn spec_adapted_round_exp(re: u8, timed_out: bool, min: u8, max: u8) -> u8 {
    let moved: int = if timed_out {
        re + 1
    } else if re > 0 {
        re - 1
    } else {
        0
    };
    if moved < min {
        min
    } else if moved > max {
        max
    } else {
        moved as u8
    }
}

fn adapted_round_exp(re: u8, timed_out: bool, min: u8, max: u8) -> (r: u8)
    requires
        min <= max,
    ensures
        r == spec_adapted_round_exp(re, timed_out, min, max),
        min <= r <= max,
{
    let moved: u8 = if timed_out {
        if re == 255 {
            255
        } else {
            re + 1
        }
    } else {
        if re > 0 {
            re - 1
        } else {
            0
        }
    };
    proof {
        if timed_out && re == 255 {
            assert(re + 1 > max);
        }
    }
    if moved < min {
        min
    } else if moved > max {
        max
    } else {
        moved
    }
}

impl HighwayProtocol {
    /// The leader of the round with the given identifier.
    pub fn round_leader(&self, round_id: u64) -> (r: usize)
        requires
            wf_protocol(self@),
        ensures
            r as int == spec_leader(self@.state.dag, self@.state.params.seed, round_id),
    {
        let n = self.state.weights.len();
        let seed = self.state.params.seed;
        let mut total: u64 = 0;
        let mut v: usize = 0;
        while v < n
            invariant
                wf(self.state@),
                n == self.state@.dag.weights.len(),
                v <= n,
                total == wsum_upto(self.state@.dag.weights, v as int),
            decreases n - v,
        {
            proof {
                crate::state::lemma_wsum_mono(self.state@.dag.weights, v as int + 1, n as int);
            }
            total = total + self.state.weights[v];
            v = v + 1;
        }
        if total == 0 {
            return 0;
        }
        let t1: u64 = (((seed as u128) * 0x9E3779B97F4A7C15u128) % (total as u128)) as u64;
        let t2: u64 = (((round_id as u128) * 0xBF58476D1CE4E5B9u128) % (total as u128)) as u64;
        let mut x: u64 = (((t1 as u128) + (t2 as u128)) % (total as u128)) as u64;
        proof {
            assert(x as int == spec_round_target(seed, round_id, total as int));
        }
        let ghost x0 = x as int;
        let mut i: usize = 0;
        while i < n
            invariant
                wf(self.state@),
                n == self.state@.dag.weights.len(),
                i <= n,
                total == wsum_upto(self.state@.dag.weights, n as int),
                total > 0,
                seed == self.state@.params.seed,
                x0 == spec_round_target(seed, round_id, total as int),
                spec_pick_by_weight(self.state@.dag.weights, x0, 0) == spec_pick_by_weight(
                    self.state@.dag.weights,
                    x as int,
                    i as int,
                ),
            decreases n - i,
        {
            let w = self.state.weights[i];
            if x < w {
                return i;
            }
            x = x - w;
            i = i + 1;
        }
        0
    }

    /// Handles one timer or queued-action firing.  Each periodic action
    /// reschedules itself, so the timer set is self-sustaining.
    pub fn handle_action(&mut self, action: u32, now: Timestamp) -> (out: Vec<ProtocolOutcome>)
        requires
            wf_protocol(old(self)@),
        ensures
            wf_protocol(final(self)@),
            finality_monotone(old(self)@, final(self)@),
            final(self)@.keys == old(self)@.keys,
            final(self)@.instance_id == old(self)@.instance_id,
            action == ACTION_ID_LOG_PARTICIPATION || action == ACTION_ID_LOG_SYNCHRONIZER_QUEUE
                ==> (out@ =~= seq![
                ProtocolOutcome::ScheduleTimer(action, spec_sat_add(now, LOG_PARTICIPATION_INTERVAL)),
            ] && *final(self) == *old(self)),
            action == ACTION_ID_PURGE_VERTICES ==> (final(self)@.sync == alive_from(
                old(self)@.sync,
                now,
                old(self).synchronizer.timeout,
                0,
            ) && out@ =~= expired_from(
                old(self)@.sync,
                now,
                old(self).synchronizer.timeout,
                0,
            ).map_values(|p: PendingView| ProtocolOutcome::Disconnect(p.sender)) + seq![
                ProtocolOutcome::ScheduleTimer(
                    ACTION_ID_PURGE_VERTICES,
                    spec_sat_add(now, old(self).synchronizer.timeout),
                ),
            ]),
            action == ACTION_ID_VERTEX && old(self)@.ready.len() == 0 ==> (out@ =~= Seq::<
                ProtocolOutcome,
            >::empty() && *final(self) == *old(self)),
            action == ACTION_ID_VERTEX && old(self)@.ready.len() > 0 ==> (forall|k: int|
                1 <= k < old(self)@.ready.len() ==> final(self)@.ready[k - 1] == old(self)@.ready[k]),
            action == ACTION_ID_VERTEX && old(self)@.ready.len() > 0 ==> (final(self)@.ready.len()
                > 0 ==> out@.len() >= 1 && out@.last() == ProtocolOutcome::QueueAction(
                ACTION_ID_VERTEX,
            )),
            action == ACTION_ID_VERTEX && old(self)@.ready.len() > 0 ==> (
            old(self)@.ready[0].vertex matches VertexView::Unit(su) ==> ((now < old(self)@.state.params.end_timestamp && unit_presentable(old(self)@, su) && !doppelganger(
                old(self)@,
                su,
            ) && unit_admissible(old(self)@.state, su)) ==> forall|k: int|
                0 <= k < out@.len() ==> benign_outcome(#[trigger] out@[k]))),
            action == ACTION_ID_ROUND && (old(self)@.active is None || now >= old(self)@.state.params.end_timestamp) ==> (out@ =~= Seq::<ProtocolOutcome>::empty() && *final(self)
                == *old(self)),
            action == ACTION_ID_ROUND && old(self)@.active is Some && now < old(self)@.state.params.end_timestamp && old(self)@.active.unwrap().seed.len() == 32 ==> (out@.len()
                >= 1 && (out@.last() matches ProtocolOutcome::ScheduleTimer(a, t) && a
                == ACTION_ID_ROUND)),
            !(action == ACTION_ID_VERTEX || action == ACTION_ID_LOG_PARTICIPATION || action
                == ACTION_ID_LOG_SYNCHRONIZER_QUEUE || action == ACTION_ID_PURGE_VERTICES || action
                == ACTION_ID_ROUND) ==> (out@ =~= Seq::<ProtocolOutcome>::empty() && *final(self)
                == *old(self)),
    {
        let mut out: Vec<ProtocolOutcome> = Vec::new();
        if action == ACTION_ID_VERTEX {
            if self.ready.len() > 0 {
                let p = self.ready.remove(0);
                proof {
                    assert(p@ == old(self)@.ready[0]);
                    assert(self@.ready =~= old(self)@.ready.subrange(
                        1,
                        old(self)@.ready.len() as int,
                    ));
                    assert(self@.state == old(self)@.state);
                    assert(self@.keys == old(self)@.keys);
                    assert(self@.instance_id == old(self)@.instance_id);
                    assert(self@.active == old(self)@.active);
                }
                let ghost mid = self@;
                let mut res = self.handle_vertex(p.sender, p.vertex, now);
                let ghost resv = res@;
                out.append(&mut res);
                proof {
                    assert(out@ =~= resv);
                    assert(forall|k: int|
                        1 <= k < old(self)@.ready.len() ==> mid.ready[k - 1] == old(self)@.ready[k]);
                }
                if self.ready.len() > 0 {
                    let ghost pre_out = out@;
                    out.push(ProtocolOutcome::QueueAction(ACTION_ID_VERTEX));
                    proof {
                        assert(forall|k: int| 0 <= k < pre_out.len() ==> out@[k] == pre_out[k]);
                        assert(out@.last() == ProtocolOutcome::QueueAction(ACTION_ID_VERTEX));
                    }
                }
            } else {
                assert(out@ =~= Seq::<ProtocolOutcome>::empty());
            }
            out
        } else if action == ACTION_ID_PURGE_VERTICES {
            let timeout = self.synchronizer.timeout;
            let evicted = self.synchronizer.purge(now);
            let ghost pp = *self;
            let mut i: usize = 0;
            while i < evicted.len()
                invariant
                    *self == pp,
                    i <= evicted@.len(),
                    out@ =~= evicted@.subrange(0, i as int).map_values(
                        |n: NodeId| ProtocolOutcome::Disconnect(n),
                    ),
                decreases evicted@.len() - i,
            {
                out.push(ProtocolOutcome::Disconnect(evicted[i]));
                proof {
                    assert(out@ =~= evicted@.subrange(0, i as int + 1).map_values(
                        |n: NodeId| ProtocolOutcome::Disconnect(n),
                    ));
                }
                i = i + 1;
            }
            proof {
                let exp = expired_from(old(self)@.sync, now, old(self).synchronizer.timeout, 0);
                assert(evicted@.subrange(0, evicted@.len() as int) =~= evicted@);
                assert forall|k: int|
                    0 <= k < exp.len() implies out@[k] == exp.map_values(
                    |p: PendingView| ProtocolOutcome::Disconnect(p.sender),
                )[k] by {
                    assert(out@[k] == ProtocolOutcome::Disconnect(evicted@[k]));
                    assert(evicted@[k] == exp.map_values(|p: PendingView| p.sender)[k]);
                }
                assert(out@ =~= exp.map_values(|p: PendingView| ProtocolOutcome::Disconnect(p.sender)));
            }
            out.push(
                ProtocolOutcome::ScheduleTimer(ACTION_ID_PURGE_VERTICES, sat_add(now, timeout)),
            );
            proof {
                let exp = expired_from(old(self)@.sync, now, old(self).synchronizer.timeout, 0);
                assert(out@ =~= exp.map_values(|p: PendingView| ProtocolOutcome::Disconnect(p.sender))
                    + seq![
                    ProtocolOutcome::ScheduleTimer(
                        ACTION_ID_PURGE_VERTICES,
                        spec_sat_add(now, old(self).synchronizer.timeout),
                    ),
                ]);
            }
            out
        } else if action == ACTION_ID_LOG_PARTICIPATION || action == ACTION_ID_LOG_SYNCHRONIZER_QUEUE {
            out.push(
                ProtocolOutcome::ScheduleTimer(action, sat_add(now, LOG_PARTICIPATION_INTERVAL)),
            );
            assert(out@ =~= seq![
                ProtocolOutcome::ScheduleTimer(action, spec_sat_add(now, LOG_PARTICIPATION_INTERVAL)),
            ]);
            out
        } else if action == ACTION_ID_ROUND {
            self.round_action(now)
        } else {
            assert(out@ =~= Seq::<ProtocolOutcome>::empty());
            out
        }
    }

    /// End of this validator's round: adapt the round exponent, create
    /// and sign the round's unit — a proposal when this node leads the
    /// round, a plain vote otherwise — and schedule the next round.
    fn round_action(&mut self, now: Timestamp) -> (out: Vec<ProtocolOutcome>)
        requires
            wf_protocol(old(self)@),
        ensures
            wf_protocol(final(self)@),
            finality_monotone(old(self)@, final(self)@),
            final(self)@.keys == old(self)@.keys,
            final(self)@.instance_id == old(self)@.instance_id,
            old(self)@.active is None || now >= old(self)@.state.params.end_timestamp ==> (out@
                =~= Seq::<ProtocolOutcome>::empty() && *final(self) == *old(self)),
            old(self)@.active is Some && now < old(self)@.state.params.end_timestamp && old(self)@.active.unwrap().seed.len() == 32 ==> (out@.len() >= 1 && (out@.last() matches
                ProtocolOutcome::ScheduleTimer(a, t) && a == ACTION_ID_ROUND)),
            old(self)@.active is Some && now < old(self)@.state.params.end_timestamp && old(self)@.active.unwrap().seed.len() == 32 && unit_admissible(
                old(self)@.state,
                spec_round_unit(old(self)@, now),
            ) ==> (final(self)@.state.dag.units.len() == old(self)@.state.dag.units.len() + 1
                && final(self)@.state.dag.units.last().swu == spec_round_unit(old(self)@, now)),
    {
        let mut out: Vec<ProtocolOutcome> = Vec::new();
        if now >= self.state.params.end_timestamp {
            assert(out@ =~= Seq::<ProtocolOutcome>::empty());
            return out;
        }
        let flen = self.state.finalized.len();
        let (idx, seed, re, last_fin) = match &self.active {
            Option::Some(av) => (av.index, copy_bytes(&av.seed), av.round_exp,
                av.last_finalized_count),
            Option::None => {
                assert(out@ =~= Seq::<ProtocolOutcome>::empty());
                return out;
            },
        };
        let progressed = flen > last_fin;
        let re2 = adapted_round_exp(
            re,
            !progressed,
            self.state.params.min_round_exp,
            self.state.params.max_round_exp,
        );
        let len: u64 = 1u64 << re2;
        assert(len > 0) by (bit_vector)
            requires
                re2 < 64 && len == 1u64 << re2,
        ;
        let round_id = now / len;
        let leader = self.round_leader(round_id);
        let value: Option<Vec<u8>> = if leader as u64 == idx {
            Option::Some(Vec::new())
        } else {
            Option::None
        };
        let pan = self.state.panorama.duplicate();
        let creator = crate::base::ValidatorIndex(idx);
        let seq = self.state.next_seq_num(&pan, creator);
        let unit = WireUnit {
            panorama: pan,
            creator,
            instance_id: copy_bytes(&self.instance_id),
            value,
            seq_number: seq,
            timestamp: now,
            round_exp: re2,
            endorsed: Vec::new(),
        };
        let h = hash_unit(&unit);
        let sig = match ed25519_sign(&seed, &h.bytes) {
            Option::Some(s) => s,
            Option::None => {
                assert(seed@.len() != 32);
                return out;
            },
        };
        let su = SignedWireUnit { unit, signature: sig };
        proof {
            assert(su@.unit.panorama =~= old(self)@.state.dag.panorama);
            assert(su@.unit.endorsed =~= Seq::<Seq<u8>>::empty());
            if su@.unit.value is Some {
                assert(su@.unit.value.unwrap() =~= Seq::<u8>::empty());
            }
            assert(re2 == spec_round_exp_next(old(self)@));
            assert(round_id == (now / (1u64 << spec_round_exp_next(old(self)@))) as u64);
            assert(su@.unit =~= spec_round_wire_unit(old(self)@, now));
            assert(su@ == spec_round_unit(old(self)@, now));
        }
        match &mut self.active {
            Option::Some(av) => {
                av.own.push(h.duplicate());
                av.round_exp = re2;
                av.last_finalized_count = flen;
            },
            Option::None => {},
        }
        let bytes = encode_message(&HighwayMessage::NewVertex(Vertex::Unit(su.duplicate())));
        match self.state.add_vertex(Vertex::Unit(su)) {
            AddOutcome::Added => {
                out.push(ProtocolOutcome::CreatedGossipMessage(bytes));
                let ghost fin_pre = self.state@.finalized;
                let newly = self.state.run_finality();
                proof {
                    assert forall|k: int|
                        0 <= k < newly@.len() implies newly@[k]
                        < self.state@.dag.blocks.len() by {
                        assert(self.state@.finalized[fin_pre.len() + k] == (fin_pre + newly@)[
                            fin_pre.len() + k
                        ]);
                        assert((fin_pre + newly@)[fin_pre.len() + k] == newly@[k]);
                    }
                }
                let ghost pf = *self;
                let mut j: usize = 0;
                while j < newly.len()
                    invariant
                        *self == pf,
                        j <= newly@.len(),
                        wf(self.state@),
                        forall|k: int|
                            0 <= k < newly@.len() ==> newly@[k] < self.state@.dag.blocks.len(),
                    decreases newly@.len() - j,
                {
                    let b = newly[j];
                    out.push(
                        ProtocolOutcome::FinalizedBlock(copy_bytes(&self.state.blocks[b].payload)),
                    );
                    j = j + 1;
                }
            },
            _ => {},
        }
        out.push(ProtocolOutcome::ScheduleTimer(ACTION_ID_ROUND, self.next_round_time(now, re2)));
        out
    }
}

} // verus!
