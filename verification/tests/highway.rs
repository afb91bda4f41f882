//! End-to-end tests of the protocol driver: message handling, validation
//! failures, doppelganger detection, equivocation, and finality.

use highway_core::base::ValidatorIndex;
use highway_core::codec::{decode_message, encode_message, hash_unit};
use highway_core::crypto::{ed25519_public_key, ed25519_sign, verify_sig};
use highway_core::panorama::{Observation, Panorama, UnitHash};
use highway_core::protocol::{
    HighwayProtocol, ProtocolOutcome, ACTION_ID_PURGE_VERTICES, ACTION_ID_ROUND, ACTION_ID_VERTEX,
};
use highway_core::state::{Params, State};
use highway_core::units::{HighwayMessage, SignedWireUnit, Vertex, WireUnit};

const TEST_BLOCK_REWARD: u64 = 1_000_000_000_000;
const TEST_ENDORSEMENT_EVIDENCE_LIMIT: u64 = 10_000;
const ALICE_NODE_ID: u64 = 42;

fn alice_seed() -> Vec<u8> {
    vec![7u8; 32]
}

fn bob_seed() -> Vec<u8> {
    vec![9u8; 32]
}

fn alice_public_key() -> Vec<u8> {
    ed25519_public_key(&alice_seed()).unwrap()
}

fn bob_public_key() -> Vec<u8> {
    ed25519_public_key(&bob_seed()).unwrap()
}

fn instance_id() -> Vec<u8> {
    highway_core::crypto::hash_bytes(&vec![123u8; 1])
}

fn test_params(seed: u64) -> Params {
    Params::new(
        seed,
        TEST_BLOCK_REWARD,
        TEST_BLOCK_REWARD / 5,
        14,
        19,
        14,
        u64::MAX,
        0,
        u64::MAX,
        TEST_ENDORSEMENT_EVIDENCE_LIMIT,
    )
}

fn new_test_state(weights: Vec<u64>, seed: u64) -> State {
    State::new(weights, test_params(seed))
}

fn new_test_highway_protocol(
    validators: Vec<(Vec<u8>, u64)>,
    init_faulty: Vec<u64>,
) -> HighwayProtocol {
    let (proto, outcomes) = HighwayProtocol::new(
        instance_id(),
        validators,
        init_faulty,
        test_params(0),
        60_000,
        0,
    )
    .unwrap();
    // Three timers start the instance: the participation log, the
    // synchronizer-queue log, and the synchronizer purge.
    assert_eq!(3, outcomes.len());
    proto
}

fn signed_unit(unit: WireUnit, seed: &Vec<u8>) -> SignedWireUnit {
    let h = hash_unit(&unit);
    let signature = ed25519_sign(seed, &h.bytes).unwrap();
    SignedWireUnit { unit, signature }
}

fn unit_message(unit: WireUnit, seed: &Vec<u8>) -> Vec<u8> {
    encode_message(&HighwayMessage::NewVertex(Vertex::Unit(signed_unit(unit, seed))))
}

#[test]
fn test_highway_protocol_handle_message_parse_error() {
    let mut highway_protocol =
        new_test_highway_protocol(vec![(alice_public_key(), 100)], vec![]);
    let now: u64 = 0;
    let sender = ALICE_NODE_ID;
    let msg: Vec<u8> = vec![];
    let outcomes = highway_protocol.handle_message(sender, &msg, now);
    assert_eq!(outcomes.len(), 1);
    assert!(matches!(outcomes[0], ProtocolOutcome::Disconnect(s) if s == sender));
}

#[test]
fn send_a_wire_unit_with_too_small_a_round_exp() {
    let creator = ValidatorIndex(0);
    let state = new_test_state(vec![100], 0);
    let panorama = Panorama::all_unseen(1);
    let seq_number = state.next_seq_num(&panorama, creator);
    let now: u64 = 0;
    let wunit = WireUnit {
        panorama,
        creator,
        instance_id: instance_id(),
        value: None,
        seq_number,
        timestamp: now,
        round_exp: 0,
        endorsed: Vec::new(),
    };
    let msg = unit_message(wunit, &alice_seed());
    let mut highway_protocol =
        new_test_highway_protocol(vec![(alice_public_key(), 100)], vec![]);
    let sender = ALICE_NODE_ID;
    let outcomes = highway_protocol.handle_message(sender, &msg, now);
    assert_eq!(outcomes.len(), 1);
    assert!(matches!(outcomes[0], ProtocolOutcome::Disconnect(s) if s == sender));
    // Zero mutation to the store.
    assert_eq!(highway_protocol.state.units.len(), 0);
    assert_eq!(highway_protocol.state.evidence.len(), 0);
}

#[test]
fn send_a_valid_wire_unit() {
    let creator = ValidatorIndex(0);
    let state = new_test_state(vec![100], 0);
    let panorama = Panorama::all_unseen(1);
    let seq_number = state.next_seq_num(&panorama, creator);
    let now: u64 = 0;
    let wunit = WireUnit {
        panorama,
        creator,
        instance_id: instance_id(),
        value: Some(Vec::new()),
        seq_number,
        timestamp: now,
        round_exp: 14,
        endorsed: Vec::new(),
    };
    let msg = unit_message(wunit, &alice_seed());
    let mut highway_protocol =
        new_test_highway_protocol(vec![(alice_public_key(), 100)], vec![]);
    let sender = ALICE_NODE_ID;
    let mut outcomes = highway_protocol.handle_message(sender, &msg, now);
    while let Some(outcome) = outcomes.pop() {
        match outcome {
            ProtocolOutcome::CreatedGossipMessage(_)
            | ProtocolOutcome::FinalizedBlock(_)
            | ProtocolOutcome::HandledProposedBlock(_) => (),
            ProtocolOutcome::QueueAction(ACTION_ID_VERTEX) => {
                outcomes.extend(highway_protocol.handle_action(ACTION_ID_VERTEX, now))
            }
            outcome => panic!("Unexpected outcome: {:?}", debug_name(&outcome)),
        }
    }
}

fn debug_name(outcome: &ProtocolOutcome) -> &'static str {
    match outcome {
        ProtocolOutcome::CreatedGossipMessage(_) => "CreatedGossipMessage",
        ProtocolOutcome::FinalizedBlock(_) => "FinalizedBlock",
        ProtocolOutcome::HandledProposedBlock(_) => "HandledProposedBlock",
        ProtocolOutcome::Disconnect(_) => "Disconnect",
        ProtocolOutcome::DoppelgangerDetected => "DoppelgangerDetected",
        ProtocolOutcome::QueueAction(_) => "QueueAction",
        ProtocolOutcome::ScheduleTimer(_, _) => "ScheduleTimer",
    }
}

#[test]
fn detect_doppelganger() {
    let creator = ValidatorIndex(0);
    let validators = vec![(alice_public_key(), 100), (bob_public_key(), 100)];
    let state = new_test_state(vec![100, 100], 0);
    let panorama = Panorama::all_unseen(2);
    let seq_number = state.next_seq_num(&panorama, creator);
    let round_exp = 14;
    let now: u64 = 0;
    let wunit = WireUnit {
        panorama,
        creator,
        instance_id: instance_id(),
        value: Some(Vec::new()),
        seq_number,
        timestamp: now,
        round_exp,
        endorsed: Vec::new(),
    };
    let msg = unit_message(wunit, &alice_seed());
    let mut highway_protocol = new_test_highway_protocol(validators, vec![]);
    // Activate ALICE as validator.
    let _ = highway_protocol.activate_validator(alice_public_key(), alice_seed(), now);
    assert!(highway_protocol.is_active());
    let sender = ALICE_NODE_ID;
    // A message created by ALICE reaches an instance where she signs:
    // the incoming unit must be detected as a doppelganger.
    let mut outcomes = highway_protocol.handle_message(sender, &msg, now);
    while let Some(outcome) = outcomes.pop() {
        match outcome {
            ProtocolOutcome::DoppelgangerDetected => return,
            ProtocolOutcome::QueueAction(ACTION_ID_VERTEX) => {
                outcomes.extend(highway_protocol.handle_action(ACTION_ID_VERTEX, now))
            }
            _ => (),
        }
    }
    panic!("failed to return DoppelgangerDetected effect");
}

#[test]
fn signature_forgery_is_disconnected() {
    let creator = ValidatorIndex(0);
    let panorama = Panorama::all_unseen(1);
    let now: u64 = 0;
    let wunit = WireUnit {
        panorama,
        creator,
        instance_id: instance_id(),
        value: None,
        seq_number: 0,
        timestamp: now,
        round_exp: 14,
        endorsed: Vec::new(),
    };
    // Signed by BOB but claiming to be ALICE.
    let msg = unit_message(wunit, &bob_seed());
    let mut highway_protocol =
        new_test_highway_protocol(vec![(alice_public_key(), 100)], vec![]);
    let sender = ALICE_NODE_ID;
    let outcomes = highway_protocol.handle_message(sender, &msg, now);
    assert_eq!(outcomes.len(), 1);
    assert!(matches!(outcomes[0], ProtocolOutcome::Disconnect(s) if s == sender));
    assert_eq!(highway_protocol.state.units.len(), 0);
}

#[test]
fn verify_rejects_tampered_message() {
    let pk = alice_public_key();
    let msg = vec![1u8, 2, 3];
    let sig = ed25519_sign(&alice_seed(), &msg).unwrap();
    assert!(verify_sig(&pk, &msg, &sig));
    let other = vec![1u8, 2, 4];
    assert!(!verify_sig(&pk, &other, &sig));
}

#[test]
fn codec_round_trip_is_canonical() {
    let wunit = WireUnit {
        panorama: Panorama::all_unseen(1),
        creator: ValidatorIndex(0),
        instance_id: instance_id(),
        value: Some(vec![5u8, 6, 7]),
        seq_number: 3,
        timestamp: 99,
        round_exp: 14,
        endorsed: Vec::new(),
    };
    let msg = unit_message(wunit, &alice_seed());
    let decoded = decode_message(&msg).unwrap();
    let reencoded = encode_message(&decoded);
    assert_eq!(reencoded, msg);
    assert!(decode_message(&Vec::new()).is_none());
    assert!(decode_message(&vec![255u8, 255, 255]).is_none());
}

#[test]
fn equivocation_yields_evidence_and_faulty_observation() {
    let creator = ValidatorIndex(0);
    let now: u64 = 0;
    let mk_unit = |timestamp: u64| WireUnit {
        panorama: Panorama::all_unseen(1),
        creator,
        instance_id: instance_id(),
        value: None,
        seq_number: 0,
        timestamp,
        round_exp: 14,
        endorsed: Vec::new(),
    };
    let mut highway_protocol =
        new_test_highway_protocol(vec![(alice_public_key(), 100)], vec![]);
    let sender = ALICE_NODE_ID;
    let outcomes1 = highway_protocol.handle_message(sender, &unit_message(mk_unit(0), &alice_seed()), now);
    assert!(outcomes1
        .iter()
        .any(|o| matches!(o, ProtocolOutcome::CreatedGossipMessage(_))));
    // Same creator, same sequence number, different content.
    let outcomes2 = highway_protocol.handle_message(sender, &unit_message(mk_unit(1), &alice_seed()), now);
    assert!(outcomes2
        .iter()
        .any(|o| matches!(o, ProtocolOutcome::CreatedGossipMessage(_))));
    assert_eq!(highway_protocol.state.evidence.len(), 1);
    assert!(matches!(
        highway_protocol.state.panorama.obs[0],
        Observation::Faulty
    ));
    // A later unit from the same creator can no longer downgrade Faulty.
    let outcomes3 = highway_protocol.handle_message(sender, &unit_message(mk_unit(2), &alice_seed()), now);
    let _ = outcomes3;
    assert!(matches!(
        highway_protocol.state.panorama.obs[0],
        Observation::Faulty
    ));
}

#[test]
fn single_validator_finalizes_with_confirmation() {
    let creator = ValidatorIndex(0);
    let now: u64 = 0;
    let proposal = WireUnit {
        panorama: Panorama::all_unseen(1),
        creator,
        instance_id: instance_id(),
        value: Some(vec![77u8]),
        seq_number: 0,
        timestamp: now,
        round_exp: 14,
        endorsed: Vec::new(),
    };
    let h1 = hash_unit(&proposal);
    let mut highway_protocol =
        new_test_highway_protocol(vec![(alice_public_key(), 100)], vec![]);
    let sender = ALICE_NODE_ID;
    let o1 = highway_protocol.handle_message(sender, &unit_message(proposal, &alice_seed()), now);
    assert!(!o1.iter().any(|o| matches!(o, ProtocolOutcome::FinalizedBlock(_))));
    // A confirmation vote that cites the proposal closes the level-one
    // summit for the whole weight, so the block becomes final.
    let vote = WireUnit {
        panorama: Panorama { obs: vec![Observation::Correct(h1)] },
        creator,
        instance_id: instance_id(),
        value: None,
        seq_number: 1,
        timestamp: now + 1,
        round_exp: 14,
        endorsed: Vec::new(),
    };
    let o2 = highway_protocol.handle_message(sender, &unit_message(vote, &alice_seed()), now);
    assert!(o2
        .iter()
        .any(|o| matches!(o, ProtocolOutcome::FinalizedBlock(p) if p == &vec![77u8])));
    assert_eq!(highway_protocol.state.finalized.len(), 1);
}

#[test]
fn wal_replay_is_idempotent() {
    let creator = ValidatorIndex(0);
    let proposal = WireUnit {
        panorama: Panorama::all_unseen(1),
        creator,
        instance_id: instance_id(),
        value: Some(vec![1u8]),
        seq_number: 0,
        timestamp: 0,
        round_exp: 14,
        endorsed: Vec::new(),
    };
    let su = signed_unit(proposal, &alice_seed());
    let records = vec![Vertex::Unit(su)];
    let mut state = new_test_state(vec![100], 0);
    state.replay(&records);
    assert_eq!(state.units.len(), 1);
    let h = hash_unit(&state.units[0].swu.unit);
    // Replaying the same records again leaves the store bit-identical.
    state.replay(&records);
    assert_eq!(state.units.len(), 1);
    assert_eq!(state.blocks.len(), 1);
    assert_eq!(hash_unit(&state.units[0].swu.unit).bytes, h.bytes);
}

#[test]
fn round_action_creates_and_gossips_a_unit() {
    let mut highway_protocol =
        new_test_highway_protocol(vec![(alice_public_key(), 100)], vec![]);
    let now: u64 = 0;
    let _ = highway_protocol.activate_validator(alice_public_key(), alice_seed(), now);
    assert!(highway_protocol.is_active());
    // The single validator leads every round.
    assert_eq!(highway_protocol.round_leader(0), 0);
    let outcomes = highway_protocol.handle_action(ACTION_ID_ROUND, now);
    assert!(outcomes
        .iter()
        .any(|o| matches!(o, ProtocolOutcome::CreatedGossipMessage(_))));
    assert!(outcomes
        .iter()
        .any(|o| matches!(o, ProtocolOutcome::ScheduleTimer(ACTION_ID_ROUND, _))));
    assert_eq!(highway_protocol.state.units.len(), 1);
}

#[test]
fn missing_dependency_is_requested_and_later_resolved() {
    let creator = ValidatorIndex(0);
    let now: u64 = 0;
    let proposal = WireUnit {
        panorama: Panorama::all_unseen(1),
        creator,
        instance_id: instance_id(),
        value: Some(vec![8u8]),
        seq_number: 0,
        timestamp: now,
        round_exp: 14,
        endorsed: Vec::new(),
    };
    let h1 = hash_unit(&proposal);
    let vote = WireUnit {
        panorama: Panorama { obs: vec![Observation::Correct(hash_unit(&proposal))] },
        creator,
        instance_id: instance_id(),
        value: None,
        seq_number: 1,
        timestamp: now + 1,
        round_exp: 14,
        endorsed: Vec::new(),
    };
    let mut highway_protocol =
        new_test_highway_protocol(vec![(alice_public_key(), 100)], vec![]);
    let sender = ALICE_NODE_ID;
    // The vote arrives before the proposal it cites: the driver asks for
    // the dependency and queues the vote.
    let o1 = highway_protocol.handle_message(sender, &unit_message(vote, &alice_seed()), now);
    assert!(o1.iter().any(|o| matches!(o, ProtocolOutcome::CreatedGossipMessage(_))));
    assert_eq!(highway_protocol.state.units.len(), 0);
    assert_eq!(highway_protocol.synchronizer.len(), 1);
    // The proposal arrives: the queued vote is re-submitted in causal
    // order through the vertex action.
    let o2 = highway_protocol.handle_message(sender, &unit_message(proposal, &alice_seed()), now);
    assert!(o2.iter().any(|o| matches!(o, ProtocolOutcome::QueueAction(ACTION_ID_VERTEX))));
    assert_eq!(highway_protocol.synchronizer.len(), 0);
    let o3 = highway_protocol.handle_action(ACTION_ID_VERTEX, now);
    assert!(o3.iter().any(|o| matches!(o, ProtocolOutcome::CreatedGossipMessage(_))));
    assert_eq!(highway_protocol.state.units.len(), 2);
    assert!(highway_protocol.state.has_unit(&h1));
}

#[test]
fn purge_disconnects_timed_out_peers() {
    let creator = ValidatorIndex(0);
    let vote = WireUnit {
        panorama: Panorama {
            obs: vec![Observation::Correct(highway_core::panorama::UnitHash {
                bytes: vec![1u8; 32],
            })],
        },
        creator,
        instance_id: instance_id(),
        value: None,
        seq_number: 1,
        timestamp: 0,
        round_exp: 14,
        endorsed: Vec::new(),
    };
    let mut highway_protocol =
        new_test_highway_protocol(vec![(alice_public_key(), 100)], vec![]);
    let sender = ALICE_NODE_ID;
    let _ = highway_protocol.handle_message(sender, &unit_message(vote, &alice_seed()), 0);
    assert_eq!(highway_protocol.synchronizer.len(), 1);
    // Before the timeout the vertex stays queued; the purge reschedules
    // itself either way.
    let o1 = highway_protocol.handle_action(ACTION_ID_PURGE_VERTICES, 1_000);
    assert!(!o1.iter().any(|o| matches!(o, ProtocolOutcome::Disconnect(_))));
    assert_eq!(highway_protocol.synchronizer.len(), 1);
    // Past the timeout the eviction is observable as a disconnect.
    let o2 = highway_protocol.handle_action(ACTION_ID_PURGE_VERTICES, 100_000);
    assert!(o2.iter().any(|o| matches!(o, ProtocolOutcome::Disconnect(s) if *s == sender)));
    assert!(o2
        .iter()
        .any(|o| matches!(o, ProtocolOutcome::ScheduleTimer(ACTION_ID_PURGE_VERTICES, _))));
    assert_eq!(highway_protocol.synchronizer.len(), 0);
}

#[test]
fn unordered_endorsements_are_rejected() {
    let creator = ValidatorIndex(0);
    let now: u64 = 0;
    // The endorsement set must be in canonical (strictly increasing)
    // form; a duplicated or unsorted list is a protocol violation.
    let wunit = WireUnit {
        panorama: Panorama::all_unseen(1),
        creator,
        instance_id: instance_id(),
        value: None,
        seq_number: 0,
        timestamp: now,
        round_exp: 14,
        endorsed: vec![
            UnitHash { bytes: vec![2u8; 32] },
            UnitHash { bytes: vec![1u8; 32] },
        ],
    };
    let msg = unit_message(wunit, &alice_seed());
    let mut highway_protocol =
        new_test_highway_protocol(vec![(alice_public_key(), 100)], vec![]);
    let sender = ALICE_NODE_ID;
    let outcomes = highway_protocol.handle_message(sender, &msg, now);
    assert_eq!(outcomes.len(), 1);
    assert!(matches!(outcomes[0], ProtocolOutcome::Disconnect(s) if s == sender));
    assert_eq!(highway_protocol.state.units.len(), 0);
}
