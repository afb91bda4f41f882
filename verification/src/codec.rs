//! Canonical wire format of the protocol.
//!
//! Every integer is eight little-endian bytes, every byte string is
//! length-prefixed, and every union is tagged with one byte.  A message
//! decodes successfully only if it is the canonical encoding of its content,
//! so a decoded value always re-encodes to the exact input bytes.

use vstd::prelude::*;
use vstd::bytes::{spec_u64_to_le_bytes, u64_from_le_bytes, u64_to_le_bytes};
use vstd::slice::slice_subrange;
use crate::base::bytes_eq;
use crate::panorama::{Observation, ObsView, Panorama, UnitHash};
use crate::units::{
    Evidence, EvidenceView, HighwayMessage, MessageView, SignedEndorsement, SignedWireUnit,
    SignedWireUnitView, Vertex, VertexView, WireUnit, WireUnitView,
};

verus! {

pub open spec fn enc_u64(x: u64) -> Seq<u8> {
    spec_u64_to_le_bytes(x)
}

pub open spec fn enc_bytes(b: Seq<u8>) -> Seq<u8> {
    enc_u64(b.len() as u64) + b
}

pub open spec fn enc_obs(o: ObsView) -> Seq<u8> {
    match o {
        ObsView::Unseen => seq![0u8],
        ObsView::Correct(h) => seq![1u8] + enc_bytes(h),
        ObsView::Faulty => seq![2u8],
    }
}

pub open spec fn enc_obs_from(s: Seq<ObsView>, i: int) -> Seq<u8>
    decreases s.len() - i,
{
    if i < 0 || i >= s.len() {
        Seq::empty()
    } else {
        enc_obs(s[i]) + enc_obs_from(s, i + 1)
    }
}

pub open spec fn enc_panorama(s: Seq<ObsView>) -> Seq<u8> {
    enc_u64(s.len() as u64) + enc_obs_from(s, 0)
}

pub open spec fn enc_opt_bytes(v: Option<Seq<u8>>) -> Seq<u8> {
    match v {
        Option::None => seq![0u8],
        Option::Some(b) => seq![1u8] + enc_bytes(b),
    }
}

pub open spec fn enc_hashes_from(s: Seq<Seq<u8>>, i: int) -> Seq<u8>
    decreases s.len() - i,
{
    if i < 0 || i >= s.len() {
        Seq::empty()
    } else {
        enc_bytes(s[i]) + enc_hashes_from(s, i + 1)
    }
}

pub open spec fn enc_hashes(s: Seq<Seq<u8>>) -> Seq<u8> {
    enc_u64(s.len() as u64) + enc_hashes_from(s, 0)
}

pub open spec fn enc_wire_unit(u: WireUnitView) -> Seq<u8> {
    enc_panorama(u.panorama) + enc_u64(u.creator.0) + enc_bytes(u.instance_id) + enc_opt_bytes(
        u.value,
    ) + enc_u64(u.seq_number) + enc_u64(u.timestamp) + seq![u.round_exp] + enc_hashes(u.endorsed)
}

pub open spec fn enc_signed_unit(su: SignedWireUnitView) -> Seq<u8> {
    enc_wire_unit(su.unit) + enc_bytes(su.signature)
}

pub open spec fn enc_vertex(v: VertexView) -> Seq<u8> {
    match v {
        VertexView::Unit(u) => seq![0u8] + enc_signed_unit(u),
        VertexView::Evidence(e) => seq![1u8] + enc_signed_unit(e.unit1) + enc_signed_unit(e.unit2),
        VertexView::Endorsement(e) => seq![2u8] + enc_bytes(e.unit_hash) + enc_u64(e.validator.0)
            + enc_bytes(e.signature),
    }
}

pub open spec fn enc_message(m: MessageView) -> Seq<u8> {
    match m {
        MessageView::NewVertex(v) => seq![0u8] + enc_vertex(v),
        MessageView::RequestDependency(h) => seq![1u8] + enc_bytes(h),
    }
}

fn push_u64(out: &mut Vec<u8>, x: u64)
    ensures
        final(out)@ == old(out)@ + enc_u64(x),
{
    let mut b = u64_to_le_bytes(x);
    out.append(&mut b);
}

fn push_tag(out: &mut Vec<u8>, t: u8)
    ensures
        final(out)@ == old(out)@ + seq![t],
{
    out.push(t);
    assert(out@ =~= old(out)@ + seq![t]);
}

fn push_bytes(out: &mut Vec<u8>, b: &Vec<u8>)
    ensures
        final(out)@ == old(out)@ + enc_bytes(b@),
{
    push_u64(out, b.len() as u64);
    let ghost mid = out@;
    let mut i: usize = 0;
    while i < b.len()
        invariant
            i <= b.len(),
            out@ =~= mid + b@.subrange(0, i as int),
        decreases b.len() - i,
    {
        out.push(b[i]);
        i = i + 1;
    }
    assert(out@ =~= old(out)@ + enc_bytes(b@));
}

fn push_observation(out: &mut Vec<u8>, o: &Observation)
    ensures
        final(out)@ == old(out)@ + enc_obs(o@),
{
    match o {
        Observation::Unseen => push_tag(out, 0),
        Observation::Correct(h) => {
            push_tag(out, 1);
            push_bytes(out, &h.bytes);
            assert(out@ =~= old(out)@ + enc_obs(o@));
        },
        Observation::Faulty => push_tag(out, 2),
    }
}

fn push_panorama(out: &mut Vec<u8>, p: &Panorama)
    ensures
        final(out)@ == old(out)@ + enc_panorama(p@),
{
    push_u64(out, p.len() as u64);
    let ghost base = out@;
    let mut i: usize = 0;
    while i < p.len()
        invariant
            i <= p@.len(),
            out@ + enc_obs_from(p@, i as int) =~= base + enc_obs_from(p@, 0),
        decreases p@.len() - i,
    {
        let ghost pre = out@;
        push_observation(out, p.get(i));
        assert(enc_obs_from(p@, i as int) == enc_obs(p@[i as int]) + enc_obs_from(
            p@,
            i as int + 1,
        ));
        assert(out@ + enc_obs_from(p@, i as int + 1) =~= pre + enc_obs_from(p@, i as int));
        i = i + 1;
    }
    assert(enc_obs_from(p@, p@.len() as int) =~= Seq::empty());
    assert(out@ =~= out@ + enc_obs_from(p@, p@.len() as int));
    assert(out@ =~= old(out)@ + enc_panorama(p@));
}

fn push_unit(out: &mut Vec<u8>, u: &WireUnit)
    ensures
        final(out)@ == old(out)@ + enc_wire_unit(u@),
{
    push_panorama(out, &u.panorama);
    push_u64(out, u.creator.0);
    push_bytes(out, &u.instance_id);
    match &u.value {
        Option::None => push_tag(out, 0),
        Option::Some(v) => {
            push_tag(out, 1);
            push_bytes(out, v);
        },
    }
    push_u64(out, u.seq_number);
    push_u64(out, u.timestamp);
    push_tag(out, u.round_exp);
    push_u64(out, u.endorsed.len() as u64);
    let ghost base = out@;
    let ghost hs = u@.endorsed;
    assert(hs.len() == u.endorsed@.len());
    let mut i: usize = 0;
    while i < u.endorsed.len()
        invariant
            i <= u.endorsed@.len(),
            hs == u@.endorsed,
            hs.len() == u.endorsed@.len(),
            forall|j: int| 0 <= j < hs.len() ==> hs[j] == u.endorsed@[j]@,
            out@ + enc_hashes_from(hs, i as int) =~= base + enc_hashes_from(hs, 0),
        decreases u.endorsed@.len() - i,
    {
        let ghost pre = out@;
        push_bytes(out, &u.endorsed[i].bytes);
        assert(enc_hashes_from(hs, i as int) == enc_bytes(hs[i as int]) + enc_hashes_from(
            hs,
            i as int + 1,
        ));
        assert(out@ + enc_hashes_from(hs, i as int + 1) =~= pre + enc_hashes_from(hs, i as int));
        i = i + 1;
    }
    assert(enc_hashes_from(hs, hs.len() as int) =~= Seq::empty());
    assert(out@ =~= out@ + enc_hashes_from(hs, hs.len() as int));
    assert(out@ =~= old(out)@ + enc_wire_unit(u@));
}

fn push_signed_unit(out: &mut Vec<u8>, su: &SignedWireUnit)
    ensures
        final(out)@ == old(out)@ + enc_signed_unit(su@),
{
    push_unit(out, &su.unit);
    push_bytes(out, &su.signature);
    assert(out@ =~= old(out)@ + enc_signed_unit(su@));
}

/// Canonical encoding of a unit's signable content.
pub fn encode_unit(u: &WireUnit) -> (r: Vec<u8>)
    ensures
        r@ == enc_wire_unit(u@),
{
    let mut out: Vec<u8> = Vec::new();
    push_unit(&mut out, u);
    assert(out@ =~= enc_wire_unit(u@));
    out
}

/// Canonical encoding of a vertex, as stored in the write-ahead log.
pub fn encode_vertex(v: &Vertex) -> (r: Vec<u8>)
    ensures
        r@ == enc_vertex(v@),
{
    let mut out: Vec<u8> = Vec::new();
    match v {
        Vertex::Unit(su) => {
            push_tag(&mut out, 0);
            push_signed_unit(&mut out, su);
        },
        Vertex::Evidence(e) => {
            push_tag(&mut out, 1);
            push_signed_unit(&mut out, &e.unit1);
            push_signed_unit(&mut out, &e.unit2);
        },
        Vertex::Endorsement(e) => {
            push_tag(&mut out, 2);
            push_bytes(&mut out, &e.unit_hash.bytes);
            push_u64(&mut out, e.validator.0);
            push_bytes(&mut out, &e.signature);
        },
    }
    assert(out@ =~= enc_vertex(v@));
    out
}

/// Canonical encoding of a whole protocol message.
pub fn encode_message(m: &HighwayMessage) -> (r: Vec<u8>)
    ensures
        r@ == enc_message(m@),
{
    let mut out: Vec<u8> = Vec::new();
    match m {
        HighwayMessage::NewVertex(v) => {
            push_tag(&mut out, 0);
            let mut enc = encode_vertex(v);
            out.append(&mut enc);
        },
        HighwayMessage::RequestDependency(h) => {
            push_tag(&mut out, 1);
            push_bytes(&mut out, &h.bytes);
        },
    }
    assert(out@ =~= enc_message(m@));
    out
}

fn parse_u8(bytes: &Vec<u8>, pos: &mut usize) -> (r: Option<u8>)
    requires
        *old(pos) <= bytes@.len(),
    ensures
        *final(pos) <= bytes@.len(),
        *old(pos) <= *final(pos),
{
    if *pos < bytes.len() {
        let b = bytes[*pos];
        *pos = *pos + 1;
        Some(b)
    } else {
        None
    }
}

fn parse_u64(bytes: &Vec<u8>, pos: &mut usize) -> (r: Option<u64>)
    requires
        *old(pos) <= bytes@.len(),
    ensures
        *final(pos) <= bytes@.len(),
        *old(pos) <= *final(pos),
{
    if bytes.len() - *pos >= 8 {
        let s = slice_subrange(bytes.as_slice(), *pos, *pos + 8);
        let x = u64_from_le_bytes(s);
        *pos = *pos + 8;
        Some(x)
    } else {
        None
    }
}

fn parse_bytes(bytes: &Vec<u8>, pos: &mut usize) -> (r: Option<Vec<u8>>)
    requires
        *old(pos) <= bytes@.len(),
    ensures
        *final(pos) <= bytes@.len(),
        *old(pos) <= *final(pos),
{
    let len = parse_u64(bytes, pos)?;
    let rem = bytes.len() - *pos;
    if len > rem as u64 {
        return None;
    }
    let n = len as usize;
    assert(n == len as int);
    assert(*pos + n <= bytes@.len());
    let start: usize = *pos;
    let blen: usize = bytes.len();
    assert(start + n <= blen);
    let end: usize = start + n;
    let mut out: Vec<u8> = Vec::new();
    let mut i: usize = 0;
    while i < n
        invariant
            i <= n,
            end == start + n,
            end <= bytes@.len(),
        decreases n - i,
    {
        out.push(bytes[start + i]);
        i = i + 1;
    }
    *pos = end;
    Some(out)
}

fn parse_observation(bytes: &Vec<u8>, pos: &mut usize) -> (r: Option<Observation>)
    requires
        *old(pos) <= bytes@.len(),
    ensures
        *final(pos) <= bytes@.len(),
        *old(pos) <= *final(pos),
{
    let tag = parse_u8(bytes, pos)?;
    if tag == 0 {
        Some(Observation::Unseen)
    } else if tag == 1 {
        let b = parse_bytes(bytes, pos)?;
        Some(Observation::Correct(UnitHash { bytes: b }))
    } else if tag == 2 {
        Some(Observation::Faulty)
    } else {
        None
    }
}

fn parse_panorama(bytes: &Vec<u8>, pos: &mut usize) -> (r: Option<Panorama>)
    requires
        *old(pos) <= bytes@.len(),
    ensures
        *final(pos) <= bytes@.len(),
        *old(pos) <= *final(pos),
{
    let count = parse_u64(bytes, pos)?;
    if count > bytes.len() as u64 {
        return None;
    }
    let n = count as usize;
    let mut obs: Vec<Observation> = Vec::new();
    let mut i: usize = 0;
    while i < n
        invariant
            i <= n,
            *pos <= bytes@.len(),
            *old(pos) <= *pos,
        decreases n - i,
    {
        let o = parse_observation(bytes, pos)?;
        obs.push(o);
        i = i + 1;
    }
    Some(Panorama { obs })
}

fn parse_unit(bytes: &Vec<u8>, pos: &mut usize) -> (r: Option<WireUnit>)
    requires
        *old(pos) <= bytes@.len(),
    ensures
        *final(pos) <= bytes@.len(),
        *old(pos) <= *final(pos),
{
    let panorama = parse_panorama(bytes, pos)?;
    let creator = parse_u64(bytes, pos)?;
    let instance_id = parse_bytes(bytes, pos)?;
    let vtag = parse_u8(bytes, pos)?;
    let value = if vtag == 0 {
        Option::None
    } else if vtag == 1 {
        Option::Some(parse_bytes(bytes, pos)?)
    } else {
        return None;
    };
    let seq_number = parse_u64(bytes, pos)?;
    let timestamp = parse_u64(bytes, pos)?;
    let round_exp = parse_u8(bytes, pos)?;
    let count = parse_u64(bytes, pos)?;
    if count > bytes.len() as u64 {
        return None;
    }
    let n = count as usize;
    let mut endorsed: Vec<UnitHash> = Vec::new();
    let mut i: usize = 0;
    while i < n
        invariant
            i <= n,
            *pos <= bytes@.len(),
            *old(pos) <= *pos,
        decreases n - i,
    {
        let b = parse_bytes(bytes, pos)?;
        endorsed.push(UnitHash { bytes: b });
        i = i + 1;
    }
    Some(
        WireUnit {
            panorama,
            creator: crate::base::ValidatorIndex(creator),
            instance_id,
            value,
            seq_number,
            timestamp,
            round_exp,
            endorsed,
        },
    )
}

fn parse_signed_unit(bytes: &Vec<u8>, pos: &mut usize) -> (r: Option<SignedWireUnit>)
    requires
        *old(pos) <= bytes@.len(),
    ensures
        *final(pos) <= bytes@.len(),
        *old(pos) <= *final(pos),
{
    let unit = parse_unit(bytes, pos)?;
    let signature = parse_bytes(bytes, pos)?;
    Some(SignedWireUnit { unit, signature })
}

fn parse_message(bytes: &Vec<u8>) -> (r: Option<(HighwayMessage, usize)>)
    ensures
        r is Some ==> r.unwrap().1 <= bytes@.len(),
{
    let mut pos: usize = 0;
    let tag = parse_u8(bytes, &mut pos)?;
    if tag == 0 {
        let vtag = parse_u8(bytes, &mut pos)?;
        if vtag == 0 {
            let su = parse_signed_unit(bytes, &mut pos)?;
            Some((HighwayMessage::NewVertex(Vertex::Unit(su)), pos))
        } else if vtag == 1 {
            let u1 = parse_signed_unit(bytes, &mut pos)?;
            let u2 = parse_signed_unit(bytes, &mut pos)?;
            Some((HighwayMessage::NewVertex(Vertex::Evidence(Evidence { unit1: u1, unit2: u2 })), pos))
        } else if vtag == 2 {
            let h = parse_bytes(bytes, &mut pos)?;
            let v = parse_u64(bytes, &mut pos)?;
            let sig = parse_bytes(bytes, &mut pos)?;
            Some(
                (
                    HighwayMessage::NewVertex(
                        Vertex::Endorsement(
                            SignedEndorsement {
                                unit_hash: UnitHash { bytes: h },
                                validator: crate::base::ValidatorIndex(v),
                                signature: sig,
                            },
                        ),
                    ),
                    pos,
                ),
            )
        } else {
            None
        }
    } else if tag == 1 {
        let h = parse_bytes(bytes, &mut pos)?;
        Some((HighwayMessage::RequestDependency(UnitHash { bytes: h }), pos))
    } else {
        None
    }
}

/// Decodes a protocol message; accepts only the canonical encoding, so a
/// decoded message always re-encodes to exactly the input bytes.  Empty or
/// otherwise malformed payloads never decode.
pub fn decode_message(bytes: &Vec<u8>) -> (r: Option<HighwayMessage>)
    ensures
        r matches Some(m) ==> enc_message(m@) == bytes@,
        bytes@.len() == 0 ==> r is None,
{
    let parsed = parse_message(bytes);
    match parsed {
        Option::None => Option::None,
        Option::Some((m, used)) => {
            if used != bytes.len() {
                return Option::None;
            }
            let re = encode_message(&m);
            if bytes_eq(&re, bytes) {
                assert(enc_message(m@) == bytes@);
                assert(enc_message(m@).len() >= 1);
                Option::Some(m)
            } else {
                Option::None
            }
        },
    }
}

/// Content hash of a unit: the era digest of its canonical encoding.
pub fn hash_unit(u: &WireUnit) -> (r: UnitHash)
    ensures
        r@ == crate::crypto::hash_of(enc_wire_unit(u@)),
{
    UnitHash { bytes: crate::crypto::hash_bytes(&encode_unit(u)) }
}

} // verus!
