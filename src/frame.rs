//! The wire format as a specification, and how the decoder walks one frame.

use vstd::prelude::*;
use crate::checksum::ChecksumEngine;
use crate::decoder::{step, DecoderModel, DecoderState, FOOTER_MARKER, HEADER_MARKER};
use crate::stream::{deliver, lemma_run_append, lemma_run_one, run};

verus! {

/// The low byte of a 16-bit value.
pub open spec fn low_byte(v: u16) -> u8 {
    (v % 0x100) as u8
}

/// The high byte of a 16-bit value.
pub open spec fn high_byte(v: u16) -> u8 {
    (v / 0x100) as u8
}

/// A 16-bit value as two bytes on the wire, low byte first.
pub open spec fn le_bytes(v: u16) -> Seq<u8> {
    seq![low_byte(v), high_byte(v)]
}

/// The checksum of `bytes`, folded over them in order from the engine's
/// initial value.
pub open spec fn checksum_of<C: ChecksumEngine>(bytes: Seq<u8>) -> u16
    decreases bytes.len(),
{
    if bytes.len() == 0 {
        C::initial_spec()
    } else {
        C::update_spec(checksum_of::<C>(bytes.drop_last()), bytes.last())
    }
}

/// The checksum that a frame carrying `payload` must hold: over its two
/// length bytes and its payload.
pub open spec fn frame_checksum<C: ChecksumEngine>(payload: Seq<u8>) -> u16 {
    checksum_of::<C>(le_bytes(payload.len() as u16) + payload)
}

/// The bytes of a frame with the given fields, valid or not.
pub open spec fn frame(length: u16, payload: Seq<u8>, checksum: u16, footer: u8) -> Seq<u8> {
    seq![HEADER_MARKER] + le_bytes(length) + payload + le_bytes(checksum) + seq![footer]
}

/// The valid frame that carries `payload`.
pub open spec fn encode<C: ChecksumEngine>(payload: Seq<u8>) -> Seq<u8> {
    frame(payload.len() as u16, payload, frame_checksum::<C>(payload), FOOTER_MARKER)
}

/// Feeding two bytes is delivering one and then the other.
proof fn lemma_run_two<C: ChecksumEngine>(m: DecoderModel, a: u8, b: u8)
    ensures
        run::<C>(m, seq![a, b]) == ({
            let (m1, o1) = deliver::<C>(m, a);
            let (m2, o2) = deliver::<C>(m1, b);
            (m2, o1 + o2)
        }),
{
    assert(seq![a, b] =~= seq![a] + seq![b]);
    lemma_run_append::<C>(m, seq![a], seq![b]);
    lemma_run_one::<C>(m, a);
    lemma_run_one::<C>(deliver::<C>(m, a).0, b);
}

/// Header and length bytes take an awaiting decoder to the start of the
/// payload, with the checksum run over the length bytes.
proof fn lemma_frame_head<C: ChecksumEngine>(m: DecoderModel, length: u16)
    requires
        m.state == DecoderState::AwaitHeader,
        length > 0,
    ensures
        ({
            let (m3, out) = run::<C>(m, seq![HEADER_MARKER] + le_bytes(length));
            &&& out == Seq::<Seq<u8>>::empty()
            &&& m3.state == DecoderState::ReceivingPayload
            &&& m3.payload == Seq::<u8>::empty()
            &&& m3.expected_length == length
            &&& m3.bytes_received == 0
            &&& m3.running_checksum == checksum_of::<C>(le_bytes(length))
        }),
{
    let lb = le_bytes(length);
    lemma_run_append::<C>(m, seq![HEADER_MARKER], lb);
    lemma_run_one::<C>(m, HEADER_MARKER);
    let m1 = deliver::<C>(m, HEADER_MARKER).0;
    lemma_run_two::<C>(m1, low_byte(length), high_byte(length));
    assert(low_byte(length) + 0x100 * high_byte(length) == length);
    assert(lb.drop_last() =~= seq![low_byte(length)]);
    assert(lb.drop_last().drop_last() =~= Seq::<u8>::empty());
    assert(checksum_of::<C>(lb.drop_last().drop_last()) == C::initial_spec());
    assert(checksum_of::<C>(lb.drop_last()) == C::update_spec(C::initial_spec(), low_byte(length)));
    assert(Seq::<Seq<u8>>::empty() + Seq::<Seq<u8>>::empty() =~= Seq::<Seq<u8>>::empty());
}

/// The payload bytes, from the `i`th on, take the decoder to the checksum
/// with the whole payload gathered and the checksum run over it.
proof fn lemma_frame_payload<C: ChecksumEngine>(m: DecoderModel, payload: Seq<u8>, i: int)
    requires
        0 <= i < payload.len() <= 0xffff,
        m.state == DecoderState::ReceivingPayload,
        m.payload == payload.take(i),
        m.bytes_received == i,
        m.expected_length == payload.len(),
        m.running_checksum == checksum_of::<C>(le_bytes(payload.len() as u16) + payload.take(i)),
    ensures
        run::<C>(m, payload.skip(i)) == (
            DecoderModel {
                state: DecoderState::ChecksumLow,
                payload: payload,
                bytes_received: payload.len() as u16,
                running_checksum: frame_checksum::<C>(payload),
                ..m
            },
            Seq::<Seq<u8>>::empty(),
        ),
    decreases payload.len() - i,
{
    let lb = le_bytes(payload.len() as u16);
    let (m1, o1) = deliver::<C>(m, payload[i]);
    assert(payload.take(i).push(payload[i]) =~= payload.take(i + 1));
    assert((lb + payload.take(i + 1)).drop_last() =~= lb + payload.take(i));
    assert(payload.skip(i).drop_first() =~= payload.skip(i + 1));
    if i + 1 == payload.len() {
        assert(payload.take(i + 1) =~= payload);
        assert(payload.skip(i) =~= seq![payload[i]]);
        lemma_run_one::<C>(m, payload[i]);
    } else {
        lemma_frame_payload::<C>(m1, payload, i + 1);
        assert(o1 + Seq::<Seq<u8>>::empty() =~= o1);
    }
}

/// What feeding a whole frame to an awaiting decoder brings about: its
/// message when checksum and footer are right, and otherwise nothing, the
/// frame discarded and the decoder reset; but a footer byte that comes after
/// a rejected checksum is read as a header, and may open the next frame.
pub proof fn lemma_frame_run<C: ChecksumEngine>(m: DecoderModel, payload: Seq<u8>, checksum: u16, footer: u8)
    requires
        m.state == DecoderState::AwaitHeader,
        0 < payload.len() <= 0xffff,
    ensures
        ({
            let (next, out) = run::<C>(m, frame(payload.len() as u16, payload, checksum, footer));
            if checksum == frame_checksum::<C>(payload) && footer == FOOTER_MARKER {
                next == DecoderModel::initial() && out == seq![payload]
            } else if checksum != frame_checksum::<C>(payload) && footer == HEADER_MARKER {
                next == step::<C>(DecoderModel::initial(), HEADER_MARKER).0 && out == Seq::<Seq<u8>>::empty()
            } else {
                next == DecoderModel::initial() && out == Seq::<Seq<u8>>::empty()
            }
        }),
{
    let length = payload.len() as u16;
    let head = seq![HEADER_MARKER] + le_bytes(length);
    let tail = le_bytes(checksum) + seq![footer];
    assert(frame(length, payload, checksum, footer) =~= head + (payload + tail));
    lemma_run_append::<C>(m, head, payload + tail);
    lemma_frame_head::<C>(m, length);
    let (m3, o3) = run::<C>(m, head);
    lemma_run_append::<C>(m3, payload, tail);
    assert(payload.take(0) =~= Seq::<u8>::empty());
    assert(le_bytes(length) + Seq::<u8>::empty() =~= le_bytes(length));
    assert(payload.skip(0) =~= payload);
    lemma_frame_payload::<C>(m3, payload, 0);
    let (mc, oc) = run::<C>(m3, payload);
    lemma_run_append::<C>(mc, le_bytes(checksum), seq![footer]);
    lemma_run_two::<C>(mc, low_byte(checksum), high_byte(checksum));
    assert(low_byte(checksum) + 0x100 * high_byte(checksum) == checksum);
    let (mk, ok) = run::<C>(mc, le_bytes(checksum));
    lemma_run_one::<C>(mk, footer);
    let (mt, ot) = run::<C>(mc, tail);
    assert(o3 + (oc + ot) =~= ot);
    if checksum == frame_checksum::<C>(payload) && footer == FOOTER_MARKER {
        assert(ot =~= seq![payload]);
    } else {
        assert(ot =~= Seq::<Seq<u8>>::empty());
    }
}

} // verus!
