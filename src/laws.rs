//! What the decoder guarantees of whole streams.

use vstd::prelude::*;
use crate::checksum::ChecksumEngine;
use crate::decoder::{DecoderModel, DecoderState, FOOTER_MARKER, HEADER_MARKER};
use crate::frame::{encode, frame, frame_checksum, high_byte, le_bytes, lemma_frame_run, low_byte};
use crate::stream::{deliver, lemma_run_append, lemma_run_one, run};

verus! {

/// Feeds `chunks` one after another from `m`: the context after the last,
/// and the messages delivered, in order.
pub open spec fn run_chunks<C: ChecksumEngine>(m: DecoderModel, chunks: Seq<Seq<u8>>) -> (DecoderModel, Seq<Seq<u8>>)
    decreases chunks.len(),
{
    if chunks.len() == 0 {
        (m, Seq::empty())
    } else {
        let (m1, out1) = run::<C>(m, chunks[0]);
        let (m2, out2) = run_chunks::<C>(m1, chunks.drop_first());
        (m2, out1 + out2)
    }
}

/// Round trip: a valid frame carrying any payload of 1 to 65535 bytes, fed
/// to a decoder that awaits a header, delivers exactly that payload as one
/// message and leaves the decoder reset.
pub proof fn lemma_round_trip<C: ChecksumEngine>(m: DecoderModel, payload: Seq<u8>)
    requires
        m.state == DecoderState::AwaitHeader,
        0 < payload.len() <= 0xffff,
    ensures
        run::<C>(m, encode::<C>(payload)) == (DecoderModel::initial(), seq![payload]),
{
    lemma_frame_run::<C>(m, payload, frame_checksum::<C>(payload), FOOTER_MARKER);
}

/// Chunk-boundary invariance: however a stream is cut into chunks, feeding
/// them one after another gives the same context and the same messages as
/// feeding the whole stream at once.
pub proof fn lemma_chunk_invariance<C: ChecksumEngine>(m: DecoderModel, chunks: Seq<Seq<u8>>)
    ensures
        run_chunks::<C>(m, chunks) == run::<C>(m, chunks.flatten()),
    decreases chunks.len(),
{
    if chunks.len() == 0 {
        assert(run::<C>(m, chunks.flatten()) == (m, Seq::<Seq<u8>>::empty()));
    } else {
        lemma_run_append::<C>(m, chunks[0], chunks.drop_first().flatten());
        let m1 = run::<C>(m, chunks[0]).0;
        lemma_chunk_invariance::<C>(m1, chunks.drop_first());
    }
}

/// Bytes that are not a header leave an awaiting decoder as it is.
proof fn lemma_skip_noise<C: ChecksumEngine>(m: DecoderModel, noise: Seq<u8>)
    requires
        m.state == DecoderState::AwaitHeader,
        forall|i: int| 0 <= i < noise.len() ==> noise[i] != HEADER_MARKER,
    ensures
        run::<C>(m, noise) == (m, Seq::<Seq<u8>>::empty()),
    decreases noise.len(),
{
    if noise.len() > 0 {
        let rest = noise.drop_first();
        assert forall|i: int| 0 <= i < rest.len() implies rest[i] != HEADER_MARKER by {
            assert(rest[i] == noise[i + 1]);
        }
        lemma_skip_noise::<C>(m, rest);
        assert(Seq::<Seq<u8>>::empty() + Seq::<Seq<u8>>::empty() =~= Seq::<Seq<u8>>::empty());
    }
}

/// A valid frame after bytes that left the decoder awaiting a header and
/// delivered nothing is delivered alone.
proof fn lemma_then_frame<C: ChecksumEngine>(m: DecoderModel, before: Seq<u8>, payload: Seq<u8>)
    requires
        run::<C>(m, before).0.state == DecoderState::AwaitHeader,
        run::<C>(m, before).1 == Seq::<Seq<u8>>::empty(),
        0 < payload.len() <= 0xffff,
    ensures
        run::<C>(m, before + encode::<C>(payload)) == (DecoderModel::initial(), seq![payload]),
{
    lemma_run_append::<C>(m, before, encode::<C>(payload));
    lemma_round_trip::<C>(run::<C>(m, before).0, payload);
    assert(Seq::<Seq<u8>>::empty() + seq![payload] =~= seq![payload]);
}

/// Resynchronization: any run of bytes that holds no header, put before a
/// valid frame, does not keep the frame from being delivered.
pub proof fn lemma_resync_after_garbage<C: ChecksumEngine>(m: DecoderModel, garbage: Seq<u8>, payload: Seq<u8>)
    requires
        m.state == DecoderState::AwaitHeader,
        forall|i: int| 0 <= i < garbage.len() ==> garbage[i] != HEADER_MARKER,
        0 < payload.len() <= 0xffff,
    ensures
        run::<C>(m, garbage + encode::<C>(payload)) == (DecoderModel::initial(), seq![payload]),
{
    lemma_skip_noise::<C>(m, garbage);
    lemma_then_frame::<C>(m, garbage, payload);
}

/// Checksum rejection: a frame whose checksum field has any one bit flipped
/// delivers nothing and leaves the decoder reset, so that a valid frame
/// after it is delivered alone.
pub proof fn lemma_checksum_bit_flip_rejected<C: ChecksumEngine>(
    m: DecoderModel,
    payload: Seq<u8>,
    bit: u16,
    next: Seq<u8>,
)
    requires
        m.state == DecoderState::AwaitHeader,
        0 < payload.len() <= 0xffff,
        bit < 16,
        0 < next.len() <= 0xffff,
    ensures
        ({
            let good = frame_checksum::<C>(payload);
            let bad = frame(payload.len() as u16, payload, good ^ (1u16 << bit), FOOTER_MARKER);
            &&& run::<C>(m, bad).0 == DecoderModel::initial()
            &&& run::<C>(m, bad).1 == Seq::<Seq<u8>>::empty()
            &&& run::<C>(m, bad + encode::<C>(next)) == (DecoderModel::initial(), seq![next])
        }),
{
    let good = frame_checksum::<C>(payload);
    assert(good ^ (1u16 << bit) != good) by (bit_vector)
        requires
            bit < 16,
    ;
    lemma_frame_run::<C>(m, payload, good ^ (1u16 << bit), FOOTER_MARKER);
    let bad = frame(payload.len() as u16, payload, good ^ (1u16 << bit), FOOTER_MARKER);
    lemma_then_frame::<C>(m, bad, next);
}

/// Zero-length frames: a header with a declared length of zero delivers
/// nothing and resets the decoder at once; checksum
/// and footer bytes after it, when neither checksum byte is a header, are
/// skipped, and a valid frame after them is delivered alone.
pub proof fn lemma_zero_length_skipped<C: ChecksumEngine>(m: DecoderModel, checksum: u16, next: Seq<u8>)
    requires
        m.state == DecoderState::AwaitHeader,
        low_byte(checksum) != HEADER_MARKER,
        high_byte(checksum) != HEADER_MARKER,
        0 < next.len() <= 0xffff,
    ensures
        run::<C>(m, seq![HEADER_MARKER] + le_bytes(0)).0 == DecoderModel::initial(),
        run::<C>(m, seq![HEADER_MARKER] + le_bytes(0)).1 == Seq::<Seq<u8>>::empty(),
        ({
            let zero = frame(0, Seq::empty(), checksum, FOOTER_MARKER);
            &&& run::<C>(m, zero).0 == DecoderModel::initial()
            &&& run::<C>(m, zero).1 == Seq::<Seq<u8>>::empty()
            &&& run::<C>(m, zero + encode::<C>(next)) == (DecoderModel::initial(), seq![next])
        }),
{
    let head = seq![HEADER_MARKER] + le_bytes(0);
    lemma_run_append::<C>(m, seq![HEADER_MARKER], le_bytes(0));
    lemma_run_one::<C>(m, HEADER_MARKER);
    let m1 = deliver::<C>(m, HEADER_MARKER).0;
    lemma_run_append::<C>(m1, seq![low_byte(0)], seq![high_byte(0)]);
    assert(le_bytes(0) =~= seq![low_byte(0)] + seq![high_byte(0)]);
    lemma_run_one::<C>(m1, low_byte(0));
    lemma_run_one::<C>(deliver::<C>(m1, low_byte(0)).0, high_byte(0));
    assert(Seq::<Seq<u8>>::empty() + Seq::<Seq<u8>>::empty() =~= Seq::<Seq<u8>>::empty());
    let mh = run::<C>(m, head).0;
    let rest = le_bytes(checksum) + seq![FOOTER_MARKER];
    assert(rest =~= seq![low_byte(checksum), high_byte(checksum), FOOTER_MARKER]);
    lemma_skip_noise::<C>(mh, rest);
    let zero = frame(0, Seq::empty(), checksum, FOOTER_MARKER);
    assert(zero =~= head + rest);
    lemma_run_append::<C>(m, head, rest);
    lemma_then_frame::<C>(m, zero, next);
}

/// Wrong footer: a frame that is valid but for a footer byte other than the
/// footer marker delivers nothing and leaves the decoder reset, so that the
/// very next header opens a frame.
pub proof fn lemma_wrong_footer<C: ChecksumEngine>(m: DecoderModel, payload: Seq<u8>, footer: u8, next: Seq<u8>)
    requires
        m.state == DecoderState::AwaitHeader,
        0 < payload.len() <= 0xffff,
        footer != FOOTER_MARKER,
        0 < next.len() <= 0xffff,
    ensures
        ({
            let bad = frame(payload.len() as u16, payload, frame_checksum::<C>(payload), footer);
            &&& run::<C>(m, bad).0 == DecoderModel::initial()
            &&& run::<C>(m, bad).1 == Seq::<Seq<u8>>::empty()
            &&& run::<C>(m, bad + encode::<C>(next)) == (DecoderModel::initial(), seq![next])
        }),
{
    lemma_frame_run::<C>(m, payload, frame_checksum::<C>(payload), footer);
    let bad = frame(payload.len() as u16, payload, frame_checksum::<C>(payload), footer);
    lemma_then_frame::<C>(m, bad, next);
}

} // verus!
