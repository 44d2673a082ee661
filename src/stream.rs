//! Driving the decoder over a stream: the caller's side of the contract,
//! which collects each completed message and resets the context after it.

use vstd::prelude::*;
use crate::checksum::ChecksumEngine;
use crate::decoder::{protocol, step, Context, DecoderModel, FeedResult};

verus! {

/// One byte as the driver handles it: the context after the byte (reset when
/// a message completed), and the messages that byte delivered (none or one).
pub open spec fn deliver<C: ChecksumEngine>(m: DecoderModel, b: u8) -> (DecoderModel, Seq<Seq<u8>>) {
    let (next, r) = step::<C>(m, b);
    if r == FeedResult::MessageReady {
        (DecoderModel::initial(), seq![next.payload])
    } else {
        (next, Seq::empty())
    }
}

/// The context after `bytes`, fed in order from `m`, and the messages they
/// delivered, in order.
pub open spec fn run<C: ChecksumEngine>(m: DecoderModel, bytes: Seq<u8>) -> (DecoderModel, Seq<Seq<u8>>)
    decreases bytes.len(),
{
    if bytes.len() == 0 {
        (m, Seq::empty())
    } else {
        let (m1, out1) = deliver::<C>(m, bytes[0]);
        let (m2, out2) = run::<C>(m1, bytes.drop_first());
        (m2, out1 + out2)
    }
}

/// Feeding `a` and then `b` is feeding `a + b`.
pub proof fn lemma_run_append<C: ChecksumEngine>(m: DecoderModel, a: Seq<u8>, b: Seq<u8>)
    ensures
        run::<C>(m, a + b) == ({
            let (ma, outa) = run::<C>(m, a);
            let (mb, outb) = run::<C>(ma, b);
            (mb, outa + outb)
        }),
    decreases a.len(),
{
    if a.len() == 0 {
        assert(a + b =~= b);
        assert(Seq::<Seq<u8>>::empty() + run::<C>(m, b).1 =~= run::<C>(m, b).1);
    } else {
        let (m1, out1) = deliver::<C>(m, a[0]);
        assert((a + b).drop_first() =~= a.drop_first() + b);
        lemma_run_append::<C>(m1, a.drop_first(), b);
        let (ma, outa) = run::<C>(m1, a.drop_first());
        let (mb, outb) = run::<C>(ma, b);
        assert(out1 + (outa + outb) =~= (out1 + outa) + outb);
    }
}

/// Every model that `deliver` produces from a well-formed one is well-formed.
proof fn lemma_deliver_wf<C: ChecksumEngine>(m: DecoderModel, b: u8)
    requires
        m.wf(),
    ensures
        deliver::<C>(m, b).0.wf(),
{
    crate::decoder::lemma_step_wf::<C>(m, b);
}

/// The messages held in `v`, as byte sequences.
pub open spec fn messages_view(v: Seq<Vec<u8>>) -> Seq<Seq<u8>> {
    v.map_values(|m: Vec<u8>| m@)
}

/// Feeding a single byte is delivering it.
pub(crate) proof fn lemma_run_one<C: ChecksumEngine>(m: DecoderModel, b: u8)
    ensures
        run::<C>(m, seq![b]) == deliver::<C>(m, b),
{
    let s = seq![b];
    assert(s.drop_first() =~= Seq::<u8>::empty());
    assert(run::<C>(deliver::<C>(m, b).0, s.drop_first()) == (deliver::<C>(m, b).0, Seq::<Seq<u8>>::empty()));
    assert(deliver::<C>(m, b).1 + Seq::<Seq<u8>>::empty() =~= deliver::<C>(m, b).1);
}

/// Feeds a chunk of the stream byte by byte, resetting the context after
/// each completed message; returns the messages the chunk completed.
pub fn feed_chunk<C: ChecksumEngine>(ctx: &mut Context, chunk: &[u8]) -> (r: Vec<Vec<u8>>)
    requires
        old(ctx)@.wf(),
    ensures
        final(ctx)@ == run::<C>(old(ctx)@, chunk@).0,
        messages_view(r@) == run::<C>(old(ctx)@, chunk@).1,
        final(ctx)@.wf(),
{
    let ghost start = ctx@;
    let mut out: Vec<Vec<u8>> = Vec::new();
    let mut i: usize = 0;
    while i < chunk.len()
        invariant
            i <= chunk@.len(),
            ctx@.wf(),
            ctx@ == run::<C>(start, chunk@.take(i as int)).0,
            messages_view(out@) == run::<C>(start, chunk@.take(i as int)).1,
        decreases chunk@.len() - i,
    {
        let b = chunk[i];
        proof {
            lemma_run_append::<C>(start, chunk@.take(i as int), seq![b]);
            assert(chunk@.take(i as int) + seq![b] =~= chunk@.take(i as int + 1));
            lemma_deliver_wf::<C>(ctx@, b);
            lemma_run_one::<C>(ctx@, b);
        }
        let ghost before = out@;
        if protocol::<C>(ctx, b) == FeedResult::MessageReady {
            let message = ctx.take_payload();
            ctx.reset();
            out.push(message);
            assert(messages_view(out@) =~= messages_view(before) + seq![message@]);
        } else {
            assert(messages_view(out@) =~= messages_view(before) + Seq::<Seq<u8>>::empty());
        }
        i = i + 1;
    }
    assert(chunk@.take(chunk@.len() as int) =~= chunk@);
    out
}

} // verus!
