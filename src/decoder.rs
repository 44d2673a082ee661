//! The byte-at-a-time frame decoder: its state, its model, and one step.

use vstd::prelude::*;
use crate::checksum::ChecksumEngine;

verus! {

/// The byte that opens every frame.
pub const HEADER_MARKER: u8 = 0x01;

/// The byte that closes every frame.
pub const FOOTER_MARKER: u8 = 0x00;

/// Where the decoder stands in the frame grammar.
#[derive(Clone, Copy, Debug, PartialEq, Eq, Structural)]
pub enum DecoderState {
    AwaitHeader,
    LengthLow,
    LengthHigh,
    ReceivingPayload,
    ChecksumLow,
    ChecksumHigh,
    AwaitFooter,
}

/// What one byte of input brought about.
#[derive(Clone, Copy, Debug, PartialEq, Eq, Structural)]
pub enum FeedResult {
    /// This byte completed a frame with a matching checksum and footer: the
    /// context's payload is the message.
    MessageReady,
    /// No message is complete yet.
    NeedMoreBytes,
}

/// The mathematical value of a decoder context.
pub ghost struct DecoderModel {
    pub state: DecoderState,
    pub payload: Seq<u8>,
    pub expected_length: u16,
    pub bytes_received: u16,
    pub received_checksum: u16,
    pub running_checksum: u16,
}

impl DecoderModel {
    /// A freshly created or reset context.
    pub open spec fn initial() -> DecoderModel {
        DecoderModel {
            state: DecoderState::AwaitHeader,
            payload: Seq::empty(),
            expected_length: 0,
            bytes_received: 0,
            received_checksum: 0,
            running_checksum: 0,
        }
    }

    /// What holds of a context in each state: the byte count never passes
    /// the declared length, and the payload is the bytes counted.
    pub open spec fn wf(self) -> bool {
        &&& self.bytes_received <= self.expected_length
        &&& self.payload.len() == self.bytes_received
        &&& self.payload.len() <= 0xffff
        &&& (self.state == DecoderState::AwaitHeader || self.state == DecoderState::LengthLow
            || self.state == DecoderState::LengthHigh) ==> self.bytes_received == 0
        &&& self.state == DecoderState::LengthHigh ==> self.expected_length < 0x100
        &&& self.state == DecoderState::ChecksumHigh ==> self.received_checksum < 0x100
        &&& self.state == DecoderState::ReceivingPayload ==> {
            &&& self.bytes_received < self.expected_length
        }
        &&& (self.state == DecoderState::ChecksumLow || self.state == DecoderState::ChecksumHigh
            || self.state == DecoderState::AwaitFooter) ==> {
            &&& 0 < self.expected_length
            &&& self.bytes_received == self.expected_length
        }
        &&& self.state == DecoderState::AwaitFooter ==> self.received_checksum == self.running_checksum
    }
}

/// The context after consuming byte `b`, and what that byte brought about.
pub open spec fn step<C: ChecksumEngine>(m: DecoderModel, b: u8) -> (DecoderModel, FeedResult) {
    let more = FeedResult::NeedMoreBytes;
    match m.state {
        DecoderState::AwaitHeader => if b == HEADER_MARKER {
            (
                DecoderModel {
                    state: DecoderState::LengthLow,
                    running_checksum: C::initial_spec(),
                    ..m
                },
                more,
            )
        } else {
            (m, more)
        },
        DecoderState::LengthLow => (
            DecoderModel {
                state: DecoderState::LengthHigh,
                expected_length: b as u16,
                running_checksum: C::update_spec(m.running_checksum, b),
                ..m
            },
            more,
        ),
        DecoderState::LengthHigh => {
            let len = (m.expected_length + 0x100 * b) as u16;
            let crc = C::update_spec(m.running_checksum, b);
            if len == 0 {
                (DecoderModel::initial(), more)
            } else {
                (
                    DecoderModel {
                        state: DecoderState::ReceivingPayload,
                        payload: Seq::empty(),
                        expected_length: len,
                        bytes_received: 0,
                        running_checksum: crc,
                        ..m
                    },
                    more,
                )
            }
        },
        DecoderState::ReceivingPayload => {
            let n = (m.bytes_received + 1) as u16;
            (
                DecoderModel {
                    state: if n == m.expected_length {
                        DecoderState::ChecksumLow
                    } else {
                        DecoderState::ReceivingPayload
                    },
                    payload: m.payload.push(b),
                    bytes_received: n,
                    running_checksum: C::update_spec(m.running_checksum, b),
                    ..m
                },
                more,
            )
        },
        DecoderState::ChecksumLow => (
            DecoderModel {
                state: DecoderState::ChecksumHigh,
                received_checksum: b as u16,
                ..m
            },
            more,
        ),
        DecoderState::ChecksumHigh => {
            let received = (m.received_checksum + 0x100 * b) as u16;
            if received == m.running_checksum {
                (
                    DecoderModel {
                        state: DecoderState::AwaitFooter,
                        received_checksum: received,
                        ..m
                    },
                    more,
                )
            } else {
                (DecoderModel::initial(), more)
            }
        },
        DecoderState::AwaitFooter => if b == FOOTER_MARKER {
            (m, FeedResult::MessageReady)
        } else {
            (DecoderModel::initial(), more)
        },
    }
}

/// Every step keeps a well-formed context well-formed.
pub proof fn lemma_step_wf<C: ChecksumEngine>(m: DecoderModel, b: u8)
    requires
        m.wf(),
    ensures
        step::<C>(m, b).0.wf(),
{
}

/// Or-ing a high byte above a value below 256 adds 256 times that byte.
proof fn lemma_join_bytes(lo: u16, hi: u8)
    requires
        lo < 0x100,
    ensures
        lo | ((hi as u16) << 8u16) == lo + 0x100 * hi,
{
    assert(lo | ((hi as u16) << 8u16) == lo + 0x100 * (hi as u16)) by (bit_vector)
        requires
            lo < 0x100,
    ;
}

/// The decoder's full mutable state for one stream.
pub struct Context {
    state: DecoderState,
    payload: Vec<u8>,
    expected_length: u16,
    bytes_received: u16,
    received_checksum: u16,
    running_checksum: u16,
}

impl View for Context {
    type V = DecoderModel;

    closed spec fn view(&self) -> DecoderModel {
        DecoderModel {
            state: self.state,
            payload: self.payload@,
            expected_length: self.expected_length,
            bytes_received: self.bytes_received,
            received_checksum: self.received_checksum,
            running_checksum: self.running_checksum,
        }
    }
}

impl Context {
    /// A context at the start of a stream.
    pub fn new() -> (r: Context)
        ensures
            r@ == DecoderModel::initial(),
    {
        Context {
            state: DecoderState::AwaitHeader,
            payload: Vec::new(),
            expected_length: 0,
            bytes_received: 0,
            received_checksum: 0,
            running_checksum: 0,
        }
    }

    /// Returns the context to its just-created state.
    pub fn reset(&mut self)
        ensures
            final(self)@ == DecoderModel::initial(),
    {
        self.state = DecoderState::AwaitHeader;
        self.payload.clear();
        self.expected_length = 0;
        self.bytes_received = 0;
        self.received_checksum = 0;
        self.running_checksum = 0;
    }

    /// Where the decoder stands in the frame grammar.
    pub fn state(&self) -> (r: DecoderState)
        ensures
            r == self@.state,
    {
        self.state
    }

    /// The payload length that the current frame declared.
    pub fn expected_length(&self) -> (r: u16)
        ensures
            r == self@.expected_length,
    {
        self.expected_length
    }

    /// The count of payload bytes consumed so far in the current frame.
    pub fn bytes_received(&self) -> (r: u16)
        ensures
            r == self@.bytes_received,
    {
        self.bytes_received
    }

    /// The payload gathered so far; the message once a frame is complete.
    pub fn payload(&self) -> (r: &Vec<u8>)
        ensures
            r@ == self@.payload,
    {
        &self.payload
    }

    /// Hands out the payload, leaving an empty one in its place.
    pub(crate) fn take_payload(&mut self) -> (r: Vec<u8>)
        ensures
            r@ == old(self)@.payload,
            final(self)@ == (DecoderModel { payload: Seq::empty(), ..old(self)@ }),
    {
        let mut r: Vec<u8> = Vec::new();
        std::mem::swap(&mut r, &mut self.payload);
        r
    }
}

/// Consumes one byte of the stream: moves the context one step through the
/// frame grammar and reports whether that byte completed a valid message.
pub fn protocol<C: ChecksumEngine>(ctx: &mut Context, b: u8) -> (r: FeedResult)
    requires
        old(ctx)@.wf(),
    ensures
        (final(ctx)@, r) == step::<C>(old(ctx)@, b),
        final(ctx)@.wf(),
{
    proof {
        lemma_step_wf::<C>(ctx@, b);
    }
    match ctx.state {
        DecoderState::AwaitHeader => {
            if b == HEADER_MARKER {
                ctx.state = DecoderState::LengthLow;
                ctx.running_checksum = C::initial();
            }
        },
        DecoderState::LengthLow => {
            ctx.expected_length = b as u16;
            ctx.running_checksum = C::update(ctx.running_checksum, b);
            ctx.state = DecoderState::LengthHigh;
        },
        DecoderState::LengthHigh => {
            proof {
                lemma_join_bytes(ctx.expected_length, b);
            }
            ctx.expected_length = ctx.expected_length | ((b as u16) << 8u16);
            ctx.running_checksum = C::update(ctx.running_checksum, b);
            if ctx.expected_length == 0 {
                ctx.reset();
            } else {
                ctx.bytes_received = 0;
                ctx.payload.clear();
                ctx.state = DecoderState::ReceivingPayload;
            }
        },
        DecoderState::ReceivingPayload => {
            ctx.payload.push(b);
            ctx.bytes_received = ctx.bytes_received + 1;
            ctx.running_checksum = C::update(ctx.running_checksum, b);
            if ctx.bytes_received == ctx.expected_length {
                ctx.state = DecoderState::ChecksumLow;
            }
        },
        DecoderState::ChecksumLow => {
            ctx.received_checksum = b as u16;
            ctx.state = DecoderState::ChecksumHigh;
        },
        DecoderState::ChecksumHigh => {
            proof {
                lemma_join_bytes(ctx.received_checksum, b);
            }
            ctx.received_checksum = ctx.received_checksum | ((b as u16) << 8u16);
            if ctx.received_checksum == ctx.running_checksum {
                ctx.state = DecoderState::AwaitFooter;
            } else {
                ctx.reset();
            }
        },
        DecoderState::AwaitFooter => {
            if b == FOOTER_MARKER {
                return FeedResult::MessageReady;
            }
            ctx.reset();
        },
    }
    FeedResult::NeedMoreBytes
}

} // verus!
