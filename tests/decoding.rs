use frame_decoder::{
    feed_chunk, protocol, update_crc, AdditiveChecksum, ChecksumEngine, Context, DecoderState, FeedResult,
    ZeroChecksum, FOOTER_MARKER, HEADER_MARKER,
};

fn additive_checksum(bytes: &[u8]) -> u16 {
    let mut c: u16 = AdditiveChecksum::initial();
    for &b in bytes {
        c = AdditiveChecksum::update(c, b);
    }
    c
}

fn frame_with(payload: &[u8], checksum: u16, footer: u8) -> Vec<u8> {
    let len = payload.len() as u16;
    let mut v = vec![HEADER_MARKER, (len & 0xff) as u8, (len >> 8) as u8];
    v.extend_from_slice(payload);
    v.push((checksum & 0xff) as u8);
    v.push((checksum >> 8) as u8);
    v.push(footer);
    v
}

fn additive_frame(payload: &[u8]) -> Vec<u8> {
    let len = payload.len() as u16;
    let mut covered = vec![(len & 0xff) as u8, (len >> 8) as u8];
    covered.extend_from_slice(payload);
    frame_with(payload, additive_checksum(&covered), FOOTER_MARKER)
}

fn feed_bytes_one_by_one(ctx: &mut Context, bytes: &[u8]) -> Vec<FeedResult> {
    bytes.iter().map(|&b| protocol::<AdditiveChecksum>(ctx, b)).collect()
}

#[test]
fn new_context_awaits_header() {
    let ctx = Context::new();
    assert_eq!(ctx.state(), DecoderState::AwaitHeader);
    assert!(ctx.payload().is_empty());
}

#[test]
fn placeholder_checksum_is_zero() {
    assert_eq!(update_crc(0x1234, 0x56), 0);
    assert_eq!(ZeroChecksum::initial(), 0);
    assert_eq!(ZeroChecksum::update(0xffff, 0xff), 0);
}

#[test]
fn additive_checksum_sums_bytes_with_wraparound() {
    assert_eq!(AdditiveChecksum::initial(), 0);
    assert_eq!(AdditiveChecksum::update(0x0102, 0x03), 0x0105);
    assert_eq!(AdditiveChecksum::update(0xfffe, 0x05), 0x0003);
}

#[test]
fn round_trip_one_byte_at_a_time() {
    let payload = [0x10u8, 0x20, 0x30];
    let bytes = additive_frame(&payload);
    assert_eq!(bytes, vec![0x01, 0x03, 0x00, 0x10, 0x20, 0x30, 0x63, 0x00, 0x00]);
    let mut ctx = Context::new();
    let results = feed_bytes_one_by_one(&mut ctx, &bytes);
    let ready: Vec<usize> =
        results.iter().enumerate().filter(|(_, r)| **r == FeedResult::MessageReady).map(|(i, _)| i).collect();
    assert_eq!(ready, vec![bytes.len() - 1]);
    assert_eq!(ctx.payload(), &payload.to_vec());
}

#[test]
fn round_trip_with_placeholder_checksum() {
    let bytes = vec![0x01, 0x02, 0x00, 0xaa, 0xbb, 0x00, 0x00, 0x00];
    let mut ctx = Context::new();
    let messages = feed_chunk::<ZeroChecksum>(&mut ctx, &bytes);
    assert_eq!(messages, vec![vec![0xaa, 0xbb]]);
    assert_eq!(ctx.state(), DecoderState::AwaitHeader);
}

#[test]
fn round_trip_largest_payload() {
    let payload: Vec<u8> = (0..65535u32).map(|i| (i % 251) as u8).collect();
    let bytes = additive_frame(&payload);
    assert_eq!(bytes[1], 0xff);
    assert_eq!(bytes[2], 0xff);
    let mut ctx = Context::new();
    let messages = feed_chunk::<AdditiveChecksum>(&mut ctx, &bytes);
    assert_eq!(messages.len(), 1);
    assert_eq!(messages[0], payload);
}

#[test]
fn length_is_little_endian() {
    let payload = vec![7u8; 0x0102];
    let bytes = additive_frame(&payload);
    assert_eq!(&bytes[1..3], &[0x02, 0x01]);
    let mut ctx = Context::new();
    assert_eq!(feed_chunk::<AdditiveChecksum>(&mut ctx, &bytes), vec![payload]);
}

#[test]
fn chunking_does_not_change_the_result() {
    let mut stream = additive_frame(&[1, 2, 3, 4, 5]);
    stream.extend(vec![0x55, 0x66]);
    stream.extend(additive_frame(&[9; 20]));
    let mut whole_ctx = Context::new();
    let whole = feed_chunk::<AdditiveChecksum>(&mut whole_ctx, &stream);
    assert_eq!(whole, vec![vec![1, 2, 3, 4, 5], vec![9; 20]]);
    for size in 1..stream.len() {
        let mut ctx = Context::new();
        let mut got = Vec::new();
        for chunk in stream.chunks(size) {
            got.extend(feed_chunk::<AdditiveChecksum>(&mut ctx, chunk));
        }
        assert_eq!(got, whole, "chunk size {}", size);
        assert_eq!(ctx.state(), whole_ctx.state());
    }
}

#[test]
fn message_split_across_chunks_mid_length() {
    let bytes = additive_frame(&[0xde, 0xad]);
    let mut ctx = Context::new();
    assert!(feed_chunk::<AdditiveChecksum>(&mut ctx, &bytes[..2]).is_empty());
    assert_eq!(ctx.state(), DecoderState::LengthHigh);
    assert!(feed_chunk::<AdditiveChecksum>(&mut ctx, &bytes[2..4]).is_empty());
    assert_eq!(ctx.state(), DecoderState::ReceivingPayload);
    assert_eq!(feed_chunk::<AdditiveChecksum>(&mut ctx, &bytes[4..]), vec![vec![0xde, 0xad]]);
}

#[test]
fn garbage_before_a_frame_is_skipped() {
    let mut bytes = vec![0x00, 0xff, 0x7e, 0x02, 0x00, 0x80];
    bytes.extend(additive_frame(&[0x42]));
    let mut ctx = Context::new();
    assert_eq!(feed_chunk::<AdditiveChecksum>(&mut ctx, &bytes), vec![vec![0x42]]);
}

#[test]
fn flipped_checksum_bit_is_rejected_then_decoder_recovers() {
    let payload = [0x11u8, 0x22, 0x33];
    let good = additive_frame(&payload);
    for bit in 0..16 {
        let mut bad = good.clone();
        let index = if bit < 8 { good.len() - 3 } else { good.len() - 2 };
        bad[index] ^= 1 << (bit % 8);
        let mut ctx = Context::new();
        let results = feed_bytes_one_by_one(&mut ctx, &bad);
        assert!(results.iter().all(|r| *r == FeedResult::NeedMoreBytes), "bit {}", bit);
        assert_eq!(ctx.state(), DecoderState::AwaitHeader);
        let mut stream = bad.clone();
        stream.extend(additive_frame(&[0x99]));
        let mut ctx = Context::new();
        assert_eq!(feed_chunk::<AdditiveChecksum>(&mut ctx, &stream), vec![vec![0x99]], "bit {}", bit);
    }
}

#[test]
fn checksum_mismatch_returns_to_header_immediately() {
    let bytes = frame_with(&[5], 0x1234, FOOTER_MARKER);
    let mut ctx = Context::new();
    feed_bytes_one_by_one(&mut ctx, &bytes[..bytes.len() - 1]);
    assert_eq!(ctx.state(), DecoderState::AwaitHeader);
}

#[test]
fn zero_length_frame_emits_nothing() {
    let mut ctx = Context::new();
    let results = feed_bytes_one_by_one(&mut ctx, &[0x01, 0x00, 0x00]);
    assert!(results.iter().all(|r| *r == FeedResult::NeedMoreBytes));
    assert_eq!(ctx.state(), DecoderState::AwaitHeader);
    assert!(ctx.payload().is_empty());
}

#[test]
fn zero_length_frame_with_checksum_and_footer_then_valid_frame() {
    let mut bytes = frame_with(&[], additive_checksum(&[0, 0]), FOOTER_MARKER);
    assert_eq!(bytes, vec![0x01, 0x00, 0x00, 0x00, 0x00, 0x00]);
    let mut ctx = Context::new();
    assert!(feed_chunk::<AdditiveChecksum>(&mut ctx, &bytes).is_empty());
    assert_eq!(ctx.state(), DecoderState::AwaitHeader);
    bytes.extend(additive_frame(&[0x0a, 0x0b]));
    let mut ctx = Context::new();
    assert_eq!(feed_chunk::<AdditiveChecksum>(&mut ctx, &bytes), vec![vec![0x0a, 0x0b]]);
}

#[test]
fn wrong_footer_discards_message_and_resyncs() {
    let mut bytes = additive_frame(&[1, 2]);
    let last = bytes.len() - 1;
    bytes[last] = 0x7f;
    let mut ctx = Context::new();
    let results = feed_bytes_one_by_one(&mut ctx, &bytes);
    assert!(results.iter().all(|r| *r == FeedResult::NeedMoreBytes));
    assert_eq!(ctx.state(), DecoderState::AwaitHeader);
    assert_eq!(protocol::<AdditiveChecksum>(&mut ctx, HEADER_MARKER), FeedResult::NeedMoreBytes);
    assert_eq!(ctx.state(), DecoderState::LengthLow);
}

#[test]
fn wrong_footer_equal_to_header_is_not_a_new_header() {
    let mut bytes = additive_frame(&[3]);
    let last = bytes.len() - 1;
    bytes[last] = HEADER_MARKER;
    bytes.extend(additive_frame(&[4, 4]));
    let mut ctx = Context::new();
    assert_eq!(feed_chunk::<AdditiveChecksum>(&mut ctx, &bytes), vec![vec![4, 4]]);
}

#[test]
fn back_to_back_frames_each_delivered() {
    let mut bytes = additive_frame(&[1]);
    bytes.extend(additive_frame(&[2, 2]));
    bytes.extend(additive_frame(&[3, 3, 3]));
    let mut ctx = Context::new();
    assert_eq!(feed_chunk::<AdditiveChecksum>(&mut ctx, &bytes), vec![vec![1], vec![2, 2], vec![3, 3, 3]]);
}

#[test]
fn reset_returns_to_initial_state() {
    let bytes = additive_frame(&[8, 9]);
    let mut ctx = Context::new();
    let results = feed_bytes_one_by_one(&mut ctx, &bytes);
    assert_eq!(results.last(), Some(&FeedResult::MessageReady));
    assert_eq!(ctx.state(), DecoderState::AwaitFooter);
    ctx.reset();
    assert_eq!(ctx.state(), DecoderState::AwaitHeader);
    assert!(ctx.payload().is_empty());
}

#[test]
fn truncated_stream_stays_mid_frame() {
    let bytes = additive_frame(&[1, 2, 3, 4]);
    let mut ctx = Context::new();
    assert!(feed_chunk::<AdditiveChecksum>(&mut ctx, &bytes[..5]).is_empty());
    assert_eq!(ctx.state(), DecoderState::ReceivingPayload);
    assert_eq!(ctx.payload(), &vec![1, 2]);
}

fn assert_reset(ctx: &Context) {
    assert_eq!(ctx.state(), DecoderState::AwaitHeader);
    assert!(ctx.payload().is_empty());
    assert_eq!(ctx.expected_length(), 0);
    assert_eq!(ctx.bytes_received(), 0);
}

#[test]
fn checksum_mismatch_discards_the_frame() {
    let bytes = [0x01, 0x01, 0x00, 0xaa, 0x05, 0x00];
    let mut ctx = Context::new();
    let results: Vec<FeedResult> = bytes.iter().map(|&b| protocol::<ZeroChecksum>(&mut ctx, b)).collect();
    assert!(results.iter().all(|r| *r == FeedResult::NeedMoreBytes));
    assert_reset(&ctx);
    protocol::<ZeroChecksum>(&mut ctx, 0x01);
    protocol::<ZeroChecksum>(&mut ctx, 0x00);
    assert_eq!(ctx.state(), DecoderState::LengthHigh);
    assert!(ctx.bytes_received() <= ctx.expected_length());
}

#[test]
fn wrong_footer_discards_the_frame() {
    let mut bytes = additive_frame(&[1, 2, 3]);
    let last = bytes.len() - 1;
    bytes[last] = 0x33;
    let mut ctx = Context::new();
    feed_bytes_one_by_one(&mut ctx, &bytes);
    assert_reset(&ctx);
}

#[test]
fn zero_length_discards_the_frame() {
    let mut ctx = Context::new();
    feed_bytes_one_by_one(&mut ctx, &[0x01, 0x00, 0x00]);
    assert_reset(&ctx);
}

#[test]
fn counters_track_payload() {
    let bytes = additive_frame(&[5, 6, 7]);
    let mut ctx = Context::new();
    feed_bytes_one_by_one(&mut ctx, &bytes[..5]);
    assert_eq!(ctx.expected_length(), 3);
    assert_eq!(ctx.bytes_received(), 2);
}
