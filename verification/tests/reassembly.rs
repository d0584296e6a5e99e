use byke::commands::Commands;
use byke::reassembly::{split_frame, FeedOutcome, Reassembler, MTU};

#[test]
fn split_frame_sizes_and_order() {
    let frame: Vec<u8> = (0u8..45).collect();
    let chunks = split_frame(frame.as_slice(), MTU);
    assert_eq!(chunks.len(), 3);
    assert_eq!(chunks[0], (0u8..20).collect::<Vec<u8>>());
    assert_eq!(chunks[1], (20u8..40).collect::<Vec<u8>>());
    assert_eq!(chunks[2], (40u8..45).collect::<Vec<u8>>());
}

#[test]
fn split_frame_single_chunk() {
    let frame = vec![4u8, 0];
    let chunks = split_frame(frame.as_slice(), MTU);
    assert_eq!(chunks, vec![vec![4u8, 0]]);
}

#[test]
fn one_chunk_frame_delivers_immediately() {
    let mut r = Reassembler::new(MTU);
    let frame = Commands::GetMac.get_stream();
    assert_eq!(r.feed(frame.as_slice()), FeedOutcome::Delivered(Commands::GetMac));
}

#[test]
fn long_mac_frame_over_three_chunks() {
    // A 45-byte encoded Mac frame (43 payload bytes) split into two
    // 20-byte chunks and a 5-byte remainder: no command before the last
    // write event, exactly the Mac command after it.
    let mac = format!("AA:BB:CC:DD:EE:FF:{}", "0".repeat(25));
    assert_eq!(mac.len(), 43);
    let frame = Commands::Mac(mac.clone()).get_stream();
    assert_eq!(frame.len(), 45);
    let chunks = split_frame(frame.as_slice(), MTU);
    assert_eq!(chunks.len(), 3);

    let mut r = Reassembler::new(MTU);
    assert_eq!(r.feed(chunks[0].as_slice()), FeedOutcome::Pending);
    assert_eq!(r.feed(chunks[1].as_slice()), FeedOutcome::Pending);
    assert_eq!(r.feed(chunks[2].as_slice()), FeedOutcome::Delivered(Commands::Mac(mac)));
}

#[test]
fn reassembled_decode_equals_unsplit_decode() {
    // The frame fed in chunks delivers the same command that decoding
    // the unsplit frame yields.
    let mac = "x".repeat(60);
    let frame = Commands::Mac(mac).get_stream();
    let (direct, _) = Commands::parse(frame.as_slice()).unwrap();
    let chunks = split_frame(frame.as_slice(), MTU);
    let mut r = Reassembler::new(MTU);
    let mut delivered = Vec::new();
    for chunk in &chunks {
        if let FeedOutcome::Delivered(c) = r.feed(chunk.as_slice()) {
            delivered.push(c);
        }
    }
    assert_eq!(delivered, vec![direct]);
}

#[test]
fn bad_chunk_resets_without_delivering() {
    // While accumulating, a chunk that is not MTU-sized and leaves the
    // frame short drops the partial frame and no command comes out.
    let mac = "y".repeat(50);
    let frame = Commands::Mac(mac).get_stream();
    let chunks = split_frame(frame.as_slice(), MTU);
    assert!(chunks.len() > 2);

    let mut r = Reassembler::new(MTU);
    assert_eq!(r.feed(chunks[0].as_slice()), FeedOutcome::Pending);
    // An out-of-pattern (short, non-final) chunk now arrives.
    assert_eq!(r.feed(&[1, 2, 3]), FeedOutcome::Rejected);
    // The machine is idle again: a complete small frame goes through.
    let ok = Commands::OK.get_stream();
    assert_eq!(r.feed(ok.as_slice()), FeedOutcome::Delivered(Commands::OK));
}

#[test]
fn invalid_single_chunk_is_rejected() {
    let mut r = Reassembler::new(MTU);
    assert_eq!(r.feed(&[1]), FeedOutcome::Rejected);
    // A fully available but corrupt payload.
    assert_eq!(r.feed(&[1, 3, 0, 0, 0]), FeedOutcome::Rejected);
}

#[test]
fn reassembled_corrupt_frame_is_rejected() {
    // A declared 30-byte text payload of invalid UTF-8, over two chunks.
    let mut frame = vec![6u8, 30];
    frame.extend_from_slice(&[0xff; 30]);
    let chunks = split_frame(frame.as_slice(), MTU);
    let mut r = Reassembler::new(MTU);
    assert_eq!(r.feed(chunks[0].as_slice()), FeedOutcome::Pending);
    assert_eq!(r.feed(chunks[1].as_slice()), FeedOutcome::Rejected);
}
