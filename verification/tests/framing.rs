use midir::framer::Framer;
use midir::Ignore;

fn feed_all(framer: &mut Framer, chunks: &[&[u8]], now: u64) -> Vec<Vec<u8>> {
    let mut out = Vec::new();
    for chunk in chunks {
        for m in framer.feed(chunk, now) {
            out.push(m.bytes);
        }
    }
    out
}

#[test]
fn framing_round_trip_across_chunk_boundaries() {
    // Note On, Note Off, Program Change, Timing Clock — concatenated and cut
    // at arbitrary boundaries; the framer must emit exactly the original
    // messages.
    let mut framer = Framer::new(Ignore::Nothing);
    let chunks: &[&[u8]] = &[
        &[0x90],
        &[60, 100, 0x80],
        &[60],
        &[0, 0xC0, 5, 0xF8],
    ];
    let msgs = feed_all(&mut framer, chunks, 0);
    assert_eq!(
        msgs,
        vec![
            vec![0x90, 60, 100],
            vec![0x80, 60, 0],
            vec![0xC0, 5],
            vec![0xF8],
        ]
    );
}

#[test]
fn framing_single_chunk_multiple_messages() {
    let mut framer = Framer::new(Ignore::Nothing);
    let msgs = feed_all(&mut framer, &[&[0x90, 60, 100, 0xE0, 0x00, 0x40, 0xF2, 1, 2]], 0);
    assert_eq!(
        msgs,
        vec![vec![0x90, 60, 100], vec![0xE0, 0x00, 0x40], vec![0xF2, 1, 2]]
    );
}

#[test]
fn sysex_reassembly_from_small_chunks() {
    // An 11-byte SysEx run in 4-byte chunks reassembles into one message
    // with exactly the original bytes, terminator included.
    let run: Vec<u8> = vec![0xF0, 1, 2, 3, 4, 5, 6, 7, 8, 9, 0xF7];
    let mut framer = Framer::new(Ignore::Nothing);
    let mut emitted = Vec::new();
    for chunk in run.chunks(4) {
        let msgs = framer.feed(chunk, 7);
        for m in msgs {
            emitted.push(m.bytes);
        }
    }
    assert_eq!(emitted, vec![run]);
}

#[test]
fn sysex_partial_chunks_emit_nothing() {
    let mut framer = Framer::new(Ignore::Nothing);
    assert!(framer.feed(&[0xF0, 1, 2, 3], 0).is_empty());
    assert!(framer.feed(&[4, 5, 6, 7], 0).is_empty());
    let done = framer.feed(&[0xF7], 0);
    assert_eq!(done.len(), 1);
    assert_eq!(done[0].bytes, vec![0xF0, 1, 2, 3, 4, 5, 6, 7, 0xF7]);
}

#[test]
fn ignore_filtering_drops_sysex_and_keeps_framing() {
    // With Sysex ignored, a chunked SysEx run yields no message at all, and
    // messages after the run frame exactly as before.
    let mut framer = Framer::new(Ignore::Sysex);
    let run: Vec<u8> = vec![0xF0, 10, 20, 30, 40, 50, 60, 0xF7];
    let mut emitted = Vec::new();
    for chunk in run.chunks(3) {
        emitted.extend(framer.feed(chunk, 0));
    }
    assert!(emitted.is_empty());
    let after = framer.feed(&[0x90, 60, 100], 1);
    assert_eq!(after.len(), 1);
    assert_eq!(after[0].bytes, vec![0x90, 60, 100]);
}

#[test]
fn ignore_time_and_active_sense() {
    let mut framer = Framer::new(Ignore::TimeAndActiveSense);
    // Timing Clock (0xF8), MIDI Time Code (0xF1 x), Active Sensing (0xFE)
    // are dropped; the Note On goes through.
    let msgs = feed_all(&mut framer, &[&[0xF8, 0xF1, 0x01, 0xFE, 0x90, 60, 100]], 0);
    assert_eq!(msgs, vec![vec![0x90, 60, 100]]);
}

#[test]
fn unfiltered_system_messages_pass() {
    let mut framer = Framer::new(Ignore::Nothing);
    let msgs = feed_all(&mut framer, &[&[0xF8, 0xF1, 0x01, 0xFE]], 0);
    assert_eq!(msgs, vec![vec![0xF8], vec![0xF1, 0x01], vec![0xFE]]);
}

#[test]
fn empty_chunk_is_a_no_op() {
    let mut framer = Framer::new(Ignore::Nothing);
    assert!(framer.feed(&[], 0).is_empty());
    assert!(framer.feed(&[0x90, 60], 0).is_empty());
    assert!(framer.feed(&[], 0).is_empty());
    let msgs = framer.feed(&[100], 0);
    assert_eq!(msgs.len(), 1);
    assert_eq!(msgs[0].bytes, vec![0x90, 60, 100]);
}

#[test]
fn malformed_leading_bytes_are_discarded() {
    let mut framer = Framer::new(Ignore::Nothing);
    assert!(framer.feed(&[0x12, 0x34, 0x56], 0).is_empty());
    let msgs = framer.feed(&[0x23, 0x90, 60, 100], 0);
    assert_eq!(msgs.len(), 1);
    assert_eq!(msgs[0].bytes, vec![0x90, 60, 100]);
}

#[test]
fn timestamps_are_offsets_from_first_message() {
    let mut framer = Framer::new(Ignore::Nothing);
    let first = framer.feed(&[0x90, 60, 100], 5_000);
    assert_eq!(first[0].timestamp, 0);
    let second = framer.feed(&[0x80, 60, 0], 5_250);
    assert_eq!(second[0].timestamp, 250);
    let third = framer.feed(&[0xC0, 7], 6_000);
    assert_eq!(third[0].timestamp, 1_000);
}

#[test]
fn messages_in_one_chunk_share_a_timestamp() {
    let mut framer = Framer::new(Ignore::Nothing);
    let msgs = framer.feed(&[0x90, 60, 100, 0x80, 60, 0], 42);
    assert_eq!(msgs.len(), 2);
    assert_eq!(msgs[0].timestamp, 0);
    assert_eq!(msgs[1].timestamp, 0);
}

#[test]
fn stray_terminator_is_a_single_byte_message() {
    // A terminator with no open run frames as a one-byte system message.
    let mut framer = Framer::new(Ignore::Nothing);
    let msgs = feed_all(&mut framer, &[&[0xF7, 0x90, 60, 100]], 0);
    assert_eq!(msgs, vec![vec![0xF7], vec![0x90, 60, 100]]);
}
