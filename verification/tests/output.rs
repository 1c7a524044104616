use midir::output::busy_retry_step;
use midir::output::chunk_message;
use midir::output::send_with_replies;
use midir::output::transmit_chunk;
use midir::output::validate_message;
use midir::output::OutputRing;
use midir::output::SendDecision;
use midir::output::TransportReply;
use midir::output::MAX_BUSY_RETRIES;
use midir::SendError;

#[test]
fn empty_message_is_invalid_data() {
    let r = validate_message(&[]);
    assert_eq!(
        r,
        Err(SendError::InvalidData("message to be sent must not be empty"))
    );
}

#[test]
fn long_short_message_is_invalid_data() {
    let r = validate_message(&[0x90, 60, 100, 7]);
    assert_eq!(
        r,
        Err(SendError::InvalidData(
            "non-sysex message must not be longer than 3 bytes"
        ))
    );
}

#[test]
fn short_and_sysex_messages_are_valid() {
    assert!(validate_message(&[0x90, 60, 100]).is_ok());
    assert!(validate_message(&[0xC0, 5]).is_ok());
    assert!(validate_message(&[0xF8]).is_ok());
    assert!(validate_message(&[0xF0, 1, 2, 3, 4, 5, 6, 7, 0xF7]).is_ok());
}

#[test]
fn chunking_splits_and_preserves_bytes() {
    let msg: Vec<u8> = (0..10).collect();
    let chunks = chunk_message(&msg, 4);
    assert_eq!(chunks.len(), 3);
    assert_eq!(chunks[0], vec![0, 1, 2, 3]);
    assert_eq!(chunks[1], vec![4, 5, 6, 7]);
    assert_eq!(chunks[2], vec![8, 9]);
    let glued: Vec<u8> = chunks.concat();
    assert_eq!(glued, msg);
}

#[test]
fn chunking_a_short_message_yields_one_chunk() {
    let chunks = chunk_message(&[0x90, 60, 100], 256);
    assert_eq!(chunks, vec![vec![0x90, 60, 100]]);
}

#[test]
fn retry_decisions() {
    assert_eq!(busy_retry_step(0, TransportReply::Accepted), SendDecision::Proceed);
    assert_eq!(busy_retry_step(0, TransportReply::Rejected), SendDecision::GiveUp);
    assert_eq!(busy_retry_step(0, TransportReply::Busy), SendDecision::RetryAfterPause);
    assert_eq!(
        busy_retry_step(MAX_BUSY_RETRIES - 1, TransportReply::Busy),
        SendDecision::RetryAfterPause
    );
    assert_eq!(
        busy_retry_step(MAX_BUSY_RETRIES, TransportReply::Busy),
        SendDecision::GiveUp
    );
}

#[test]
fn busy_retry_eventually_succeeds() {
    // A transport that reports busy three times and then accepts: the send
    // returns Ok after retrying.
    let mut replies = vec![TransportReply::Busy; 3];
    replies.push(TransportReply::Accepted);
    let r = send_with_replies(&[0x90, 60, 100], 256, &replies);
    assert_eq!(r, Ok(()));
}

#[test]
fn busy_forever_gives_up_instead_of_hanging() {
    // A transport that is busy on every attempt: the send surfaces Other
    // rather than retrying forever.
    let replies = vec![TransportReply::Busy; MAX_BUSY_RETRIES as usize + 1];
    let r = send_with_replies(&[0x90, 60, 100], 256, &replies);
    assert_eq!(r, Err(SendError::Other("device busy for too long")));
}

#[test]
fn silent_transport_gives_up() {
    let replies: Vec<TransportReply> = Vec::new();
    let r = send_with_replies(&[0x90, 60, 100], 256, &replies);
    assert_eq!(r, Err(SendError::Other("transport stopped responding")));
}

#[test]
fn rejection_is_not_retried() {
    let replies = vec![TransportReply::Busy, TransportReply::Rejected];
    let r = send_with_replies(&[0x90, 60, 100], 256, &replies);
    assert_eq!(r, Err(SendError::Other("sending message failed")));
}

#[test]
fn chunked_sysex_needs_one_acceptance_per_chunk() {
    // 10 bytes in chunks of 4: three submissions, with a busy retry in the
    // middle.
    let message: Vec<u8> = vec![0xF0, 1, 2, 3, 4, 5, 6, 7, 8, 0xF7];
    let replies = vec![
        TransportReply::Accepted,
        TransportReply::Busy,
        TransportReply::Accepted,
        TransportReply::Accepted,
    ];
    assert_eq!(send_with_replies(&message, 4, &replies), Ok(()));
    // With one acceptance missing the send fails.
    let too_few = vec![TransportReply::Accepted, TransportReply::Accepted];
    assert_eq!(
        send_with_replies(&message, 4, &too_few),
        Err(SendError::Other("transport stopped responding"))
    );
}

#[test]
fn invalid_message_fails_before_any_submission() {
    let replies = vec![TransportReply::Accepted];
    let r = send_with_replies(&[], 256, &replies);
    assert!(matches!(r, Err(SendError::InvalidData(_))));
}

#[test]
fn transmit_chunk_reports_consumed_replies() {
    let replies = vec![
        TransportReply::Busy,
        TransportReply::Accepted,
        TransportReply::Accepted,
    ];
    let (next, r) = transmit_chunk(&replies, 0);
    assert_eq!(r, Ok(()));
    assert_eq!(next, 2);
    let (next2, r2) = transmit_chunk(&replies, next);
    assert_eq!(r2, Ok(()));
    assert_eq!(next2, 3);
}

#[test]
fn output_ring_write_and_read() {
    // Each message costs its length plus the 8-byte length word.
    let mut ring = OutputRing::new(30);
    assert!(ring.write(vec![1, 2, 3]));
    assert!(ring.write(vec![4, 5]));
    // 11 + 10 bytes used; a further 10-byte write would need 31.
    assert!(!ring.write(vec![6, 7]));
    assert_eq!(ring.len(), 2);
    assert_eq!(ring.read_next(), Some(vec![1, 2, 3]));
    // Room again after draining.
    assert!(ring.write(vec![6, 7]));
    assert_eq!(ring.read_next(), Some(vec![4, 5]));
    assert_eq!(ring.read_next(), Some(vec![6, 7]));
    assert_eq!(ring.read_next(), None);
}
