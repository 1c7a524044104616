//! The output path: validates an outbound message, splits a SysEx transfer
//! into device-sized chunks, and drives the submit/retry protocol — a
//! transient "device busy" reply is retried a bounded number of times before
//! the send fails, so a send can pause briefly but never hangs forever.
//!
//! The transport's part is abstracted as a reply per submission attempt
//! (`TransportReply`); a driver performs the raw submission and asks
//! `busy_retry_step` what to do with the reply.

use vstd::prelude::*;

use crate::framer::concat_all;
use crate::framer::SYSEX_START;
use crate::SendError;

verus! {

/// Most busy replies tolerated for one chunk submission before the send
/// gives up: large enough to ride out a device that is briefly not ready,
/// finite so that a send to a dead device fails instead of hanging.
pub const MAX_BUSY_RETRIES: u64 = 1000;

/// What the transport reported for one submission attempt.
#[derive(Debug, Clone, Copy, PartialEq, Eq, Structural)]
pub enum TransportReply {
    /// The chunk was accepted.
    Accepted,
    /// The device is busy or not ready; the submission may be retried.
    Busy,
    /// The transport failed; the submission must not be retried.
    Rejected,
}

/// What a send driver does after one submission attempt.
#[derive(Debug, Clone, Copy, PartialEq, Eq, Structural)]
pub enum SendDecision {
    /// The chunk went through: submit the next chunk, or finish.
    Proceed,
    /// Pause briefly (about a millisecond) and submit the same chunk again.
    RetryAfterPause,
    /// Surface a send error; do not retry.
    GiveUp,
}

/// A message may be sent if it is nonempty and is either a SysEx transfer or
/// a short message of at most 3 bytes.
pub open spec fn valid_send_message(m: Seq<u8>) -> bool {
    m.len() > 0 && (m[0] == SYSEX_START || m.len() <= 3)
}

/// Rejects an outbound message that this layer must not transmit: an empty
/// message, or a non-SysEx message longer than 3 bytes.
pub fn validate_message(message: &[u8]) -> (r: Result<(), SendError>)
    ensures
        r is Ok <==> valid_send_message(message@),
        r is Err ==> r->Err_0 is InvalidData,
{
    if message.len() == 0 {
        Result::Err(SendError::InvalidData("message to be sent must not be empty"))
    } else if message[0] != SYSEX_START && message.len() > 3 {
        Result::Err(SendError::InvalidData("non-sysex message must not be longer than 3 bytes"))
    } else {
        Result::Ok(())
    }
}

/// How many chunks of at most `chunk_size` bytes a message of `len` bytes
/// splits into: full chunks, then one final chunk with the remainder.
pub open spec fn chunk_count(len: nat, chunk_size: nat) -> nat
    recommends
        chunk_size >= 1,
    decreases len,
{
    if chunk_size == 0 || len == 0 {
        0
    } else if len <= chunk_size {
        1
    } else {
        1 + chunk_count((len - chunk_size) as nat, chunk_size)
    }
}

/// Splits an outbound message into submission chunks: every chunk but the
/// last carries exactly `chunk_size` bytes, the last carries the nonempty
/// remainder, and in order they carry exactly the message's bytes.
pub fn chunk_message(message: &[u8], chunk_size: usize) -> (chunks: Vec<Vec<u8>>)
    requires
        chunk_size >= 1,
        message@.len() >= 1,
    ensures
        concat_all(chunks@.map_values(|c: Vec<u8>| c@)) == message@,
        forall|i: int| 0 <= i < chunks@.len() ==> 1 <= #[trigger] chunks@[i]@.len() <= chunk_size,
        forall|i: int| 0 <= i < chunks@.len() - 1 ==> #[trigger] chunks@[i]@.len() == chunk_size,
        chunks@.len() == chunk_count(message@.len(), chunk_size as nat),
{
    let mut chunks: Vec<Vec<u8>> = Vec::new();
    let mut pos: usize = 0;
    proof {
        assert(chunks@.map_values(|c: Vec<u8>| c@) =~= Seq::<Seq<u8>>::empty());
        assert(message@.take(0) =~= Seq::<u8>::empty());
    }
    while pos < message.len()
        invariant
            pos <= message@.len(),
            chunk_size >= 1,
            concat_all(chunks@.map_values(|c: Vec<u8>| c@)) == message@.take(pos as int),
            forall|i: int|
                0 <= i < chunks@.len() ==> 1 <= #[trigger] chunks@[i]@.len() <= chunk_size,
            forall|i: int|
                0 <= i < chunks@.len() - 1 ==> #[trigger] chunks@[i]@.len() == chunk_size,
            pos < message@.len() && chunks@.len() >= 1 ==> chunks@[chunks@.len() - 1]@.len()
                == chunk_size,
            chunks@.len() + chunk_count((message@.len() - pos) as nat, chunk_size as nat)
                == chunk_count(message@.len(), chunk_size as nat),
        decreases message@.len() - pos,
    {
        let remaining = message.len() - pos;
        let step = if remaining < chunk_size {
            remaining
        } else {
            chunk_size
        };
        let mut chunk: Vec<u8> = Vec::new();
        let end = pos + step;
        let mut j = pos;
        while j < end
            invariant
                pos <= j <= end,
                end <= message@.len(),
                chunk@ == message@.subrange(pos as int, j as int),
            decreases end - j,
        {
            let b = message[j];
            chunk.push(b);
            proof {
                assert(message@.subrange(pos as int, j as int).push(b) =~= message@.subrange(
                    pos as int,
                    j + 1,
                ));
            }
            j = j + 1;
        }
        let ghost pre_views = chunks@.map_values(|c: Vec<u8>| c@);
        chunks.push(chunk);
        proof {
            assert(chunks@.map_values(|c: Vec<u8>| c@) =~= pre_views.push(
                message@.subrange(pos as int, end as int),
            ));
            lemma_concat_all_snoc(pre_views, message@.subrange(pos as int, end as int));
            assert(message@.take(pos as int) + message@.subrange(pos as int, end as int)
                =~= message@.take(end as int));
        }
        pos = end;
    }
    proof {
        assert(message@.take(message@.len() as int) =~= message@);
    }
    chunks
}

/// Appending one chunk appends its bytes to the carried stream.
pub proof fn lemma_concat_all_snoc(chunks: Seq<Seq<u8>>, c: Seq<u8>)
    ensures
        concat_all(chunks.push(c)) == concat_all(chunks) + c,
    decreases chunks.len(),
{
    if chunks.len() == 0 {
        assert(chunks.push(c).drop_first() =~= Seq::<Seq<u8>>::empty());
        assert(concat_all(Seq::<Seq<u8>>::empty()) == Seq::<u8>::empty());
        assert(chunks.push(c)[0] == c);
        assert(concat_all(chunks.push(c)) =~= c);
        assert(concat_all(chunks) + c =~= c);
    } else {
        assert(chunks.push(c).drop_first() =~= chunks.drop_first().push(c));
        lemma_concat_all_snoc(chunks.drop_first(), c);
        assert(chunks[0] + (concat_all(chunks.drop_first()) + c) =~= (chunks[0] + concat_all(
            chunks.drop_first(),
        )) + c);
    }
}

/// The decision after one submission attempt: an accepted chunk proceeds, a
/// rejection gives up at once, and a busy reply is retried after a short
/// pause until `MAX_BUSY_RETRIES` busy replies have been seen for this
/// chunk, after which the send gives up.
///
/// `busies_seen` counts the busy replies received for the current chunk
/// before this one.
pub fn busy_retry_step(busies_seen: u64, reply: TransportReply) -> (d: SendDecision)
    ensures
        reply is Accepted ==> d is Proceed,
        reply is Rejected ==> d is GiveUp,
        reply is Busy && busies_seen < MAX_BUSY_RETRIES ==> d is RetryAfterPause,
        reply is Busy && busies_seen >= MAX_BUSY_RETRIES ==> d is GiveUp,
{
    match reply {
        TransportReply::Accepted => SendDecision::Proceed,
        TransportReply::Rejected => SendDecision::GiveUp,
        TransportReply::Busy => {
            if busies_seen < MAX_BUSY_RETRIES {
                SendDecision::RetryAfterPause
            } else {
                SendDecision::GiveUp
            }
        },
    }
}

/// The submission loop for one chunk against a script of replies, one reply
/// per attempt, with `budget` busy replies still tolerated: the number of
/// replies the loop consumes until the chunk is accepted, or nothing when it
/// gives up (a rejection, the busy budget exhausted, or a script that runs
/// out — a transport that stopped answering).
pub open spec fn transmit_outcome(replies: Seq<TransportReply>, budget: nat) -> Option<nat>
    decreases replies.len(),
{
    if replies.len() == 0 {
        Option::None
    } else {
        match replies[0] {
            TransportReply::Accepted => Option::Some(1),
            TransportReply::Rejected => Option::None,
            TransportReply::Busy => {
                if budget == 0 {
                    Option::None
                } else {
                    match transmit_outcome(replies.drop_first(), (budget - 1) as nat) {
                        Option::Some(n) => Option::Some(n + 1),
                        Option::None => Option::None,
                    }
                }
            },
        }
    }
}

/// Whether a send of `nchunks` chunks succeeds against the reply script:
/// each chunk in turn consumes replies until it is accepted.
pub open spec fn send_outcome(nchunks: nat, replies: Seq<TransportReply>) -> bool
    decreases nchunks,
{
    if nchunks == 0 {
        true
    } else {
        match transmit_outcome(replies, MAX_BUSY_RETRIES as nat) {
            Option::Some(n) => send_outcome((nchunks - 1) as nat, replies.skip(n as int)),
            Option::None => false,
        }
    }
}

/// Runs the submit/retry loop for one chunk against a script of replies,
/// starting at position `start`. Returns where the next chunk's replies
/// begin and whether the chunk was accepted.
pub fn transmit_chunk(replies: &Vec<TransportReply>, start: usize) -> (r: (
    usize,
    Result<(), SendError>,
))
    requires
        start <= replies@.len(),
    ensures
        r.1 is Err ==> r.1->Err_0 is Other,
        match transmit_outcome(replies@.skip(start as int), MAX_BUSY_RETRIES as nat) {
            Option::Some(n) => r.1 is Ok && r.0 == start + n && r.0 <= replies@.len(),
            Option::None => r.1 is Err,
        },
{
    let mut pos = start;
    let mut busies: u64 = 0;
    while pos < replies.len()
        invariant
            start <= pos <= replies@.len(),
            busies <= MAX_BUSY_RETRIES,
            transmit_outcome(replies@.skip(start as int), MAX_BUSY_RETRIES as nat)
                == match transmit_outcome(
                replies@.skip(pos as int),
                (MAX_BUSY_RETRIES - busies) as nat,
            ) {
                Option::Some(n) => Option::Some((n + pos - start) as nat),
                Option::None => Option::None::<nat>,
            },
        decreases replies@.len() - pos,
    {
        let reply = replies[pos];
        let ghost tail = replies@.skip(pos as int);
        proof {
            assert(tail.len() > 0);
            assert(tail[0] == replies@[pos as int]);
            assert(tail.drop_first() =~= replies@.skip(pos + 1));
        }
        match busy_retry_step(busies, reply) {
            SendDecision::Proceed => {
                return (pos + 1, Result::Ok(()));
            },
            SendDecision::GiveUp => {
                if matches!(reply, TransportReply::Busy) {
                    return (pos, Result::Err(SendError::Other("device busy for too long")));
                }
                return (pos, Result::Err(SendError::Other("sending message failed")));
            },
            SendDecision::RetryAfterPause => {
                // The driver pauses briefly here before resubmitting.
                busies = busies + 1;
                pos = pos + 1;
            },
        }
    }
    proof {
        assert(replies@.skip(pos as int).len() == 0);
    }
    (pos, Result::Err(SendError::Other("transport stopped responding")))
}

/// The whole outbound path, run against a reply script: validates the
/// message, splits it into chunks of at most `chunk_size` bytes, and submits
/// chunk after chunk, retrying busy replies. The script stands for what the
/// transport would have answered, one reply per submission attempt.
pub fn send_with_replies(message: &[u8], chunk_size: usize, replies: &Vec<TransportReply>) -> (r:
    Result<(), SendError>)
    requires
        chunk_size >= 1,
    ensures
        !valid_send_message(message@) ==> r is Err && r->Err_0 is InvalidData,
        valid_send_message(message@) ==> {
            &&& (r is Ok <==> send_outcome(
                chunk_count(message@.len(), chunk_size as nat),
                replies@,
            ))
            &&& (r is Err ==> r->Err_0 is Other)
        },
{
    if let Result::Err(e) = validate_message(message) {
        return Result::Err(e);
    }
    let chunks = chunk_message(message, chunk_size);
    let n = chunks.len();
    let mut i: usize = 0;
    let mut pos: usize = 0;
    proof {
        assert(replies@.skip(0) =~= replies@);
    }
    while i < n
        invariant
            i <= n,
            pos <= replies@.len(),
            valid_send_message(message@),
            n == chunk_count(message@.len(), chunk_size as nat),
            send_outcome((n - i) as nat, replies@.skip(pos as int)) == send_outcome(
                n as nat,
                replies@,
            ),
        decreases n - i,
    {
        let (next, res) = transmit_chunk(replies, pos);
        match res {
            Result::Ok(()) => {
                proof {
                    let consumed = transmit_outcome(
                        replies@.skip(pos as int),
                        MAX_BUSY_RETRIES as nat,
                    );
                    assert(consumed is Some);
                    assert(replies@.skip(pos as int).skip(consumed->0 as int) =~= replies@.skip(
                        next as int,
                    ));
                }
                pos = next;
                i = i + 1;
            },
            Result::Err(e) => {
                proof {
                    assert(transmit_outcome(replies@.skip(pos as int), MAX_BUSY_RETRIES as nat)
                        is None);
                    assert(!send_outcome((n - i) as nat, replies@.skip(pos as int)));
                }
                return Result::Err(e);
            },
        }
    }
    Result::Ok(())
}

/// Busy-retry bound, success half: a transport that reports busy `k` times
/// and then accepts lets the submission succeed, as long as `k` does not
/// exceed the retry bound.
pub proof fn lemma_busy_then_accept(k: nat, budget: nat, rest: Seq<TransportReply>)
    requires
        k <= budget,
        rest.len() > 0,
        rest[0] == TransportReply::Accepted,
    ensures
        transmit_outcome(busy_run(k) + rest, budget) == Option::Some((k + 1) as nat),
    decreases k,
{
    if k == 0 {
        assert(busy_run(0) + rest =~= rest);
    } else {
        let s = busy_run(k) + rest;
        assert(s[0] == TransportReply::Busy);
        assert(s.drop_first() =~= busy_run((k - 1) as nat) + rest);
        lemma_busy_then_accept((k - 1) as nat, (budget - 1) as nat, rest);
    }
}

/// Busy-retry bound, failure half: a transport that reports busy on every
/// attempt makes the submission give up — it does not retry forever.
pub proof fn lemma_busy_forever(replies: Seq<TransportReply>, budget: nat)
    requires
        forall|i: int| 0 <= i < replies.len() ==> replies[i] == TransportReply::Busy,
    ensures
        transmit_outcome(replies, budget) is None,
    decreases replies.len(),
{
    if replies.len() > 0 && budget > 0 {
        lemma_busy_forever(replies.drop_first(), (budget - 1) as nat);
    }
}

/// A run of `k` busy replies.
pub open spec fn busy_run(k: nat) -> Seq<TransportReply> {
    Seq::new(k, |i: int| TransportReply::Busy)
}

/// Busy-retry bound at the send level, for a message that goes out in one
/// chunk: a transport that reports busy `k` times within the retry bound
/// and then accepts lets the send succeed; one that is busy on every
/// attempt makes it fail — the send never retries forever.
pub proof fn lemma_send_busy_retry_bound(
    k: nat,
    rest: Seq<TransportReply>,
    stubborn: Seq<TransportReply>,
)
    requires
        k <= MAX_BUSY_RETRIES,
        rest.len() > 0,
        rest[0] == TransportReply::Accepted,
        forall|i: int| 0 <= i < stubborn.len() ==> stubborn[i] == TransportReply::Busy,
    ensures
        send_outcome(1, busy_run(k) + rest),
        !send_outcome(1, stubborn),
{
    lemma_busy_then_accept(k, MAX_BUSY_RETRIES as nat, rest);
    assert(send_outcome(0, (busy_run(k) + rest).skip(k as int + 1)));
    lemma_busy_forever(stubborn, MAX_BUSY_RETRIES as nat);
}

/// Size in bytes of the length word stored ahead of each message in the
/// outbound ring.
pub const SIZE_PREFIX_BYTES: usize = 8;

/// How many ring bytes a sequence of messages occupies: each message costs
/// its length plus one length word.
pub open spec fn ring_bytes(s: Seq<Seq<u8>>) -> nat
    decreases s.len(),
{
    if s.len() == 0 {
        0
    } else {
        (SIZE_PREFIX_BYTES + s[0].len() + ring_bytes(s.drop_first())) as nat
    }
}

/// Appending one message grows the occupied bytes by its cost.
pub proof fn lemma_ring_bytes_snoc(s: Seq<Seq<u8>>, m: Seq<u8>)
    ensures
        ring_bytes(s.push(m)) == ring_bytes(s) + SIZE_PREFIX_BYTES + m.len(),
    decreases s.len(),
{
    if s.len() == 0 {
        assert(s.push(m).drop_first() =~= Seq::<Seq<u8>>::empty());
        assert(s.push(m)[0] == m);
        assert(ring_bytes(Seq::<Seq<u8>>::empty()) == 0);
    } else {
        assert(s.push(m).drop_first() =~= s.drop_first().push(m));
        lemma_ring_bytes_snoc(s.drop_first(), m);
    }
}

/// The bounded handoff between `send` and a realtime drain: `send` deposits
/// whole messages with a wait-free bounded write, the transport's realtime
/// callback takes them out front first. Neither side ever blocks the other:
/// a write into a full ring is rejected, a read from an empty ring returns
/// nothing.
#[derive(Debug)]
pub struct OutputRing {
    buf: Vec<Vec<u8>>,
    capacity_bytes: usize,
    used_bytes: usize,
}

impl OutputRing {
    /// The deposited messages, oldest first.
    pub closed spec fn contents(&self) -> Seq<Seq<u8>> {
        self.buf@.map_values(|v: Vec<u8>| v@)
    }

    /// The fixed ring size in bytes.
    pub closed spec fn spec_capacity(&self) -> usize {
        self.capacity_bytes
    }

    /// The tracked byte count matches the deposited messages and never
    /// exceeds the ring size.
    pub closed spec fn wf(&self) -> bool {
        self.used_bytes == ring_bytes(self.contents()) && self.used_bytes <= self.capacity_bytes
    }

    /// An empty ring of the given size.
    pub fn new(capacity_bytes: usize) -> (r: OutputRing)
        ensures
            r.wf(),
            r.contents() == Seq::<Seq<u8>>::empty(),
            r.spec_capacity() == capacity_bytes,
    {
        let r = OutputRing { buf: Vec::new(), capacity_bytes, used_bytes: 0 };
        proof {
            assert(r.contents() =~= Seq::<Seq<u8>>::empty());
        }
        r
    }

    /// How many messages the ring currently holds.
    pub fn len(&self) -> (r: usize)
        requires
            self.wf(),
        ensures
            r == self.contents().len(),
    {
        self.buf.len()
    }

    /// Deposits one message, length word included, if the ring has room for
    /// all of its bytes; a full ring rejects the write and keeps its
    /// contents exactly as they were.
    pub fn write(&mut self, m: Vec<u8>) -> (accepted: bool)
        requires
            old(self).wf(),
        ensures
            final(self).wf(),
            final(self).spec_capacity() == old(self).spec_capacity(),
            accepted == (ring_bytes(old(self).contents()) + SIZE_PREFIX_BYTES + m@.len() <= old(
                self,
            ).spec_capacity()),
            accepted ==> final(self).contents() == old(self).contents().push(m@),
            !accepted ==> final(self).contents() == old(self).contents(),
    {
        let available = self.capacity_bytes - self.used_bytes;
        if m.len() <= available && SIZE_PREFIX_BYTES <= available - m.len() {
            let ghost pre = self.contents();
            proof {
                lemma_ring_bytes_snoc(pre, m@);
            }
            self.used_bytes = self.used_bytes + SIZE_PREFIX_BYTES + m.len();
            self.buf.push(m);
            proof {
                assert(self.contents() =~= pre.push(m@));
            }
            true
        } else {
            false
        }
    }

    /// Takes out the oldest deposited message, or nothing when the ring is
    /// empty.
    pub fn read_next(&mut self) -> (r: Option<Vec<u8>>)
        requires
            old(self).wf(),
        ensures
            final(self).wf(),
            final(self).spec_capacity() == old(self).spec_capacity(),
            old(self).contents().len() == 0 ==> r is None && final(self).contents() == old(
                self,
            ).contents(),
            old(self).contents().len() > 0 ==> (r matches Some(m) && m@ == old(self).contents()[0]
                && final(self).contents() == old(self).contents().drop_first()),
    {
        if self.buf.len() == 0 {
            Option::None
        } else {
            let ghost pre = self.contents();
            let m = self.buf.remove(0);
            proof {
                assert(self.contents() =~= pre.drop_first());
            }
            self.used_bytes = self.used_bytes - SIZE_PREFIX_BYTES - m.len();
            Option::Some(m)
        }
    }
}

} // verus!
