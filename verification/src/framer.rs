//! The message framer: turns the raw byte chunks that a transport delivers
//! into complete MIDI messages, applying the ignore filter and reassembling
//! SysEx runs that arrive segmented.
//!
//! The framer is a byte-driven state machine, so its output does not depend
//! on how a byte stream was cut into chunks (see `lemma_frame_run_app`). A
//! SysEx run ends at the terminator byte 0xF7; for transports that segment a
//! run into whole chunks this is exactly when a chunk's last byte is the
//! terminator.

use vstd::prelude::*;

use crate::Ignore;
use crate::MidiMessage;

verus! {

/// Status byte that opens a System Exclusive run.
pub const SYSEX_START: u8 = 0xF0;

/// Byte that terminates a System Exclusive run.
pub const SYSEX_END: u8 = 0xF7;

/// The length in bytes of the MIDI message that `status` opens.
///
/// 3 bytes for Note On/Off, Polyphonic Aftertouch, Control Change, Pitch
/// Bend and Song Position; 2 bytes for Program Change, Channel Aftertouch,
/// MIDI Time Code and Song Select; 1 byte for System Real-Time messages and
/// the remaining System Common forms. SysEx (0xF0) has no fixed length and
/// is handled separately.
pub open spec fn msg_len(status: u8) -> nat
    recommends
        0x80 <= status,
        status != SYSEX_START,
{
    if status < 0xC0 {
        3
    } else if status < 0xE0 {
        2
    } else if status < 0xF0 {
        3
    } else if status == 0xF1 {
        2
    } else if status == 0xF2 {
        3
    } else if status == 0xF3 {
        2
    } else {
        1
    }
}

/// Whether a complete message whose status byte is `status` is suppressed
/// under the filter `ig`: SysEx is 0xF0, Time is MIDI Time Code (0xF1) and
/// Timing Clock (0xF8), ActiveSense is 0xFE.
pub open spec fn is_filtered(status: u8, ig: Ignore) -> bool {
    (status == SYSEX_START && ig.ignores_sysex()) || ((status == 0xF1 || status == 0xF8)
        && ig.ignores_time()) || (status == 0xFE && ig.ignores_active_sense())
}

/// The framing state between two chunks: either inside a SysEx run (with the
/// bytes accumulated so far, kept empty while SysEx is ignored), or at most
/// the leading bytes of one incomplete short message.
#[verifier::ext_equal]
pub struct FramerState {
    pub in_sysex: bool,
    pub pending: Seq<u8>,
}

/// The state in which a capture loop starts: no run and no partial message.
pub open spec fn initial_state() -> FramerState {
    FramerState { in_sysex: false, pending: Seq::empty() }
}

/// Well-formedness of a framing state: a partial short message starts with a
/// status byte and is shorter than the message it opens.
pub open spec fn state_wf(st: FramerState) -> bool {
    !st.in_sysex ==> (st.pending.len() == 0 || (0x80 <= st.pending[0] && st.pending[0]
        != SYSEX_START && st.pending.len() < msg_len(st.pending[0])))
}

/// The state after one byte, and the message that byte completes, if any.
pub struct FrameStep {
    pub state: FramerState,
    pub emit: Option<Seq<u8>>,
}

/// One byte of framing under the filter `ig`.
///
/// Inside a SysEx run, every byte is accumulated (or dropped, when SysEx is
/// ignored — the run is still tracked so that its end is recognized) until
/// the terminator ends the run. Outside a run, a byte without the status bit
/// is discarded, 0xF0 opens a run, and any other status byte opens a short
/// message that is emitted once `msg_len` bytes have arrived, unless its
/// category is filtered.
pub open spec fn frame_step(ig: Ignore, st: FramerState, b: u8) -> FrameStep {
    if st.in_sysex {
        if b == SYSEX_END {
            FrameStep {
                state: initial_state(),
                emit: if ig.ignores_sysex() {
                    Option::None
                } else {
                    Option::Some(st.pending.push(b))
                },
            }
        } else {
            FrameStep {
                state: FramerState {
                    in_sysex: true,
                    pending: if ig.ignores_sysex() {
                        st.pending
                    } else {
                        st.pending.push(b)
                    },
                },
                emit: Option::None,
            }
        }
    } else if st.pending.len() == 0 {
        if b < 0x80 {
            FrameStep { state: st, emit: Option::None }
        } else if b == SYSEX_START {
            FrameStep {
                state: FramerState {
                    in_sysex: true,
                    pending: if ig.ignores_sysex() {
                        Seq::empty()
                    } else {
                        seq![b]
                    },
                },
                emit: Option::None,
            }
        } else if msg_len(b) == 1 {
            FrameStep {
                state: st,
                emit: if is_filtered(b, ig) {
                    Option::None
                } else {
                    Option::Some(seq![b])
                },
            }
        } else {
            FrameStep { state: FramerState { in_sysex: false, pending: seq![b] }, emit: Option::None }
        }
    } else {
        let p = st.pending.push(b);
        if p.len() >= msg_len(st.pending[0]) {
            FrameStep {
                state: initial_state(),
                emit: if is_filtered(st.pending[0], ig) {
                    Option::None
                } else {
                    Option::Some(p)
                },
            }
        } else {
            FrameStep { state: FramerState { in_sysex: false, pending: p }, emit: Option::None }
        }
    }
}

/// The state after a whole byte sequence, and the messages it completed, in
/// the order the transport produced them.
pub struct FrameRun {
    pub state: FramerState,
    pub msgs: Seq<Seq<u8>>,
}

/// Framing of a byte sequence: `frame_step` folded over the bytes.
pub open spec fn frame_run(ig: Ignore, st: FramerState, bytes: Seq<u8>) -> FrameRun
    decreases bytes.len(),
{
    if bytes.len() == 0 {
        FrameRun { state: st, msgs: Seq::empty() }
    } else {
        let first = frame_step(ig, st, bytes[0]);
        let rest = frame_run(ig, first.state, bytes.drop_first());
        FrameRun {
            state: rest.state,
            msgs: match first.emit {
                Option::Some(m) => seq![m] + rest.msgs,
                Option::None => rest.msgs,
            },
        }
    }
}

/// Framing does not depend on chunk boundaries: feeding `a` and then `b`
/// reaches the same state and emits the same messages as feeding the
/// concatenation `a + b` at once.
pub proof fn lemma_frame_run_app(ig: Ignore, st: FramerState, a: Seq<u8>, b: Seq<u8>)
    ensures
        frame_run(ig, st, a + b).state == frame_run(ig, frame_run(ig, st, a).state, b).state,
        frame_run(ig, st, a + b).msgs == frame_run(ig, st, a).msgs + frame_run(
            ig,
            frame_run(ig, st, a).state,
            b,
        ).msgs,
    decreases a.len(),
{
    if a.len() == 0 {
        assert(a + b =~= b);
        assert(frame_run(ig, st, a).msgs + frame_run(ig, frame_run(ig, st, a).state, b).msgs
            =~= frame_run(ig, st, b).msgs);
    } else {
        let first = frame_step(ig, st, a[0]);
        assert((a + b).drop_first() =~= a.drop_first() + b);
        lemma_frame_run_app(ig, first.state, a.drop_first(), b);
        assert(frame_run(ig, st, a + b).msgs == frame_run(ig, st, a).msgs + frame_run(
            ig,
            frame_run(ig, st, a).state,
            b,
        ).msgs) by {
            assert((a + b)[0] == a[0]);
            match first.emit {
                Option::Some(m) => {
                    assert(seq![m] + (frame_run(ig, first.state, a.drop_first()).msgs + frame_run(
                        ig,
                        frame_run(ig, st, a).state,
                        b,
                    ).msgs) =~= (seq![m] + frame_run(ig, first.state, a.drop_first()).msgs)
                        + frame_run(ig, frame_run(ig, st, a).state, b).msgs);
                },
                Option::None => {},
            }
        }
    }
}

/// Extending a byte sequence by one byte extends its framing by one step.
pub proof fn lemma_frame_run_snoc(ig: Ignore, st: FramerState, s: Seq<u8>, b: u8)
    ensures
        frame_run(ig, st, s.push(b)).state == frame_step(ig, frame_run(ig, st, s).state, b).state,
        frame_run(ig, st, s.push(b)).msgs == match frame_step(
            ig,
            frame_run(ig, st, s).state,
            b,
        ).emit {
            Option::Some(m) => frame_run(ig, st, s).msgs.push(m),
            Option::None => frame_run(ig, st, s).msgs,
        },
{
    assert(s.push(b) =~= s + seq![b]);
    lemma_frame_run_app(ig, st, s, seq![b]);
    let mid = frame_run(ig, st, s).state;
    let stp = frame_step(ig, mid, b);
    assert(seq![b][0] == b);
    assert(seq![b].drop_first() =~= Seq::<u8>::empty());
    assert(frame_run(ig, stp.state, Seq::<u8>::empty()).msgs == Seq::<Seq<u8>>::empty());
    assert(frame_run(ig, stp.state, Seq::<u8>::empty()).state == stp.state);
    match stp.emit {
        Option::Some(m) => {
            assert(frame_run(ig, mid, seq![b]).msgs =~= seq![m]);
            assert(frame_run(ig, st, s).msgs + seq![m] =~= frame_run(ig, st, s).msgs.push(m));
        },
        Option::None => {
            assert(frame_run(ig, mid, seq![b]).msgs =~= Seq::<Seq<u8>>::empty());
            assert(frame_run(ig, st, s).msgs + Seq::<Seq<u8>>::empty() =~= frame_run(
                ig,
                st,
                s,
            ).msgs);
        },
    }
}

/// A complete, valid short (non-SysEx) MIDI wire message: a status byte
/// followed by exactly the data bytes its class calls for.
pub open spec fn valid_short_message(m: Seq<u8>) -> bool {
    &&& 1 <= m.len()
    &&& 0x80 <= m[0]
    &&& m[0] != SYSEX_START
    &&& m.len() == msg_len(m[0])
    &&& forall|j: int| 1 <= j < m.len() ==> m[j] < 0x80
}

/// A complete, valid SysEx run: the SysEx status byte, any number of data
/// bytes, and the terminator.
pub open spec fn valid_sysex_run(m: Seq<u8>) -> bool {
    &&& m.len() >= 2
    &&& m[0] == SYSEX_START
    &&& m.last() == SYSEX_END
    &&& forall|j: int| 1 <= j < m.len() - 1 ==> m[j] < 0x80
}

/// The byte stream that a sequence of chunks carries.
pub open spec fn concat_all(chunks: Seq<Seq<u8>>) -> Seq<u8>
    decreases chunks.len(),
{
    if chunks.len() == 0 {
        Seq::empty()
    } else {
        chunks[0] + concat_all(chunks.drop_first())
    }
}

/// Framing of a sequence of chunks, one chunk after the other.
pub open spec fn frame_chunks(ig: Ignore, st: FramerState, chunks: Seq<Seq<u8>>) -> FrameRun
    decreases chunks.len(),
{
    if chunks.len() == 0 {
        FrameRun { state: st, msgs: Seq::empty() }
    } else {
        let first = frame_run(ig, st, chunks[0]);
        let rest = frame_chunks(ig, first.state, chunks.drop_first());
        FrameRun { state: rest.state, msgs: first.msgs + rest.msgs }
    }
}

/// Feeding a byte stream chunk by chunk frames it exactly as feeding it at
/// once would: the chunk boundaries leave no trace.
pub proof fn lemma_frame_chunks_concat(ig: Ignore, st: FramerState, chunks: Seq<Seq<u8>>)
    ensures
        frame_chunks(ig, st, chunks).state == frame_run(ig, st, concat_all(chunks)).state,
        frame_chunks(ig, st, chunks).msgs == frame_run(ig, st, concat_all(chunks)).msgs,
    decreases chunks.len(),
{
    if chunks.len() == 0 {
        assert(frame_chunks(ig, st, chunks).msgs =~= frame_run(ig, st, concat_all(chunks)).msgs);
    } else {
        let first = frame_run(ig, st, chunks[0]);
        lemma_frame_run_app(ig, st, chunks[0], concat_all(chunks.drop_first()));
        lemma_frame_chunks_concat(ig, first.state, chunks.drop_first());
    }
}

/// Framing one valid short message from the initial state emits exactly that
/// message and returns to the initial state.
pub proof fn lemma_short_message_framed(ig: Ignore, m: Seq<u8>)
    requires
        valid_short_message(m),
        !is_filtered(m[0], ig),
    ensures
        frame_run(ig, initial_state(), m).state == initial_state(),
        frame_run(ig, initial_state(), m).msgs == seq![m],
{
    let st0 = initial_state();
    let s1 = frame_step(ig, st0, m[0]);
    if m.len() == 1 {
        assert(m.drop_first().len() == 0);
        assert(frame_run(ig, s1.state, m.drop_first()).msgs == Seq::<Seq<u8>>::empty());
        assert(m =~= seq![m[0]]);
        assert(frame_run(ig, st0, m).msgs =~= seq![m]);
    } else if m.len() == 2 {
        let r1 = m.drop_first();
        assert(r1[0] == m[1]);
        let s2 = frame_step(ig, s1.state, m[1]);
        assert(s1.state.pending =~= seq![m[0]]);
        assert(seq![m[0]].push(m[1]) =~= m);
        let r2 = r1.drop_first();
        assert(r2.len() == 0);
        assert(frame_run(ig, s2.state, r2).msgs == Seq::<Seq<u8>>::empty());
        assert(frame_run(ig, s1.state, r1).msgs =~= seq![m]);
        assert(frame_run(ig, st0, m).msgs =~= seq![m]);
    } else {
        assert(m.len() == 3);
        let r1 = m.drop_first();
        let r2 = r1.drop_first();
        let r3 = r2.drop_first();
        assert(r1[0] == m[1] && r2[0] == m[2]);
        assert(r3.len() == 0);
        let s2 = frame_step(ig, s1.state, m[1]);
        let s3 = frame_step(ig, s2.state, m[2]);
        assert(s1.state.pending =~= seq![m[0]]);
        assert(s2.state.pending =~= seq![m[0], m[1]]);
        assert(seq![m[0], m[1]].push(m[2]) =~= m);
        assert(frame_run(ig, s3.state, r3).msgs == Seq::<Seq<u8>>::empty());
        assert(frame_run(ig, s2.state, r2).msgs =~= seq![m]);
        assert(frame_run(ig, s1.state, r1).msgs =~= seq![m]);
        assert(frame_run(ig, st0, m).msgs =~= seq![m]);
    }
}

/// Framing round-trip: a concatenation of valid short MIDI messages, none of
/// them filtered, frames back into exactly that message sequence, ending in
/// the initial state.
pub proof fn lemma_framing_round_trip(ig: Ignore, msgs: Seq<Seq<u8>>)
    requires
        forall|i: int|
            0 <= i < msgs.len() ==> valid_short_message(#[trigger] msgs[i]) && !is_filtered(
                msgs[i][0],
                ig,
            ),
    ensures
        frame_run(ig, initial_state(), concat_all(msgs)).state == initial_state(),
        frame_run(ig, initial_state(), concat_all(msgs)).msgs == msgs,
    decreases msgs.len(),
{
    if msgs.len() == 0 {
        assert(frame_run(ig, initial_state(), concat_all(msgs)).msgs =~= msgs);
    } else {
        lemma_short_message_framed(ig, msgs[0]);
        lemma_frame_run_app(ig, initial_state(), msgs[0], concat_all(msgs.drop_first()));
        lemma_framing_round_trip(ig, msgs.drop_first());
        assert(seq![msgs[0]] + msgs.drop_first() =~= msgs);
    }
}

/// Framing round-trip under arbitrary chunking: however a concatenation of
/// valid short MIDI messages is cut into chunks, feeding the chunks in order
/// emits exactly the original messages.
pub proof fn lemma_framing_round_trip_chunked(ig: Ignore, msgs: Seq<Seq<u8>>, chunks: Seq<Seq<u8>>)
    requires
        forall|i: int|
            0 <= i < msgs.len() ==> valid_short_message(#[trigger] msgs[i]) && !is_filtered(
                msgs[i][0],
                ig,
            ),
        concat_all(chunks) == concat_all(msgs),
    ensures
        frame_chunks(ig, initial_state(), chunks).state == initial_state(),
        frame_chunks(ig, initial_state(), chunks).msgs == msgs,
{
    lemma_frame_chunks_concat(ig, initial_state(), chunks);
    lemma_framing_round_trip(ig, msgs);
}

/// Inside an unfiltered SysEx run with `p` accumulated, the remaining bytes
/// of the run (data bytes, then the terminator) end the run, emitting the
/// accumulation extended by those bytes.
proof fn lemma_sysex_drain(ig: Ignore, p: Seq<u8>, rest: Seq<u8>)
    requires
        !ig.ignores_sysex(),
        rest.len() >= 1,
        rest.last() == SYSEX_END,
        forall|j: int| 0 <= j < rest.len() - 1 ==> rest[j] < 0x80,
    ensures
        frame_run(ig, FramerState { in_sysex: true, pending: p }, rest).state == initial_state(),
        frame_run(ig, FramerState { in_sysex: true, pending: p }, rest).msgs == seq![p + rest],
    decreases rest.len(),
{
    let st = FramerState { in_sysex: true, pending: p };
    let s1 = frame_step(ig, st, rest[0]);
    if rest.len() == 1 {
        assert(rest[0] == SYSEX_END);
        assert(rest.drop_first().len() == 0);
        assert(frame_run(ig, s1.state, rest.drop_first()).msgs == Seq::<Seq<u8>>::empty());
        assert(p.push(rest[0]) =~= p + rest);
        assert(frame_run(ig, st, rest).msgs =~= seq![p + rest]);
    } else {
        assert(rest[0] < 0x80);
        lemma_sysex_drain(ig, p.push(rest[0]), rest.drop_first());
        assert(p.push(rest[0]) + rest.drop_first() =~= p + rest);
        assert(frame_run(ig, st, rest).msgs =~= seq![p + rest]);
    }
}

/// SysEx reassembly: a valid SysEx run framed from the initial state emits
/// one message holding exactly the run's bytes, terminator included, and
/// returns to the initial state.
pub proof fn lemma_sysex_run_framed(ig: Ignore, run: Seq<u8>)
    requires
        !ig.ignores_sysex(),
        valid_sysex_run(run),
    ensures
        frame_run(ig, initial_state(), run).state == initial_state(),
        frame_run(ig, initial_state(), run).msgs == seq![run],
{
    let st0 = initial_state();
    let s1 = frame_step(ig, st0, run[0]);
    assert(s1.state.pending =~= seq![run[0]]);
    assert(run.drop_first().last() == SYSEX_END);
    lemma_sysex_drain(ig, seq![run[0]], run.drop_first());
    assert(seq![run[0]] + run.drop_first() =~= run);
    assert(frame_run(ig, st0, run).msgs =~= seq![run]);
}

/// SysEx reassembly under arbitrary chunking: a valid SysEx run of any
/// length, cut into chunks of any sizes and fed in order, reassembles into
/// one message with exactly the original bytes.
pub proof fn lemma_sysex_reassembly(ig: Ignore, run: Seq<u8>, chunks: Seq<Seq<u8>>)
    requires
        !ig.ignores_sysex(),
        valid_sysex_run(run),
        concat_all(chunks) == run,
    ensures
        frame_chunks(ig, initial_state(), chunks).state == initial_state(),
        frame_chunks(ig, initial_state(), chunks).msgs == seq![run],
{
    lemma_frame_chunks_concat(ig, initial_state(), chunks);
    lemma_sysex_run_framed(ig, run);
}

/// Inside a SysEx run while SysEx is ignored, the remaining bytes of the run
/// are dropped without emitting anything, and the terminator restores the
/// initial state.
proof fn lemma_ignored_sysex_drain(ig: Ignore, p: Seq<u8>, rest: Seq<u8>)
    requires
        ig.ignores_sysex(),
        rest.len() >= 1,
        rest.last() == SYSEX_END,
        forall|j: int| 0 <= j < rest.len() - 1 ==> rest[j] < 0x80,
    ensures
        frame_run(ig, FramerState { in_sysex: true, pending: p }, rest).state == initial_state(),
        frame_run(ig, FramerState { in_sysex: true, pending: p }, rest).msgs == Seq::<
            Seq<u8>,
        >::empty(),
    decreases rest.len(),
{
    let st = FramerState { in_sysex: true, pending: p };
    let s1 = frame_step(ig, st, rest[0]);
    if rest.len() == 1 {
        assert(rest.drop_first().len() == 0);
        assert(frame_run(ig, s1.state, rest.drop_first()).msgs == Seq::<Seq<u8>>::empty());
    } else {
        assert(rest[0] < 0x80);
        lemma_ignored_sysex_drain(ig, p, rest.drop_first());
    }
}

/// Ignore filtering: with SysEx ignored, a valid SysEx run emits no message
/// at all, and the framer returns to the initial state — so any bytes that
/// follow the run are framed exactly as if the run had never arrived.
pub proof fn lemma_ignore_filtering(ig: Ignore, run: Seq<u8>, tail: Seq<u8>)
    requires
        ig.ignores_sysex(),
        valid_sysex_run(run),
    ensures
        frame_run(ig, initial_state(), run).state == initial_state(),
        frame_run(ig, initial_state(), run).msgs == Seq::<Seq<u8>>::empty(),
        frame_run(ig, initial_state(), run + tail).state == frame_run(
            ig,
            initial_state(),
            tail,
        ).state,
        frame_run(ig, initial_state(), run + tail).msgs == frame_run(
            ig,
            initial_state(),
            tail,
        ).msgs,
{
    let st0 = initial_state();
    let s1 = frame_step(ig, st0, run[0]);
    assert(run.drop_first().last() == SYSEX_END);
    lemma_ignored_sysex_drain(ig, Seq::<u8>::empty(), run.drop_first());
    assert(s1.state == FramerState { in_sysex: true, pending: Seq::<u8>::empty() });
    assert(frame_run(ig, st0, run).msgs =~= Seq::<Seq<u8>>::empty());
    lemma_frame_run_app(ig, st0, run, tail);
    assert(frame_run(ig, st0, run + tail).msgs =~= frame_run(ig, st0, tail).msgs);
}

/// The timestamp that messages delivered at monotonic time `now` carry, on a
/// connection whose first message was delivered at `base`: the offset from
/// the first message, or 0 for the first message itself.
pub open spec fn delta_timestamp(base: Option<u64>, now: u64) -> u64 {
    match base {
        Option::Some(b) => (now - b) as u64,
        Option::None => 0,
    }
}

/// Converts the raw chunks of one input connection into zero or more
/// complete, filtered, timestamped MIDI messages.
#[derive(Debug)]
pub struct Framer {
    ignore_flags: Ignore,
    in_sysex: bool,
    pending: Vec<u8>,
    base_time: Option<u64>,
}

impl Framer {
    /// The filter this framer applies.
    pub closed spec fn ignore(&self) -> Ignore {
        self.ignore_flags
    }

    /// The framing state between chunks.
    pub closed spec fn state(&self) -> FramerState {
        FramerState { in_sysex: self.in_sysex, pending: self.pending@ }
    }

    /// The monotonic time of the first delivered message, once one was
    /// delivered.
    pub closed spec fn base(&self) -> Option<u64> {
        self.base_time
    }

    pub open spec fn wf(&self) -> bool {
        state_wf(self.state())
    }

    /// A fresh framer with the given filter: initial state, no time base.
    pub fn new(ignore_flags: Ignore) -> (r: Framer)
        ensures
            r.wf(),
            r.ignore() == ignore_flags,
            r.state() == initial_state(),
            r.base() is None,
    {
        let r = Framer {
            ignore_flags,
            in_sysex: false,
            pending: Vec::new(),
            base_time: Option::None,
        };
        assert(r.state() =~= initial_state());
        r
    }

    /// Frames one transport chunk received at monotonic time `now`
    /// (microseconds). Returns the messages the chunk completed, each
    /// carrying its offset from the connection's first delivered message;
    /// bytes of an unfinished message stay pending for the next chunk.
    pub fn feed(&mut self, chunk: &[u8], now: u64) -> (msgs: Vec<MidiMessage>)
        requires
            old(self).wf(),
            old(self).base() matches Some(b) ==> b <= now,
        ensures
            final(self).wf(),
            final(self).ignore() == old(self).ignore(),
            final(self).state() == frame_run(old(self).ignore(), old(self).state(), chunk@).state,
            msgs@.len() == frame_run(old(self).ignore(), old(self).state(), chunk@).msgs.len(),
            forall|i: int|
                0 <= i < msgs@.len() ==> msgs@[i].bytes@ == frame_run(
                    old(self).ignore(),
                    old(self).state(),
                    chunk@,
                ).msgs[i],
            forall|i: int|
                0 <= i < msgs@.len() ==> msgs@[i].timestamp == delta_timestamp(
                    old(self).base(),
                    now,
                ),
            final(self).base() == if old(self).base() is None && msgs@.len() > 0 {
                Option::Some(now)
            } else {
                old(self).base()
            },
    {
        let ig = self.ignore_flags;
        let ghost st0 = self.state();
        let ghost base0 = self.base_time;
        let mut emitted: Vec<Vec<u8>> = Vec::new();
        let mut i: usize = 0;
        while i < chunk.len()
            invariant
                i <= chunk@.len(),
                self.ignore_flags == ig,
                self.base_time == base0,
                self.wf(),
                self.state() == frame_run(ig, st0, chunk@.take(i as int)).state,
                emitted@.len() == frame_run(ig, st0, chunk@.take(i as int)).msgs.len(),
                forall|j: int|
                    0 <= j < emitted@.len() ==> emitted@[j]@ == frame_run(
                        ig,
                        st0,
                        chunk@.take(i as int),
                    ).msgs[j],
            decreases chunk@.len() - i,
        {
            let b = chunk[i];
            let ghost pre_state = self.state();
            let ghost stepr = frame_step(ig, pre_state, b);
            proof {
                assert(chunk@.take(i + 1) =~= chunk@.take(i as int).push(b));
                lemma_frame_run_snoc(ig, st0, chunk@.take(i as int), b);
            }
            if self.in_sysex {
                if b == SYSEX_END {
                    if ignores_sysex_now(ig) {
                        self.pending = Vec::new();
                    } else {
                        self.pending.push(b);
                        let mut taken: Vec<u8> = Vec::new();
                        core::mem::swap(&mut taken, &mut self.pending);
                        emitted.push(taken);
                    }
                    self.in_sysex = false;
                } else {
                    if !ignores_sysex_now(ig) {
                        self.pending.push(b);
                    }
                }
            } else if self.pending.len() == 0 {
                if b < 0x80 {
                    // no status bit: discard the byte
                } else if b == SYSEX_START {
                    self.in_sysex = true;
                    if !ignores_sysex_now(ig) {
                        self.pending.push(b);
                        proof {
                            assert(self.pending@ =~= seq![b]);
                        }
                    }
                } else if msg_len_of(b) == 1 {
                    if !is_filtered_now(b, ig) {
                        let mut single: Vec<u8> = Vec::new();
                        single.push(b);
                        proof {
                            assert(single@ =~= seq![b]);
                        }
                        emitted.push(single);
                    }
                } else {
                    self.pending.push(b);
                    proof {
                        assert(self.pending@ =~= seq![b]);
                    }
                }
            } else {
                let status = self.pending[0];
                self.pending.push(b);
                if self.pending.len() >= msg_len_of(status) {
                    let mut taken: Vec<u8> = Vec::new();
                    core::mem::swap(&mut taken, &mut self.pending);
                    if !is_filtered_now(status, ig) {
                        emitted.push(taken);
                    }
                }
            }
            proof {
                assert(self.state().pending =~= stepr.state.pending);
                assert(self.state() =~= stepr.state);
            }
            i = i + 1;
        }
        proof {
            assert(chunk@.take(chunk@.len() as int) =~= chunk@);
        }
        let ts: u64 = match self.base_time {
            Option::Some(base) => now - base,
            Option::None => {
                if emitted.len() > 0 {
                    self.base_time = Option::Some(now);
                }
                0
            },
        };
        let mut msgs: Vec<MidiMessage> = Vec::new();
        let ghost all = frame_run(ig, st0, chunk@).msgs;
        let mut k: usize = 0;
        let n = emitted.len();
        while k < n
            invariant
                k <= n,
                n == emitted@.len(),
                emitted@.len() == all.len(),
                forall|j: int| k <= j < emitted@.len() ==> emitted@[j]@ == all[j],
                msgs@.len() == k,
                forall|j: int| 0 <= j < k ==> msgs@[j].bytes@ == all[j],
                forall|j: int| 0 <= j < k ==> msgs@[j].timestamp == ts,
            decreases n - k,
        {
            let mut taken: Vec<u8> = Vec::new();
            core::mem::swap(&mut taken, &mut emitted[k]);
            msgs.push(MidiMessage { bytes: taken, timestamp: ts });
            k = k + 1;
        }
        msgs
    }
}

/// Exec mirror of `Ignore::ignores_sysex`.
fn ignores_sysex_now(ig: Ignore) -> (r: bool)
    ensures
        r == ig.ignores_sysex(),
{
    matches!(
        ig,
        Ignore::Sysex | Ignore::SysexAndTime | Ignore::SysexAndActiveSense | Ignore::All
    )
}

/// Exec mirror of `is_filtered`.
fn is_filtered_now(status: u8, ig: Ignore) -> (r: bool)
    ensures
        r == is_filtered(status, ig),
{
    if status == SYSEX_START {
        ignores_sysex_now(ig)
    } else if status == 0xF1 || status == 0xF8 {
        matches!(ig, Ignore::Time | Ignore::SysexAndTime | Ignore::TimeAndActiveSense | Ignore::All)
    } else if status == 0xFE {
        matches!(
            ig,
            Ignore::ActiveSense | Ignore::SysexAndActiveSense | Ignore::TimeAndActiveSense
                | Ignore::All
        )
    } else {
        false
    }
}

/// Exec mirror of `msg_len`.
fn msg_len_of(status: u8) -> (r: usize)
    requires
        0x80 <= status,
        status != SYSEX_START,
    ensures
        r == msg_len(status),
{
    if status < 0xC0 {
        3
    } else if status < 0xE0 {
        2
    } else if status < 0xF0 {
        3
    } else if status == 0xF1 {
        2
    } else if status == 0xF2 {
        3
    } else if status == 0xF3 {
        2
    } else {
        1
    }
}

} // verus!
