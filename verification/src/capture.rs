//! The capture loop's decisions. The platform side of the loop — blocking
//! until a transport event or the cancellation channel is ready — belongs to
//! the driver; every decision about what an event means is made here, so
//! that it holds on every backend: events are framed and delivered in
//! arrival order, transient faults never stop the loop, and once
//! cancellation has been observed nothing more is ever delivered.

use vstd::prelude::*;

use crate::framer::delta_timestamp;
use crate::framer::frame_run;
use crate::framer::initial_state;
use crate::framer::Framer;
use crate::framer::FramerState;
use crate::Ignore;
use crate::MidiMessage;

verus! {

/// One occurrence that the platform wait reported to the capture loop.
#[derive(Debug)]
pub enum CaptureEvent {
    /// A chunk of raw transport bytes, with the monotonic time in
    /// microseconds at which it arrived.
    Data(Vec<u8>, u64),
    /// The cancellation channel fired: the owner asked the loop to stop.
    Cancel,
    /// A transient transport fault (an input buffer overrun, a decode error
    /// on one event): it is reported and the loop goes on.
    Fault,
}

/// The verified core of one capture loop: a framer and the "continue
/// running" decision. The driver feeds it every event the platform wait
/// reports and delivers whatever comes back; it stops its thread as soon as
/// `is_running` turns false.
#[derive(Debug)]
pub struct CaptureEngine {
    framer: Framer,
    running: bool,
}

impl CaptureEngine {
    /// The filter the engine's framer applies.
    pub closed spec fn ignore(&self) -> Ignore {
        self.framer.ignore()
    }

    /// The framing state between events.
    pub closed spec fn framer_state(&self) -> FramerState {
        self.framer.state()
    }

    /// The monotonic time of the first delivered message, once one was
    /// delivered.
    pub closed spec fn base(&self) -> Option<u64> {
        self.framer.base()
    }

    /// Whether the loop keeps running: true until cancellation is observed.
    pub closed spec fn is_running(&self) -> bool {
        self.running
    }

    pub open spec fn wf(&self) -> bool {
        crate::framer::state_wf(self.framer_state())
    }

    /// A fresh engine, running, with a fresh framer.
    pub fn new(ignore_flags: Ignore) -> (r: CaptureEngine)
        ensures
            r.wf(),
            r.is_running(),
            r.ignore() == ignore_flags,
            r.framer_state() == initial_state(),
            r.base() is None,
    {
        CaptureEngine { framer: Framer::new(ignore_flags), running: true }
    }

    /// Asks the loop to stop; the driver signals the cancellation channel.
    pub fn request_stop(&mut self)
        ensures
            !final(self).is_running(),
            final(self).wf() == old(self).wf(),
            final(self).ignore() == old(self).ignore(),
            final(self).framer_state() == old(self).framer_state(),
            final(self).base() == old(self).base(),
    {
        self.running = false;
    }

    /// Handles one event.
    ///
    /// Once the engine has stopped — cancellation observed — no event has
    /// any effect and nothing is ever delivered again. While it runs: a
    /// fault changes nothing and delivers nothing; cancellation stops the
    /// engine and delivers nothing; a data chunk is framed, and the
    /// completed messages come back in arrival order, each carrying its
    /// offset from the connection's first delivered message. A message fully
    /// received before cancellation is therefore still delivered.
    pub fn on_event(&mut self, event: CaptureEvent) -> (msgs: Vec<MidiMessage>)
        requires
            old(self).wf(),
            event matches CaptureEvent::Data(_, now) ==> (old(self).base() matches Some(b) ==> b
                <= now),
        ensures
            final(self).wf(),
            final(self).ignore() == old(self).ignore(),
            !old(self).is_running() ==> msgs@.len() == 0 && *final(self) == *old(self),
            old(self).is_running() && event is Cancel ==> msgs@.len() == 0 && !final(self).is_running() && final(self).framer_state() == old(self).framer_state()
                && final(self).base() == old(self).base(),
            old(self).is_running() && event is Fault ==> msgs@.len() == 0 && *final(self) == *old(self),
            old(self).is_running() ==> (event matches CaptureEvent::Data(bytes, now) ==> {
                let run = frame_run(old(self).ignore(), old(self).framer_state(), bytes@);
                &&& final(self).is_running()
                &&& final(self).framer_state() == run.state
                &&& msgs@.len() == run.msgs.len()
                &&& (forall|i: int| 0 <= i < msgs@.len() ==> msgs@[i].bytes@ == run.msgs[i])
                &&& (forall|i: int|
                    0 <= i < msgs@.len() ==> msgs@[i].timestamp == delta_timestamp(
                        old(self).base(),
                        now,
                    ))
                &&& final(self).base() == if old(self).base() is None && msgs@.len() > 0 {
                    Some(now)
                } else {
                    old(self).base()
                }
            }),
    {
        if !self.running {
            return Vec::new();
        }
        match event {
            CaptureEvent::Data(bytes, now) => self.framer.feed(bytes.as_slice(), now),
            CaptureEvent::Cancel => {
                self.running = false;
                Vec::new()
            },
            CaptureEvent::Fault => Vec::new(),
        }
    }
}

} // verus!
