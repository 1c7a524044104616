//! Connection handles. `connect` (or `create_virtual`) consumes the port
//! directory and yields a handle that owns the capture engine, the delivery
//! sink and the user data; `close` converges every handle, however it is
//! torn down, to the same terminal state — engine stopped, thread marker
//! taken — and hands the directory and the user data back. Teardown is
//! idempotent: only its first request signals the cancellation channel and
//! joins the capture thread.

use vstd::prelude::*;

use crate::capture::CaptureEngine;
use crate::capture::CaptureEvent;
use crate::errors::ConnectError;
use crate::errors::ConnectErrorKind;
use crate::errors::SendError;
use crate::framer::delta_timestamp;
use crate::framer::frame_run;
use crate::framer::initial_state;
use crate::framer::FramerState;
use crate::output::ring_bytes;
use crate::output::validate_message;
use crate::output::valid_send_message;
use crate::output::OutputRing;
use crate::output::SIZE_PREFIX_BYTES;
use crate::ports::has_port;
use crate::ports::MidiInput;
use crate::ports::MidiInputPort;
use crate::ports::MidiOutput;
use crate::ports::MidiOutputPort;
use crate::ports::PortRecord;
use crate::queue::BoundedQueue;
use crate::Ignore;
use crate::MidiMessage;

verus! {

/// How many framed messages a polling-mode connection retains before
/// rejecting new ones.
pub const CONNECTION_QUEUE_CAPACITY: usize = 100;

/// Ring size in bytes of the outbound handoff of one output connection.
pub const OUTPUT_RING_CAPACITY_BYTES: usize = 16384;

/// How a connection delivers framed messages, fixed when it is opened:
/// handed to the driver for a synchronous user callback, or retained in a
/// bounded queue that the owner polls.
#[derive(Debug, Clone, Copy, PartialEq, Eq, Structural)]
pub enum DeliveryMode {
    Callback,
    Queue,
}

/// What one teardown request asks of the driver.
#[derive(Debug, Clone, Copy, PartialEq, Eq, Structural)]
pub enum CloseAction {
    /// First teardown of this handle: signal the cancellation channel, then
    /// join the capture thread — in that order, and only then release the
    /// transport subscription.
    SignalAndJoin,
    /// The handle was already torn down: signal nothing, join nothing.
    AlreadyClosed,
}

/// The lifecycle of a connection handle: whether teardown has been
/// requested (the thread marker is taken) and whether the capture engine
/// still runs.
pub struct LifecycleState {
    pub closed: bool,
    pub running: bool,
}

/// What one close request does to the lifecycle: whatever the state was,
/// the handle ends closed with its engine stopped.
pub open spec fn spec_close(s: LifecycleState) -> LifecycleState {
    LifecycleState { closed: true, running: false }
}

/// Whether a close request on state `s` signals and joins the capture
/// thread: only when the handle is not yet closed.
pub open spec fn close_joins(s: LifecycleState) -> bool {
    !s.closed
}

/// Close idempotence: a second close finds the handle already closed,
/// changes nothing, and — because a close joins only a not-yet-closed handle
/// — never signals or joins the capture thread a second time.
pub proof fn lemma_close_idempotent(s: LifecycleState)
    ensures
        spec_close(spec_close(s)) == spec_close(s),
        !close_joins(spec_close(s)),
{
}

/// Represents an open connection to a MIDI input port: the capture engine,
/// the delivery sink, the thread marker, and everything needed to rebuild
/// the directory on close.
#[derive(Debug)]
pub struct MidiInputConnection<T> {
    engine: CaptureEngine,
    queue: BoundedQueue,
    mode: DeliveryMode,
    closed: bool,
    client_name: String,
    ignore_flags: Ignore,
    ports: Vec<PortRecord>,
    data: Option<T>,
}

impl<T> MidiInputConnection<T> {
    /// The delivery mode fixed at connect time.
    pub closed spec fn spec_mode(&self) -> DeliveryMode {
        self.mode
    }

    /// Whether teardown has been requested.
    pub closed spec fn is_closed(&self) -> bool {
        self.closed
    }

    /// The lifecycle state of this handle.
    pub open spec fn lifecycle(&self) -> LifecycleState {
        LifecycleState { closed: self.is_closed(), running: self.engine_running() }
    }

    /// Whether the capture engine still runs.
    pub closed spec fn engine_running(&self) -> bool {
        self.engine.is_running()
    }

    /// The framing state between events.
    pub closed spec fn framer_state(&self) -> FramerState {
        self.engine.framer_state()
    }

    /// The monotonic time of the first delivered message, once one was
    /// delivered.
    pub closed spec fn base(&self) -> Option<u64> {
        self.engine.base()
    }

    /// The filter this connection applies.
    pub closed spec fn spec_ignore(&self) -> Ignore {
        self.ignore_flags
    }

    /// The messages retained by the polling queue, oldest first.
    pub closed spec fn queued(&self) -> Seq<MidiMessage> {
        self.queue.contents()
    }

    /// The user data moved into the connection, handed back on close.
    pub closed spec fn spec_data(&self) -> &Option<T> {
        &self.data
    }

    /// The client name the directory was created under.
    pub closed spec fn spec_client_name(&self) -> Seq<char> {
        self.client_name@
    }

    /// The identifiers of the directory's ports.
    pub closed spec fn port_ids(&self) -> Seq<Seq<char>> {
        crate::ports::ids_of(self.ports@)
    }

    /// The names of the directory's ports.
    pub closed spec fn port_names(&self) -> Seq<Seq<char>> {
        crate::ports::names_of(self.ports@)
    }

    pub closed spec fn wf(&self) -> bool {
        &&& self.engine.wf()
        &&& self.engine.ignore() == self.spec_ignore()
        &&& self.queue.wf()
        &&& self.queue.spec_capacity() == CONNECTION_QUEUE_CAPACITY
        &&& self.spec_data() is Some
        &&& (self.is_closed() ==> !self.engine_running())
    }

    /// Handles one capture-loop occurrence, exactly as `CaptureEngine`
    /// decides it, and routes whatever was delivered: in callback mode the
    /// completed messages come back for the driver to hand to the user
    /// callback, one call per message, in order; in queue mode they are
    /// retained in the bounded queue — a message over capacity is rejected,
    /// the oldest retained ones stay — and nothing comes back.
    pub fn handle_event(&mut self, event: CaptureEvent) -> (delivered: Vec<MidiMessage>)
        requires
            old(self).wf(),
            event matches CaptureEvent::Data(_, now) ==> (old(self).base() matches Some(b) ==> b
                <= now),
        ensures
            final(self).wf(),
            final(self).spec_mode() == old(self).spec_mode(),
            final(self).is_closed() == old(self).is_closed(),
            final(self).spec_ignore() == old(self).spec_ignore(),
            final(self).spec_client_name() == old(self).spec_client_name(),
            final(self).port_ids() == old(self).port_ids(),
            final(self).port_names() == old(self).port_names(),
            final(self).spec_data() == old(self).spec_data(),
            // the engine's decisions
            !old(self).engine_running() ==> !final(self).engine_running() && delivered@.len() == 0
                && final(self).framer_state() == old(self).framer_state() && final(self).queued()
                == old(self).queued(),
            old(self).engine_running() && event is Cancel ==> !final(self).engine_running()
                && delivered@.len() == 0 && final(self).framer_state() == old(self).framer_state()
                && final(self).queued() == old(self).queued(),
            old(self).engine_running() && event is Fault ==> final(self).engine_running()
                && delivered@.len() == 0 && final(self).framer_state() == old(self).framer_state()
                && final(self).queued() == old(self).queued(),
            old(self).engine_running() ==> (event matches CaptureEvent::Data(bytes, now) ==> {
                let run = frame_run(old(self).spec_ignore(), old(self).framer_state(), bytes@);
                let ts = delta_timestamp(old(self).base(), now);
                &&& final(self).engine_running()
                &&& final(self).framer_state() == run.state
                &&& final(self).base() == if old(self).base() is None && run.msgs.len() > 0 {
                    Some(now)
                } else {
                    old(self).base()
                }
                &&& (old(self).spec_mode() is Callback ==> {
                    &&& final(self).queued() == old(self).queued()
                    &&& delivered@.len() == run.msgs.len()
                    &&& (forall|i: int|
                        0 <= i < delivered@.len() ==> delivered@[i].bytes@ == run.msgs[i]
                            && delivered@[i].timestamp == ts)
                })
                &&& (old(self).spec_mode() is Queue ==> {
                    let room = CONNECTION_QUEUE_CAPACITY - old(self).queued().len();
                    let kept = if run.msgs.len() <= room {
                        run.msgs.len() as int
                    } else {
                        room
                    };
                    &&& delivered@.len() == 0
                    &&& final(self).queued().len() == old(self).queued().len() + kept
                    &&& (forall|i: int|
                        0 <= i < old(self).queued().len() ==> final(self).queued()[i] == old(
                            self,
                        ).queued()[i])
                    &&& (forall|i: int|
                        0 <= i < kept ==> final(self).queued()[old(self).queued().len() + i].bytes@
                            == run.msgs[i] && final(self).queued()[old(self).queued().len()
                            + i].timestamp == ts)
                })
            }),
    {
        let msgs = self.engine.on_event(event);
        match self.mode {
            DeliveryMode::Callback => msgs,
            DeliveryMode::Queue => {
                let ghost run_msgs = msgs@;
                let ghost pre = self.queue.contents();
                let ghost engine0 = self.engine;
                let ghost mode0 = self.mode;
                let ghost closed0 = self.closed;
                let ghost name0 = self.client_name@;
                let ghost ignore0 = self.ignore_flags;
                let ghost ports0 = self.ports@;
                let ghost data0 = self.data;
                let mut msgs = msgs;
                let n = msgs.len();
                let mut k: usize = 0;
                while k < n
                    invariant
                        k <= n,
                        n == msgs@.len(),
                        self.queue.wf(),
                        self.queue.spec_capacity() == CONNECTION_QUEUE_CAPACITY,
                        self.engine == engine0,
                        self.mode == mode0,
                        self.closed == closed0,
                        self.client_name@ == name0,
                        self.ignore_flags == ignore0,
                        self.ports@ == ports0,
                        self.data == data0,
                        n == run_msgs.len(),
                        forall|j: int| k <= j < n ==> msgs@[j] == run_msgs[j],
                        pre.len() <= CONNECTION_QUEUE_CAPACITY,
                        self.queue.contents().len() == pre.len() + (if k
                            <= CONNECTION_QUEUE_CAPACITY - pre.len() {
                            k as int
                        } else {
                            CONNECTION_QUEUE_CAPACITY - pre.len()
                        }),
                        forall|i: int|
                            0 <= i < pre.len() ==> self.queue.contents()[i] == pre[i],
                        forall|i: int|
                            pre.len() <= i < self.queue.contents().len()
                                ==> self.queue.contents()[i] == run_msgs[i - pre.len()],
                    decreases n - k,
                {
                    let mut taken = MidiMessage::new();
                    core::mem::swap(&mut taken, &mut msgs[k]);
                    proof {
                        assert(taken == run_msgs[k as int]);
                    }
                    let _accepted = self.queue.push(taken);
                    k = k + 1;
                }
                Vec::new()
            },
        }
    }

    /// Removes and returns the oldest retained message of a polling-mode
    /// connection, or the sentinel — empty bytes, timestamp 0 — when none is
    /// retained.
    pub fn get_message(&mut self) -> (r: MidiMessage)
        requires
            old(self).wf(),
        ensures
            final(self).wf(),
            final(self).spec_mode() == old(self).spec_mode(),
            final(self).is_closed() == old(self).is_closed(),
            final(self).engine_running() == old(self).engine_running(),
            final(self).framer_state() == old(self).framer_state(),
            final(self).base() == old(self).base(),
            final(self).spec_ignore() == old(self).spec_ignore(),
            final(self).spec_client_name() == old(self).spec_client_name(),
            final(self).port_ids() == old(self).port_ids(),
            final(self).port_names() == old(self).port_names(),
            final(self).spec_data() == old(self).spec_data(),
            old(self).queued().len() == 0 ==> r.bytes@ == Seq::<u8>::empty() && r.timestamp == 0
                && final(self).queued() == old(self).queued(),
            old(self).queued().len() > 0 ==> r == old(self).queued()[0] && final(self).queued()
                == old(self).queued().drop_first(),
    {
        self.queue.get_message()
    }

    /// Exclusive access to the user data, for the driver to hand to the
    /// user callback alongside each delivered message.
    pub fn user_data(&mut self) -> (r: &mut T)
        requires
            old(self).wf(),
        ensures
            *r == old(self).spec_data()->0,
            *final(self).spec_data() == Some(*final(r)),
            final(self).wf(),
            final(self).spec_mode() == old(self).spec_mode(),
            final(self).is_closed() == old(self).is_closed(),
            final(self).engine_running() == old(self).engine_running(),
            final(self).framer_state() == old(self).framer_state(),
            final(self).base() == old(self).base(),
            final(self).spec_ignore() == old(self).spec_ignore(),
            final(self).spec_client_name() == old(self).spec_client_name(),
            final(self).port_ids() == old(self).port_ids(),
            final(self).port_names() == old(self).port_names(),
            final(self).queued() == old(self).queued(),
    {
        self.data.as_mut().unwrap()
    }

    /// Requests teardown. The first request stops the engine and takes the
    /// thread marker, and tells the driver to signal the cancellation
    /// channel and then join the capture thread — the join must come before
    /// the transport subscription is released, so the thread is never
    /// mid-callback when resources go away. Any later request finds the
    /// marker taken and asks for nothing.
    pub fn shutdown(&mut self) -> (action: CloseAction)
        requires
            old(self).wf(),
        ensures
            final(self).wf(),
            final(self).lifecycle() == spec_close(old(self).lifecycle()),
            action is SignalAndJoin <==> close_joins(old(self).lifecycle()),
            final(self).spec_mode() == old(self).spec_mode(),
            final(self).framer_state() == old(self).framer_state(),
            final(self).base() == old(self).base(),
            final(self).spec_ignore() == old(self).spec_ignore(),
            final(self).spec_client_name() == old(self).spec_client_name(),
            final(self).port_ids() == old(self).port_ids(),
            final(self).port_names() == old(self).port_names(),
            final(self).queued() == old(self).queued(),
            final(self).spec_data() == old(self).spec_data(),
    {
        if self.closed {
            CloseAction::AlreadyClosed
        } else {
            self.engine.request_stop();
            self.closed = true;
            CloseAction::SignalAndJoin
        }
    }

    /// Closes the connection: tears it down (idempotently, via the same
    /// marker as `shutdown`) and hands back the reusable directory object
    /// and the user data that was moved in at connect time.
    pub fn close(self) -> (r: (MidiInput, T))
        requires
            self.wf(),
        ensures
            r.0.spec_client_name() == self.spec_client_name(),
            r.0.spec_ignore() == self.spec_ignore(),
            r.0.port_ids() == self.port_ids(),
            r.0.port_names() == self.port_names(),
            r.1 == self.spec_data()->0,
    {
        let mut conn = self;
        let _action = conn.shutdown();
        let MidiInputConnection { client_name, ignore_flags, ports, data, .. } = conn;
        let input = MidiInput { client_name, ignore_flags, ports };
        proof {
            assert(input.port_ids() =~= self.port_ids());
            assert(input.port_names() =~= self.port_names());
        }
        (input, data.unwrap())
    }
}

impl MidiInput {
    /// Connect to a specified MIDI input port in order to receive messages:
    /// the directory object moves into the returned handle, whose capture
    /// engine starts fresh under the directory's ignore filter, delivering
    /// as `mode` says. The driver gives the created endpoint the additional
    /// name `_port_name`, where its platform uses one.
    ///
    /// When the port is not registered in this directory — the device has
    /// vanished, or the port belongs to another directory — the connection
    /// fails with `InvalidPort` and the unconnected directory comes back
    /// unchanged inside the error.
    pub fn connect<T>(
        self,
        port: &MidiInputPort,
        _port_name: &str,
        mode: DeliveryMode,
        data: T,
    ) -> (r: Result<MidiInputConnection<T>, ConnectError<MidiInput>>)
        ensures
            has_port(self.port_ids(), port.spec_id()) ==> (r matches Ok(c) && connects_fresh(
                &self,
                &c,
                mode,
            ) && c.spec_data() == Some(data)),
            !has_port(self.port_ids(), port.spec_id()) ==> (r matches Err(e) && e.spec_kind()
                == ConnectErrorKind::InvalidPort && *e.spec_inner() == self),
    {
        let n = self.ports.len();
        let mut i: usize = 0;
        while i < n
            invariant
                i <= n,
                n == self.ports@.len(),
                forall|j: int| 0 <= j < i ==> self.port_ids()[j] != port.spec_id(),
            decreases n - i,
        {
            if self.ports[i].id == port.id {
                proof {
                    assert(self.port_ids()[i as int] == port.spec_id());
                }
                return Result::Ok(self.into_connection(mode, data));
            }
            i = i + 1;
        }
        proof {
            assert(forall|j: int|
                0 <= j < self.port_ids().len() ==> self.port_ids()[j] != port.spec_id());
        }
        Result::Err(ConnectError::new(ConnectErrorKind::InvalidPort, self))
    }

    /// Creates a virtual input endpoint owned by this process and connects
    /// to it; the driver registers the endpoint under `_port_name` with its
    /// platform, where virtual ports exist. The directory moves into the
    /// handle exactly as with `connect`.
    pub fn create_virtual<T>(self, _port_name: &str, mode: DeliveryMode, data: T) -> (r: Result<
        MidiInputConnection<T>,
        ConnectError<MidiInput>,
    >)
        ensures
            r matches Ok(c) && connects_fresh(&self, &c, mode) && c.spec_data() == Some(data),
    {
        Result::Ok(self.into_connection(mode, data))
    }

    /// Builds the connection handle: fresh engine under the directory's
    /// filter, empty queue, thread marker not yet taken.
    fn into_connection<T>(self, mode: DeliveryMode, data: T) -> (c: MidiInputConnection<T>)
        ensures
            connects_fresh(&self, &c, mode),
            c.spec_data() == Some(data),
    {
        let c = MidiInputConnection {
            engine: CaptureEngine::new(self.ignore_flags),
            queue: BoundedQueue::new(CONNECTION_QUEUE_CAPACITY),
            mode,
            closed: false,
            client_name: self.client_name,
            ignore_flags: self.ignore_flags,
            ports: self.ports,
            data: Option::Some(data),
        };
        proof {
            assert(c.port_ids() =~= self.port_ids());
            assert(c.port_names() =~= self.port_names());
        }
        c
    }
}

/// The relation between a directory and a connection freshly opened from
/// it: the handle runs, nothing is framed or queued yet, no time base is
/// set, and the directory's contents moved in unchanged.
pub open spec fn connects_fresh<T>(
    m: &MidiInput,
    c: &MidiInputConnection<T>,
    mode: DeliveryMode,
) -> bool {
    &&& c.wf()
    &&& !c.is_closed()
    &&& c.engine_running()
    &&& c.spec_mode() == mode
    &&& c.framer_state() == initial_state()
    &&& c.base() is None
    &&& c.queued().len() == 0
    &&& c.spec_ignore() == m.spec_ignore()
    &&& c.spec_client_name() == m.spec_client_name()
    &&& c.port_ids() == m.port_ids()
    &&& c.port_names() == m.port_names()
}

/// Represents an open connection to a MIDI output port: the outbound
/// handoff ring and everything needed to rebuild the directory on close.
#[derive(Debug)]
pub struct MidiOutputConnection {
    ring: OutputRing,
    client_name: String,
    ports: Vec<PortRecord>,
}

impl MidiOutputConnection {
    /// The messages deposited for the drain side, oldest first.
    pub closed spec fn outbound(&self) -> Seq<Seq<u8>> {
        self.ring.contents()
    }

    /// The client name the directory was created under.
    pub closed spec fn spec_client_name(&self) -> Seq<char> {
        self.client_name@
    }

    /// The identifiers of the directory's ports.
    pub closed spec fn port_ids(&self) -> Seq<Seq<char>> {
        crate::ports::ids_of(self.ports@)
    }

    /// The names of the directory's ports.
    pub closed spec fn port_names(&self) -> Seq<Seq<char>> {
        crate::ports::names_of(self.ports@)
    }

    pub closed spec fn wf(&self) -> bool {
        &&& self.ring.wf()
        &&& self.ring.spec_capacity() == OUTPUT_RING_CAPACITY_BYTES
    }

    /// Send a message to the port that this output connection is connected
    /// to. The message must be a valid MIDI message: nonempty, and at most 3
    /// bytes unless it is a SysEx transfer.
    ///
    /// A valid message is deposited whole into the outbound ring for the
    /// drain side to transmit; when the ring has no room for it, the send is
    /// rejected with `Other` and the ring keeps exactly what it held.
    pub fn send(&mut self, message: &[u8]) -> (r: Result<(), SendError>)
        requires
            old(self).wf(),
        ensures
            final(self).wf(),
            final(self).spec_client_name() == old(self).spec_client_name(),
            final(self).port_ids() == old(self).port_ids(),
            final(self).port_names() == old(self).port_names(),
            !valid_send_message(message@) ==> (r matches Err(e) && e is InvalidData && final(self).outbound() == old(self).outbound()),
            valid_send_message(message@) && ring_bytes(old(self).outbound()) + SIZE_PREFIX_BYTES
                + message@.len() <= OUTPUT_RING_CAPACITY_BYTES ==> r is Ok && final(self).outbound()
                == old(self).outbound().push(message@),
            valid_send_message(message@) && ring_bytes(old(self).outbound()) + SIZE_PREFIX_BYTES
                + message@.len() > OUTPUT_RING_CAPACITY_BYTES ==> (r matches Err(e) && e
                is Other && final(self).outbound() == old(self).outbound()),
    {
        if let Result::Err(e) = validate_message(message) {
            return Result::Err(e);
        }
        let mut buffer: Vec<u8> = Vec::new();
        let len = message.len();
        let mut j: usize = 0;
        while j < len
            invariant
                j <= len,
                len == message@.len(),
                buffer@ == message@.take(j as int),
            decreases len - j,
        {
            let b = message[j];
            buffer.push(b);
            proof {
                assert(message@.take(j as int).push(b) =~= message@.take(j + 1));
            }
            j = j + 1;
        }
        proof {
            assert(message@.take(len as int) =~= message@);
        }
        if self.ring.write(buffer) {
            Result::Ok(())
        } else {
            Result::Err(SendError::Other("output ring buffer is full"))
        }
    }

    /// The drain side: takes out the oldest deposited message for
    /// transmission, or nothing when the ring is empty. The transport's
    /// realtime callback calls this; it never waits.
    pub fn drain_next(&mut self) -> (r: Option<Vec<u8>>)
        requires
            old(self).wf(),
        ensures
            final(self).wf(),
            final(self).spec_client_name() == old(self).spec_client_name(),
            final(self).port_ids() == old(self).port_ids(),
            final(self).port_names() == old(self).port_names(),
            old(self).outbound().len() == 0 ==> r is None && final(self).outbound() == old(self).outbound(),
            old(self).outbound().len() > 0 ==> (r matches Some(m) && m@ == old(self).outbound()[0]
                && final(self).outbound() == old(self).outbound().drop_first()),
    {
        self.ring.read_next()
    }

    /// Closes the connection and hands back the reusable directory object.
    pub fn close(self) -> (r: MidiOutput)
        ensures
            r.spec_client_name() == self.spec_client_name(),
            r.port_ids() == self.port_ids(),
            r.port_names() == self.port_names(),
    {
        let MidiOutputConnection { client_name, ports, .. } = self;
        let output = MidiOutput { client_name, ports };
        proof {
            assert(output.port_ids() =~= self.port_ids());
            assert(output.port_names() =~= self.port_names());
        }
        output
    }
}

impl MidiOutput {
    /// Connect to a specified MIDI output port in order to send messages:
    /// the directory object moves into the returned handle with an empty
    /// outbound ring. The driver gives the created endpoint the additional
    /// name `_port_name`, where its platform uses one.
    ///
    /// When the port is not registered in this directory, the connection
    /// fails with `InvalidPort` and the unconnected directory comes back
    /// unchanged inside the error.
    pub fn connect(self, port: &MidiOutputPort, _port_name: &str) -> (r: Result<
        MidiOutputConnection,
        ConnectError<MidiOutput>,
    >)
        ensures
            has_port(self.port_ids(), port.spec_id()) ==> (r matches Ok(c) && output_connects(
                &self,
                &c,
            )),
            !has_port(self.port_ids(), port.spec_id()) ==> (r matches Err(e) && e.spec_kind()
                == ConnectErrorKind::InvalidPort && *e.spec_inner() == self),
    {
        let n = self.ports.len();
        let mut i: usize = 0;
        while i < n
            invariant
                i <= n,
                n == self.ports@.len(),
                forall|j: int| 0 <= j < i ==> self.port_ids()[j] != port.spec_id(),
            decreases n - i,
        {
            if self.ports[i].id == port.id {
                proof {
                    assert(self.port_ids()[i as int] == port.spec_id());
                }
                return Result::Ok(self.into_connection());
            }
            i = i + 1;
        }
        proof {
            assert(forall|j: int|
                0 <= j < self.port_ids().len() ==> self.port_ids()[j] != port.spec_id());
        }
        Result::Err(ConnectError::new(ConnectErrorKind::InvalidPort, self))
    }

    /// Creates a virtual output endpoint owned by this process and connects
    /// to it; the driver registers the endpoint under `_port_name` with its
    /// platform, where virtual ports exist.
    pub fn create_virtual(self, _port_name: &str) -> (r: Result<
        MidiOutputConnection,
        ConnectError<MidiOutput>,
    >)
        ensures
            r matches Ok(c) && output_connects(&self, &c),
    {
        Result::Ok(self.into_connection())
    }

    /// Builds the connection handle: empty outbound ring, directory moved in.
    fn into_connection(self) -> (c: MidiOutputConnection)
        ensures
            output_connects(&self, &c),
    {
        let c = MidiOutputConnection {
            ring: OutputRing::new(OUTPUT_RING_CAPACITY_BYTES),
            client_name: self.client_name,
            ports: self.ports,
        };
        proof {
            assert(c.port_ids() =~= self.port_ids());
            assert(c.port_names() =~= self.port_names());
        }
        c
    }
}

/// The relation between a directory and an output connection freshly opened
/// from it: nothing outbound yet, and the directory's contents moved in
/// unchanged.
pub open spec fn output_connects(m: &MidiOutput, c: &MidiOutputConnection) -> bool {
    &&& c.wf()
    &&& c.outbound().len() == 0
    &&& c.spec_client_name() == m.spec_client_name()
    &&& c.port_ids() == m.port_ids()
    &&& c.port_names() == m.port_names()
}

} // verus!
