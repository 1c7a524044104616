//! A portable MIDI connection engine: port directories, message framing with
//! SysEx reassembly, filtered delivery through callbacks or a bounded queue,
//! cooperative capture-loop cancellation, and an output path that validates,
//! chunks and retries outbound messages.
//!
//! The platform transport (device enumeration, raw event delivery, raw send
//! primitives) is an external collaborator: a driver hands this library plain
//! values (port records, byte chunks, monotonic clock readings, transmit
//! replies) and performs the actions the library decides on.

use vstd::prelude::*;

pub mod capture;
mod connection;
mod errors;
pub mod framer;
pub mod output;
mod ports;
pub mod queue;
mod traits;

pub use capture::CaptureEngine;
pub use capture::CaptureEvent;
pub use connection::close_joins;
pub use connection::connects_fresh;
pub use connection::lemma_close_idempotent;
pub use connection::output_connects;
pub use connection::spec_close;
pub use connection::CloseAction;
pub use connection::DeliveryMode;
pub use connection::LifecycleState;
pub use connection::MidiInputConnection;
pub use connection::MidiOutputConnection;
pub use connection::CONNECTION_QUEUE_CAPACITY;
pub use connection::OUTPUT_RING_CAPACITY_BYTES;
pub use errors::ConnectError;
pub use errors::ConnectErrorKind;
pub use errors::InitError;
pub use errors::PortInfoError;
pub use errors::SendError;
pub use ports::MidiIO;
pub use ports::MidiInput;
pub use ports::MidiInputPort;
pub use ports::MidiInputPorts;
pub use ports::MidiOutput;
pub use ports::MidiOutputPort;
pub use ports::MidiOutputPorts;
pub use traits::InputConnection;
pub use traits::OutputConnect;
pub use traits::OutputConnection;

verus! {

/// Filter over message categories that the framer suppresses before delivery.
///
/// Each variant is one subset of {SysEx, Time, ActiveSense}; `contains` tests
/// whether the receiver's subset intersects another subset.
#[derive(Debug, Clone, Copy, PartialEq, Eq, Structural)]
pub enum Ignore {
    Nothing,
    Sysex,
    Time,
    SysexAndTime,
    ActiveSense,
    SysexAndActiveSense,
    TimeAndActiveSense,
    All,
}

impl Ignore {
    /// The bitmask of this filter: bit 0 = SysEx, bit 1 = Time, bit 2 = ActiveSense.
    pub open spec fn spec_bits(self) -> u8 {
        match self {
            Ignore::Nothing => 0x00,
            Ignore::Sysex => 0x01,
            Ignore::Time => 0x02,
            Ignore::SysexAndTime => 0x03,
            Ignore::ActiveSense => 0x04,
            Ignore::SysexAndActiveSense => 0x05,
            Ignore::TimeAndActiveSense => 0x06,
            Ignore::All => 0x07,
        }
    }

    /// Whether SysEx messages are suppressed.
    pub open spec fn ignores_sysex(self) -> bool {
        self == Ignore::Sysex || self == Ignore::SysexAndTime
            || self == Ignore::SysexAndActiveSense || self == Ignore::All
    }

    /// Whether timing messages (MIDI time code, timing clock) are suppressed.
    pub open spec fn ignores_time(self) -> bool {
        self == Ignore::Time || self == Ignore::SysexAndTime
            || self == Ignore::TimeAndActiveSense || self == Ignore::All
    }

    /// Whether active-sensing messages are suppressed.
    pub open spec fn ignores_active_sense(self) -> bool {
        self == Ignore::ActiveSense || self == Ignore::SysexAndActiveSense
            || self == Ignore::TimeAndActiveSense || self == Ignore::All
    }

    /// The bitmask of this filter as a machine value.
    pub fn bits(self) -> (r: u8)
        ensures
            r == self.spec_bits(),
    {
        match self {
            Ignore::Nothing => 0x00,
            Ignore::Sysex => 0x01,
            Ignore::Time => 0x02,
            Ignore::SysexAndTime => 0x03,
            Ignore::ActiveSense => 0x04,
            Ignore::SysexAndActiveSense => 0x05,
            Ignore::TimeAndActiveSense => 0x06,
            Ignore::All => 0x07,
        }
    }

    /// Tests whether the categories of `other` overlap the categories of `self`.
    pub fn contains(self, other: Ignore) -> (r: bool)
        ensures
            r == ((self.spec_bits() & other.spec_bits()) != 0),
    {
        self.bits() & other.bits() != 0
    }

    /// The filter that suppresses every category suppressed by `self` or by `rhs`.
    pub fn union(self, rhs: Ignore) -> (r: Ignore)
        ensures
            r.spec_bits() == (self.spec_bits() | rhs.spec_bits()),
    {
        let bs = self.bits();
        let br = rhs.bits();
        let b = bs | br;
        assert(b < 8) by (bit_vector)
            requires
                bs < 8,
                br < 8,
                b == bs | br,
        ;
        Ignore::from_bits(b)
    }

    /// The filter whose bitmask is `b`: bit 0 = SysEx, bit 1 = Time, bit 2 = ActiveSense.
    pub fn from_bits(b: u8) -> (r: Ignore)
        requires
            b < 8,
        ensures
            r.spec_bits() == b,
    {
        if b == 0x00 {
            Ignore::Nothing
        } else if b == 0x01 {
            Ignore::Sysex
        } else if b == 0x02 {
            Ignore::Time
        } else if b == 0x03 {
            Ignore::SysexAndTime
        } else if b == 0x04 {
            Ignore::ActiveSense
        } else if b == 0x05 {
            Ignore::SysexAndActiveSense
        } else if b == 0x06 {
            Ignore::TimeAndActiveSense
        } else {
            Ignore::All
        }
    }
}

/// `contains` agrees with the category views the framer filters by: a
/// filter's bitmask meets `Sysex`, `Time` or `ActiveSense` exactly when the
/// filter suppresses that category.
pub proof fn lemma_contains_categories(ig: Ignore)
    ensures
        ((ig.spec_bits() & Ignore::Sysex.spec_bits()) != 0) == ig.ignores_sysex(),
        ((ig.spec_bits() & Ignore::Time.spec_bits()) != 0) == ig.ignores_time(),
        ((ig.spec_bits() & Ignore::ActiveSense.spec_bits()) != 0) == ig.ignores_active_sense(),
{
    match ig {
        Ignore::Nothing => {
            assert((0u8 & 1) == 0 && (0u8 & 2) == 0 && (0u8 & 4) == 0) by (bit_vector);
        },
        Ignore::Sysex => {
            assert((1u8 & 1) != 0 && (1u8 & 2) == 0 && (1u8 & 4) == 0) by (bit_vector);
        },
        Ignore::Time => {
            assert((2u8 & 1) == 0 && (2u8 & 2) != 0 && (2u8 & 4) == 0) by (bit_vector);
        },
        Ignore::SysexAndTime => {
            assert((3u8 & 1) != 0 && (3u8 & 2) != 0 && (3u8 & 4) == 0) by (bit_vector);
        },
        Ignore::ActiveSense => {
            assert((4u8 & 1) == 0 && (4u8 & 2) == 0 && (4u8 & 4) != 0) by (bit_vector);
        },
        Ignore::SysexAndActiveSense => {
            assert((5u8 & 1) != 0 && (5u8 & 2) == 0 && (5u8 & 4) != 0) by (bit_vector);
        },
        Ignore::TimeAndActiveSense => {
            assert((6u8 & 1) == 0 && (6u8 & 2) != 0 && (6u8 & 4) != 0) by (bit_vector);
        },
        Ignore::All => {
            assert((7u8 & 1) != 0 && (7u8 & 2) != 0 && (7u8 & 4) != 0) by (bit_vector);
        },
    }
}

/// A complete MIDI wire message together with its timestamp: microseconds
/// since the first delivered message of the connection (the first message's
/// timestamp is 0).
#[derive(Debug)]
pub struct MidiMessage {
    pub bytes: Vec<u8>,
    pub timestamp: u64,
}

impl Clone for MidiMessage {
    /// A clone carries the same bytes and the same timestamp.
    fn clone(&self) -> (r: Self)
        ensures
            r.bytes@ == self.bytes@,
            r.timestamp == self.timestamp,
    {
        let mut bytes: Vec<u8> = Vec::new();
        let n = self.bytes.len();
        let mut i: usize = 0;
        while i < n
            invariant
                i <= n,
                n == self.bytes@.len(),
                bytes@ == self.bytes@.take(i as int),
            decreases n - i,
        {
            let b = self.bytes[i];
            bytes.push(b);
            proof {
                assert(self.bytes@.take(i as int).push(b) =~= self.bytes@.take(i + 1));
            }
            i = i + 1;
        }
        proof {
            assert(self.bytes@.take(n as int) =~= self.bytes@);
        }
        MidiMessage { bytes, timestamp: self.timestamp }
    }
}

impl MidiMessage {
    /// An empty message with timestamp 0; also the sentinel that an empty
    /// queue hands out.
    pub fn new() -> (r: MidiMessage)
        ensures
            r.bytes@ == Seq::<u8>::empty(),
            r.timestamp == 0,
    {
        MidiMessage { bytes: Vec::new(), timestamp: 0 }
    }
}

} // verus!
