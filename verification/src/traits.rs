//! Traits that abstract over connection handles, for callers that treat
//! input and output connections uniformly. The spec methods expose each
//! handle's well-formedness, which its operations need and preserve.

use vstd::prelude::*;

use crate::connection::MidiInputConnection;
use crate::connection::MidiOutputConnection;
use crate::errors::ConnectError;
use crate::errors::SendError;
use crate::ports::MidiOutput;
use crate::ports::MidiOutputPort;

verus! {

/// An open input connection: closing it hands back the directory object and
/// the user data.
pub trait InputConnection<T> {
    /// The directory type handed back on close.
    type Input;

    /// Whether the handle is in a state fit for its operations.
    spec fn conn_wf(&self) -> bool;

    /// Closes the connection, returning the directory and the user data.
    fn close(self) -> (r: (Self::Input, T))
        requires
            self.conn_wf(),
    ;
}

impl<T> InputConnection<T> for MidiInputConnection<T> {
    type Input = crate::ports::MidiInput;

    open spec fn conn_wf(&self) -> bool {
        self.wf()
    }

    fn close(self) -> (r: (crate::ports::MidiInput, T)) {
        self.close()
    }
}

/// A directory that can open an output connection by port index, in
/// enumeration order.
pub trait OutputConnect where Self: Sized {
    /// The connection handle this directory opens.
    type Connection;

    /// Connects to the port at `port_number`; on failure the directory
    /// comes back inside the error.
    fn connect(self, port_number: u32, port_name: &str) -> Result<
        Self::Connection,
        ConnectError<Self>,
    >;
}

impl OutputConnect for MidiOutput {
    type Connection = MidiOutputConnection;

    fn connect(self, port_number: u32, port_name: &str) -> Result<
        MidiOutputConnection,
        ConnectError<MidiOutput>,
    > {
        let ports = self.ports();
        if (port_number as usize) < ports.len() {
            let port: &MidiOutputPort = &ports[port_number as usize];
            self.connect(port, port_name)
        } else {
            Result::Err(ConnectError::new(crate::errors::ConnectErrorKind::InvalidPort, self))
        }
    }
}

/// An open output connection: it sends messages and, closed, hands back the
/// directory object.
pub trait OutputConnection {
    /// The directory type handed back on close.
    type Output;

    /// Whether the handle is in a state fit for its operations.
    spec fn conn_wf(&self) -> bool;

    /// Closes the connection, returning the directory.
    fn close(self) -> Self::Output;

    /// Sends one MIDI message.
    fn send(&mut self, message: &[u8]) -> (r: Result<(), SendError>)
        requires
            old(self).conn_wf(),
    ;
}

impl OutputConnection for MidiOutputConnection {
    type Output = MidiOutput;

    open spec fn conn_wf(&self) -> bool {
        self.wf()
    }

    fn close(self) -> MidiOutput {
        self.close()
    }

    fn send(&mut self, message: &[u8]) -> Result<(), SendError> {
        self.send(message)
    }
}

} // verus!
