//! Error values of the connection engine. Every failure in this layer is
//! returned as a value; no operation panics or aborts.

use vstd::prelude::*;

verus! {

/// An error that can occur during initialization (i.e., while creating a
/// `MidiInput` or `MidiOutput` object).
#[derive(Debug, Clone, Copy, PartialEq, Eq, Structural)]
pub struct InitError;

impl InitError {
    /// A short description of the error.
    pub fn description(&self) -> (r: &'static str)
        ensures
            r@ == "MIDI support could not be initialized"@,
    {
        "MIDI support could not be initialized"
    }
}

/// An error that can occur when retrieving information about available ports.
#[derive(Debug, Clone, Copy, PartialEq, Eq, Structural)]
pub enum PortInfoError {
    PortNumberOutOfRange,
    InvalidPort,
    CannotRetrievePortName,
}

impl PortInfoError {
    /// A short description of the error.
    pub fn description(&self) -> (r: &'static str)
        ensures
            *self is PortNumberOutOfRange ==> r@ == "provided port number was out of range"@,
            *self is InvalidPort ==> r@ == "invalid port"@,
            *self is CannotRetrievePortName ==> r@
                == "unknown error when trying to retrieve the port name"@,
    {
        match *self {
            PortInfoError::PortNumberOutOfRange => "provided port number was out of range",
            PortInfoError::InvalidPort => "invalid port",
            PortInfoError::CannotRetrievePortName => {
                "unknown error when trying to retrieve the port name"
            },
        }
    }
}

/// The kind of error for a `ConnectError`.
#[derive(Debug, Clone, Copy, PartialEq, Eq)]
pub enum ConnectErrorKind {
    InvalidPort,
    Other(&'static str),
}

impl ConnectErrorKind {
    /// A short description of the error.
    pub fn description(&self) -> (r: &'static str)
        ensures
            *self is InvalidPort ==> r@ == "invalid port"@,
            *self is Other ==> r == self->0,
    {
        match *self {
            ConnectErrorKind::InvalidPort => "invalid port",
            ConnectErrorKind::Other(msg) => msg,
        }
    }
}

/// An error that can occur when trying to connect to a port. It carries the
/// unconnected value back to the caller, so that a failed connection attempt
/// loses no resource.
#[derive(Debug)]
pub struct ConnectError<T> {
    kind: ConnectErrorKind,
    inner: T,
}

impl<T> ConnectError<T> {
    /// The kind of this error.
    pub closed spec fn spec_kind(&self) -> ConnectErrorKind {
        self.kind
    }

    /// The unconnected value carried by this error.
    pub closed spec fn spec_inner(&self) -> &T {
        &self.inner
    }

    pub fn new(kind: ConnectErrorKind, inner: T) -> (r: ConnectError<T>)
        ensures
            r.spec_kind() == kind,
            r.spec_inner() == inner,
    {
        ConnectError { kind, inner }
    }

    /// Helper method to create ConnectErrorKind::Other.
    pub fn other(msg: &'static str, inner: T) -> (r: ConnectError<T>)
        ensures
            r.spec_kind() == ConnectErrorKind::Other(msg),
            r.spec_inner() == inner,
    {
        Self::new(ConnectErrorKind::Other(msg), inner)
    }

    pub fn kind(&self) -> (r: ConnectErrorKind)
        ensures
            r == self.spec_kind(),
    {
        self.kind
    }

    pub fn into_inner(self) -> (r: T)
        ensures
            r == self.spec_inner(),
    {
        self.inner
    }

    /// A short description of the error.
    pub fn description(&self) -> (r: &'static str)
        ensures
            self.spec_kind() is Other ==> r == self.spec_kind()->0,
    {
        self.kind.description()
    }
}

/// An error that can occur when sending MIDI messages.
#[derive(Debug, Clone, Copy, PartialEq, Eq)]
pub enum SendError {
    InvalidData(&'static str),
    Other(&'static str),
}

impl SendError {
    /// A short description of the error.
    pub fn description(&self) -> (r: &'static str)
        ensures
            r == match *self {
                SendError::InvalidData(msg) => msg,
                SendError::Other(msg) => msg,
            },
    {
        match *self {
            SendError::InvalidData(msg) => msg,
            SendError::Other(msg) => msg,
        }
    }
}

} // verus!
