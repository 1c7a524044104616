//! The port directory: the unconnected side of the engine. A platform
//! driver enumerates its endpoints and registers each one here as a plain
//! record — a stable opaque identifier and a human-readable name — and the
//! directory answers queries about them without further transport work.
//! Opening a connection consumes the directory object; closing the
//! connection hands it back.

use vstd::prelude::*;

use crate::Ignore;
use crate::InitError;
use crate::PortInfoError;

verus! {

/// One enumerated endpoint, as the platform driver reported it.
#[derive(Debug)]
pub(crate) struct PortRecord {
    pub(crate) id: String,
    pub(crate) name: String,
}

/// Whether some registered port carries the identifier `id`.
pub open spec fn has_port(ids: Seq<Seq<char>>, id: Seq<char>) -> bool {
    exists|i: int| 0 <= i < ids.len() && ids[i] == id
}

/// The identifiers of a directory's records, in order.
pub(crate) open spec fn ids_of(ports: Seq<PortRecord>) -> Seq<Seq<char>> {
    ports.map_values(|p: PortRecord| p.id@)
}

/// The names of a directory's records, in order.
pub(crate) open spec fn names_of(ports: Seq<PortRecord>) -> Seq<Seq<char>> {
    ports.map_values(|p: PortRecord| p.name@)
}

/// An object representing a single input port. The identifier is stable
/// across enumeration calls within a session and opaque to the caller.
///
/// Use the `ports` method of a `MidiInput` instance to obtain available
/// ports.
#[derive(Debug, PartialEq, Eq, Hash)]
pub struct MidiInputPort {
    pub(crate) id: String,
}

impl MidiInputPort {
    /// The port's identifier.
    pub open(crate) spec fn spec_id(&self) -> Seq<char> {
        self.id@
    }

    /// Get a unique stable identifier for this port.
    /// This identifier must be treated as an opaque string.
    pub fn id(&self) -> (r: String)
        ensures
            r@ == self.spec_id(),
    {
        self.id.clone()
    }
}

impl Clone for MidiInputPort {
    /// A clone carries the same identifier.
    fn clone(&self) -> (r: Self)
        ensures
            r.spec_id() == self.spec_id(),
    {
        MidiInputPort { id: self.id.clone() }
    }
}

/// An object representing a single output port, with the same identity
/// guarantees as `MidiInputPort`.
///
/// Use the `ports` method of a `MidiOutput` instance to obtain available
/// ports.
#[derive(Debug, PartialEq, Eq, Hash)]
pub struct MidiOutputPort {
    pub(crate) id: String,
}

impl MidiOutputPort {
    /// The port's identifier.
    pub open(crate) spec fn spec_id(&self) -> Seq<char> {
        self.id@
    }

    /// Get a unique stable identifier for this port.
    /// This identifier must be treated as an opaque string.
    pub fn id(&self) -> (r: String)
        ensures
            r@ == self.spec_id(),
    {
        self.id.clone()
    }
}

impl Clone for MidiOutputPort {
    /// A clone carries the same identifier.
    fn clone(&self) -> (r: Self)
        ensures
            r.spec_id() == self.spec_id(),
    {
        MidiOutputPort { id: self.id.clone() }
    }
}

/// A collection of input ports.
pub type MidiInputPorts = Vec<MidiInputPort>;

/// A collection of output ports.
pub type MidiOutputPorts = Vec<MidiOutputPort>;

/// Trait that abstracts over input and output port directories.
pub trait MidiIO {
    /// Type of an input or output port structure.
    type Port;

    /// The identifiers of the directory's registered ports, in order.
    spec fn dir_port_ids(&self) -> Seq<Seq<char>>;

    /// The identifier a port object carries.
    spec fn spec_port_id(port: &Self::Port) -> Seq<char>;

    /// Get a collection of all MIDI input or output ports.
    fn ports(&self) -> (r: Vec<Self::Port>)
        ensures
            r@.len() == self.dir_port_ids().len(),
            forall|i: int|
                0 <= i < r@.len() ==> Self::spec_port_id(#[trigger] &r@[i])
                    == self.dir_port_ids()[i],
    ;

    /// Get the number of available MIDI input or output ports.
    fn port_count(&self) -> (r: usize)
        ensures
            r == self.dir_port_ids().len(),
    ;

    /// Get the name of a specified MIDI input or output port.
    ///
    /// An error is returned when the port is not (or no longer) registered.
    fn port_name(&self, port: &Self::Port) -> (r: Result<String, PortInfoError>)
        ensures
            r is Ok <==> has_port(self.dir_port_ids(), Self::spec_port_id(port)),
    ;
}

/// An instance of `MidiInput` is required for anything related to MIDI
/// input. Create one with `MidiInput::new`; a platform driver then registers
/// the endpoints it enumerated.
#[derive(Debug)]
pub struct MidiInput {
    pub(crate) client_name: String,
    pub(crate) ignore_flags: Ignore,
    pub(crate) ports: Vec<PortRecord>,
}

impl MidiInput {
    /// The client name given at creation.
    pub open(crate) spec fn spec_client_name(&self) -> Seq<char> {
        self.client_name@
    }

    /// The current ignore filter.
    pub open(crate) spec fn spec_ignore(&self) -> Ignore {
        self.ignore_flags
    }

    /// The identifiers of the registered ports, in registration order.
    pub open(crate) spec fn port_ids(&self) -> Seq<Seq<char>> {
        ids_of(self.ports@)
    }

    /// The names of the registered ports, in registration order.
    pub open(crate) spec fn port_names(&self) -> Seq<Seq<char>> {
        names_of(self.ports@)
    }

    /// Creates a new `MidiInput` object that is required for any MIDI input
    /// functionality: an empty directory under the given client name, with
    /// no messages ignored.
    pub fn new(client_name: &str) -> (r: Result<MidiInput, InitError>)
        ensures
            r matches Ok(m) && m.spec_client_name() == client_name@ && m.spec_ignore()
                == Ignore::Nothing && m.port_ids().len() == 0 && m.port_names().len() == 0,
    {
        let m = MidiInput {
            client_name: client_name.to_owned(),
            ignore_flags: Ignore::Nothing,
            ports: Vec::new(),
        };
        proof {
            assert(m.port_ids() =~= Seq::<Seq<char>>::empty());
            assert(m.port_names() =~= Seq::<Seq<char>>::empty());
        }
        Result::Ok(m)
    }

    /// Set flags to decide what kind of messages should be ignored (i.e.,
    /// filtered out) by connections made from this `MidiInput`. By default,
    /// no messages are ignored. A connection copies the flags when it is
    /// opened and keeps them for its lifetime; changing them here affects
    /// only connections opened afterwards.
    pub fn ignore(&mut self, flags: Ignore)
        ensures
            final(self).spec_ignore() == flags,
            final(self).spec_client_name() == old(self).spec_client_name(),
            final(self).port_ids() == old(self).port_ids(),
            final(self).port_names() == old(self).port_names(),
    {
        self.ignore_flags = flags;
    }

    /// Registers one enumerated endpoint; the platform driver calls this for
    /// each input port it discovered (or created virtually).
    pub fn register_port(&mut self, id: String, name: String)
        ensures
            final(self).port_ids() == old(self).port_ids().push(id@),
            final(self).port_names() == old(self).port_names().push(name@),
            final(self).spec_ignore() == old(self).spec_ignore(),
            final(self).spec_client_name() == old(self).spec_client_name(),
    {
        let ghost pre = self.ports@;
        self.ports.push(PortRecord { id, name });
        proof {
            assert(self.port_ids() =~= ids_of(pre).push(self.ports@.last().id@));
            assert(self.port_names() =~= names_of(pre).push(self.ports@.last().name@));
        }
    }

    /// Get a collection of all registered MIDI input ports.
    pub fn ports(&self) -> (r: MidiInputPorts)
        ensures
            r@.len() == self.port_ids().len(),
            forall|i: int| 0 <= i < r@.len() ==> (#[trigger] r@[i]).spec_id() == self.port_ids()[i],
    {
        let mut r: Vec<MidiInputPort> = Vec::new();
        let n = self.ports.len();
        let mut i: usize = 0;
        while i < n
            invariant
                i <= n,
                n == self.ports@.len(),
                r@.len() == i,
                forall|j: int| 0 <= j < i ==> (#[trigger] r@[j]).spec_id() == self.port_ids()[j],
            decreases n - i,
        {
            let id = self.ports[i].id.clone();
            r.push(MidiInputPort { id });
            i = i + 1;
        }
        r
    }

    /// Get the number of available MIDI input ports.
    pub fn port_count(&self) -> (r: usize)
        ensures
            r == self.port_ids().len(),
    {
        self.ports.len()
    }

    /// Get the name of a specified MIDI input port.
    ///
    /// An error is returned when the port is not (or no longer) registered,
    /// e.g. because the respective device has been disconnected.
    pub fn port_name(&self, port: &MidiInputPort) -> (r: Result<String, PortInfoError>)
        ensures
            r is Ok <==> has_port(self.port_ids(), port.spec_id()),
            r matches Ok(name) ==> exists|i: int|
                0 <= i < self.port_ids().len() && self.port_ids()[i] == port.spec_id()
                    && self.port_names()[i] == name@,
            r is Err ==> r->Err_0 == PortInfoError::InvalidPort,
    {
        let n = self.ports.len();
        let mut i: usize = 0;
        while i < n
            invariant
                i <= n,
                n == self.ports@.len(),
                forall|j: int| 0 <= j < i ==> self.port_ids()[j] != port.spec_id(),
            decreases n - i,
        {
            if self.ports[i].id == port.id {
                let name = self.ports[i].name.clone();
                proof {
                    assert(self.port_ids()[i as int] == port.spec_id());
                    assert(self.port_names()[i as int] == name@);
                }
                return Result::Ok(name);
            }
            i = i + 1;
        }
        Result::Err(PortInfoError::InvalidPort)
    }

    /// Get a MIDI input port by its unique identifier.
    pub fn find_port_by_id(&self, id: String) -> (r: Option<MidiInputPort>)
        ensures
            r is Some <==> has_port(self.port_ids(), id@),
            r matches Some(p) ==> p.spec_id() == id@,
    {
        let n = self.ports.len();
        let mut i: usize = 0;
        while i < n
            invariant
                i <= n,
                n == self.ports@.len(),
                forall|j: int| 0 <= j < i ==> self.port_ids()[j] != id@,
            decreases n - i,
        {
            if self.ports[i].id == id {
                let found = self.ports[i].id.clone();
                proof {
                    assert(self.port_ids()[i as int] == id@);
                }
                return Option::Some(MidiInputPort { id: found });
            }
            i = i + 1;
        }
        Option::None
    }
}

impl MidiIO for MidiInput {
    type Port = MidiInputPort;

    open spec fn dir_port_ids(&self) -> Seq<Seq<char>> {
        self.port_ids()
    }

    open spec fn spec_port_id(port: &MidiInputPort) -> Seq<char> {
        port.spec_id()
    }

    fn ports(&self) -> Vec<MidiInputPort> {
        self.ports()
    }

    fn port_count(&self) -> usize {
        self.port_count()
    }

    fn port_name(&self, port: &MidiInputPort) -> Result<String, PortInfoError> {
        self.port_name(port)
    }
}

/// An instance of `MidiOutput` is required for anything related to MIDI
/// output. Create one with `MidiOutput::new`; a platform driver then
/// registers the endpoints it enumerated.
#[derive(Debug)]
pub struct MidiOutput {
    pub(crate) client_name: String,
    pub(crate) ports: Vec<PortRecord>,
}

impl MidiOutput {
    /// The client name given at creation.
    pub open(crate) spec fn spec_client_name(&self) -> Seq<char> {
        self.client_name@
    }

    /// The identifiers of the registered ports, in registration order.
    pub open(crate) spec fn port_ids(&self) -> Seq<Seq<char>> {
        ids_of(self.ports@)
    }

    /// The names of the registered ports, in registration order.
    pub open(crate) spec fn port_names(&self) -> Seq<Seq<char>> {
        names_of(self.ports@)
    }

    /// Creates a new `MidiOutput` object that is required for any MIDI
    /// output functionality: an empty directory under the given client name.
    pub fn new(client_name: &str) -> (r: Result<MidiOutput, InitError>)
        ensures
            r matches Ok(m) && m.spec_client_name() == client_name@ && m.port_ids().len() == 0
                && m.port_names().len() == 0,
    {
        let m = MidiOutput { client_name: client_name.to_owned(), ports: Vec::new() };
        proof {
            assert(m.port_ids() =~= Seq::<Seq<char>>::empty());
            assert(m.port_names() =~= Seq::<Seq<char>>::empty());
        }
        Result::Ok(m)
    }

    /// Registers one enumerated endpoint; the platform driver calls this for
    /// each output port it discovered (or created virtually).
    pub fn register_port(&mut self, id: String, name: String)
        ensures
            final(self).port_ids() == old(self).port_ids().push(id@),
            final(self).port_names() == old(self).port_names().push(name@),
            final(self).spec_client_name() == old(self).spec_client_name(),
    {
        let ghost pre = self.ports@;
        self.ports.push(PortRecord { id, name });
        proof {
            assert(self.port_ids() =~= ids_of(pre).push(self.ports@.last().id@));
            assert(self.port_names() =~= names_of(pre).push(self.ports@.last().name@));
        }
    }

    /// Get a collection of all registered MIDI output ports.
    pub fn ports(&self) -> (r: MidiOutputPorts)
        ensures
            r@.len() == self.port_ids().len(),
            forall|i: int| 0 <= i < r@.len() ==> (#[trigger] r@[i]).spec_id() == self.port_ids()[i],
    {
        let mut r: Vec<MidiOutputPort> = Vec::new();
        let n = self.ports.len();
        let mut i: usize = 0;
        while i < n
            invariant
                i <= n,
                n == self.ports@.len(),
                r@.len() == i,
                forall|j: int| 0 <= j < i ==> (#[trigger] r@[j]).spec_id() == self.port_ids()[j],
            decreases n - i,
        {
            let id = self.ports[i].id.clone();
            r.push(MidiOutputPort { id });
            i = i + 1;
        }
        r
    }

    /// Get the number of available MIDI output ports.
    pub fn port_count(&self) -> (r: usize)
        ensures
            r == self.port_ids().len(),
    {
        self.ports.len()
    }

    /// Get the name of a specified MIDI output port.
    ///
    /// An error is returned when the port is not (or no longer) registered,
    /// e.g. because the respective device has been disconnected.
    pub fn port_name(&self, port: &MidiOutputPort) -> (r: Result<String, PortInfoError>)
        ensures
            r is Ok <==> has_port(self.port_ids(), port.spec_id()),
            r matches Ok(name) ==> exists|i: int|
                0 <= i < self.port_ids().len() && self.port_ids()[i] == port.spec_id()
                    && self.port_names()[i] == name@,
            r is Err ==> r->Err_0 == PortInfoError::InvalidPort,
    {
        let n = self.ports.len();
        let mut i: usize = 0;
        while i < n
            invariant
                i <= n,
                n == self.ports@.len(),
                forall|j: int| 0 <= j < i ==> self.port_ids()[j] != port.spec_id(),
            decreases n - i,
        {
            if self.ports[i].id == port.id {
                let name = self.ports[i].name.clone();
                proof {
                    assert(self.port_ids()[i as int] == port.spec_id());
                    assert(self.port_names()[i as int] == name@);
                }
                return Result::Ok(name);
            }
            i = i + 1;
        }
        Result::Err(PortInfoError::InvalidPort)
    }

    /// Get a MIDI output port by its unique identifier.
    pub fn find_port_by_id(&self, id: String) -> (r: Option<MidiOutputPort>)
        ensures
            r is Some <==> has_port(self.port_ids(), id@),
            r matches Some(p) ==> p.spec_id() == id@,
    {
        let n = self.ports.len();
        let mut i: usize = 0;
        while i < n
            invariant
                i <= n,
                n == self.ports@.len(),
                forall|j: int| 0 <= j < i ==> self.port_ids()[j] != id@,
            decreases n - i,
        {
            if self.ports[i].id == id {
                let found = self.ports[i].id.clone();
                proof {
                    assert(self.port_ids()[i as int] == id@);
                }
                return Option::Some(MidiOutputPort { id: found });
            }
            i = i + 1;
        }
        Option::None
    }
}

impl MidiIO for MidiOutput {
    type Port = MidiOutputPort;

    open spec fn dir_port_ids(&self) -> Seq<Seq<char>> {
        self.port_ids()
    }

    open spec fn spec_port_id(port: &MidiOutputPort) -> Seq<char> {
        port.spec_id()
    }

    fn ports(&self) -> Vec<MidiOutputPort> {
        self.ports()
    }

    fn port_count(&self) -> usize {
        self.port_count()
    }

    fn port_name(&self, port: &MidiOutputPort) -> Result<String, PortInfoError> {
        self.port_name(port)
    }
}

} // verus!
