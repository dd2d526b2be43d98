//! The one way the library reaches the interface: a tree of session containers,
//! each holding named resources.
use vstd::prelude::*;

verus! {

/// Why a session container could not be created.
#[derive(Debug)]
pub enum ContainerError {
    /// A container of that name exists already.
    AlreadyExists,
    /// The base location is missing: the platform does not offer the interface.
    NotFound,
    /// Any other failure.
    Io(std::io::Error),
}

/// Access to the interface. Each call is one round trip: no retries, no caching.
pub trait Transport {
    /// Creates the container of the session `session`.
    fn create_container(&mut self, session: &str) -> Result<(), ContainerError>;

    /// Replaces the whole resource `name` of the session's container by `bytes`.
    fn write_bytes(&mut self, session: &str, name: &str, bytes: &[u8]) -> Result<(), std::io::Error>;

    /// Reads the whole resource `name` of the session's container.
    fn read_bytes(&mut self, session: &str, name: &str) -> Result<Vec<u8>, std::io::Error>;

    /// Reads the whole resource `name` of the session's container as text, as it
    /// stands (line terminator included).
    fn read_text(&mut self, session: &str, name: &str) -> Result<String, std::io::Error>;
}

/// One call made to the transport, with what it handed back.
pub enum Call {
    /// Creation of a session's container.
    Create { session: Seq<char>, created: Result<(), ContainerError> },
    /// A write of a whole resource.
    Write {
        session: Seq<char>,
        name: Seq<char>,
        bytes: Seq<u8>,
        written: Result<(), std::io::Error>,
    },
    /// A read of a whole resource as bytes.
    ReadBytes { session: Seq<char>, name: Seq<char>, bytes_read: Result<Seq<u8>, std::io::Error> },
    /// A read of a whole resource as text.
    ReadText { session: Seq<char>, name: Seq<char>, text_read: Result<Seq<char>, std::io::Error> },
}

pub open spec fn bytes_view(r: Result<Vec<u8>, std::io::Error>) -> Result<Seq<u8>, std::io::Error> {
    match r {
        Ok(v) => Ok(v@),
        Err(e) => Err(e),
    }
}

pub open spec fn text_view(r: Result<String, std::io::Error>) -> Result<Seq<char>, std::io::Error> {
    match r {
        Ok(s) => Ok(s@),
        Err(e) => Err(e),
    }
}

/// A transport together with the record of every call made through it, in order.
pub struct Recorder<T: Transport> {
    transport: T,
    calls: Ghost<Seq<Call>>,
}

impl<T: Transport> Recorder<T> {
    /// The calls made so far, oldest first.
    pub closed spec fn calls(&self) -> Seq<Call> {
        self.calls@
    }

    /// The transport itself.
    pub closed spec fn inner(&self) -> T {
        self.transport
    }

    /// Starts recording the calls made to `transport`.
    pub fn new(transport: T) -> (r: Recorder<T>)
        ensures
            r.calls() == Seq::<Call>::empty(),
            r.inner() == transport,
    {
        Recorder { transport, calls: Ghost(Seq::empty()) }
    }

    /// The transport, to look at.
    pub fn transport(&self) -> (r: &T)
        ensures
            *r == self.inner(),
    {
        &self.transport
    }

    /// Creates the container of the session `session`.
    pub fn create_container(&mut self, session: &str) -> (r: Result<(), ContainerError>)
        ensures
            final(self).calls() == old(self).calls().push(
                Call::Create { session: session@, created: r },
            ),
    {
        let r = self.transport.create_container(session);
        self.calls = Ghost(self.calls@.push(Call::Create { session: session@, created: r }));
        r
    }

    /// Replaces the whole resource `name` of the session's container by `bytes`.
    pub fn write_bytes(&mut self, session: &str, name: &str, bytes: &[u8]) -> (r: Result<
        (),
        std::io::Error,
    >)
        ensures
            final(self).calls() == old(self).calls().push(
                Call::Write { session: session@, name: name@, bytes: bytes@, written: r },
            ),
    {
        let r = self.transport.write_bytes(session, name, bytes);
        self.calls = Ghost(
            self.calls@.push(Call::Write { session: session@, name: name@, bytes: bytes@, written: r }),
        );
        r
    }

    /// Reads the whole resource `name` of the session's container.
    pub fn read_bytes(&mut self, session: &str, name: &str) -> (r: Result<Vec<u8>, std::io::Error>)
        ensures
            final(self).calls() == old(self).calls().push(
                Call::ReadBytes { session: session@, name: name@, bytes_read: bytes_view(r) },
            ),
    {
        let r = self.transport.read_bytes(session, name);
        self.calls = Ghost(
            self.calls@.push(
                Call::ReadBytes { session: session@, name: name@, bytes_read: bytes_view(r) },
            ),
        );
        r
    }

    /// Reads the whole resource `name` of the session's container as text.
    pub fn read_text(&mut self, session: &str, name: &str) -> (r: Result<String, std::io::Error>)
        ensures
            final(self).calls() == old(self).calls().push(
                Call::ReadText { session: session@, name: name@, text_read: text_view(r) },
            ),
    {
        let r = self.transport.read_text(session, name);
        self.calls = Ghost(
            self.calls@.push(
                Call::ReadText { session: session@, name: name@, text_read: text_view(r) },
            ),
        );
        r
    }
}

} // verus!
