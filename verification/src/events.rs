use vstd::prelude::*;

verus! {

/// Caller-chosen correlation value attached to a registration and returned
/// verbatim in events; it carries no meaning to the multiplexer.
#[derive(Clone, Copy, PartialEq, Eq, Structural, Debug)]
pub struct Token(pub usize);

/// Direction(s) of readiness a registration cares about. A registration
/// always asks for at least one direction, so the empty set is not
/// representable.
#[derive(Clone, Copy, PartialEq, Eq, Structural, Debug)]
pub enum Interest {
    Readable,
    Writable,
    Both,
}

impl Interest {
    /// Does this interest ask for read readiness?
    pub open spec fn spec_readable(self) -> bool {
        self == Interest::Readable || self == Interest::Both
    }

    /// Does this interest ask for write readiness?
    pub open spec fn spec_writable(self) -> bool {
        self == Interest::Writable || self == Interest::Both
    }

    pub fn is_readable(&self) -> (r: bool)
        ensures
            r == self.spec_readable(),
    {
        match self {
            Interest::Readable => true,
            Interest::Both => true,
            Interest::Writable => false,
        }
    }

    pub fn is_writable(&self) -> (r: bool)
        ensures
            r == self.spec_writable(),
    {
        match self {
            Interest::Writable => true,
            Interest::Both => true,
            Interest::Readable => false,
        }
    }
}

/// One readiness report: a descriptor that the OS marked ready, paired with
/// the token its registration carries. Events are transient poll output and
/// are never persisted across calls.
#[derive(Clone, Copy, PartialEq, Eq, Structural, Debug)]
pub struct Event {
    pub fd: i32,
    pub token: Token,
}

impl Event {
    /// The token the registration for this descriptor carries.
    pub fn token(&self) -> (t: Token)
        ensures
            t == self.token,
    {
        self.token
    }

    /// The descriptor the OS marked ready.
    pub fn fd(&self) -> (fd: i32)
        ensures
            fd == self.fd,
    {
        self.fd
    }
}

/// The reusable, growable event sink: cleared and repopulated on each poll.
pub type Events = Vec<Event>;

} // verus!
