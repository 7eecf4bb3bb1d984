use vstd::prelude::*;

verus! {

/// The error kinds raised by the pipeline engine.
///
/// The first three are domain errors of the routing fabric and the builder;
/// `ConnectionClosed` reports that the event service closed the transport,
/// and `WindowNotFound` is the shell-boundary error kept for the embedding
/// program.
#[derive(Debug)]
pub enum MrDamianError {
    /// An assignment or a handler referenced a property that is absent or
    /// has the wrong type.
    MessageKeyNotFound,
    /// A packet was emitted on a local output name with no attached port.
    PortNotFound(String),
    /// A pipeline description referenced an unregistered component kind.
    InvalidComponent,
    /// The event transport was closed by the remote side.
    ConnectionClosed,
    /// The shell could not locate its main window.
    WindowNotFound,
}

impl MrDamianError {
    /// A human-readable description of the error.
    pub fn message(&self) -> (r: String)
        ensures
            r@ == self.message_text(),
    {
        match self {
            MrDamianError::MessageKeyNotFound => String::from_str("message key not found"),
            MrDamianError::PortNotFound(_) => String::from_str("port not found"),
            MrDamianError::InvalidComponent => String::from_str("invalid component"),
            MrDamianError::ConnectionClosed => String::from_str("connection was closed"),
            MrDamianError::WindowNotFound => String::from_str("window not found"),
        }
    }

    /// What `message` returns for each error kind.
    pub open spec fn message_text(&self) -> Seq<char> {
        match self {
            MrDamianError::MessageKeyNotFound => "message key not found"@,
            MrDamianError::PortNotFound(_) => "port not found"@,
            MrDamianError::InvalidComponent => "invalid component"@,
            MrDamianError::ConnectionClosed => "connection was closed"@,
            MrDamianError::WindowNotFound => "window not found"@,
        }
    }
}

impl PartialEq for MrDamianError {
    fn eq(&self, other: &Self) -> (r: bool) {
        match (self, other) {
            (MrDamianError::MessageKeyNotFound, MrDamianError::MessageKeyNotFound) => true,
            (MrDamianError::PortNotFound(a), MrDamianError::PortNotFound(b)) => a.eq(b),
            (MrDamianError::InvalidComponent, MrDamianError::InvalidComponent) => true,
            (MrDamianError::ConnectionClosed, MrDamianError::ConnectionClosed) => true,
            (MrDamianError::WindowNotFound, MrDamianError::WindowNotFound) => true,
            _ => false,
        }
    }
}

impl vstd::std_specs::cmp::PartialEqSpecImpl for MrDamianError {
    open spec fn obeys_eq_spec() -> bool {
        true
    }

    open spec fn eq_spec(&self, other: &Self) -> bool {
        match (self, other) {
            (MrDamianError::MessageKeyNotFound, MrDamianError::MessageKeyNotFound) => true,
            (MrDamianError::PortNotFound(a), MrDamianError::PortNotFound(b)) => a@ == b@,
            (MrDamianError::InvalidComponent, MrDamianError::InvalidComponent) => true,
            (MrDamianError::ConnectionClosed, MrDamianError::ConnectionClosed) => true,
            (MrDamianError::WindowNotFound, MrDamianError::WindowNotFound) => true,
            _ => false,
        }
    }
}

} // verus!
