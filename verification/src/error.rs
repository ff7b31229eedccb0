//! The ways in which driving a connection can fail.
use vstd::prelude::*;

verus! {

/// The transport operation that failed.
#[derive(Clone, Copy, Debug, PartialEq, Eq, Structural)]
pub enum TransportError {
    /// The connection could not be established.
    Connect,
    /// A read failed.
    Read,
    /// A write failed.
    Write,
    /// A flush failed.
    Flush,
    /// The peer closed the connection.
    Closed,
}

/// Why no engine could be made for a connection.
#[derive(Clone, Copy, Debug, PartialEq, Eq, Structural)]
pub enum ConstructionError {
    /// The peer identity is not a valid name.
    InvalidIdentity,
    /// The configuration was refused.
    Configuration,
}

/// A fatal condition. Every one of them ends the connection.
#[derive(Clone, Copy, Debug, PartialEq, Eq, Structural)]
pub enum DriverError {
    /// The transport failed.
    Transport(TransportError),
    /// The engine could not be constructed.
    EngineConstruction(ConstructionError),
    /// The engine ended the connection because of a protocol fault.
    Engine,
    /// The engine could not encode although it was given the space it asked
    /// for, or kept encoding nothing.
    EncodingFailed,
    /// The engine was asked to encode a record that it had encoded already.
    DoubleEncode,
    /// More data is needed and the incoming buffer is full.
    BufferExhausted,
    /// A count or an order of calls that the driver relies on did not hold.
    InvariantViolation,
}

/// The side of the driver on which a failure lies.
#[derive(Clone, Copy, Debug, PartialEq, Eq, Structural)]
pub enum Boundary {
    /// The byte transport.
    Transport,
    /// The TLS engine, or the driver's dealings with it.
    Engine,
    /// The configuration that the engine was to be made from.
    Configuration,
}

impl DriverError {
    /// The boundary that an error belongs to.
    pub open spec fn spec_boundary(self) -> Boundary {
        match self {
            DriverError::Transport(_) => Boundary::Transport,
            DriverError::EngineConstruction(_) => Boundary::Configuration,
            _ => Boundary::Engine,
        }
    }

    /// Classifies the error by the boundary at which it arose.
    #[verifier::when_used_as_spec(spec_boundary)]
    pub fn boundary(self) -> (b: Boundary)
        ensures
            b == self.spec_boundary(),
    {
        match self {
            DriverError::Transport(_) => Boundary::Transport,
            DriverError::EngineConstruction(_) => Boundary::Configuration,
            _ => Boundary::Engine,
        }
    }
}

} // verus!
