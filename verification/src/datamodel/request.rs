use vstd::prelude::*;

verus! {

/// What an inbound request asks the device to do.
#[derive(Debug, Clone, Copy, PartialEq, Eq, Structural)]
pub enum RequestKind {
    Default,
    Telemetry,
}

/// A command received over the serial link.
///
/// A request lives for one run of the receive pipeline: it is decoded from an
/// authenticated payload and consumed at once.
#[derive(Debug, Clone, Copy, PartialEq, Eq, Structural)]
pub struct Request {
    kind: RequestKind,
}

impl Request {
    /// The kind of this request, as a specification value.
    pub closed spec fn spec_kind(&self) -> RequestKind {
        self.kind
    }

    /// A request of the given kind.
    pub fn new(kind: RequestKind) -> (request: Request)
        ensures
            request.spec_kind() == kind,
    {
        Request { kind }
    }

    /// The kind of this request.
    #[verifier::when_used_as_spec(spec_kind)]
    pub fn kind(&self) -> (kind: RequestKind)
        ensures
            kind == self.spec_kind(),
    {
        self.kind
    }
}

} // verus!
