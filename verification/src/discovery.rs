use vstd::prelude::*;

verus! {

/// Answer of a provider to a discovery request: whether the requested
/// service exists at the given address. On the wire it is a single byte.
#[derive(Clone, Copy, Debug, PartialEq, Eq, Structural)]
pub enum Status {
    /// the service has been found
    Found,
    /// the service has not been found
    NotFound,
}

/// The byte that represents a status on the wire.
pub open spec fn status_byte(s: Status) -> u8 {
    match s {
        Status::Found => 1,
        Status::NotFound => 2,
    }
}

/// The status that a byte stands for, if any.
pub open spec fn status_from_byte(b: u8) -> Option<Status> {
    if b == 1 {
        Some(Status::Found)
    } else if b == 2 {
        Some(Status::NotFound)
    } else {
        None
    }
}

impl Status {
    /// The byte that this status is sent as.
    pub fn to_u8(self) -> (b: u8)
        ensures
            b == status_byte(self),
    {
        match self {
            Status::Found => 1,
            Status::NotFound => 2,
        }
    }

    /// Reads a status from its byte; any other byte is not a status.
    pub fn from_u8(b: u8) -> (r: Option<Status>)
        ensures
            r == status_from_byte(b),
    {
        if b == 1 {
            Some(Status::Found)
        } else if b == 2 {
            Some(Status::NotFound)
        } else {
            None
        }
    }
}

/// Reading back the byte of a status gives the same status, and a byte that
/// stands for a status is the byte of that status.
pub proof fn lemma_status_byte_roundtrip(s: Status, b: u8)
    ensures
        status_from_byte(status_byte(s)) == Some(s),
        status_from_byte(b) matches Some(t) ==> status_byte(t) == b,
{
}

} // verus!
