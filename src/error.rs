use vstd::prelude::*;

verus! {

/// The ways an operation of the library can fail.
#[derive(Clone, Copy, Debug, PartialEq, Eq, Structural)]
pub enum Error {
    /// A referenced order, product or customer does not exist.
    NotFound,
    /// The store cannot take the change (its identifiers are exhausted).
    StorageError,
    /// The message could not be delivered.
    DeliveryError,
    /// The request is malformed (a total that leaves the integer range).
    ValidationError,
}

pub open spec fn status_code_of(e: Error) -> u16 {
    match e {
        Error::NotFound => 404,
        Error::ValidationError => 400,
        Error::StorageError => 500,
        Error::DeliveryError => 502,
    }
}

impl Error {
    /// The HTTP status code under which the error is reported.
    pub fn status_code(&self) -> (r: u16)
        ensures
            r == status_code_of(*self),
    {
        match self {
            Error::NotFound => 404,
            Error::ValidationError => 400,
            Error::StorageError => 500,
            Error::DeliveryError => 502,
        }
    }
}

} // verus!
