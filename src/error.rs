use vstd::prelude::*;

verus! {

/// The input that failed validation.
#[derive(Clone, Copy, Debug, PartialEq, Eq, Structural)]
pub enum ValidationError {
    /// The name, trimmed, is not 3 to 100 bytes long.
    Name,
    /// The email address does not have the accepted shape.
    Email,
    /// The message, trimmed, is not 10 to 1000 bytes long.
    Message,
    /// The note, trimmed, is not 10 to 1000 bytes long.
    Note,
    /// The status is not one of `open`, `pending`, `closed`.
    Status,
    /// The page is below 1.
    Page,
    /// The limit is outside 1 to 100.
    Limit,
}

/// A failure of the ticket store.
#[derive(Clone, Copy, Debug, PartialEq, Eq, Structural)]
pub enum StoreError {
    /// No ticket has the given id.
    NotFound,
    /// A ticket with the same id is already stored.
    DuplicateId,
    /// The ticket's number is zero or not above every stored number.
    NumberNotIncreasing,
    /// Every ticket number has been handed out.
    NumbersExhausted,
}

/// A failure of a ticket operation.
#[derive(Clone, Copy, Debug, PartialEq, Eq, Structural)]
pub enum ServiceError {
    Validation(ValidationError),
    NotFound,
    Unauthorized,
    Store(StoreError),
}

/// The service error that a store error becomes: a missing ticket stays a
/// missing ticket, anything else is a store failure.
pub open spec fn service_error_of(e: StoreError) -> ServiceError {
    match e {
        StoreError::NotFound => ServiceError::NotFound,
        _ => ServiceError::Store(e),
    }
}

impl From<StoreError> for ServiceError {
    fn from(e: StoreError) -> (r: ServiceError) {
        match e {
            StoreError::NotFound => ServiceError::NotFound,
            _ => ServiceError::Store(e),
        }
    }
}

impl vstd::std_specs::convert::FromSpecImpl<StoreError> for ServiceError {
    open spec fn obeys_from_spec() -> bool {
        true
    }

    open spec fn from_spec(e: StoreError) -> ServiceError {
        service_error_of(e)
    }
}

} // verus!
