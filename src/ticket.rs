use vstd::prelude::*;

use crate::status::Status;

verus! {

/// A support ticket. Timestamps are milliseconds since the Unix epoch, UTC.
#[derive(Clone, Debug)]
pub struct Ticket {
    pub uuid: u128,
    pub number: u32,
    pub name: String,
    pub email: String,
    pub message: String,
    pub note: Option<String>,
    pub status: Status,
    pub created_at: i64,
    pub updated_at: Option<i64>,
    pub closed_at: Option<i64>,
}

/// A closing time is recorded exactly when the ticket is closed.
pub open spec fn closure_consistent(t: Ticket) -> bool {
    t.closed_at is Some <==> t.status == Status::Closed
}

/// `t` with the mutable fields (note, status, update and closing times)
/// taken from `changes`.
pub open spec fn with_changes(t: Ticket, changes: Ticket) -> Ticket {
    Ticket {
        note: changes.note,
        status: changes.status,
        updated_at: changes.updated_at,
        closed_at: changes.closed_at,
        ..t
    }
}

/// An owned copy of an optional string.
pub fn copy_text_option(o: &Option<String>) -> (r: Option<String>)
    ensures
        r == *o,
{
    match o {
        Some(s) => Some(s.clone()),
        None => None,
    }
}

impl Ticket {
    /// A field-by-field copy of the ticket.
    pub fn duplicate(&self) -> (r: Ticket)
        ensures
            r == *self,
    {
        Ticket {
            uuid: self.uuid,
            number: self.number,
            name: self.name.clone(),
            email: self.email.clone(),
            message: self.message.clone(),
            note: copy_text_option(&self.note),
            status: self.status,
            created_at: self.created_at,
            updated_at: self.updated_at,
            closed_at: self.closed_at,
        }
    }
}

} // verus!
