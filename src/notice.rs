use vstd::prelude::*;

use crate::ticket::Ticket;

verus! {

/// The message a requester receives about a ticket.
#[derive(Clone, Copy, Debug, PartialEq, Eq, Structural)]
pub enum Notice {
    /// The ticket was created.
    Issued,
    /// The ticket was updated by an admin.
    Updated,
}

impl Notice {
    /// The subject line of the message.
    pub fn subject(&self) -> (r: &'static str)
        ensures
            r@ == match self {
                Notice::Issued => "Your ticket has been issued"@,
                Notice::Updated => "Your ticket has been updated"@,
            },
    {
        match self {
            Notice::Issued => "Your ticket has been issued",
            Notice::Updated => "Your ticket has been updated",
        }
    }
}

/// The notice an admin update sends: one only when it asks for it.
pub fn notice_for_update(notify: bool) -> (r: Option<Notice>)
    ensures
        r is Some <==> notify,
        r matches Some(n) ==> n == Notice::Updated,
{
    if notify {
        Some(Notice::Updated)
    } else {
        None
    }
}

/// The addressee of a message.
#[derive(Clone, Debug)]
pub struct User {
    pub name: String,
    pub email: String,
}

impl User {
    /// The requester of `ticket`.
    pub fn of_ticket(ticket: &Ticket) -> (r: User)
        ensures
            r.name == ticket.name,
            r.email == ticket.email,
    {
        User { name: ticket.name.clone(), email: ticket.email.clone() }
    }
}

} // verus!
