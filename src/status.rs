use vstd::prelude::*;

use crate::text::same_text;

verus! {

/// Lifecycle state of a ticket.
#[derive(Clone, Copy, Debug, PartialEq, Eq, Structural)]
pub enum Status {
    Open,
    Pending,
    Closed,
}

/// The wire name of a status.
pub open spec fn status_name(s: Status) -> Seq<char> {
    match s {
        Status::Open => "open"@,
        Status::Pending => "pending"@,
        Status::Closed => "closed"@,
    }
}

/// The status whose wire name is `t`, if any.
pub open spec fn status_named(t: Seq<char>) -> Option<Status> {
    if t == "open"@ {
        Some(Status::Open)
    } else if t == "pending"@ {
        Some(Status::Pending)
    } else if t == "closed"@ {
        Some(Status::Closed)
    } else {
        None
    }
}

impl Status {
    /// The wire name of this status.
    pub fn as_str(&self) -> (r: &'static str)
        ensures
            r@ == status_name(*self),
    {
        match self {
            Status::Open => "open",
            Status::Pending => "pending",
            Status::Closed => "closed",
        }
    }

    /// Reads a status from its wire name; anything else is refused.
    pub fn parse(t: &str) -> (r: Option<Status>)
        ensures
            r == status_named(t@),
    {
        if same_text(t, "open") {
            Some(Status::Open)
        } else if same_text(t, "pending") {
            Some(Status::Pending)
        } else if same_text(t, "closed") {
            Some(Status::Closed)
        } else {
            None
        }
    }
}

} // verus!
