use vstd::prelude::*;

use crate::error::{ServiceError, StoreError, ValidationError};
use crate::pagination::{GetTicketPageQuery, PaginatedResponse, ceil_div, page_query_error, page_query_filter};
use crate::repository::{
    self, TicketStore, count_status, has_id, index_of, latest, lemma_listing_len, lemma_store_size,
    listing, lookup, page_window,
};
use crate::status::{Status, status_named};
use crate::text::trimmed;
use crate::ticket::{Ticket, closure_consistent, copy_text_option};
use crate::validation::{
    email_accepted, message_accepted, name_accepted, note_accepted, validate_email,
    validate_message, validate_name, validate_note,
};

verus! {

/// Relies on `uuid::Uuid::new_v4`, read as an integer with `Uuid::as_u128`:
/// a random id, of which nothing is promised.
#[verifier::external_body]
fn fresh_uuid() -> (r: u128) {
    uuid::Uuid::new_v4().as_u128()
}

/// Relies on `chrono::Utc::now`, read with `DateTime::timestamp_millis`: the
/// current time in milliseconds since the Unix epoch, of which nothing is
/// promised.
#[verifier::external_body]
fn now_millis() -> (r: i64) {
    chrono::Utc::now().timestamp_millis()
}

/// What a requester submits.
#[derive(Clone, Debug)]
pub struct CreateTicketRequest {
    pub name: String,
    pub email: String,
    pub message: String,
}

/// Why a submission is refused, if it is: the name first, then the email,
/// then the message.
pub open spec fn creation_error(req: CreateTicketRequest) -> Option<ValidationError> {
    if !name_accepted(req.name@) {
        Some(ValidationError::Name)
    } else if !email_accepted(req.email@) {
        Some(ValidationError::Email)
    } else if !message_accepted(req.message@) {
        Some(ValidationError::Message)
    } else {
        None
    }
}

/// `clean` is `req` with its name and message trimmed.
pub open spec fn is_cleaned(req: CreateTicketRequest, clean: CreateTicketRequest) -> bool {
    &&& clean.name@ == trimmed(req.name@)
    &&& clean.email@ == req.email@
    &&& clean.message@ == trimmed(req.message@)
}

impl CreateTicketRequest {
    /// Checks a submission and returns it with name and message trimmed.
    pub fn validate(&self) -> (r: Result<CreateTicketRequest, ValidationError>)
        ensures
            r is Ok <==> creation_error(*self) is None,
            r matches Err(e) ==> creation_error(*self) == Some(e),
            r matches Ok(c) ==> is_cleaned(*self, c),
    {
        let name = match validate_name(self.name.as_str()) {
            Ok(n) => n,
            Err(e) => return Err(e),
        };
        if let Err(e) = validate_email(self.email.as_str()) {
            return Err(e);
        }
        let message = match validate_message(self.message.as_str()) {
            Ok(m) => m,
            Err(e) => return Err(e),
        };
        Ok(CreateTicketRequest { name, email: self.email.clone(), message })
    }
}

/// `t` is the fresh ticket made from the checked submission `clean`.
pub open spec fn is_new_ticket(
    t: Ticket,
    clean: CreateTicketRequest,
    number: int,
    uuid: u128,
    now: i64,
) -> bool {
    &&& t.uuid == uuid
    &&& t.number == number
    &&& t.name@ == clean.name@
    &&& t.email@ == clean.email@
    &&& t.message@ == clean.message@
    &&& t.note is None
    &&& t.status == Status::Open
    &&& t.created_at == now
    &&& t.updated_at is None
    &&& t.closed_at is None
}

/// Why a checked submission cannot be stored, if it cannot: every number
/// has been handed out, or the id is taken.
pub open spec fn numbering_error(last: u32, s: Seq<Ticket>, uuid: u128) -> Option<StoreError> {
    if last == u32::MAX {
        Some(StoreError::NumbersExhausted)
    } else if has_id(s, uuid) {
        Some(StoreError::DuplicateId)
    } else {
        None
    }
}

/// Stores a ticket made from the checked submission `clean`, with id `uuid`,
/// created at `now`, numbered one above the highest number ever handed out
/// (1 for the first ticket), so that no number is handed out twice.
pub fn create_ticket_at(store: &mut TicketStore, clean: CreateTicketRequest, uuid: u128, now: i64) -> (r:
    Result<Ticket, ServiceError>)
    requires
        old(store).wf(),
    ensures
        final(store).wf(),
        r is Ok <==> numbering_error(old(store).last_number(), old(store)@, uuid) is None,
        r matches Err(e) ==> numbering_error(old(store).last_number(), old(store)@, uuid) matches Some(
            se,
        ) && e == ServiceError::Store(se),
        r matches Ok(t) ==> is_new_ticket(t, clean, old(store).last_number() + 1, uuid, now)
            && final(store)@ == old(store)@.push(t) && final(store).last_number() == t.number,
        r matches Ok(t) ==> forall|i: int|
            0 <= i < old(store)@.len() ==> #[trigger] old(store)@[i].number < t.number,
        r is Err ==> final(store)@ == old(store)@ && final(store).last_number() == old(
            store,
        ).last_number(),
{
    proof {
        repository::lemma_next_number_exceeds_all(*store);
    }
    let number = match repository::get_max_number(store) {
        Some(m) => {
            if m == u32::MAX {
                return Err(ServiceError::Store(StoreError::NumbersExhausted));
            }
            m + 1
        },
        None => 1,
    };
    let ticket = Ticket {
        uuid,
        number,
        name: clean.name,
        email: clean.email,
        message: clean.message,
        note: None,
        status: Status::Open,
        created_at: now,
        updated_at: None,
        closed_at: None,
    };
    let stored = ticket.duplicate();
    match repository::create(store, stored) {
        Ok(()) => Ok(ticket),
        Err(e) => Err(ServiceError::Store(e)),
    }
}

/// Checks a submission and stores a new open ticket for it, with a fresh
/// random id, the current time, and the next number. It succeeds whenever
/// the submission is valid, numbers remain, and the random id is not taken;
/// in an empty store no id is taken.
pub fn create_ticket(store: &mut TicketStore, req: CreateTicketRequest) -> (r: Result<
    Ticket,
    ServiceError,
>)
    requires
        old(store).wf(),
    ensures
        final(store).wf(),
        creation_error(req) is Some <==> r matches Err(ServiceError::Validation(_)),
        r matches Err(ServiceError::Validation(e)) ==> creation_error(req) == Some(e),
        r matches Err(e) ==> e is Validation || e is Store,
        creation_error(req) is None && old(store).last_number() == u32::MAX ==> r == Err::<
            Ticket,
            ServiceError,
        >(ServiceError::Store(StoreError::NumbersExhausted)),
        creation_error(req) is None && old(store).last_number() < u32::MAX ==> r is Ok || r
            == Err::<Ticket, ServiceError>(ServiceError::Store(StoreError::DuplicateId)),
        r == Err::<Ticket, ServiceError>(ServiceError::Store(StoreError::DuplicateId)) ==> old(
            store,
        )@.len() > 0,
        creation_error(req) is None && old(store).last_number() < u32::MAX && old(store)@.len()
            == 0 ==> r is Ok,
        r matches Ok(t) ==> t.number == old(store).last_number() + 1 && t.note is None
            && t.status == Status::Open && t.updated_at is None && t.closed_at is None && t.name@
            == trimmed(req.name@) && t.email@ == req.email@ && t.message@ == trimmed(req.message@)
            && final(store)@ == old(store)@.push(t) && final(store).last_number() == t.number,
        r matches Ok(t) ==> forall|i: int|
            0 <= i < old(store)@.len() ==> #[trigger] old(store)@[i].number < t.number,
        r is Err ==> final(store)@ == old(store)@ && final(store).last_number() == old(
            store,
        ).last_number(),
{
    let clean = match req.validate() {
        Ok(c) => c,
        Err(e) => return Err(ServiceError::Validation(e)),
    };
    let uuid = fresh_uuid();
    let now = now_millis();
    create_ticket_at(store, clean, uuid, now)
}

/// What an admin changes on a ticket, and whether the requester is told.
#[derive(Clone, Debug)]
pub struct UpdateTicketRequest {
    pub note: Option<String>,
    pub status: Option<String>,
    pub notify: bool,
}

/// Why an update is refused, if it is: a missing ticket first, then the
/// status, then the note.
pub open spec fn update_error(s: Seq<Ticket>, id: u128, req: UpdateTicketRequest) -> Option<
    ServiceError,
> {
    if !has_id(s, id) {
        Some(ServiceError::NotFound)
    } else if req.status matches Some(st) && status_named(st@) is None {
        Some(ServiceError::Validation(ValidationError::Status))
    } else if req.note matches Some(n) && !note_accepted(n@) {
        Some(ServiceError::Validation(ValidationError::Note))
    } else {
        None
    }
}

/// `after` is `before` once `req` is applied at time `now`: status and
/// trimmed note as given, else kept; the update time is `now`; the closing
/// time is `now` when the status is closed, and absent otherwise.
pub open spec fn update_applied(
    before: Ticket,
    req: UpdateTicketRequest,
    now: i64,
    after: Ticket,
) -> bool {
    &&& after.uuid == before.uuid
    &&& after.number == before.number
    &&& after.name == before.name
    &&& after.email == before.email
    &&& after.message == before.message
    &&& after.created_at == before.created_at
    &&& after.status == match req.status {
        Some(st) => status_named(st@)->0,
        None => before.status,
    }
    &&& match req.note {
        Some(n) => after.note matches Some(m) && m@ == trimmed(n@),
        None => after.note == before.note,
    }
    &&& after.updated_at == Some(now)
    &&& after.closed_at == if after.status == Status::Closed {
        Some(now)
    } else {
        None
    }
}

/// After an update the ticket carries a closing time exactly when its status
/// is closed.
pub proof fn lemma_update_keeps_closure_consistent(
    before: Ticket,
    req: UpdateTicketRequest,
    now: i64,
    after: Ticket,
)
    requires
        update_applied(before, req, now, after),
    ensures
        closure_consistent(after),
        after.status == Status::Open || after.status == Status::Pending || after.status
            == Status::Closed,
{
}

/// Applies an admin update to the ticket with id `id` at time `now`.
pub fn update_ticket_at(store: &mut TicketStore, id: u128, req: &UpdateTicketRequest, now: i64) -> (r:
    Result<Ticket, ServiceError>)
    requires
        old(store).wf(),
    ensures
        final(store).wf(),
        r is Ok <==> update_error(old(store)@, id, *req) is None,
        r matches Err(e) ==> update_error(old(store)@, id, *req) == Some(e),
        r matches Ok(t) ==> lookup(old(store)@, id) matches Some(before) && update_applied(
            before,
            *req,
            now,
            t,
        ) && final(store)@ == old(store)@.update(index_of(old(store)@, id), t),
        r matches Ok(t) ==> closure_consistent(t),
        r is Err ==> final(store)@ == old(store)@,
        final(store).last_number() == old(store).last_number(),
{
    let ghost s = store@;
    let before = match repository::get_by_id(store, id) {
        Ok(t) => t,
        Err(e) => return Err(ServiceError::from(e)),
    };
    let status = match &req.status {
        Some(st) => match Status::parse(st.as_str()) {
            Some(parsed) => parsed,
            None => return Err(ServiceError::Validation(ValidationError::Status)),
        },
        None => before.status,
    };
    let note = match &req.note {
        Some(n) => match validate_note(n.as_str()) {
            Ok(t) => Some(t),
            Err(e) => return Err(ServiceError::Validation(e)),
        },
        None => copy_text_option(&before.note),
    };
    let closed_at = if status == Status::Closed {
        Some(now)
    } else {
        None
    };
    let after = Ticket {
        uuid: before.uuid,
        number: before.number,
        name: before.name,
        email: before.email,
        message: before.message,
        note,
        status,
        created_at: before.created_at,
        updated_at: Some(now),
        closed_at,
    };
    let result = repository::update(store, id, &after);
    proof {
        let i = index_of(s, id);
        assert(s[i] == lookup(s, id)->0);
        assert(crate::ticket::with_changes(s[i], after) == after);
    }
    match result {
        Ok(()) => Ok(after),
        Err(e) => Err(ServiceError::from(e)),
    }
}

/// Applies an admin update to the ticket with id `id` at the current time.
/// Whether the requester is told is left to the caller (`req.notify`).
pub fn update_ticket(store: &mut TicketStore, id: u128, req: &UpdateTicketRequest) -> (r: Result<
    Ticket,
    ServiceError,
>)
    requires
        old(store).wf(),
    ensures
        final(store).wf(),
        r is Ok <==> update_error(old(store)@, id, *req) is None,
        r matches Err(e) ==> update_error(old(store)@, id, *req) == Some(e),
        r matches Ok(t) ==> lookup(old(store)@, id) matches Some(before) && t.updated_at
            matches Some(now) && update_applied(before, *req, now, t) && final(store)@ == old(
            store,
        )@.update(index_of(old(store)@, id), t),
        r matches Ok(t) ==> closure_consistent(t),
        r is Err ==> final(store)@ == old(store)@,
        final(store).last_number() == old(store).last_number(),
{
    let now = now_millis();
    update_ticket_at(store, id, req, now)
}

/// The ticket with id `id`.
pub fn get_ticket_by_id(store: &TicketStore, id: u128) -> (r: Result<Ticket, ServiceError>)
    requires
        store.wf(),
    ensures
        r is Ok <==> has_id(store@, id),
        r matches Ok(t) ==> lookup(store@, id) == Some(t),
        r matches Err(e) ==> e == ServiceError::NotFound,
{
    match repository::get_by_id(store, id) {
        Ok(t) => Ok(t),
        Err(e) => Err(ServiceError::from(e)),
    }
}

/// Removes the ticket with id `id`; `NotFound`, with nothing removed, when
/// there is none.
pub fn delete_ticket(store: &mut TicketStore, id: u128) -> (r: Result<(), ServiceError>)
    requires
        old(store).wf(),
    ensures
        final(store).wf(),
        r is Ok <==> has_id(old(store)@, id),
        r matches Err(e) ==> e == ServiceError::NotFound,
        r is Ok ==> final(store)@ == old(store)@.remove(index_of(old(store)@, id)),
        r is Err ==> final(store)@ == old(store)@,
        final(store).last_number() == old(store).last_number(),
{
    match repository::delete(store, id) {
        Ok(()) => Ok(()),
        Err(e) => Err(ServiceError::from(e)),
    }
}

/// Counts of tickets by status, their total, and when the latest ticket was
/// created.
#[derive(Clone, Copy, Debug)]
pub struct TicketStats {
    pub open: u64,
    pub pending: u64,
    pub closed: u64,
    pub total: u64,
    pub last_at: Option<i64>,
}

/// Page `query.page` of `query.limit` tickets, highest number first, among
/// those with the requested status (all when none is given), with the count
/// of those tickets and the number of pages. A page past the last one is
/// empty.
pub fn get_all_tickets(store: &TicketStore, query: &GetTicketPageQuery) -> (r: Result<
    PaginatedResponse<Ticket>,
    ServiceError,
>)
    requires
        store.wf(),
    ensures
        r is Ok <==> page_query_error(*query) is None,
        r matches Err(e) ==> page_query_error(*query) matches Some(v) && e
            == ServiceError::Validation(v),
        r matches Ok(p) ==> {
            let l = listing(store@, page_query_filter(*query));
            &&& p.items@ == page_window(l, query.page as int, query.limit as int)
            &&& p.page == query.page
            &&& p.limit == query.limit
            &&& p.total_items == l.len()
            &&& p.total_pages == ceil_div(l.len() as int, query.limit as int)
        },
        r matches Ok(p) ==> (p.page > p.total_pages ==> p.items@.len() == 0),
{
    let filter = match query.validate() {
        Ok(f) => f,
        Err(e) => return Err(ServiceError::Validation(e)),
    };
    let items = repository::get_all(store, filter, query.page, query.limit);
    let total = match filter {
        Some(st) => repository::get_count_by_status(store, st),
        None => repository::get_count(store),
    };
    proof {
        lemma_store_size(store@);
        lemma_listing_len(store@, filter);
        repository::lemma_listing_unfiltered_len(store@);
        let l = listing(store@, filter);
        if query.page > ceil_div(l.len() as int, query.limit as int) {
            repository::lemma_page_past_end_is_empty(l, query.page as int, query.limit as int);
        }
    }
    Ok(PaginatedResponse::new(items, query.page, query.limit, total as u32))
}

/// Ticket counts by status and the creation time of the latest ticket.
pub fn get_ticket_stats(store: &TicketStore) -> (r: TicketStats)
    requires
        store.wf(),
    ensures
        r.open == count_status(store@, Status::Open),
        r.pending == count_status(store@, Status::Pending),
        r.closed == count_status(store@, Status::Closed),
        r.total == r.open + r.pending + r.closed,
        r.total == store@.len(),
        r.last_at == match latest(store@) {
            Some(t) => Some(t.created_at),
            None => None::<i64>,
        },
{
    let open = repository::get_count_by_status(store, Status::Open);
    let pending = repository::get_count_by_status(store, Status::Pending);
    let closed = repository::get_count_by_status(store, Status::Closed);
    proof {
        repository::lemma_status_counts_sum(store@);
        lemma_store_size(store@);
    }
    let total = open + pending + closed;
    let last_at = match repository::get_last(store) {
        Ok(t) => Some(t.created_at),
        Err(_) => None,
    };
    TicketStats { open, pending, closed, total, last_at }
}

} // verus!
