use vstd::prelude::*;

use crate::error::StoreError;
use crate::status::Status;
use crate::ticket::{Ticket, copy_text_option, with_changes};

verus! {

/// Every stored number is positive.
pub open spec fn numbers_positive(s: Seq<Ticket>) -> bool {
    forall|i: int| 0 <= i < s.len() ==> s[i].number > 0
}

/// Numbers strictly increase in the order of insertion.
pub open spec fn numbers_increasing(s: Seq<Ticket>) -> bool {
    forall|i: int, j: int| 0 <= i < j < s.len() ==> s[i].number < s[j].number
}

/// No two stored tickets share an id.
pub open spec fn ids_unique(s: Seq<Ticket>) -> bool {
    forall|i: int, j: int| 0 <= i < s.len() && 0 <= j < s.len() && i != j ==> s[i].uuid != s[j].uuid
}

/// What every ticket store holds to.
pub open spec fn store_wf(s: Seq<Ticket>) -> bool {
    numbers_positive(s) && numbers_increasing(s) && ids_unique(s)
}

/// Some stored ticket has id `id`.
pub open spec fn has_id(s: Seq<Ticket>, id: u128) -> bool {
    exists|i: int| 0 <= i < s.len() && s[i].uuid == id
}

/// The position of a ticket with id `id`.
pub open spec fn index_of(s: Seq<Ticket>, id: u128) -> int {
    choose|i: int| 0 <= i < s.len() && s[i].uuid == id
}

/// The ticket with id `id`, if any.
pub open spec fn lookup(s: Seq<Ticket>, id: u128) -> Option<Ticket> {
    if has_id(s, id) {
        Some(s[index_of(s, id)])
    } else {
        None
    }
}

/// Every stored number is at most `last`.
pub open spec fn numbers_at_most(s: Seq<Ticket>, last: u32) -> bool {
    forall|i: int| 0 <= i < s.len() ==> s[i].number <= last
}

/// Whether `t` passes the optional status filter `f`.
pub open spec fn passes(t: Ticket, f: Option<Status>) -> bool {
    match f {
        Some(st) => t.status == st,
        None => true,
    }
}

/// The tickets that pass the filter, highest number first.
pub open spec fn listing(s: Seq<Ticket>, f: Option<Status>) -> Seq<Ticket>
    decreases s.len(),
{
    if s.len() == 0 {
        Seq::empty()
    } else if passes(s.last(), f) {
        seq![s.last()] + listing(s.drop_last(), f)
    } else {
        listing(s.drop_last(), f)
    }
}

/// How many tickets have status `st`.
pub open spec fn count_status(s: Seq<Ticket>, st: Status) -> nat {
    listing(s, Some(st)).len()
}

/// The slice of `l` that page `page` (from 1) of size `limit` shows.
pub open spec fn page_window(l: Seq<Ticket>, page: int, limit: int) -> Seq<Ticket> {
    let off = (page - 1) * limit;
    let lo = if off < l.len() { off } else { l.len() as int };
    let hi = if off + limit < l.len() { off + limit } else { l.len() as int };
    l.subrange(lo, hi)
}

/// Position `i` holds the most recently created ticket, the last stored one
/// among those created at the same time.
pub open spec fn is_latest(s: Seq<Ticket>, i: int) -> bool {
    &&& 0 <= i < s.len()
    &&& forall|j: int| 0 <= j < s.len() ==> s[j].created_at <= s[i].created_at
    &&& forall|j: int| i < j < s.len() ==> s[j].created_at < s[i].created_at
}

/// The most recently created ticket, if any.
pub open spec fn latest(s: Seq<Ticket>) -> Option<Ticket> {
    if s.len() == 0 {
        None
    } else {
        Some(s[choose|i: int| is_latest(s, i)])
    }
}

/// Why the store refuses to add `t`, if it does: an id already stored, or
/// a number not above `last`, the highest number ever handed out.
pub open spec fn insert_error(s: Seq<Ticket>, last: u32, t: Ticket) -> Option<StoreError> {
    if has_id(s, t.uuid) {
        Some(StoreError::DuplicateId)
    } else if t.number <= last {
        Some(StoreError::NumberNotIncreasing)
    } else {
        None
    }
}

/// The next number, one above the highest number ever handed out, exceeds
/// every stored number; the mark only grows (see `create`, `update`,
/// `delete` and `raise_last_number`), so it also exceeds every number handed
/// out before, including those of tickets deleted since.
pub proof fn lemma_next_number_exceeds_all(store: TicketStore)
    requires
        store.wf(),
    ensures
        forall|i: int| 0 <= i < store@.len() ==> store@[i].number < store.last_number() + 1,
{
}

/// Two lookups of one id in one store give the same ticket.
pub proof fn lemma_lookup_repeatable(s: Seq<Ticket>, id: u128, t1: Ticket, t2: Ticket)
    requires
        lookup(s, id) == Some(t1),
        lookup(s, id) == Some(t2),
    ensures
        t1 == t2,
{
}

/// A page past the last one is empty.
pub proof fn lemma_page_past_end_is_empty(l: Seq<Ticket>, page: int, limit: int)
    requires
        limit >= 1,
        page > crate::pagination::ceil_div(l.len() as int, limit),
    ensures
        page_window(l, page, limit).len() == 0,
{
    let c = crate::pagination::ceil_div(l.len() as int, limit);
    crate::pagination::lemma_ceil_div_is_ceiling(l.len() as int, limit);
    assert((page - 1) * limit >= c * limit) by (nonlinear_arith)
        requires
            page - 1 >= c,
            limit >= 1,
    ;
}

/// Listing a concatenation lists the later part first.
pub proof fn lemma_listing_concat(a: Seq<Ticket>, b: Seq<Ticket>, f: Option<Status>)
    ensures
        listing(a + b, f) == listing(b, f) + listing(a, f),
    decreases b.len(),
{
    if b.len() == 0 {
        assert(a + b =~= a);
        assert(listing(b, f) + listing(a, f) =~= listing(a, f));
    } else {
        assert((a + b).drop_last() =~= a + b.drop_last());
        assert((a + b).last() == b.last());
        lemma_listing_concat(a, b.drop_last(), f);
        if passes(b.last(), f) {
            assert(listing(a + b, f) =~= listing(b, f) + listing(a, f));
        } else {
            assert(listing(a + b, f) =~= listing(b, f) + listing(a, f));
        }
    }
}

/// A listing holds no more tickets than the store.
pub proof fn lemma_listing_len(s: Seq<Ticket>, f: Option<Status>)
    ensures
        listing(s, f).len() <= s.len(),
    decreases s.len(),
{
    if s.len() > 0 {
        lemma_listing_len(s.drop_last(), f);
    }
}

/// Without a filter, the listing holds every ticket.
pub proof fn lemma_listing_unfiltered_len(s: Seq<Ticket>)
    ensures
        listing(s, None).len() == s.len(),
    decreases s.len(),
{
    if s.len() > 0 {
        lemma_listing_unfiltered_len(s.drop_last());
    }
}

/// Every ticket has exactly one of the three statuses, so the three counts
/// add up to the number of tickets.
pub proof fn lemma_status_counts_sum(s: Seq<Ticket>)
    ensures
        count_status(s, Status::Open) + count_status(s, Status::Pending) + count_status(
            s,
            Status::Closed,
        ) == s.len(),
    decreases s.len(),
{
    if s.len() > 0 {
        lemma_status_counts_sum(s.drop_last());
    }
}

/// A well-formed store holds at most `u32::MAX` tickets: each number is
/// at least its position plus one.
pub proof fn lemma_store_size(s: Seq<Ticket>)
    requires
        store_wf(s),
    ensures
        s.len() <= u32::MAX,
        forall|i: int| 0 <= i < s.len() ==> s[i].number >= i + 1,
{
    assert forall|i: int| 0 <= i < s.len() implies s[i].number >= i + 1 by {
        lemma_number_at_least_position(s, i);
    }
    if s.len() > u32::MAX {
        let i = u32::MAX as int;
        assert(s[i].number >= i + 1);
    }
}

proof fn lemma_number_at_least_position(s: Seq<Ticket>, i: int)
    requires
        store_wf(s),
        0 <= i < s.len(),
    ensures
        s[i].number >= i + 1,
    decreases i,
{
    if i > 0 {
        lemma_number_at_least_position(s, i - 1);
        assert(s[i - 1].number < s[i].number);
    }
}

/// An in-memory ticket store, kept in order of insertion.
pub struct TicketStore {
    tickets: Vec<Ticket>,
    last_number: u32,
}

impl View for TicketStore {
    type V = Seq<Ticket>;

    closed spec fn view(&self) -> Seq<Ticket> {
        self.tickets@
    }
}

impl TicketStore {
    /// The highest number ever handed out; 0 before the first.
    pub closed spec fn last_number(&self) -> u32 {
        self.last_number
    }

    /// The store's invariant.
    pub open spec fn wf(&self) -> bool {
        store_wf(self@) && numbers_at_most(self@, self.last_number())
    }

    /// An empty store.
    pub fn new() -> (r: TicketStore)
        ensures
            r.wf(),
            r@ == Seq::<Ticket>::empty(),
            r.last_number() == 0,
    {
        TicketStore { tickets: Vec::new(), last_number: 0 }
    }

    /// Raises the mark of the highest number handed out to `n`, when it is
    /// lower; the tickets are left as they are.
    pub fn raise_last_number(&mut self, n: u32)
        requires
            old(self).wf(),
        ensures
            final(self).wf(),
            final(self)@ == old(self)@,
            final(self).last_number() == if n > old(self).last_number() {
                n
            } else {
                old(self).last_number()
            },
    {
        if n > self.last_number {
            self.last_number = n;
        }
    }

    /// Position of the ticket with id `id`.
    fn position_of(&self, id: u128) -> (r: Option<usize>)
        requires
            self.wf(),
        ensures
            r matches Some(i) ==> i < self@.len() && self@[i as int].uuid == id,
            r is None <==> !has_id(self@, id),
    {
        let n = self.tickets.len();
        let mut i: usize = 0;
        while i < n
            invariant
                n == self@.len(),
                i <= n,
                forall|k: int| 0 <= k < i ==> self@[k].uuid != id,
            decreases n - i,
        {
            if self.tickets[i].uuid == id {
                return Some(i);
            }
            i = i + 1;
        }
        None
    }
}

/// In a well-formed store, the position of an id is the one `index_of` picks.
proof fn lemma_index_of(s: Seq<Ticket>, id: u128, i: int)
    requires
        store_wf(s),
        0 <= i < s.len(),
        s[i].uuid == id,
    ensures
        has_id(s, id),
        index_of(s, id) == i,
        lookup(s, id) == Some(s[i]),
{
    assert(has_id(s, id));
}

/// The ticket with id `id`; `NotFound` when there is none.
pub fn get_by_id(store: &TicketStore, id: u128) -> (r: Result<Ticket, StoreError>)
    requires
        store.wf(),
    ensures
        r is Ok <==> has_id(store@, id),
        r matches Ok(t) ==> lookup(store@, id) == Some(t),
        r matches Err(e) ==> e == StoreError::NotFound,
{
    match store.position_of(id) {
        Some(i) => {
            proof {
                lemma_index_of(store@, id, i as int);
            }
            Ok(store.tickets[i].duplicate())
        },
        None => Err(StoreError::NotFound),
    }
}

/// Page `page` (from 1) of `limit` tickets among those that pass the status
/// filter, highest number first.
pub fn get_all(store: &TicketStore, status: Option<Status>, page: u32, limit: u32) -> (r: Vec<
    Ticket,
>)
    requires
        store.wf(),
        page >= 1,
        1 <= limit <= 100,
    ensures
        r@ == page_window(listing(store@, status), page as int, limit as int),
{
    let ghost s = store@;
    let n = store.tickets.len();
    assert((page - 1) * limit <= 0xFFFF_FFFFu64 * 100) by (nonlinear_arith)
        requires
            page >= 1,
            limit <= 100,
            page <= 0xFFFF_FFFFu64,
    ;
    let off: u64 = (page as u64 - 1) * (limit as u64);
    let end: u64 = off + limit as u64;
    let mut out: Vec<Ticket> = Vec::new();
    let mut count: u64 = 0;
    let mut i: usize = n;
    assert(s.subrange(n as int, n as int) =~= Seq::<Ticket>::empty());
    while i > 0
        invariant
            s == store@,
            n == s.len(),
            i <= n,
            off == (page - 1) * limit,
            end == off + limit,
            count == listing(s.subrange(i as int, n as int), status).len(),
            count <= n - i,
            out@ == page_window(
                listing(s.subrange(i as int, n as int), status),
                page as int,
                limit as int,
            ),
        decreases i,
    {
        let ghost before = listing(s.subrange(i as int, n as int), status);
        let t = &store.tickets[i - 1];
        let pass = match status {
            Some(st) => t.status == st,
            None => true,
        };
        proof {
            let one = seq![s[i - 1]];
            assert(s.subrange(i - 1, n as int) =~= one + s.subrange(i as int, n as int));
            lemma_listing_concat(one, s.subrange(i as int, n as int), status);
            assert(one.drop_last() =~= Seq::<Ticket>::empty());
            assert(one.last() == s[i - 1]);
            assert(listing(Seq::<Ticket>::empty(), status) =~= Seq::<Ticket>::empty());
            assert(pass == passes(s[i - 1], status));
            if pass {
                assert(listing(one, status) =~= seq![s[i - 1]]);
            } else {
                assert(listing(one, status) =~= Seq::<Ticket>::empty());
            }
        }
        if pass {
            proof {
                assert(listing(s.subrange(i - 1, n as int), status) =~= before.push(s[i - 1]));
            }
            if off <= count && count < end {
                out.push(t.duplicate());
            }
            count = count + 1;
            proof {
                let after = before.push(s[i - 1]);
                assert(out@ =~= page_window(after, page as int, limit as int));
            }
        } else {
            proof {
                assert(listing(s.subrange(i - 1, n as int), status) =~= before);
            }
        }
        i = i - 1;
    }
    assert(s.subrange(0, n as int) =~= s);
    out
}

/// How many tickets are stored.
pub fn get_count(store: &TicketStore) -> (r: u64)
    ensures
        r == store@.len(),
{
    store.tickets.len() as u64
}

/// How many stored tickets have status `status`.
pub fn get_count_by_status(store: &TicketStore, status: Status) -> (r: u64)
    requires
        store.wf(),
    ensures
        r == count_status(store@, status),
{
    let ghost s = store@;
    let n = store.tickets.len();
    let mut count: u64 = 0;
    let mut i: usize = 0;
    while i < n
        invariant
            s == store@,
            n == s.len(),
            i <= n,
            count == count_status(s.subrange(0, i as int), status),
            count <= i,
        decreases n - i,
    {
        proof {
            assert(s.subrange(0, i + 1).drop_last() =~= s.subrange(0, i as int));
            assert(s.subrange(0, i + 1).last() == s[i as int]);
            lemma_listing_len(s.subrange(0, i as int), Some(status));
        }
        if store.tickets[i].status == status {
            count = count + 1;
        }
        i = i + 1;
    }
    assert(s.subrange(0, n as int) =~= s);
    count
}

/// The most recently created ticket; `NotFound` for an empty store.
pub fn get_last(store: &TicketStore) -> (r: Result<Ticket, StoreError>)
    requires
        store.wf(),
    ensures
        r is Ok <==> store@.len() > 0,
        r matches Ok(t) ==> latest(store@) == Some(t),
        r matches Err(e) ==> e == StoreError::NotFound,
{
    let ghost s = store@;
    let n = store.tickets.len();
    if n == 0 {
        return Err(StoreError::NotFound);
    }
    let mut best: usize = 0;
    let mut i: usize = 1;
    while i < n
        invariant
            s == store@,
            n == s.len(),
            1 <= i <= n,
            best < i,
            forall|j: int| 0 <= j < i ==> s[j].created_at <= s[best as int].created_at,
            forall|j: int| best < j < i ==> s[j].created_at < s[best as int].created_at,
        decreases n - i,
    {
        if store.tickets[i].created_at >= store.tickets[best].created_at {
            best = i;
        }
        i = i + 1;
    }
    proof {
        assert(is_latest(s, best as int));
        let c = choose|k: int| is_latest(s, k);
        assert(is_latest(s, c));
        if c < best {
            assert(s[best as int].created_at < s[c].created_at);
        } else if c > best {
            assert(s[c].created_at < s[best as int].created_at);
        }
    }
    Ok(store.tickets[best].duplicate())
}

/// The highest number ever handed out; none before the first.
pub fn get_max_number(store: &TicketStore) -> (r: Option<u32>)
    ensures
        r == if store.last_number() == 0 {
            None
        } else {
            Some(store.last_number())
        },
{
    if store.last_number == 0 {
        None
    } else {
        Some(store.last_number)
    }
}

/// Adds a fully formed ticket at the end of the store, and marks its number
/// as the highest handed out. Refused, with the store unchanged, for a
/// duplicate id or a number that does not exceed every number handed out.
pub fn create(store: &mut TicketStore, ticket: Ticket) -> (r: Result<(), StoreError>)
    requires
        old(store).wf(),
    ensures
        final(store).wf(),
        r is Ok <==> insert_error(old(store)@, old(store).last_number(), ticket) is None,
        r matches Err(e) ==> insert_error(old(store)@, old(store).last_number(), ticket) == Some(e),
        r is Ok ==> final(store)@ == old(store)@.push(ticket) && final(store).last_number()
            == ticket.number,
        r is Err ==> final(store)@ == old(store)@ && final(store).last_number() == old(
            store,
        ).last_number(),
{
    let ghost s = store@;
    if store.position_of(ticket.uuid).is_some() {
        return Err(StoreError::DuplicateId);
    }
    if ticket.number <= store.last_number {
        return Err(StoreError::NumberNotIncreasing);
    }
    let number = ticket.number;
    store.tickets.push(ticket);
    store.last_number = number;
    proof {
        let s2 = store@;
        assert forall|i: int, j: int| 0 <= i < j < s2.len() implies s2[i].number < s2[j].number by {

        }
        assert forall|i: int, j: int|
            0 <= i < s2.len() && 0 <= j < s2.len() && i != j implies s2[i].uuid != s2[j].uuid by {
            if i == s.len() {
                assert(!(0 <= j < s.len() && s[j].uuid == ticket.uuid));
            }
            if j == s.len() {
                assert(!(0 <= i < s.len() && s[i].uuid == ticket.uuid));
            }
        }
    }
    Ok(())
}

/// Rewrites the mutable fields (note, status, update and closing times) of
/// the ticket with id `id` from `changes`; `NotFound` when there is none.
pub fn update(store: &mut TicketStore, id: u128, changes: &Ticket) -> (r: Result<(), StoreError>)
    requires
        old(store).wf(),
    ensures
        final(store).wf(),
        r is Ok <==> has_id(old(store)@, id),
        r matches Err(e) ==> e == StoreError::NotFound,
        r is Ok ==> final(store)@ == old(store)@.update(
            index_of(old(store)@, id),
            with_changes(old(store)@[index_of(old(store)@, id)], *changes),
        ),
        r is Err ==> final(store)@ == old(store)@,
        final(store).last_number() == old(store).last_number(),
{
    let ghost s = store@;
    match store.position_of(id) {
        Some(i) => {
            proof {
                lemma_index_of(s, id, i as int);
            }
            let mut t = store.tickets[i].duplicate();
            t.note = copy_text_option(&changes.note);
            t.status = changes.status;
            t.updated_at = changes.updated_at;
            t.closed_at = changes.closed_at;
            store.tickets.set(i, t);
            proof {
                let s2 = store@;
                assert forall|k: int| 0 <= k < s.len() implies s2[k].number == s[k].number
                    && s2[k].uuid == s[k].uuid by {}
            }
            Ok(())
        },
        None => Err(StoreError::NotFound),
    }
}

/// Removes the ticket with id `id`; `NotFound` when there is none.
pub fn delete(store: &mut TicketStore, id: u128) -> (r: Result<(), StoreError>)
    requires
        old(store).wf(),
    ensures
        final(store).wf(),
        r is Ok <==> has_id(old(store)@, id),
        r matches Err(e) ==> e == StoreError::NotFound,
        r is Ok ==> final(store)@ == old(store)@.remove(index_of(old(store)@, id)),
        r is Err ==> final(store)@ == old(store)@,
        final(store).last_number() == old(store).last_number(),
{
    let ghost s = store@;
    match store.position_of(id) {
        Some(i) => {
            proof {
                lemma_index_of(s, id, i as int);
            }
            store.tickets.remove(i);
            proof {
                let s2 = store@;
                assert forall|k: int| 0 <= k < s2.len() implies s2[k] == (if k < i {
                    s[k]
                } else {
                    s[k + 1]
                }) by {}
                assert forall|a: int, b: int| 0 <= a < b < s2.len() implies s2[a].number
                    < s2[b].number by {
                    let a0 = if a < i { a } else { a + 1 };
                    let b0 = if b < i { b } else { b + 1 };
                    assert(s[a0].number < s[b0].number);
                }
                assert forall|a: int, b: int|
                    0 <= a < s2.len() && 0 <= b < s2.len() && a != b implies s2[a].uuid
                    != s2[b].uuid by {
                    let a0 = if a < i { a } else { a + 1 };
                    let b0 = if b < i { b } else { b + 1 };
                    assert(s[a0].uuid != s[b0].uuid);
                }
            }
            Ok(())
        },
        None => Err(StoreError::NotFound),
    }
}

} // verus!
