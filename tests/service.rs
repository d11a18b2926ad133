use ticketing::auth::AdminAuth;
use ticketing::error::{ServiceError, StoreError, ValidationError};
use ticketing::pagination::GetTicketPageQuery;
use ticketing::repository::{self, TicketStore};
use ticketing::service::{
    create_ticket, create_ticket_at, delete_ticket, get_all_tickets, get_ticket_by_id,
    get_ticket_stats, update_ticket, update_ticket_at, CreateTicketRequest, UpdateTicketRequest,
};
use ticketing::status::Status;
use ticketing::ticket::Ticket;

fn request(name: &str, email: &str, message: &str) -> CreateTicketRequest {
    CreateTicketRequest {
        name: name.to_string(),
        email: email.to_string(),
        message: message.to_string(),
    }
}

fn valid_request() -> CreateTicketRequest {
    request("Ann Lee", "ann@example.com", "My printer is broken.")
}

fn page_query(page: u32, limit: u32, status: Option<&str>) -> GetTicketPageQuery {
    GetTicketPageQuery {
        page,
        limit,
        status: status.map(|s| s.to_string()),
    }
}

fn filled_store(n: usize) -> TicketStore {
    let mut store = TicketStore::new();
    for i in 0..n {
        let clean = valid_request().validate().unwrap();
        create_ticket_at(&mut store, clean, 1000 + i as u128, 10 * i as i64).unwrap();
    }
    store
}

#[test]
fn round_trip_create_then_close() {
    let mut store = TicketStore::new();
    let t = create_ticket(&mut store, valid_request()).unwrap();
    assert_eq!(t.status, Status::Open);
    assert_eq!(t.number, 1);
    assert_eq!(t.note, None);
    assert_eq!(t.name, "Ann Lee");
    assert_eq!(t.email, "ann@example.com");
    assert_eq!(t.message, "My printer is broken.");
    assert_eq!(t.updated_at, None);
    assert_eq!(t.closed_at, None);

    let req = UpdateTicketRequest {
        note: None,
        status: Some("closed".to_string()),
        notify: false,
    };
    assert_eq!(ticketing::notice::notice_for_update(req.notify), None);
    let u = update_ticket(&mut store, t.uuid, &req).unwrap();
    assert_eq!(u.status, Status::Closed);
    assert!(u.closed_at.is_some());
    assert!(u.updated_at.is_some());
    assert_eq!(u.closed_at, u.updated_at);
    let again = get_ticket_by_id(&store, t.uuid).unwrap();
    assert_eq!(again.status, Status::Closed);
    assert_eq!(again.closed_at, u.closed_at);
}

#[test]
fn numbers_follow_the_highest() {
    let mut store = TicketStore::new();
    let a = create_ticket(&mut store, valid_request()).unwrap();
    let b = create_ticket(&mut store, valid_request()).unwrap();
    let c = create_ticket(&mut store, valid_request()).unwrap();
    assert_eq!((a.number, b.number, c.number), (1, 2, 3));
    delete_ticket(&mut store, b.uuid).unwrap();
    let d = create_ticket(&mut store, valid_request()).unwrap();
    assert_eq!(d.number, 4);
    delete_ticket(&mut store, d.uuid).unwrap();
    delete_ticket(&mut store, c.uuid).unwrap();
    let e = create_ticket(&mut store, valid_request()).unwrap();
    assert_eq!(e.number, 5);
}

#[test]
fn numbers_are_never_reassigned() {
    let mut store = TicketStore::new();
    let a = create_ticket(&mut store, valid_request()).unwrap();
    assert_eq!(a.number, 1);
    delete_ticket(&mut store, a.uuid).unwrap();
    assert_eq!(repository::get_count(&store), 0);
    assert_eq!(repository::get_max_number(&store), Some(1));
    let b = create_ticket(&mut store, valid_request()).unwrap();
    assert_eq!(b.number, 2);
}

#[test]
fn restored_mark_sets_the_next_number() {
    let mut store = filled_store(2);
    store.raise_last_number(40);
    assert_eq!(repository::get_max_number(&store), Some(40));
    store.raise_last_number(7);
    assert_eq!(repository::get_max_number(&store), Some(40));
    let t = create_ticket(&mut store, valid_request()).unwrap();
    assert_eq!(t.number, 41);
    let mut stale = t.clone();
    stale.uuid = 5;
    stale.number = 30;
    assert_eq!(repository::create(&mut store, stale), Err(StoreError::NumberNotIncreasing));
}

#[test]
fn created_ticket_is_trimmed() {
    let mut store = TicketStore::new();
    let t = create_ticket(
        &mut store,
        request("  Ann Lee\t", "ann@example.com", "\n My printer is broken.  "),
    )
    .unwrap();
    assert_eq!(t.name, "Ann Lee");
    assert_eq!(t.message, "My printer is broken.");
}

#[test]
fn name_length_boundary() {
    let mut store = TicketStore::new();
    let r = create_ticket(&mut store, request("Al", "al@example.com", "0123456789"));
    assert_eq!(r.unwrap_err(), ServiceError::Validation(ValidationError::Name));
    assert!(create_ticket(&mut store, request("Ali", "al@example.com", "0123456789")).is_ok());
    let long = "n".repeat(101);
    let r = create_ticket(&mut store, request(&long, "al@example.com", "0123456789"));
    assert_eq!(r.unwrap_err(), ServiceError::Validation(ValidationError::Name));
    let longest = "n".repeat(100);
    assert!(create_ticket(&mut store, request(&longest, "al@example.com", "0123456789")).is_ok());
    let r = create_ticket(&mut store, request("   Al   ", "al@example.com", "0123456789"));
    assert_eq!(r.unwrap_err(), ServiceError::Validation(ValidationError::Name));
}

#[test]
fn message_length_boundary() {
    let mut store = TicketStore::new();
    let r = create_ticket(&mut store, request("Ann", "ann@example.com", "123456789"));
    assert_eq!(r.unwrap_err(), ServiceError::Validation(ValidationError::Message));
    assert!(create_ticket(&mut store, request("Ann", "ann@example.com", "1234567890")).is_ok());
    let long = "m".repeat(1001);
    let r = create_ticket(&mut store, request("Ann", "ann@example.com", &long));
    assert_eq!(r.unwrap_err(), ServiceError::Validation(ValidationError::Message));
    let longest = "m".repeat(1000);
    assert!(create_ticket(&mut store, request("Ann", "ann@example.com", &longest)).is_ok());
    assert_eq!(repository::get_count(&store), 2);
}

#[test]
fn email_shape_is_checked() {
    let mut store = TicketStore::new();
    for bad in ["", "ann", "ann@example", "ann@example.c", "@example.com", "ann@@example.com", "ann lee@example.com"] {
        let r = create_ticket(&mut store, request("Ann Lee", bad, "My printer is broken."));
        assert_eq!(r.unwrap_err(), ServiceError::Validation(ValidationError::Email), "{}", bad);
    }
    for good in ["ann@example.com", "a.b+c@mail.example.org", "x_y%z@d-e.io"] {
        assert!(create_ticket(&mut store, request("Ann Lee", good, "My printer is broken.")).is_ok());
    }
    assert_eq!(repository::get_count(&store), 3);
}

#[test]
fn name_is_checked_before_email() {
    let mut store = TicketStore::new();
    let r = create_ticket(&mut store, request("A", "bad", "short"));
    assert_eq!(r.unwrap_err(), ServiceError::Validation(ValidationError::Name));
    let r = create_ticket(&mut store, request("Ann", "bad", "short"));
    assert_eq!(r.unwrap_err(), ServiceError::Validation(ValidationError::Email));
}

#[test]
fn failed_creation_stores_nothing() {
    let mut store = filled_store(2);
    let r = create_ticket(&mut store, request("A", "ann@example.com", "My printer is broken."));
    assert!(r.is_err());
    assert_eq!(repository::get_count(&store), 2);
    assert_eq!(repository::get_max_number(&store), Some(2));
}

#[test]
fn duplicate_id_is_refused() {
    let mut store = TicketStore::new();
    let clean = valid_request().validate().unwrap();
    create_ticket_at(&mut store, clean.clone(), 7, 0).unwrap();
    let r = create_ticket_at(&mut store, clean, 7, 1);
    assert_eq!(r.unwrap_err(), ServiceError::Store(StoreError::DuplicateId));
    assert_eq!(repository::get_count(&store), 1);
}

#[test]
fn exhausted_numbers_are_refused() {
    let mut store = TicketStore::new();
    let base = create_ticket_at(&mut store, valid_request().validate().unwrap(), 1, 0).unwrap();
    let mut top = base.clone();
    top.uuid = 2;
    top.number = u32::MAX;
    repository::create(&mut store, top).unwrap();
    let r = create_ticket_at(&mut store, valid_request().validate().unwrap(), 3, 0);
    assert_eq!(r.unwrap_err(), ServiceError::Store(StoreError::NumbersExhausted));
}

#[test]
fn store_refuses_a_number_not_above_the_highest() {
    let mut store = filled_store(3);
    let mut t: Ticket = repository::get_last(&store).unwrap();
    t.uuid = 99;
    t.number = 3;
    assert_eq!(repository::create(&mut store, t.clone()), Err(StoreError::NumberNotIncreasing));
    t.number = 0;
    assert_eq!(repository::create(&mut store, t.clone()), Err(StoreError::NumberNotIncreasing));
    t.number = 10;
    assert_eq!(repository::create(&mut store, t), Ok(()));
    assert_eq!(repository::get_max_number(&store), Some(10));
}

#[test]
fn get_is_repeatable() {
    let store = filled_store(3);
    let a = get_ticket_by_id(&store, 1001).unwrap();
    let b = get_ticket_by_id(&store, 1001).unwrap();
    assert_eq!(format!("{:?}", a), format!("{:?}", b));
    assert_eq!(a.number, 2);
}

#[test]
fn get_missing_is_not_found() {
    let store = filled_store(1);
    assert_eq!(get_ticket_by_id(&store, 5).unwrap_err(), ServiceError::NotFound);
    assert_eq!(repository::get_by_id(&store, 5).unwrap_err(), StoreError::NotFound);
}

#[test]
fn delete_missing_is_not_found() {
    let mut store = filled_store(2);
    assert_eq!(delete_ticket(&mut store, 42), Err(ServiceError::NotFound));
    assert_eq!(repository::get_count(&store), 2);
    assert_eq!(delete_ticket(&mut store, 1000), Ok(()));
    assert_eq!(delete_ticket(&mut store, 1000), Err(ServiceError::NotFound));
    assert_eq!(repository::get_count(&store), 1);
}

#[test]
fn update_applies_status_and_note() {
    let mut store = filled_store(2);
    let req = UpdateTicketRequest {
        note: Some("  Called the requester back.  ".to_string()),
        status: Some("pending".to_string()),
        notify: true,
    };
    let t = update_ticket_at(&mut store, 1001, &req, 500).unwrap();
    assert_eq!(t.status, Status::Pending);
    assert_eq!(t.note.as_deref(), Some("Called the requester back."));
    assert_eq!(t.updated_at, Some(500));
    assert_eq!(t.closed_at, None);
    assert_eq!(t.number, 2);
    assert_eq!(t.created_at, 10);

    let keep = UpdateTicketRequest { note: None, status: None, notify: false };
    let t = update_ticket_at(&mut store, 1001, &keep, 600).unwrap();
    assert_eq!(t.status, Status::Pending);
    assert_eq!(t.note.as_deref(), Some("Called the requester back."));
    assert_eq!(t.updated_at, Some(600));

    let close = UpdateTicketRequest { note: None, status: Some("closed".to_string()), notify: false };
    let t = update_ticket_at(&mut store, 1001, &close, 700).unwrap();
    assert_eq!(t.closed_at, Some(700));
    let reopen = UpdateTicketRequest { note: None, status: Some("open".to_string()), notify: false };
    let t = update_ticket_at(&mut store, 1001, &reopen, 800).unwrap();
    assert_eq!(t.status, Status::Open);
    assert_eq!(t.closed_at, None);
    let stored = get_ticket_by_id(&store, 1001).unwrap();
    assert_eq!(stored.updated_at, Some(800));
    assert_eq!(stored.closed_at, None);
}

#[test]
fn update_errors() {
    let mut store = filled_store(1);
    let bad_status = UpdateTicketRequest { note: None, status: Some("done".to_string()), notify: false };
    assert_eq!(
        update_ticket_at(&mut store, 1000, &bad_status, 1).unwrap_err(),
        ServiceError::Validation(ValidationError::Status)
    );
    assert_eq!(update_ticket_at(&mut store, 9, &bad_status, 1).unwrap_err(), ServiceError::NotFound);
    let short_note = UpdateTicketRequest { note: Some("too short".to_string()), status: None, notify: false };
    assert_eq!(
        update_ticket_at(&mut store, 1000, &short_note, 1).unwrap_err(),
        ServiceError::Validation(ValidationError::Note)
    );
    let long_note = UpdateTicketRequest { note: Some("x".repeat(1001)), status: None, notify: false };
    assert_eq!(
        update_ticket_at(&mut store, 1000, &long_note, 1).unwrap_err(),
        ServiceError::Validation(ValidationError::Note)
    );
    let t = get_ticket_by_id(&store, 1000).unwrap();
    assert_eq!(t.updated_at, None);
    assert_eq!(t.status, Status::Open);
}

#[test]
fn listing_pages_highest_number_first() {
    let store = filled_store(25);
    let p1 = get_all_tickets(&store, &page_query(1, 10, None)).unwrap();
    let numbers: Vec<u32> = p1.items.iter().map(|t| t.number).collect();
    assert_eq!(numbers, (16..=25).rev().collect::<Vec<u32>>());
    assert_eq!(p1.total_items, 25);
    assert_eq!(p1.total_pages, 3);
    assert_eq!((p1.page, p1.limit), (1, 10));
    let p3 = get_all_tickets(&store, &page_query(3, 10, None)).unwrap();
    let numbers: Vec<u32> = p3.items.iter().map(|t| t.number).collect();
    assert_eq!(numbers, vec![5, 4, 3, 2, 1]);
    let p4 = get_all_tickets(&store, &page_query(4, 10, None)).unwrap();
    assert!(p4.items.is_empty());
    assert_eq!(p4.total_pages, 3);
    let big = get_all_tickets(&store, &page_query(u32::MAX, 100, None)).unwrap();
    assert!(big.items.is_empty());
}

#[test]
fn listing_filters_by_status() {
    let mut store = filled_store(6);
    for id in [1000u128, 1002, 1005] {
        let req = UpdateTicketRequest { note: None, status: Some("closed".to_string()), notify: false };
        update_ticket_at(&mut store, id, &req, 99).unwrap();
    }
    let closed = get_all_tickets(&store, &page_query(1, 2, Some("closed"))).unwrap();
    let numbers: Vec<u32> = closed.items.iter().map(|t| t.number).collect();
    assert_eq!(numbers, vec![6, 3]);
    assert_eq!(closed.total_items, 3);
    assert_eq!(closed.total_pages, 2);
    let open = get_all_tickets(&store, &page_query(1, 100, Some("open"))).unwrap();
    let numbers: Vec<u32> = open.items.iter().map(|t| t.number).collect();
    assert_eq!(numbers, vec![5, 4, 2]);
    let pending = get_all_tickets(&store, &page_query(1, 10, Some("pending"))).unwrap();
    assert!(pending.items.is_empty());
    assert_eq!(pending.total_pages, 0);
}

#[test]
fn listing_errors() {
    let store = filled_store(1);
    let e = |q: GetTicketPageQuery| get_all_tickets(&store, &q).err();
    assert_eq!(e(page_query(0, 10, None)), Some(ServiceError::Validation(ValidationError::Page)));
    assert_eq!(e(page_query(1, 0, None)), Some(ServiceError::Validation(ValidationError::Limit)));
    assert_eq!(e(page_query(1, 101, None)), Some(ServiceError::Validation(ValidationError::Limit)));
    assert_eq!(e(page_query(1, 100, None)), None);
    assert_eq!(
        e(page_query(1, 10, Some("Open"))),
        Some(ServiceError::Validation(ValidationError::Status))
    );
}

#[test]
fn empty_store_listing_and_stats() {
    let store = TicketStore::new();
    let p = get_all_tickets(&store, &page_query(1, 10, None)).unwrap();
    assert!(p.items.is_empty());
    assert_eq!((p.total_items, p.total_pages), (0, 0));
    let s = get_ticket_stats(&store);
    assert_eq!((s.open, s.pending, s.closed, s.total), (0, 0, 0, 0));
    assert_eq!(s.last_at, None);
    assert_eq!(repository::get_last(&store).unwrap_err(), StoreError::NotFound);
    assert_eq!(repository::get_max_number(&store), None);
}

#[test]
fn stats_count_by_status() {
    let mut store = filled_store(5);
    let close = UpdateTicketRequest { note: None, status: Some("closed".to_string()), notify: false };
    let pend = UpdateTicketRequest { note: None, status: Some("pending".to_string()), notify: false };
    update_ticket_at(&mut store, 1000, &close, 1).unwrap();
    update_ticket_at(&mut store, 1001, &pend, 1).unwrap();
    update_ticket_at(&mut store, 1002, &pend, 1).unwrap();
    let s = get_ticket_stats(&store);
    assert_eq!((s.open, s.pending, s.closed, s.total), (2, 2, 1, 5));
    assert_eq!(s.last_at, Some(40));
}

#[test]
fn last_ticket_is_latest_created() {
    let mut store = TicketStore::new();
    let clean = valid_request().validate().unwrap();
    create_ticket_at(&mut store, clean.clone(), 1, 300).unwrap();
    create_ticket_at(&mut store, clean.clone(), 2, 100).unwrap();
    create_ticket_at(&mut store, clean.clone(), 3, 300).unwrap();
    create_ticket_at(&mut store, clean, 4, 200).unwrap();
    let last = repository::get_last(&store).unwrap();
    assert_eq!(last.uuid, 3);
    assert_eq!(get_ticket_stats(&store).last_at, Some(300));
}

#[test]
fn unauthorized_listing_never_reaches_the_store() {
    let guard = AdminAuth::new("s3cret".to_string());
    let protected = guard.new_transform(filled_store(3));
    assert_eq!(protected.call(None).err(), Some(ServiceError::Unauthorized));
    assert_eq!(protected.call(Some("wrong")).err(), Some(ServiceError::Unauthorized));
    assert_eq!(protected.call(Some("s3cret ")).err(), Some(ServiceError::Unauthorized));
    let store = protected.call(Some("s3cret")).unwrap();
    let page = get_all_tickets(store, &page_query(1, 10, None)).unwrap();
    assert_eq!(page.total_items, 3);
}

#[test]
fn guarded_changes_need_the_token() {
    let guard = AdminAuth::new("s3cret".to_string());
    let mut protected = guard.new_transform(filled_store(2));
    assert_eq!(protected.call_mut(Some("nope")).err(), Some(ServiceError::Unauthorized));
    let store = protected.call_mut(Some("s3cret")).unwrap();
    delete_ticket(store, 1000).unwrap();
    assert_eq!(repository::get_count(protected.call(Some("s3cret")).unwrap()), 1);
    assert_eq!(guard.authorize(Some("s3cret")), Ok(()));
    assert_eq!(guard.authorize(None), Err(ServiceError::Unauthorized));
}
