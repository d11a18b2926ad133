//! Ticket intake: validation, numbering, an in-memory ticket store with
//! filtered and paginated listing, the ticket lifecycle, and the admin guard.
pub mod auth;
pub mod error;
pub mod notice;
pub mod pagination;
pub mod repository;
pub mod service;
pub mod status;
pub mod text;
pub mod ticket;
pub mod validation;
