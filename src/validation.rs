use vstd::prelude::*;

use crate::error::ValidationError;
use crate::text::{trimmed, trimmed_len_within, trimmed_within};

verus! {

pub const NAME_MIN: usize = 3;

pub const NAME_MAX: usize = 100;

pub const MESSAGE_MIN: usize = 10;

pub const MESSAGE_MAX: usize = 1000;

pub const NOTE_MIN: usize = 10;

pub const NOTE_MAX: usize = 1000;

/// The shape an email address must have.
pub const EMAIL_PATTERN: &'static str = "^[a-zA-Z0-9._%+-]+@[a-zA-Z0-9.-]+\\.[a-zA-Z]{2,}$";

/// An ASCII letter.
pub open spec fn is_ascii_letter(c: char) -> bool {
    ('a' as u32 <= c as u32 && c as u32 <= 'z' as u32) || ('A' as u32 <= c as u32 && c as u32
        <= 'Z' as u32)
}

/// An ASCII letter or digit.
pub open spec fn is_ascii_alnum(c: char) -> bool {
    is_ascii_letter(c) || ('0' as u32 <= c as u32 && c as u32 <= '9' as u32)
}

/// A character allowed before the `@`: `[a-zA-Z0-9._%+-]`.
pub open spec fn is_local_char(c: char) -> bool {
    is_ascii_alnum(c) || c == '.' || c == '_' || c == '%' || c == '+' || c == '-'
}

/// A character allowed after the `@`: `[a-zA-Z0-9.-]`.
pub open spec fn is_domain_char(c: char) -> bool {
    is_ascii_alnum(c) || c == '.' || c == '-'
}

/// The strings that `EMAIL_PATTERN` matches as a whole: a non-empty local
/// part, an `@` at `at`, a non-empty domain, a `.` at `dot`, and at least two
/// letters up to the end.
pub open spec fn email_shape(s: Seq<char>) -> bool {
    exists|at: int, dot: int|
        0 < at && at + 1 < dot && dot + 3 <= s.len() && #[trigger] s[at] == '@' && #[trigger] s[dot]
            == '.' && (forall|k: int| 0 <= k < at ==> is_local_char(s[k])) && (forall|k: int|
            at < k < dot ==> is_domain_char(s[k])) && (forall|k: int|
            dot < k < s.len() ==> is_ascii_letter(s[k]))
}

/// Relies on `regex::Regex::new` and `regex::Regex::is_match`: the pattern
/// compiles, and as it is anchored at both ends and made of ASCII classes,
/// it matches exactly the strings that `email_shape` describes.
#[verifier::external_body]
fn email_pattern_matches(pattern: &str, email: &str) -> (r: bool)
    requires
        pattern@ == EMAIL_PATTERN@,
    ensures
        r == email_shape(email@),
{
    match regex::Regex::new(pattern) {
        Ok(re) => re.is_match(email),
        Err(_) => false,
    }
}

/// Whether `email` has the accepted shape.
pub open spec fn email_accepted(email: Seq<char>) -> bool {
    email_shape(email)
}

/// Checks the shape of an email address.
pub fn validate_email(email: &str) -> (r: Result<(), ValidationError>)
    ensures
        r is Ok <==> email_accepted(email@),
        r matches Err(e) ==> e == ValidationError::Email,
{
    if email_pattern_matches(EMAIL_PATTERN, email) {
        Ok(())
    } else {
        Err(ValidationError::Email)
    }
}

/// Whether a name, once trimmed, has an accepted length.
pub open spec fn name_accepted(name: Seq<char>) -> bool {
    trimmed_len_within(name, NAME_MIN as nat, NAME_MAX as nat)
}

/// Whether a message, once trimmed, has an accepted length.
pub open spec fn message_accepted(message: Seq<char>) -> bool {
    trimmed_len_within(message, MESSAGE_MIN as nat, MESSAGE_MAX as nat)
}

/// Whether a note, once trimmed, has an accepted length.
pub open spec fn note_accepted(note: Seq<char>) -> bool {
    trimmed_len_within(note, NOTE_MIN as nat, NOTE_MAX as nat)
}

/// Trims a requester name and checks its length.
pub fn validate_name(name: &str) -> (r: Result<String, ValidationError>)
    ensures
        r is Ok <==> name_accepted(name@),
        r matches Ok(t) ==> t@ == trimmed(name@),
        r matches Err(e) ==> e == ValidationError::Name,
{
    match trimmed_within(name, NAME_MIN, NAME_MAX) {
        Some(t) => Ok(t),
        None => Err(ValidationError::Name),
    }
}

/// Trims a ticket message and checks its length.
pub fn validate_message(message: &str) -> (r: Result<String, ValidationError>)
    ensures
        r is Ok <==> message_accepted(message@),
        r matches Ok(t) ==> t@ == trimmed(message@),
        r matches Err(e) ==> e == ValidationError::Message,
{
    match trimmed_within(message, MESSAGE_MIN, MESSAGE_MAX) {
        Some(t) => Ok(t),
        None => Err(ValidationError::Message),
    }
}

/// Trims an admin note and checks its length.
pub fn validate_note(note: &str) -> (r: Result<String, ValidationError>)
    ensures
        r is Ok <==> note_accepted(note@),
        r matches Ok(t) ==> t@ == trimmed(note@),
        r matches Err(e) ==> e == ValidationError::Note,
{
    match trimmed_within(note, NOTE_MIN, NOTE_MAX) {
        Some(t) => Ok(t),
        None => Err(ValidationError::Note),
    }
}

} // verus!
