use vstd::prelude::*;
use crate::errors::ClientError;

verus! {

/// Whether a string is a valid room id, exactly as the identifier
/// grammar of the wire protocol accepts it.
pub uninterp spec fn room_id_ok(s: Seq<char>) -> bool;

/// Whether a string is a valid event id, exactly as the identifier
/// grammar of the wire protocol accepts it.
pub uninterp spec fn event_id_ok(s: Seq<char>) -> bool;

/// Relies on ruma's `RoomId::parse`: whether a string is accepted depends
/// on its characters alone, and an accepted id is handed back unchanged.
#[verifier::external_body]
fn room_id_parse(s: &str) -> (r: Result<String, String>)
    ensures
        match r {
            Ok(id) => room_id_ok(s@) && id@ == s@,
            Err(_) => !room_id_ok(s@),
        },
{
    match ruma::RoomId::parse(s) {
        Ok(id) => Ok(id.as_str().to_owned()),
        Err(e) => Err(e.to_string()),
    }
}

/// Relies on ruma's `EventId::parse`: whether a string is accepted
/// depends on its characters alone, and an accepted id is handed back
/// unchanged.
#[verifier::external_body]
fn event_id_parse(s: &str) -> (r: Result<String, String>)
    ensures
        match r {
            Ok(id) => event_id_ok(s@) && id@ == s@,
            Err(_) => !event_id_ok(s@),
        },
{
    match ruma::EventId::parse(s) {
        Ok(id) => Ok(id.as_str().to_owned()),
        Err(e) => Err(e.to_string()),
    }
}

/// Parses an untrusted room id: a valid id comes back unchanged, a
/// malformed one is surfaced as a request-level error, never a panic.
pub fn parse_room_id(s: &str) -> (r: Result<String, ClientError>)
    ensures
        match r {
            Ok(id) => room_id_ok(s@) && id@ == s@,
            Err(_) => !room_id_ok(s@),
        },
{
    match room_id_parse(s) {
        Ok(id) => Ok(id),
        Err(msg) => Err(ClientError::new(msg)),
    }
}

/// Parses an untrusted event id: a valid id comes back unchanged, a
/// malformed one is surfaced as a request-level error, never a panic.
pub fn parse_event_id(s: &str) -> (r: Result<String, ClientError>)
    ensures
        match r {
            Ok(id) => event_id_ok(s@) && id@ == s@,
            Err(_) => !event_id_ok(s@),
        },
{
    match event_id_parse(s) {
        Ok(id) => Ok(id),
        Err(msg) => Err(ClientError::new(msg)),
    }
}

} // verus!
