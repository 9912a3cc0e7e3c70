//! The replies of the events service.

use vstd::prelude::*;
use crate::json::{view_members, Json, JsonNumber};
use crate::replies::{
    count_json, count_member, field_json, field_or_null, join_members, list_json, list_v,
    meta_json, members1, members2, members3, reply_body, reply_of, str_json, str_v,
    success_meta, total_member, Reply,
};

verus! {

/// The events created and those refused: 201.
pub fn batch_create_events_dto(valid_events: &[Json], invalid_events: &[Json]) -> (r: Reply)
    ensures
        r.status == 201,
        r.cursor is None,
        r.body@ == reply_body(
            success_meta("Events created."@, seq![count_member(valid_events@.len())]),
            seq![("created_events"@, list_v(valid_events@)), ("failed_to_create"@, list_v(invalid_events@))],
        ),
{
    let extra = members1("count", count_json(valid_events.len()));
    let meta = meta_json("Events created.", extra);
    let rest = members2("created_events", list_json(valid_events), "failed_to_create", list_json(invalid_events));
    reply_of(201, None, meta, rest)
}

/// An account's events for another service: 200.
pub fn internal_get_events_dto(events: &[Json], total: i64) -> (r: Reply)
    ensures
        r.status == 200,
        r.cursor is None,
        r.body@ == reply_body(
            success_meta("Events found."@, seq![count_member(events@.len()), total_member(total as int)]),
            seq![("events"@, list_v(events@))],
        ),
{
    let extra = members2("count", count_json(events.len()), "total", Json::Number(JsonNumber::Int(total)));
    let meta = meta_json("Events found.", extra);
    let rest = members1("events", list_json(events));
    reply_of(200, None, meta, rest)
}

/// The event found: 200.
pub fn get_event_dto(event: &Json) -> (r: Reply)
    ensures
        r.status == 200,
        r.cursor is None,
        r.body@ == reply_body(
            success_meta("Event found."@, seq![]),
            seq![("event"@, event@)],
        ),
{
    let extra: Vec<(String, Json)> = Vec::new();
    let meta = meta_json("Event found.", extra);
    let rest = members1("event", event.deep_clone());
    reply_of(200, None, meta, rest)
}

/// An account's events were deleted: 200.
pub fn internal_delete_events_dto() -> (r: Reply)
    ensures
        r.status == 200,
        r.cursor is None,
        r.body@ == reply_body(
            success_meta("All Events associated with account deleted."@, seq![]),
            seq![],
        ),
{
    let extra: Vec<(String, Json)> = Vec::new();
    let meta = meta_json("All Events associated with account deleted.", extra);
    let rest: Vec<(String, Json)> = Vec::new();
    reply_of(200, None, meta, rest)
}

/// The page of custom event types found: 200, with the `cursor` of the next page.
pub fn get_event_types_dto(event_types: &[Json], total: i64, cursor: i64) -> (r: Reply)
    requires
        i64::MIN <= cursor + event_types@.len() <= i64::MAX,
    ensures
        r.status == 200,
        r.cursor == Some((cursor + event_types@.len()) as i64),
        r.body@ == reply_body(
            success_meta("Custom event type(s) found."@, seq![count_member(event_types@.len()), total_member(total as int)]),
            seq![("event_types"@, list_v(event_types@))],
        ),
{
    let extra = members2("count", count_json(event_types.len()), "total", Json::Number(JsonNumber::Int(total)));
    let meta = meta_json("Custom event type(s) found.", extra);
    let rest = members1("event_types", list_json(event_types));
    let next = (cursor as i128 + event_types.len() as i128) as i64;
    reply_of(200, Some(next), meta, rest)
}

/// The custom event types created and those refused: 201.
pub fn create_event_types_dto(event_types: &[Json], failed_to_create: &[Json]) -> (r: Reply)
    ensures
        r.status == 201,
        r.cursor is None,
        r.body@ == reply_body(
            success_meta("Custom event type(s) created."@, seq![]),
            seq![("event_types"@, list_v(event_types@)), ("failed_to_create"@, list_v(failed_to_create@))],
        ),
{
    let extra: Vec<(String, Json)> = Vec::new();
    let meta = meta_json("Custom event type(s) created.", extra);
    let rest = members2("event_types", list_json(event_types), "failed_to_create", list_json(failed_to_create));
    reply_of(201, None, meta, rest)
}

/// The custom event types deleted and those refused: 200.
pub fn delete_event_types_dto(deleted_event_types: &[Json], failed_to_delete: &[Json]) -> (r: Reply)
    ensures
        r.status == 200,
        r.cursor is None,
        r.body@ == reply_body(
            success_meta("Custom event type(s) deleted."@, seq![]),
            seq![("deleted_event_types"@, list_v(deleted_event_types@)), ("failed_to_delete"@, list_v(failed_to_delete@))],
        ),
{
    let extra: Vec<(String, Json)> = Vec::new();
    let meta = meta_json("Custom event type(s) deleted.", extra);
    let rest = members2("deleted_event_types", list_json(deleted_event_types), "failed_to_delete", list_json(failed_to_delete));
    reply_of(200, None, meta, rest)
}

/// The custom event types found for another service, with those not found: 200.
pub fn get_event_types_internal_dto(event_types: &[Json], not_found: &[Json]) -> (r: Reply)
    ensures
        r.status == 200,
        r.cursor is None,
        r.body@ == reply_body(
            success_meta("Custom event type(s) found."@, seq![]),
            seq![("event_types"@, list_v(event_types@)), ("not_found"@, list_v(not_found@))],
        ),
{
    let extra: Vec<(String, Json)> = Vec::new();
    let meta = meta_json("Custom event type(s) found.", extra);
    let rest = members2("event_types", list_json(event_types), "not_found", list_json(not_found));
    reply_of(200, None, meta, rest)
}

/// The event created: 201, with `created_at`, the GMT text of the time of
/// the reply.
pub fn create_event_dto(event: &Json, created_at: &str) -> (r: Reply)
    ensures
        r.status == 201,
        r.cursor is None,
        r.body@ == reply_body(
            success_meta("Event created."@, seq![]),
            seq![
                ("event_id"@, field_or_null(event@, "event_id"@)),
                ("event_type"@, field_or_null(event@, "event_type"@)),
                ("event_properties"@, field_or_null(event@, "event_properties"@)),
                ("profile_id"@, field_or_null(event@, "profile_id"@)),
                ("created_at"@, str_v(created_at@)),
            ],
        ),
{
    let extra: Vec<(String, Json)> = Vec::new();
    let meta = meta_json("Event created.", extra);
    let first = members3(
        "event_id",
        field_json(event, "event_id"),
        "event_type",
        field_json(event, "event_type"),
        "event_properties",
        field_json(event, "event_properties"),
    );
    let second = members2("profile_id", field_json(event, "profile_id"), "created_at", str_json(created_at));
    let rest = join_members(first, second);
    assert(view_members(rest@) =~= seq![
        ("event_id"@, field_or_null(event@, "event_id"@)),
        ("event_type"@, field_or_null(event@, "event_type"@)),
        ("event_properties"@, field_or_null(event@, "event_properties"@)),
        ("profile_id"@, field_or_null(event@, "profile_id"@)),
        ("created_at"@, str_v(created_at@)),
    ]);
    reply_of(201, None, meta, rest)
}

} // verus!
