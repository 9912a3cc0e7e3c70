//! The replies of the profiles service.

use vstd::prelude::*;
use crate::json::{Json, JsonV};
use crate::replies::{
    count_json, count_member, list_json, list_v, meta_json, members1, members2, reply_body,
    reply_of, success_meta, total_member, Reply,
};
use crate::json::JsonNumber;

verus! {

/// The page of profiles found: 200, with the `cursor` of the next page.
pub fn get_profiles_dto(profiles: &[Json], total: i64, cursor: i64) -> (r: Reply)
    requires
        i64::MIN <= cursor + profiles@.len() <= i64::MAX,
    ensures
        r.status == 200,
        r.cursor == Some((cursor + profiles@.len()) as i64),
        r.body@ == reply_body(
            success_meta("Customer profiles found."@, seq![count_member(profiles@.len()), total_member(total as int)]),
            seq![("profiles"@, list_v(profiles@))],
        ),
{
    let extra = members2("count", count_json(profiles.len()), "total", Json::Number(JsonNumber::Int(total)));
    let meta = meta_json("Customer profiles found.", extra);
    let rest = members1("profiles", list_json(profiles));
    let next = (cursor as i128 + profiles.len() as i128) as i64;
    reply_of(200, Some(next), meta, rest)
}

/// The profiles created and those refused: 201.
pub fn create_profiles_dto(created: &[Json], failed_to_create: &[Json]) -> (r: Reply)
    ensures
        r.status == 201,
        r.cursor is None,
        r.body@ == reply_body(
            success_meta("Customer profiles created."@, seq![count_member(created@.len())]),
            seq![("profiles"@, list_v(created@)), ("failed_to_create"@, list_v(failed_to_create@))],
        ),
{
    let extra = members1("count", count_json(created.len()));
    let meta = meta_json("Customer profiles created.", extra);
    let rest = members2("profiles", list_json(created), "failed_to_create", list_json(failed_to_create));
    reply_of(201, None, meta, rest)
}

/// The profiles updated and those refused: 201.
pub fn update_profiles_dto(updated: &[Json], failed_to_update: &[Json]) -> (r: Reply)
    ensures
        r.status == 201,
        r.cursor is None,
        r.body@ == reply_body(
            success_meta("Customer profiles updated."@, seq![]),
            seq![("profiles"@, list_v(updated@)), ("failed_to_update"@, list_v(failed_to_update@))],
        ),
{
    let extra: Vec<(String, Json)> = Vec::new();
    let meta = meta_json("Customer profiles updated.", extra);
    let rest = members2("profiles", list_json(updated), "failed_to_update", list_json(failed_to_update));
    reply_of(201, None, meta, rest)
}

/// The profiles deleted and those refused: 201.
pub fn delete_profiles_dto(deleted: &[Json], failed_to_delete: &[Json]) -> (r: Reply)
    ensures
        r.status == 201,
        r.cursor is None,
        r.body@ == reply_body(
            success_meta("Customer profiles deleted."@, seq![]),
            seq![("deleted_profiles"@, list_v(deleted@)), ("failed_to_delete"@, list_v(failed_to_delete@))],
        ),
{
    let extra: Vec<(String, Json)> = Vec::new();
    let meta = meta_json("Customer profiles deleted.", extra);
    let rest = members2("deleted_profiles", list_json(deleted), "failed_to_delete", list_json(failed_to_delete));
    reply_of(201, None, meta, rest)
}

/// The metadata of profiles: 200.
pub fn get_profiles_meta_dto(profiles_meta: &[Json]) -> (r: Reply)
    ensures
        r.status == 200,
        r.cursor is None,
        r.body@ == reply_body(
            success_meta("Profiles metadata returned."@, seq![]),
            seq![("profiles_meta"@, list_v(profiles_meta@))],
        ),
{
    let extra: Vec<(String, Json)> = Vec::new();
    let meta = meta_json("Profiles metadata returned.", extra);
    let rest = members1("profiles_meta", list_json(profiles_meta));
    reply_of(200, None, meta, rest)
}

/// The page of profiles found for another service, with the identifiers not found: 200, with the `cursor` of the next page.
pub fn get_profiles_internal_dto(profiles: &[Json], not_found: &Json, total: i64, cursor: i64) -> (r: Reply)
    requires
        i64::MIN <= cursor + profiles@.len() <= i64::MAX,
    ensures
        r.status == 200,
        r.cursor == Some((cursor + profiles@.len()) as i64),
        r.body@ == reply_body(
            success_meta("Customer profiles found."@, seq![count_member(profiles@.len()), total_member(total as int)]),
            seq![("profiles"@, list_v(profiles@)), ("not_found"@, not_found@)],
        ),
{
    let extra = members2("count", count_json(profiles.len()), "total", Json::Number(JsonNumber::Int(total)));
    let meta = meta_json("Customer profiles found.", extra);
    let rest = members2("profiles", list_json(profiles), "not_found", not_found.deep_clone());
    let next = (cursor as i128 + profiles.len() as i128) as i64;
    reply_of(200, Some(next), meta, rest)
}

/// Whether an account's profiles were deleted: 201.
pub fn delete_account_profiles_dto(is_deleted: bool) -> (r: Reply)
    ensures
        r.status == 201,
        r.cursor is None,
        r.body@ == reply_body(
            success_meta("Customer profiles deleted."@, seq![]),
            seq![("is_deleted"@, JsonV::Bool(is_deleted))],
        ),
{
    let extra: Vec<(String, Json)> = Vec::new();
    let meta = meta_json("Customer profiles deleted.", extra);
    let rest = members1("is_deleted", Json::Bool(is_deleted));
    reply_of(201, None, meta, rest)
}

} // verus!
