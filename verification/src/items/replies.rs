//! The replies of the items service.

use vstd::prelude::*;
use crate::json::{Json, JsonV};
use crate::replies::{
    count_json, count_member, list_json, list_v, meta_json, members1, members2, reply_body,
    reply_of, success_meta, total_member, Reply,
};
use crate::json::JsonNumber;

verus! {

/// The page of items found: 200, with the `cursor` of the next page.
pub fn get_items_dto(items: &[Json], total: i64, cursor: i64) -> (r: Reply)
    requires
        i64::MIN <= cursor + items@.len() <= i64::MAX,
    ensures
        r.status == 200,
        r.cursor == Some((cursor + items@.len()) as i64),
        r.body@ == reply_body(
            success_meta("Items found."@, seq![count_member(items@.len()), total_member(total as int)]),
            seq![("items"@, list_v(items@))],
        ),
{
    let extra = members2("count", count_json(items.len()), "total", Json::Number(JsonNumber::Int(total)));
    let meta = meta_json("Items found.", extra);
    let rest = members1("items", list_json(items));
    let next = (cursor as i128 + items.len() as i128) as i64;
    reply_of(200, Some(next), meta, rest)
}

/// The items created and those refused: 201.
pub fn create_items_dto(created_items: &[Json], failed_to_create: &[Json]) -> (r: Reply)
    ensures
        r.status == 201,
        r.cursor is None,
        r.body@ == reply_body(
            success_meta("Items created."@, seq![count_member(created_items@.len())]),
            seq![("items"@, list_v(created_items@)), ("failed_to_create"@, list_v(failed_to_create@))],
        ),
{
    let extra = members1("count", count_json(created_items.len()));
    let meta = meta_json("Items created.", extra);
    let rest = members2("items", list_json(created_items), "failed_to_create", list_json(failed_to_create));
    reply_of(201, None, meta, rest)
}

/// The items updated and those refused: 200.
pub fn update_items_dto(updated_items: &[Json], failed_to_update: &[Json]) -> (r: Reply)
    ensures
        r.status == 200,
        r.cursor is None,
        r.body@ == reply_body(
            success_meta("Items updated."@, seq![]),
            seq![("items"@, list_v(updated_items@)), ("failed_to_update"@, list_v(failed_to_update@))],
        ),
{
    let extra: Vec<(String, Json)> = Vec::new();
    let meta = meta_json("Items updated.", extra);
    let rest = members2("items", list_json(updated_items), "failed_to_update", list_json(failed_to_update));
    reply_of(200, None, meta, rest)
}

/// The items deleted and those refused: 200.
pub fn delete_items_dto(deleted_items: &[Json], failed_to_delete: &[Json]) -> (r: Reply)
    ensures
        r.status == 200,
        r.cursor is None,
        r.body@ == reply_body(
            success_meta("Items deleted."@, seq![]),
            seq![("deleted_items"@, list_v(deleted_items@)), ("failed_to_delete"@, list_v(failed_to_delete@))],
        ),
{
    let extra: Vec<(String, Json)> = Vec::new();
    let meta = meta_json("Items deleted.", extra);
    let rest = members2("deleted_items", list_json(deleted_items), "failed_to_delete", list_json(failed_to_delete));
    reply_of(200, None, meta, rest)
}

/// Whether an account's items were deleted: 201.
pub fn delete_account_items_dto(is_deleted: bool) -> (r: Reply)
    ensures
        r.status == 201,
        r.cursor is None,
        r.body@ == reply_body(
            success_meta("Account Items deleted."@, seq![]),
            seq![("is_deleted"@, JsonV::Bool(is_deleted))],
        ),
{
    let extra: Vec<(String, Json)> = Vec::new();
    let meta = meta_json("Account Items deleted.", extra);
    let rest = members1("is_deleted", Json::Bool(is_deleted));
    reply_of(201, None, meta, rest)
}

} // verus!
