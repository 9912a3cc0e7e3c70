//! The replies of the messaging service.

use vstd::prelude::*;
use crate::json::{Json, JsonV};
use crate::replies::{
    count_json, count_member, list_json, list_v, meta_json, members1, members2, members3,
    reply_body, reply_of, success_meta, total_member, Reply,
};
use crate::json::JsonNumber;

verus! {

/// The page of message templates found: 200, with the `cursor` of the next page.
pub fn get_templates_dto(templates: &[Json], total: i64, cursor: i64) -> (r: Reply)
    requires
        i64::MIN <= cursor + templates@.len() <= i64::MAX,
    ensures
        r.status == 200,
        r.cursor == Some((cursor + templates@.len()) as i64),
        r.body@ == reply_body(
            success_meta("Messaging templates found."@, seq![count_member(templates@.len()), total_member(total as int)]),
            seq![("templates"@, list_v(templates@))],
        ),
{
    let extra = members2("count", count_json(templates.len()), "total", Json::Number(JsonNumber::Int(total)));
    let meta = meta_json("Messaging templates found.", extra);
    let rest = members1("templates", list_json(templates));
    let next = (cursor as i128 + templates.len() as i128) as i64;
    reply_of(200, Some(next), meta, rest)
}

/// The templates created and those refused: 201.
pub fn create_templates_dto(templates: &[Json], failed_to_create: &[Json]) -> (r: Reply)
    ensures
        r.status == 201,
        r.cursor is None,
        r.body@ == reply_body(
            success_meta("Successfully created new message templates."@, seq![]),
            seq![("templates"@, list_v(templates@)), ("failed_to_create"@, list_v(failed_to_create@))],
        ),
{
    let extra: Vec<(String, Json)> = Vec::new();
    let meta = meta_json("Successfully created new message templates.", extra);
    let rest = members2("templates", list_json(templates), "failed_to_create", list_json(failed_to_create));
    reply_of(201, None, meta, rest)
}

/// The templates updated and those refused: 200.
pub fn update_templates_dto(templates: &[Json], failed_to_update: &[Json]) -> (r: Reply)
    ensures
        r.status == 200,
        r.cursor is None,
        r.body@ == reply_body(
            success_meta("Message templates updated."@, seq![]),
            seq![("templates"@, list_v(templates@)), ("failed_to_update"@, list_v(failed_to_update@))],
        ),
{
    let extra: Vec<(String, Json)> = Vec::new();
    let meta = meta_json("Message templates updated.", extra);
    let rest = members2("templates", list_json(templates), "failed_to_update", list_json(failed_to_update));
    reply_of(200, None, meta, rest)
}

/// The templates deleted and those refused: 200.
pub fn delete_templates_dto(deleted_templates: &[Json], failed_to_delete: &[Json]) -> (r: Reply)
    ensures
        r.status == 200,
        r.cursor is None,
        r.body@ == reply_body(
            success_meta("Message templates deleted."@, seq![]),
            seq![("deleted_templates"@, list_v(deleted_templates@)), ("failed_to_delete"@, list_v(failed_to_delete@))],
        ),
{
    let extra: Vec<(String, Json)> = Vec::new();
    let meta = meta_json("Message templates deleted.", extra);
    let rest = members2("deleted_templates", list_json(deleted_templates), "failed_to_delete", list_json(failed_to_delete));
    reply_of(200, None, meta, rest)
}

/// Whether an account's messaging data was deleted: 201 (the message is the one the service has always sent).
pub fn delete_account_messaging_dto(is_deleted: bool) -> (r: Reply)
    ensures
        r.status == 201,
        r.cursor is None,
        r.body@ == reply_body(
            success_meta("Octy Jobs deleted."@, seq![]),
            seq![("is_deleted"@, JsonV::Bool(is_deleted))],
        ),
{
    let extra: Vec<(String, Json)> = Vec::new();
    let meta = meta_json("Octy Jobs deleted.", extra);
    let rest = members1("is_deleted", Json::Bool(is_deleted));
    reply_of(201, None, meta, rest)
}

/// The message shown with generated content.
pub open spec fn generation_msg(created: nat) -> Seq<char> {
    if created == 0 {
        "No content generated"@
    } else {
        "Successfully generated content"@
    }
}

/// The content generated, the messages refused and the templates that
/// failed: 200.
pub fn generate_content_dto(created_messages: &[Json], failed_messages: &[Json], failed_templates: &[Json]) -> (r:
    Reply)
    ensures
        r.status == 200,
        r.cursor is None,
        r.body@ == reply_body(
            success_meta(generation_msg(created_messages@.len()), seq![count_member(created_messages@.len())]),
            seq![
                ("generated_messages"@, list_v(created_messages@)),
                ("failed_messages"@, list_v(failed_messages@)),
                ("failed_templates"@, list_v(failed_templates@)),
            ],
        ),
{
    let extra = members1("count", count_json(created_messages.len()));
    let meta = if created_messages.len() == 0 {
        meta_json("No content generated", extra)
    } else {
        meta_json("Successfully generated content", extra)
    };
    let rest = members3(
        "generated_messages",
        list_json(created_messages),
        "failed_messages",
        list_json(failed_messages),
        "failed_templates",
        list_json(failed_templates),
    );
    reply_of(200, None, meta, rest)
}

} // verus!
