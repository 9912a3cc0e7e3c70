//! The replies of the octy jobs service.

use vstd::prelude::*;
use crate::json::{Json, JsonV};
use crate::replies::{meta_json, members1, reply_body, reply_of, success_meta, Reply};

verus! {

/// Whether an account's jobs were deleted: 201.
pub fn delete_account_jobs_dto(is_deleted: bool) -> (r: Reply)
    ensures
        r.status == 201,
        r.cursor is None,
        r.body@ == reply_body(
            success_meta("Octy Jobs deleted."@, seq![]),
            seq![("is_deleted"@, JsonV::Bool(is_deleted))],
        ),
{
    let extra: Vec<(String, Json)> = Vec::new();
    let meta = meta_json("Octy Jobs deleted.", extra);
    let rest = members1("is_deleted", Json::Bool(is_deleted));
    reply_of(201, None, meta, rest)
}

} // verus!
