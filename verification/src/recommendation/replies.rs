//! The replies of the recommendation service.

use vstd::prelude::*;
use crate::json::{view_members, Json, JsonV};
use crate::replies::{
    join_members, list_json, list_v, meta_json, members1, members2, reply_body, reply_of,
    str_json, str_v, success_meta, Reply,
};
use crate::text::copy_str;

verus! {

/// Whether an account's recommendations were deleted: 201.
pub fn delete_account_recommendations_dto(is_deleted: bool) -> (r: Reply)
    ensures
        r.status == 201,
        r.cursor is None,
        r.body@ == reply_body(
            success_meta("All Account Recommendations deleted."@, seq![]),
            seq![("is_deleted"@, JsonV::Bool(is_deleted))],
        ),
{
    let extra: Vec<(String, Json)> = Vec::new();
    let meta = meta_json("All Account Recommendations deleted.", extra);
    let rest = members1("is_deleted", Json::Bool(is_deleted));
    reply_of(201, None, meta, rest)
}

/// The model data of a recommendation reply, from the training job's
/// metadata.
pub open spec fn model_meta_v(t: JsonV, a: JsonV, c: JsonV) -> JsonV {
    JsonV::Obj(
        seq![
            ("training_job_id"@, t),
            ("model_accuracy_score"@, a),
            ("recommender_event_type"@, str_v("charged"@)),
            ("model_created_at"@, c),
        ],
    )
}

/// The recommendations predicted, with the data of the model that made
/// them: 200. An internal error when the training job's metadata is not an
/// object, or lacks `training_job_id`, `auc_score` or `model_created_at`.
pub fn get_recommendations_dto(recommendations: &[Json], training_job_meta: &Json) -> (r: Result<
    Reply,
    String,
>)
    ensures
        !training_job_meta@.is_obj() ==> (r matches Err(m) && m@ == "training job meta is not an object"@),
        training_job_meta@.is_obj() ==> (match (
            training_job_meta@.get("training_job_id"@),
            training_job_meta@.get("auc_score"@),
            training_job_meta@.get("model_created_at"@),
        ) {
            (Some(t), Some(a), Some(c)) => r matches Ok(reply) && reply.status == 200 && reply.cursor is None
                && reply.body@ == reply_body(
                success_meta("Successfully predicted recommendations"@, seq![]),
                seq![("recommendations"@, list_v(recommendations@)), ("model_meta_data"@, model_meta_v(t, a, c))],
            ),
            _ => r matches Err(m) && m@
                == "training job meta missing training_job_id / auc_score / model_created_at"@,
        }),
{
    if !training_job_meta.is_object() {
        return Err(copy_str("training job meta is not an object"));
    }
    let found = (
        training_job_meta.get("training_job_id"),
        training_job_meta.get("auc_score"),
        training_job_meta.get("model_created_at"),
    );
    match found {
        (Some(t), Some(a), Some(c)) => {
            let first = members2("training_job_id", t.deep_clone(), "model_accuracy_score", a.deep_clone());
            let second = members2("recommender_event_type", str_json("charged"), "model_created_at", c.deep_clone());
            let model = join_members(first, second);
            assert(view_members(model@) =~= seq![
                ("training_job_id"@, t@),
                ("model_accuracy_score"@, a@),
                ("recommender_event_type"@, str_v("charged"@)),
                ("model_created_at"@, c@),
            ]);
            let model = Json::Object(model);
            let extra: Vec<(String, Json)> = Vec::new();
            let meta = meta_json("Successfully predicted recommendations", extra);
            let rest = members2("recommendations", list_json(recommendations), "model_meta_data", model);
            Ok(reply_of(200, None, meta, rest))
        },
        _ => Err(copy_str("training job meta missing training_job_id / auc_score / model_created_at")),
    }
}

} // verus!
