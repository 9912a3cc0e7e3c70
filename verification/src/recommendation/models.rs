//! Validation of the recommendation requests and messages.

use vstd::prelude::*;
use crate::fields::{
    after, str_field, str_list_errors, str_list_value, strings_view, take_str, take_str_list,
    StrMode,
};
use crate::json::{
    body_field_loc, body_loc, errs_view, fe, field_error, locs_view, push_error, FieldError,
    FieldErrorV, Json, JsonV, LocV,
};
use crate::profiles::models::ValidationError;

verus! {

/// The location `body, f`.
pub open spec fn at_body(f: Seq<char>) -> Seq<LocV> {
    seq![LocV::Key("body"@), LocV::Key(f)]
}

/// The errors of a required `str` field of the body.
pub open spec fn str_errors(body: JsonV, f: Seq<char>) -> Seq<FieldErrorV> {
    after(seq![], at_body(f), str_field(body, f, StrMode::Lenient))
}

/// The errors of a required `List[str]` field of the body (null items are
/// refused as such).
pub open spec fn list_errors(body: JsonV, f: Seq<char>) -> Seq<FieldErrorV> {
    str_list_errors(body, f, StrMode::Lenient, true, seq![LocV::Key("body"@)])
}

/// The strings of a valid `List[str]` field of the body.
pub open spec fn list_value(body: JsonV, f: Seq<char>) -> Option<Seq<Seq<char>>> {
    str_list_value(body, f, StrMode::Lenient, true)
}

fn read_list(body: &Json, f: &str, errors: &mut Vec<FieldError>) -> (r: Option<Vec<String>>)
    ensures
        errs_view(final(errors)@) == errs_view(old(errors)@) + list_errors(body@, f@),
        match r {
            Some(v) => list_value(body@, f@) == Some(strings_view(v@)),
            None => list_value(body@, f@) is None,
        },
        r is Some <==> list_errors(body@, f@).len() == 0,
{
    let prefix = body_loc();
    take_str_list(body, f, &prefix, StrMode::Lenient, true, errors)
}

fn read_str(body: &Json, f: &str, errors: &mut Vec<FieldError>) -> (r: Option<String>)
    ensures
        errs_view(final(errors)@) == errs_view(old(errors)@) + str_errors(body@, f@),
        match r {
            Some(s) => str_field(body@, f@, StrMode::Lenient) == Ok::<Seq<char>, (Seq<char>, Seq<char>)>(s@),
            None => str_field(body@, f@, StrMode::Lenient) is Err,
        },
{
    let prefix = body_loc();
    let r = take_str(body, f, &prefix, StrMode::Lenient, errors);
    assert(locs_view(prefix@).push(LocV::Key(f@)) =~= at_body(f@));
    assert(errs_view(errors@) =~= errs_view(old(errors)@) + str_errors(body@, f@));
    r
}

/// `GetRecomendations` — the profiles to recommend items for.
pub struct GetRecomendations {
    pub profile_ids: Vec<String>,
}

/// The errors of a `GetRecomendations` body: the list's, else the limit
/// (its message names 100 whatever the configured maximum).
pub open spec fn get_recs_errors(body: JsonV, max: int) -> Seq<FieldErrorV> {
    let e = list_errors(body, "profile_ids"@);
    match list_value(body, "profile_ids"@) {
        Some(ids) => if ids.len() > max {
            e.push(fe(at_body("profile_ids"@), "You can only generate up to 100 item recommendations per request."@, "value_error"@))
        } else {
            e
        },
        None => e,
    }
}

fn refused(errors: Vec<FieldError>) -> (r: ValidationError)
    ensures
        r.code == 422,
        r.reasons == errors,
{
    ValidationError { code: 422, reasons: errors }
}

impl GetRecomendations {
    /// Validates a `GetRecomendations` body; at most `max_rec_predictions`
    /// profiles.
    pub fn from_json(body: &Json, max_rec_predictions: i64) -> (r: Result<GetRecomendations, ValidationError>)
        ensures
            get_recs_errors(body@, max_rec_predictions as int).len() == 0 ==> (r matches Ok(g) && list_value(body@, "profile_ids"@)
                == Some(strings_view(g.profile_ids@))),
            get_recs_errors(body@, max_rec_predictions as int).len() > 0 ==> (r matches Err(e) && e.code == 422 && errs_view(
                e.reasons@,
            ) == get_recs_errors(body@, max_rec_predictions as int)),
    {
        let mut errors: Vec<FieldError> = Vec::new();
        let ids = read_list(body, "profile_ids", &mut errors);
        match ids {
            Some(ids) => {
                assert(strings_view(ids@).len() == ids@.len());
                if ids.len() as i128 > max_rec_predictions as i128 {
                    let loc = body_field_loc("profile_ids");
                    assert(locs_view(loc@) =~= at_body("profile_ids"@));
                    push_error(
                        &mut errors,
                        field_error(loc, "You can only generate up to 100 item recommendations per request.", "value_error"),
                    );
                    assert(errs_view(errors@) =~= get_recs_errors(body@, max_rec_predictions as int));
                    return Err(refused(errors));
                }
                Ok(GetRecomendations { profile_ids: ids })
            },
            None => Err(refused(errors)),
        }
    }
}

/// `GetRecomendationsInternal` — an account's profiles to recommend for.
pub struct GetRecomendationsInternal {
    pub account_id: String,
    pub profile_ids: Vec<String>,
}

impl GetRecomendationsInternal {
    /// Validates a `GetRecomendationsInternal` body.
    pub fn from_json(body: &Json) -> (r: Result<GetRecomendationsInternal, ValidationError>)
        ensures
            ({
                let errs = str_errors(body@, "account_id"@) + list_errors(body@, "profile_ids"@);
                &&& errs.len() == 0 ==> (r matches Ok(g) && str_field(body@, "account_id"@, StrMode::Lenient) == Ok::<
                    Seq<char>,
                    (Seq<char>, Seq<char>),
                >(g.account_id@) && list_value(body@, "profile_ids"@) == Some(strings_view(g.profile_ids@)))
                &&& errs.len() > 0 ==> (r matches Err(e) && e.code == 422 && errs_view(e.reasons@) == errs)
            }),
    {
        let mut errors: Vec<FieldError> = Vec::new();
        let account_id = read_str(body, "account_id", &mut errors);
        let ids = read_list(body, "profile_ids", &mut errors);
        match (account_id, ids) {
            (Some(account_id), Some(profile_ids)) => Ok(GetRecomendationsInternal { account_id, profile_ids }),
            _ => Err(refused(errors)),
        }
    }
}

/// `DeleteAccountRecommendations` — `{account_id}`.
pub struct DeleteAccountRecommendations {
    pub account_id: String,
}

impl DeleteAccountRecommendations {
    /// Validates a `DeleteAccountRecommendations` body.
    pub fn from_json(body: &Json) -> (r: Result<DeleteAccountRecommendations, ValidationError>)
        ensures
            match str_field(body@, "account_id"@, StrMode::Lenient) {
                Ok(a) => r matches Ok(d) && d.account_id@ == a,
                Err(_) => r matches Err(e) && e.code == 422 && errs_view(e.reasons@) == str_errors(body@, "account_id"@),
            },
    {
        let mut errors: Vec<FieldError> = Vec::new();
        match read_str(body, "account_id", &mut errors) {
            Some(account_id) => Ok(DeleteAccountRecommendations { account_id }),
            None => Err(refused(errors)),
        }
    }
}

/// `DeleteRecCache` — the cached recommendations of profiles to drop.
pub struct DeleteRecCache {
    pub account_id: String,
    pub profiles: Vec<String>,
}

impl DeleteRecCache {
    /// Validates a `DeleteRecCache` message.
    pub fn from_json(body: &Json) -> (r: Result<DeleteRecCache, ValidationError>)
        ensures
            ({
                let errs = str_errors(body@, "account_id"@) + list_errors(body@, "profiles"@);
                &&& errs.len() == 0 ==> (r matches Ok(g) && str_field(body@, "account_id"@, StrMode::Lenient) == Ok::<
                    Seq<char>,
                    (Seq<char>, Seq<char>),
                >(g.account_id@) && list_value(body@, "profiles"@) == Some(strings_view(g.profiles@)))
                &&& errs.len() > 0 ==> (r matches Err(e) && e.code == 422 && errs_view(e.reasons@) == errs)
            }),
    {
        let mut errors: Vec<FieldError> = Vec::new();
        let account_id = read_str(body, "account_id", &mut errors);
        let profiles = read_list(body, "profiles", &mut errors);
        match (account_id, profiles) {
            (Some(account_id), Some(profiles)) => Ok(DeleteRecCache { account_id, profiles }),
            _ => Err(refused(errors)),
        }
    }
}

} // verus!
