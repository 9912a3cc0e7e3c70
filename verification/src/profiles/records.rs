//! The profile documents the profiles service writes and the entries it
//! returns for profiles it could not create or update.

use vstd::prelude::*;
use crate::json::{lemma_view_members, view_members, Json, JsonV};
use crate::profiles::models::CreateProfilesChild;
use crate::text::{concat2, copy_str};

verus! {

/// The stored document of a new profile, created at `now`.
pub open spec fn profile_document(p: CreateProfilesChild, profile_id: Seq<char>, account_id: Seq<char>, now: JsonV) -> JsonV {
    JsonV::Obj(seq![
        ("_id"@, JsonV::Str(profile_id)),
        ("customer_id"@, JsonV::Str(p.customer_id@)),
        ("account_id"@, JsonV::Str(account_id)),
        ("profile_data"@, p.profile_data@),
        ("platform_info"@, p.platform_info@),
        ("has_charged"@, JsonV::Bool(p.has_charged)),
        ("created_at"@, now),
    ])
}

/// The document stored for a new profile.
pub fn new_profile_document(p: &CreateProfilesChild, profile_id: &str, account_id: &str, now: &Json) -> (r: Json)
    ensures
        r@ == profile_document(*p, profile_id@, account_id@, now@),
{
    let mut m: Vec<(String, Json)> = Vec::new();
    m.push((copy_str("_id"), Json::Str(copy_str(profile_id))));
    m.push((copy_str("customer_id"), Json::Str(copy_str(p.customer_id.as_str()))));
    m.push((copy_str("account_id"), Json::Str(copy_str(account_id))));
    m.push((copy_str("profile_data"), p.profile_data.deep_clone()));
    m.push((copy_str("platform_info"), p.platform_info.deep_clone()));
    m.push((copy_str("has_charged"), Json::Bool(p.has_charged)));
    m.push((copy_str("created_at"), now.deep_clone()));
    proof {
        lemma_view_members(m@);
    }
    assert(view_members(m@) =~= profile_document(*p, profile_id@, account_id@, now@)->Obj_0);
    Json::Object(m)
}

/// A created profile as returned to the client.
pub open spec fn created_profile(p: CreateProfilesChild, profile_id: Seq<char>) -> JsonV {
    JsonV::Obj(seq![
        ("profile_id"@, JsonV::Str(profile_id)),
        ("customer_id"@, JsonV::Str(p.customer_id@)),
        ("profile_data"@, p.profile_data@),
        ("platform_info"@, p.platform_info@),
        ("has_charged"@, JsonV::Bool(p.has_charged)),
    ])
}

/// The entry of a created profile.
pub fn created_profile_entry(p: &CreateProfilesChild, profile_id: &str) -> (r: Json)
    ensures
        r@ == created_profile(*p, profile_id@),
{
    let mut m: Vec<(String, Json)> = Vec::new();
    m.push((copy_str("profile_id"), Json::Str(copy_str(profile_id))));
    m.push((copy_str("customer_id"), Json::Str(copy_str(p.customer_id.as_str()))));
    m.push((copy_str("profile_data"), p.profile_data.deep_clone()));
    m.push((copy_str("platform_info"), p.platform_info.deep_clone()));
    m.push((copy_str("has_charged"), Json::Bool(p.has_charged)));
    proof {
        lemma_view_members(m@);
    }
    assert(view_members(m@) =~= created_profile(*p, profile_id@)->Obj_0);
    Json::Object(m)
}

/// The failure entry of a profile keyed by `key` (`customer_id` or
/// `profile_id`) with message `msg`.
pub open spec fn profile_failure(key: Seq<char>, id: Seq<char>, msg: Seq<char>) -> JsonV {
    JsonV::Obj(seq![(key, JsonV::Str(id)), ("error_message"@, JsonV::Str(msg))])
}

fn failure_of(key: &str, id: &str, msg: String) -> (r: Json)
    ensures
        r@ == profile_failure(key@, id@, msg@),
{
    let mut m: Vec<(String, Json)> = Vec::new();
    m.push((copy_str(key), Json::Str(copy_str(id))));
    m.push((copy_str("error_message"), Json::Str(msg)));
    proof {
        lemma_view_members(m@);
    }
    assert(view_members(m@) =~= profile_failure(key@, id@, msg@)->Obj_0);
    Json::Object(m)
}

/// The failure entry of a profile whose customer id is taken.
pub fn customer_taken_entry(customer_id: &str) -> (r: Json)
    ensures
        r@ == profile_failure("customer_id"@, customer_id@, "Another profile exists with provided customer_id: "@ + customer_id@),
{
    failure_of("customer_id", customer_id, concat2("Another profile exists with provided customer_id: ", customer_id))
}

/// The failure entry of an update whose profile does not exist.
pub fn profile_missing_entry(profile_id: &str) -> (r: Json)
    ensures
        r@ == profile_failure("profile_id"@, profile_id@, "No profile found with profile_id: "@ + profile_id@),
{
    failure_of("profile_id", profile_id, concat2("No profile found with profile_id: ", profile_id))
}

/// The failure entry of an update the store refused, with its description.
pub fn profile_update_failed_entry(profile_id: &str, description: &str) -> (r: Json)
    ensures
        r@ == profile_failure("profile_id"@, profile_id@, "Update failed: "@ + description@),
{
    failure_of("profile_id", profile_id, concat2("Update failed: ", description))
}

/// The index of the stored document with `_id` equal to the text
/// `profile_id`, among the first `n` (the last such one).
pub open spec fn stored_profile_index(docs: Seq<JsonV>, profile_id: Seq<char>, n: int) -> Option<int>
    decreases n,
{
    if n <= 0 {
        None
    } else if docs[n - 1].get("_id"@) == Some(JsonV::Str(profile_id)) {
        Some(n - 1)
    } else {
        stored_profile_index(docs, profile_id, n - 1)
    }
}

/// The documents as JSON values.
pub open spec fn doc_views(docs: Seq<Json>) -> Seq<JsonV> {
    docs.map_values(|d: Json| d@)
}

/// The stored document of profile `profile_id` among those found (keyed
/// by their text `_id`, a later one replacing an earlier), by its index.
pub fn stored_profile(docs: &Vec<Json>, profile_id: &str) -> (r: Option<usize>)
    ensures
        r matches Some(i) ==> stored_profile_index(doc_views(docs@), profile_id@, docs@.len() as int) == Some(
            i as int,
        ) && i < docs@.len(),
        r is None ==> stored_profile_index(doc_views(docs@), profile_id@, docs@.len() as int) is None,
{
    let ghost vs = doc_views(docs@);
    let mut n: usize = docs.len();
    while n > 0
        invariant
            n <= docs@.len(),
            vs == doc_views(docs@),
            stored_profile_index(vs, profile_id@, docs@.len() as int) == stored_profile_index(
                vs,
                profile_id@,
                n as int,
            ),
        decreases n,
    {
        let d = &docs[n - 1];
        assert(vs[n - 1] == d@);
        let is_it = match d.get("_id") {
            Some(Json::Str(id)) => crate::text::str_eq(id.as_str(), profile_id),
            _ => false,
        };
        if is_it {
            return Some(n - 1);
        }
        n = n - 1;
    }
    None
}

/// The account whose profile is written: the stored document's own
/// `account_id` when it is a text, else the caller's account.
pub fn profile_owner(existing: &Json, account_id: &str) -> (r: String)
    ensures
        r@ == match existing@.get("account_id"@) {
            Some(JsonV::Str(s)) => s,
            _ => account_id@,
        },
{
    match existing.get("account_id") {
        Some(Json::Str(s)) => copy_str(s.as_str()),
        _ => copy_str(account_id),
    }
}

/// The reason an update of profiles is refused when none was updated.
pub fn no_profiles_updated_reason(internal: bool) -> (r: String)
    ensures
        r@ == if internal {
            "[toxic]:: No profiles updated!"@
        } else {
            "No profiles updated!"@
        },
{
    if internal {
        copy_str("[toxic]:: No profiles updated!")
    } else {
        copy_str("No profiles updated!")
    }
}

} // verus!
