//! Verification of an event before it is stored.
//!
//! The service interleaves outside work with these decisions: it reads the
//! configured system event types, publishes profile updates and looks up
//! custom event types; the functions here decide, from what that work
//! returned, whether the event is accepted and with which `event_type_id`.
//!
//! The order of the caller is: [`profile_is_invalid`]; then, with the system
//! event types read, [`system_event_update`] (publish the update it returns);
//! then, for a custom type, look it up by name; then [`verify_event_outcome`].

use vstd::prelude::*;
use crate::events::services::ApiError;
use crate::json::{
    json_to_string, json_text, lemma_view_members, lemma_view_seq, member_lookup, members_get,
    view_json, view_members, view_seq, Json, JsonV, NumV,
};
use crate::text::{concat2, concat3, copy_str, str_eq};

verus! {

/// The description that goes with every refusal of event data.
pub open spec fn invalid_data(m: Seq<char>) -> (Seq<char>, Seq<char>) {
    (m, "Invalid event data provided"@)
}

fn invalid_data_pair(msg: String) -> (r: (String, String))
    ensures
        r.0@ == msg@,
        r.1@ == "Invalid event data provided"@,
{
    (msg, copy_str("Invalid event data provided"))
}

/// The view of an optional document.
pub open spec fn opt_view(o: Option<&Json>) -> Option<JsonV> {
    match o {
        Some(j) => Some(j@),
        None => None,
    }
}

/// The view of an accepted `event_type_id` or of a refusal.
pub open spec fn outcome_view(r: Result<Json, (String, String)>) -> Result<JsonV, (Seq<char>, Seq<char>)> {
    match r {
        Ok(j) => Ok(j@),
        Err(e) => Err((e.0@, e.1@)),
    }
}

// ---------------------------------------------------------------------------
// The profile
// ---------------------------------------------------------------------------

/// Whether `profile_id` is among the profiles the store did not know.
pub open spec fn profile_listed(profile_id: Seq<char>, invalid: Seq<JsonV>) -> bool {
    invalid.contains(JsonV::Str(profile_id))
}

/// The refusal of an event whose profile is unknown.
pub open spec fn unknown_profile() -> (Seq<char>, Seq<char>) {
    invalid_data("Unknown profile_id supplied with this event instance"@)
}

/// Whether the event's profile is among `invalid_profiles` (compared as
/// JSON strings); such an event is refused with [`unknown_profile`].
pub fn profile_is_invalid(profile_id: &str, invalid_profiles: &Vec<Json>) -> (r: bool)
    ensures
        r == profile_listed(profile_id@, view_seq(invalid_profiles@)),
{
    proof {
        lemma_view_seq(invalid_profiles@);
    }
    let mut i: usize = 0;
    while i < invalid_profiles.len()
        invariant
            i <= invalid_profiles@.len(),
            view_seq(invalid_profiles@).len() == invalid_profiles@.len(),
            forall|j: int|
                0 <= j < invalid_profiles@.len() ==> #[trigger] view_seq(invalid_profiles@)[j]
                    == view_json(invalid_profiles@[j]),
            forall|j: int|
                0 <= j < i ==> view_seq(invalid_profiles@)[j] != JsonV::Str(profile_id@),
        decreases invalid_profiles@.len() - i,
    {
        match invalid_profiles[i].as_str() {
            Some(s) => {
                if str_eq(s, profile_id) {
                    assert(view_seq(invalid_profiles@)[i as int] == JsonV::Str(profile_id@));
                    return true;
                }
            },
            None => {},
        }
        assert(view_seq(invalid_profiles@)[i as int] == view_json(invalid_profiles@[i as int]));
        i = i + 1;
    }
    false
}

/// The refusal message and description of an unknown profile.
pub fn unknown_profile_error() -> (r: (String, String))
    ensures
        (r.0@, r.1@) == unknown_profile(),
{
    invalid_data_pair(copy_str("Unknown profile_id supplied with this event instance"))
}

// ---------------------------------------------------------------------------
// System event types
// ---------------------------------------------------------------------------

/// Whether `event_type` is one of the configured system event types.
pub fn is_system_event_type(event_type: &str, system_event_types: &Vec<String>) -> (r: bool)
    ensures
        r == crate::fields::strings_view(system_event_types@).contains(event_type@),
{
    let ghost names = crate::fields::strings_view(system_event_types@);
    let mut i: usize = 0;
    while i < system_event_types.len()
        invariant
            i <= system_event_types@.len(),
            names == crate::fields::strings_view(system_event_types@),
            names.len() == system_event_types@.len(),
            forall|j: int| 0 <= j < i ==> names[j] != event_type@,
        decreases system_event_types@.len() - i,
    {
        assert(names[i as int] == system_event_types@[i as int]@);
        if str_eq(system_event_types[i].as_str(), event_type) {
            return true;
        }
        i = i + 1;
    }
    false
}

/// The profile update published for a system event: `has_charged` for
/// `charged`, status `churned` for `churned`, nothing for the others.
pub open spec fn profile_update(account_id: Seq<char>, event_type: Seq<char>, profile_id: Seq<
    char,
>) -> Option<JsonV> {
    let change = if event_type == "charged"@ {
        Some(("has_charged"@, JsonV::Bool(true)))
    } else if event_type == "churned"@ {
        Some(("status"@, JsonV::Str("churned"@)))
    } else {
        None
    };
    match change {
        Some(c) => Some(
            JsonV::Obj(
                seq![
                    ("account_id"@, JsonV::Str(account_id)),
                    (
                        "profiles"@,
                        JsonV::Arr(seq![JsonV::Obj(seq![("profile_id"@, JsonV::Str(profile_id)), c])]),
                    ),
                ],
            ),
        ),
        None => None,
    }
}

/// The `profiles.cmd.update` message to publish before a system event's
/// properties are checked, if its type calls for one.
pub fn system_event_update(account_id: &str, event_type: &str, profile_id: &str) -> (r: Option<
    Json,
>)
    ensures
        match r {
            Some(j) => profile_update(account_id@, event_type@, profile_id@) == Some(j@),
            None => profile_update(account_id@, event_type@, profile_id@) is None,
        },
{
    let change: (String, Json) = if str_eq(event_type, "charged") {
        (copy_str("has_charged"), Json::Bool(true))
    } else if str_eq(event_type, "churned") {
        (copy_str("status"), Json::Str(copy_str("churned")))
    } else {
        return None;
    };
    let ghost cv = (change.0@, view_json(change.1));
    let pm = vec![(copy_str("profile_id"), Json::Str(copy_str(profile_id))), change];
    proof {
        lemma_view_members(pm@);
        assert(view_members(pm@) =~= seq![("profile_id"@, JsonV::Str(profile_id@)), cv]);
    }
    let ghost pv = JsonV::Obj(view_members(pm@));
    let arr = vec![Json::Object(pm)];
    proof {
        lemma_view_seq(arr@);
        assert(view_seq(arr@) =~= seq![pv]);
    }
    let ghost av = JsonV::Arr(view_seq(arr@));
    let mm = vec![(copy_str("account_id"), Json::Str(copy_str(account_id))), (copy_str("profiles"), Json::Array(arr))];
    proof {
        lemma_view_members(mm@);
        assert(view_members(mm@) =~= seq![("account_id"@, JsonV::Str(account_id@)), ("profiles"@, av)]);
    }
    let msg = Json::Object(mm);
    Some(msg)
}

// ---------------------------------------------------------------------------
// Properties of system events
// ---------------------------------------------------------------------------

/// Every property value is a string.
pub open spec fn all_string_values(p: Seq<(Seq<char>, JsonV)>) -> bool {
    forall|i: int| 0 <= i < p.len() ==> (#[trigger] p[i]).1 is Str
}

/// Entry `i` is named `key` and holds a string of more than one character.
pub open spec fn long_string_at(p: Seq<(Seq<char>, JsonV)>, key: Seq<char>, i: int) -> bool {
    &&& p[i].0 == key
    &&& p[i].1 is Str
    &&& p[i].1->Str_0.len() > 1
}

/// Some property named `key` holds a string of more than one character.
pub open spec fn has_long_string(p: Seq<(Seq<char>, JsonV)>, key: Seq<char>) -> bool {
    exists|i: int| 0 <= i < p.len() && #[trigger] long_string_at(p, key, i)
}

pub open spec fn charged_type_msg() -> Seq<char> {
    "Event type 'charged'. The values provided for the 'payment_method' and 'item_id' event properties must be of type string. This charge has been logged against the customers profile but will not be used in any training jobs."@
}

pub open spec fn charged_missing_msg() -> Seq<char> {
    "Events of type 'charged' must be provided with 'payment_method' and 'item_id' parameters within the event_properties. This charge has been logged against the customers profile but will not be used in any training jobs."@
}

pub open spec fn complaint_type_msg() -> Seq<char> {
    "Event type 'complaint'. The values provided for the 'channel' event property must be of type string."@
}

pub open spec fn complaint_missing_msg() -> Seq<char> {
    "Events of type 'complaint' must be provided with a 'channel' parameter within the event_properties."@
}

/// The check of a system event's properties: `charged` needs string values
/// and a `payment_method` and an `item_id` of more than one character,
/// `complaint` string values and such a `channel`. The accepted event's
/// `event_type_id` is its type for these and `churned`, null for any other.
pub open spec fn system_event_check(event_type: Seq<char>, p: Seq<(Seq<char>, JsonV)>) -> Result<
    JsonV,
    (Seq<char>, Seq<char>),
> {
    if event_type == "charged"@ {
        if !all_string_values(p) {
            Err(invalid_data(charged_type_msg()))
        } else if !(has_long_string(p, "payment_method"@) && has_long_string(p, "item_id"@)) {
            Err(invalid_data(charged_missing_msg()))
        } else {
            Ok(JsonV::Str(event_type))
        }
    } else if event_type == "churned"@ {
        Ok(JsonV::Str(event_type))
    } else if event_type == "complaint"@ {
        if !all_string_values(p) {
            Err(invalid_data(complaint_type_msg()))
        } else if !has_long_string(p, "channel"@) {
            Err(invalid_data(complaint_missing_msg()))
        } else {
            Ok(JsonV::Str(event_type))
        }
    } else {
        Ok(JsonV::Null)
    }
}

/// Scans the properties: `None` if a value is not a string, else whether
/// `k1` and `k2` name strings of more than one character.
fn scan_string_properties(props: &Vec<(String, Json)>, k1: &str, k2: &str) -> (r: Option<
    (bool, bool),
>)
    ensures
        r is None <==> !all_string_values(view_members(props@)),
        r matches Some((a, b)) ==> a == has_long_string(view_members(props@), k1@) && b
            == has_long_string(view_members(props@), k2@),
{
    proof {
        lemma_view_members(props@);
    }
    let ghost p = view_members(props@);
    let mut a = false;
    let mut b = false;
    let mut i: usize = 0;
    while i < props.len()
        invariant
            i <= props@.len(),
            p == view_members(props@),
            p.len() == props@.len(),
            forall|j: int|
                0 <= j < props@.len() ==> #[trigger] p[j] == (props@[j].0@, view_json(props@[j].1)),
            forall|j: int| 0 <= j < i ==> (#[trigger] p[j]).1 is Str,
            a == exists|j: int| 0 <= j < i && #[trigger] long_string_at(p, k1@, j),
            b == exists|j: int| 0 <= j < i && #[trigger] long_string_at(p, k2@, j),
        decreases props@.len() - i,
    {
        let entry = &props[i];
        assert(p[i as int] == (entry.0@, view_json(entry.1)));
        match &entry.1 {
            Json::Str(s) => {
                let n = s.as_str().unicode_len();
                let is1 = n > 1 && str_eq(entry.0.as_str(), k1);
                let is2 = n > 1 && str_eq(entry.0.as_str(), k2);
                assert(is1 == long_string_at(p, k1@, i as int));
                assert(is2 == long_string_at(p, k2@, i as int));
                if is1 {
                    a = true;
                }
                if is2 {
                    b = true;
                }
            },
            _ => {
                assert(!(p[i as int].1 is Str));
                return None;
            },
        }
        i = i + 1;
    }
    Some((a, b))
}

/// Checks the properties of a system event; its `event_type_id` if accepted.
pub fn check_system_event(event_type: &str, props: &Vec<(String, Json)>) -> (r: Result<
    Json,
    (String, String),
>)
    ensures
        outcome_view(r) == system_event_check(event_type@, view_members(props@)),
{
    if str_eq(event_type, "charged") {
        match scan_string_properties(props, "payment_method", "item_id") {
            None => Err(invalid_data_pair(copy_str(
                "Event type 'charged'. The values provided for the 'payment_method' and 'item_id' event properties must be of type string. This charge has been logged against the customers profile but will not be used in any training jobs.",
            ))),
            Some((pm, item)) => {
                if !(pm && item) {
                    Err(invalid_data_pair(copy_str(
                        "Events of type 'charged' must be provided with 'payment_method' and 'item_id' parameters within the event_properties. This charge has been logged against the customers profile but will not be used in any training jobs.",
                    )))
                } else {
                    Ok(Json::Str(copy_str(event_type)))
                }
            },
        }
    } else if str_eq(event_type, "churned") {
        Ok(Json::Str(copy_str(event_type)))
    } else if str_eq(event_type, "complaint") {
        match scan_string_properties(props, "channel", "channel") {
            None => Err(invalid_data_pair(copy_str(
                "Event type 'complaint'. The values provided for the 'channel' event property must be of type string.",
            ))),
            Some((channel, _)) => {
                if !channel {
                    Err(invalid_data_pair(copy_str(
                        "Events of type 'complaint' must be provided with a 'channel' parameter within the event_properties.",
                    )))
                } else {
                    Ok(Json::Str(copy_str(event_type)))
                }
            },
        }
    } else {
        Ok(Json::Null)
    }
}

// ---------------------------------------------------------------------------
// Properties of custom events
// ---------------------------------------------------------------------------

pub open spec fn is_float(v: JsonV) -> bool {
    v matches JsonV::Num(n) && n is Float
}

/// A number that serde_json holds as an integer.
pub open spec fn is_integer(v: JsonV) -> bool {
    v matches JsonV::Num(n) && !(n is Float)
}

/// Python's `isinstance(new, type(old))` on JSON values: `bool` counts as
/// an integer, an integer is no float, and an integer too large for `i64`
/// passes for a float.
pub open spec fn py_isinstance(new: JsonV, old: JsonV) -> bool {
    match old {
        JsonV::Str(_) => new is Str,
        JsonV::Bool(_) => new is Bool,
        JsonV::Num(n) => if n is Float {
            is_float(new) || new matches JsonV::Num(NumV::BigUInt(_))
        } else {
            is_integer(new) || new is Bool
        },
        JsonV::Arr(_) => new is Arr,
        JsonV::Obj(_) => new is Obj,
        JsonV::Null => new is Null,
    }
}

fn isinstance_like(new: &Json, old: &Json) -> (r: bool)
    ensures
        r == py_isinstance(new@, old@),
{
    match old {
        Json::Str(_) => matches!(new, Json::Str(_)),
        Json::Bool(_) => matches!(new, Json::Bool(_)),
        Json::Number(crate::json::JsonNumber::Float(_)) => matches!(
            new,
            Json::Number(crate::json::JsonNumber::Float(_)) | Json::Number(
                crate::json::JsonNumber::BigUInt(_),
            )
        ),
        Json::Number(_) => match new {
            Json::Number(crate::json::JsonNumber::Float(_)) => false,
            Json::Number(_) => true,
            Json::Bool(_) => true,
            _ => false,
        },
        Json::Array(_) => matches!(new, Json::Array(_)),
        Json::Object(_) => matches!(new, Json::Object(_)),
        Json::Null => matches!(new, Json::Null),
    }
}

/// The name of an expected property: the string itself, else its JSON text.
pub open spec fn prop_key(ep: JsonV) -> Seq<char> {
    match ep {
        JsonV::Str(s) => s,
        _ => json_text(ep),
    }
}

fn prop_key_of(ep: &Json) -> (r: String)
    ensures
        r@ == prop_key(ep@),
{
    match ep.as_str() {
        Some(s) => copy_str(s),
        None => json_to_string(ep),
    }
}

/// The properties of the latest stored event of this type, if any.
pub open spec fn latest_props(latest: Option<JsonV>) -> Option<JsonV> {
    match latest {
        Some(le) => le.get("event_properties"@),
        None => None,
    }
}

/// Property `key` is in both events and the new value's type differs.
pub open spec fn type_mismatch(key: Seq<char>, p: Seq<(Seq<char>, JsonV)>, lp: Option<JsonV>) -> bool {
    match (member_lookup(p, key), lp) {
        (Some(nv), Some(l)) => match l.get(key) {
            Some(ov) => !py_isinstance(nv, ov),
            None => false,
        },
        _ => false,
    }
}

pub open spec fn missing_property_msg(key: Seq<char>) -> Seq<char> {
    "Please provide all required event properties key value pairs for this event type. Missing event property key : '"@
        + key + "'"@
}

pub open spec fn invalid_types_msg() -> Seq<char> {
    "Invalid data types specified for one or more of the provided event properties."@
}

/// The expected properties from `i` on, with `ok` false once a type
/// mismatch was seen: the first one missing is refused by name, the first
/// one at or after a mismatch for the types.
pub open spec fn custom_scan(
    eps: Seq<JsonV>,
    p: Seq<(Seq<char>, JsonV)>,
    lp: Option<JsonV>,
    i: int,
    ok: bool,
) -> Option<(Seq<char>, Seq<char>)>
    decreases eps.len() - i,
{
    if i < 0 || i >= eps.len() {
        None
    } else {
        let key = prop_key(eps[i]);
        let ok2 = ok && !type_mismatch(key, p, lp);
        if member_lookup(p, key) is None {
            Some(invalid_data(missing_property_msg(key)))
        } else if !ok2 {
            Some(invalid_data(invalid_types_msg()))
        } else {
            custom_scan(eps, p, lp, i + 1, ok2)
        }
    }
}

/// The expected properties of a custom event type (none unless a list).
pub open spec fn expected_properties(ct: JsonV) -> Seq<JsonV> {
    match ct.get("event_properties"@) {
        Some(JsonV::Arr(a)) => a,
        _ => seq![],
    }
}

/// A member of an object, null when absent (`value[key]`).
pub open spec fn index_or_null(v: JsonV, key: Seq<char>) -> JsonV {
    match v.get(key) {
        Some(x) => x,
        None => JsonV::Null,
    }
}

pub open spec fn unknown_event_type() -> (Seq<char>, Seq<char>) {
    ("Unknown event type supplied with this request."@, "Invalid event_type."@)
}

/// The check of a custom event against its stored type (none: unknown
/// type); the accepted event's `event_type_id` is the type's.
pub open spec fn custom_event_check(
    custom: Option<JsonV>,
    p: Seq<(Seq<char>, JsonV)>,
    latest: Option<JsonV>,
) -> Result<JsonV, (Seq<char>, Seq<char>)> {
    match custom {
        None => Err(unknown_event_type()),
        Some(ct) => match custom_scan(expected_properties(ct), p, latest_props(latest), 0, true) {
            Some(e) => Err(e),
            None => Ok(index_or_null(ct, "event_type_id"@)),
        },
    }
}

/// Checks a custom event against its stored type and the latest stored
/// event of that type; its `event_type_id` if accepted.
pub fn check_custom_event(
    custom_event_type: Option<&Json>,
    props: &Vec<(String, Json)>,
    latest_event: Option<&Json>,
) -> (r: Result<Json, (String, String)>)
    ensures
        outcome_view(r) == custom_event_check(
            opt_view(custom_event_type),
            view_members(props@),
            opt_view(latest_event),
        ),
{
    let ct = match custom_event_type {
        None => {
            return Err((copy_str("Unknown event type supplied with this request."), copy_str("Invalid event_type.")));
        },
        Some(c) => c,
    };
    let ghost p = view_members(props@);
    let ghost lpv = latest_props(opt_view(latest_event));
    let lp: Option<&Json> = match latest_event {
        Some(le) => le.get("event_properties"),
        None => None,
    };
    assert(match lp {
        Some(x) => lpv == Some(x@),
        None => lpv is None,
    });
    let empty: Vec<Json> = Vec::new();
    let eps: &Vec<Json> = match ct.get("event_properties") {
        Some(v) => match v.as_array() {
            Some(a) => a,
            None => &empty,
        },
        None => &empty,
    };
    proof {
        lemma_view_seq(eps@);
        lemma_view_seq(empty@);
    }
    let ghost epsv = expected_properties(ct@);
    assert(epsv =~= view_seq(eps@));
    let mut ok = true;
    let mut i: usize = 0;
    while i < eps.len()
        invariant
            i <= eps@.len(),
            epsv == view_seq(eps@),
            epsv == expected_properties(ct@),
            lpv == latest_props(opt_view(latest_event)),
            custom_event_type == Some(ct),
            epsv.len() == eps@.len(),
            forall|j: int| 0 <= j < eps@.len() ==> #[trigger] epsv[j] == view_json(eps@[j]),
            p == view_members(props@),
            match lp {
                Some(x) => lpv == Some(x@),
                None => lpv is None,
            },
            custom_scan(epsv, p, lpv, 0, true) == custom_scan(epsv, p, lpv, i as int, ok),
        decreases eps@.len() - i,
    {
        let key = prop_key_of(&eps[i]);
        assert(epsv[i as int] == view_json(eps@[i as int]));
        let new_value = members_get(props, key.as_str());
        let mut mismatch = false;
        match (new_value, lp) {
            (Some(nv), Some(l)) => match l.get(key.as_str()) {
                Some(ov) => {
                    mismatch = !isinstance_like(nv, ov);
                },
                None => {},
            },
            _ => {},
        }
        assert(mismatch == type_mismatch(key@, p, lpv));
        let ok2 = ok && !mismatch;
        match new_value {
            None => {
                let msg = concat3(
                    "Please provide all required event properties key value pairs for this event type. Missing event property key : '",
                    key.as_str(),
                    "'",
                );
                return Err(invalid_data_pair(msg));
            },
            Some(_) => {},
        }
        if !ok2 {
            return Err(invalid_data_pair(copy_str(
                "Invalid data types specified for one or more of the provided event properties.",
            )));
        }
        ok = ok2;
        i = i + 1;
    }
    match ct.get("event_type_id") {
        Some(id) => Ok(id.deep_clone()),
        None => Ok(Json::Null),
    }
}

// ---------------------------------------------------------------------------
// Item identifiers of the account's algorithm configurations
// ---------------------------------------------------------------------------

/// Python `len()` of a configuration; none for values without a length.
pub open spec fn config_len(c: JsonV) -> Option<nat> {
    match c {
        JsonV::Obj(m) => Some(m.len()),
        JsonV::Arr(a) => Some(a.len()),
        JsonV::Str(s) => Some(s.len()),
        _ => None,
    }
}

/// The `event_type_id` as the recommendations message shows it: a string
/// as is, null as `None`, anything else as its JSON text.
pub open spec fn type_id_text(etid: JsonV) -> Seq<char> {
    match etid {
        JsonV::Str(s) => s,
        JsonV::Null => "None"@,
        _ => json_text(etid),
    }
}

pub open spec fn null_identifier_msg(key: Seq<char>) -> Seq<char> {
    "event_properties -- "@ + key
        + " can not contain a null value as this event is a primary event type."@
}

pub open spec fn rec_identifier_msg(etid_text: Seq<char>) -> Seq<char> {
    "The event type: '"@ + etid_text
        + "' is currently set as this accounts recommendations event type. Please supply the rec_item_identifier key. ex. 'item_id' with a relevant value within the event_properties."@
}

/// The key a configuration names for the item identifier, if a string.
pub open spec fn identifier_key(config: JsonV, iid: Seq<char>) -> Option<Seq<char>> {
    match config.get(iid) {
        Some(JsonV::Str(k)) => Some(k),
        _ => None,
    }
}

/// One algorithm configuration against the event: `Ok(None)` passes,
/// `Ok(Some(m))` refuses the event with `m`, `Err(m)` is an internal error.
/// A configuration without a `config_json`, or with an empty one, passes;
/// one whose `event_type` is this event's needs the identifier property it
/// names to be present and neither null nor empty, and for `rec` present.
pub open spec fn identifier_step(
    ac: JsonV,
    event_type: Seq<char>,
    etid: JsonV,
    p: Seq<(Seq<char>, JsonV)>,
) -> Result<Option<Seq<char>>, Seq<char>> {
    match ac.get("config_json"@) {
        None => Ok(None),
        Some(config) => match config_len(config) {
            None => Err("TypeError: len() of config_json"@),
            Some(n) => if n == 0 {
                Ok(None)
            } else {
                match ac.get("algorithm_name"@) {
                    Some(JsonV::Str(name)) => match config.get("event_type"@) {
                        None => Err("KeyError: config_json['event_type']"@),
                        Some(cet) => if cet == JsonV::Str(event_type) {
                            match identifier_key(config, name + "_item_identifier"@) {
                                Some(k) => match member_lookup(p, k) {
                                    Some(v) => if v is Null || v == JsonV::Str(seq![]) {
                                        Ok(Some(null_identifier_msg(k)))
                                    } else {
                                        Ok(None)
                                    },
                                    None => if name == "rec"@ {
                                        Ok(Some(rec_identifier_msg(type_id_text(etid))))
                                    } else {
                                        Ok(None)
                                    },
                                },
                                None => if name == "rec"@ {
                                    Ok(Some(rec_identifier_msg(type_id_text(etid))))
                                } else {
                                    Ok(None)
                                },
                            }
                        } else {
                            Ok(None)
                        },
                    },
                    _ => Err("KeyError: algo_conf['algorithm_name']"@),
                }
            },
        },
    }
}

/// The configurations from `i` on, in order; the first that does not pass
/// decides.
pub open spec fn identifier_scan(
    confs: Seq<JsonV>,
    i: int,
    event_type: Seq<char>,
    etid: JsonV,
    p: Seq<(Seq<char>, JsonV)>,
) -> Result<Option<Seq<char>>, Seq<char>>
    decreases confs.len() - i,
{
    if i < 0 || i >= confs.len() {
        Ok(None)
    } else {
        match identifier_step(confs[i], event_type, etid, p) {
            Ok(None) => identifier_scan(confs, i + 1, event_type, etid, p),
            other => other,
        }
    }
}

/// The algorithm configurations (none unless a list).
pub open spec fn algorithm_list(algos: JsonV) -> Seq<JsonV> {
    match algos {
        JsonV::Arr(a) => a,
        _ => seq![],
    }
}

fn type_id_string(etid: &Json) -> (r: String)
    ensures
        r@ == type_id_text(etid@),
{
    match etid {
        Json::Str(s) => copy_str(s.as_str()),
        Json::Null => copy_str("None"),
        _ => json_to_string(etid),
    }
}

fn config_length(c: &Json) -> (r: Option<usize>)
    ensures
        match r {
            Some(n) => config_len(c@) == Some(n as nat),
            None => config_len(c@) is None,
        },
{
    match c {
        Json::Object(m) => {
            proof {
                lemma_view_members(m@);
            }
            Some(m.len())
        },
        Json::Array(a) => {
            proof {
                lemma_view_seq(a@);
            }
            Some(a.len())
        },
        Json::Str(s) => Some(s.as_str().unicode_len()),
        _ => None,
    }
}

fn identifier_check_one(ac: &Json, event_type: &str, etid: &Json, props: &Vec<(String, Json)>) -> (r:
    Result<Option<String>, String>)
    ensures
        match r {
            Ok(Some(m)) => identifier_step(ac@, event_type@, etid@, view_members(props@)) == Ok::<
                Option<Seq<char>>,
                Seq<char>,
            >(Some(m@)),
            Ok(None) => identifier_step(ac@, event_type@, etid@, view_members(props@)) == Ok::<
                Option<Seq<char>>,
                Seq<char>,
            >(None),
            Err(m) => identifier_step(ac@, event_type@, etid@, view_members(props@)) == Err::<
                Option<Seq<char>>,
                Seq<char>,
            >(m@),
        },
{
    let config = match ac.get("config_json") {
        None => return Ok(None),
        Some(c) => c,
    };
    let n = match config_length(config) {
        None => return Err(copy_str("TypeError: len() of config_json")),
        Some(n) => n,
    };
    if n == 0 {
        return Ok(None);
    }
    let name: &str = match ac.get("algorithm_name") {
        Some(v) => match v.as_str() {
            Some(s) => s,
            None => return Err(copy_str("KeyError: algo_conf['algorithm_name']")),
        },
        None => return Err(copy_str("KeyError: algo_conf['algorithm_name']")),
    };
    let iid = concat2(name, "_item_identifier");
    let cet = match config.get("event_type") {
        None => return Err(copy_str("KeyError: config_json['event_type']")),
        Some(v) => v,
    };
    let same_type = match cet.as_str() {
        Some(s) => str_eq(s, event_type),
        None => false,
    };
    if !same_type {
        return Ok(None);
    }
    let key: Option<&str> = match config.get(iid.as_str()) {
        Some(v) => v.as_str(),
        None => None,
    };
    assert(match key {
        Some(k) => identifier_key(config@, iid@) == Some(k@),
        None => identifier_key(config@, iid@) is None,
    });
    let item: Option<&Json> = match key {
        Some(k) => members_get(props, k),
        None => None,
    };
    match item {
        Some(v) => {
            let empty = match v.as_str() {
                Some(s) => {
                    let e = s.unicode_len() == 0;
                    proof {
                        if e {
                            assert(s@ =~= Seq::<char>::empty());
                        }
                    }
                    e
                },
                None => false,
            };
            if v.is_null() || empty {
                let k = match key {
                    Some(k) => k,
                    None => "",
                };
                Ok(Some(concat3(
                    "event_properties -- ",
                    k,
                    " can not contain a null value as this event is a primary event type.",
                )))
            } else {
                proof {
                    if v@ == JsonV::Str(seq![]) {
                        assert(v@.as_str() == Some(Seq::<char>::empty()));
                    }
                }
                Ok(None)
            }
        },
        None => {
            if str_eq(name, "rec") {
                let e = type_id_string(etid);
                Ok(Some(concat3(
                    "The event type: '",
                    e.as_str(),
                    "' is currently set as this accounts recommendations event type. Please supply the rec_item_identifier key. ex. 'item_id' with a relevant value within the event_properties.",
                )))
            } else {
                Ok(None)
            }
        },
    }
}

/// The outcome of event verification once the outside work is done:
/// `Err(m)` an internal error, `Ok(Err(e))` a refusal, `Ok(Ok(id))` the
/// accepted event's `event_type_id`.
pub open spec fn verify_event_spec(
    event_type: Seq<char>,
    is_system: bool,
    custom: Option<JsonV>,
    p: Seq<(Seq<char>, JsonV)>,
    latest: Option<JsonV>,
    algos: JsonV,
) -> Result<Result<JsonV, (Seq<char>, Seq<char>)>, Seq<char>> {
    let first = if is_system {
        system_event_check(event_type, p)
    } else {
        custom_event_check(custom, p, latest)
    };
    match first {
        Err(e) => Ok(Err(e)),
        Ok(etid) => match identifier_scan(algorithm_list(algos), 0, event_type, etid, p) {
            Err(m) => Err(m),
            Ok(Some(m)) => Ok(Err(invalid_data(m))),
            Ok(None) => Ok(Ok(etid)),
        },
    }
}

/// The view of a verification outcome.
pub open spec fn verify_view(r: Result<Result<Json, (String, String)>, ApiError>) -> Result<
    Result<JsonV, (Seq<char>, Seq<char>)>,
    Seq<char>,
> {
    match r {
        Ok(o) => Ok(outcome_view(o)),
        Err(ApiError::Internal(m)) => Err(m@),
        Err(_) => Err(seq![]),
    }
}

/// Decides an event once the outside work is done: the property checks of
/// its system or custom type (`custom_event_type` is the stored type found
/// by name, for a custom event), then the item identifiers that the
/// account's algorithm configurations ask of events of this type.
pub fn verify_event_outcome(
    event_type: &str,
    is_system: bool,
    custom_event_type: Option<&Json>,
    props: &Vec<(String, Json)>,
    latest_event: Option<&Json>,
    algorithm_configurations: &Json,
) -> (r: Result<Result<Json, (String, String)>, ApiError>)
    ensures
        verify_view(r) == verify_event_spec(
            event_type@,
            is_system,
            opt_view(custom_event_type),
            view_members(props@),
            opt_view(latest_event),
            algorithm_configurations@,
        ),
        r matches Err(e) ==> e is Internal,
{
    let first = if is_system {
        check_system_event(event_type, props)
    } else {
        check_custom_event(custom_event_type, props, latest_event)
    };
    let etid = match first {
        Err(e) => return Ok(Err(e)),
        Ok(id) => id,
    };
    let empty: Vec<Json> = Vec::new();
    let confs: &Vec<Json> = match algorithm_configurations.as_array() {
        Some(a) => a,
        None => &empty,
    };
    proof {
        lemma_view_seq(confs@);
        lemma_view_seq(empty@);
    }
    let ghost cv = algorithm_list(algorithm_configurations@);
    let ghost p = view_members(props@);
    let ghost firstv = if is_system {
        system_event_check(event_type@, p)
    } else {
        custom_event_check(opt_view(custom_event_type), p, opt_view(latest_event))
    };
    assert(firstv == Ok::<JsonV, (Seq<char>, Seq<char>)>(etid@));
    assert(cv =~= view_seq(confs@));
    let mut i: usize = 0;
    while i < confs.len()
        invariant
            i <= confs@.len(),
            cv == view_seq(confs@),
            cv.len() == confs@.len(),
            forall|j: int| 0 <= j < confs@.len() ==> #[trigger] cv[j] == view_json(confs@[j]),
            p == view_members(props@),
            cv == algorithm_list(algorithm_configurations@),
            firstv == Ok::<JsonV, (Seq<char>, Seq<char>)>(etid@),
            firstv == if is_system {
                system_event_check(event_type@, p)
            } else {
                custom_event_check(opt_view(custom_event_type), p, opt_view(latest_event))
            },
            identifier_scan(cv, 0, event_type@, etid@, p) == identifier_scan(
                cv,
                i as int,
                event_type@,
                etid@,
                p,
            ),
        decreases confs@.len() - i,
    {
        assert(cv[i as int] == view_json(confs@[i as int]));
        match identifier_check_one(&confs[i], event_type, &etid, props) {
            Err(m) => return Err(ApiError::Internal(m)),
            Ok(Some(m)) => return Ok(Err(invalid_data_pair(m))),
            Ok(None) => {},
        }
        i = i + 1;
    }
    Ok(Ok(etid))
}

} // verus!
