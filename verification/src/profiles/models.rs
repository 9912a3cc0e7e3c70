//! Validation of the profiles requests. A body is first read into the typed
//! values below (strict JSON types); these functions then apply the
//! validators and limits of the request models.

use vstd::prelude::*;
use crate::fields::strings_view;
use crate::events::models::up_to_msg;
use crate::json::{
    errs_view, fe, field_error, json_text, json_to_string, lemma_view_members, locs_view,
    push_error, view_json, view_members, FieldError, FieldErrorV, Json, JsonV, Loc, LocV,
};
use crate::text::{
    chars_of, chars_present, concat3, copy_str, i64_to_string, join, join_chars, nat_decimal,
    present_chars, str_eq, string_of, trim, trimmed, usize_to_string,
};

verus! {

/// A request refused for its content: the status code (422) and the field
/// errors.
pub struct ValidationError {
    pub code: u16,
    pub reasons: Vec<FieldError>,
}

fn validation_error(reasons: Vec<FieldError>) -> (r: ValidationError)
    ensures
        r.code == 422,
        r.reasons == reasons,
{
    ValidationError { code: 422, reasons }
}

/// The location `[body,] profiles, <i>, field` (the index as a string).
pub open spec fn profile_loc(body: bool, i: int, field: Seq<char>) -> Seq<LocV> {
    let base = seq![LocV::Key("profiles"@), LocV::Key(nat_decimal(i as nat)), LocV::Key(field)];
    if body {
        seq![LocV::Key("body"@)] + base
    } else {
        base
    }
}

fn profile_loc_of(body: bool, i: usize, field: &str) -> (r: Vec<Loc>)
    ensures
        locs_view(r@) == profile_loc(body, i as int, field@),
{
    let mut out: Vec<Loc> = Vec::new();
    if body {
        out.push(Loc::Key(copy_str("body")));
    }
    out.push(Loc::Key(copy_str("profiles")));
    out.push(Loc::Key(usize_to_string(i)));
    out.push(Loc::Key(copy_str(field)));
    assert(locs_view(out@) =~= profile_loc(body, i as int, field@));
    out
}

/// `fe` with type `value_error`.
pub open spec fn value_error(loc: Seq<LocV>, msg: Seq<char>) -> FieldErrorV {
    fe(loc, msg, "value_error"@)
}

// ---------------------------------------------------------------------------
// Validators
// ---------------------------------------------------------------------------

/// Rust's `Debug` rendering of a one-character string.
pub open spec fn debug_char_str(c: char) -> Seq<char> {
    if c == '"' {
        seq!['"', '\\', '"', '"']
    } else {
        seq!['"', c, '"']
    }
}

/// The message rejecting a customer identifier, if any: 1 to 60
/// characters, none of `, " ' .` (listed as a Rust `Debug` list).
pub open spec fn customer_id_error(value: Seq<char>) -> Option<Seq<char>> {
    let found = chars_present(value, seq![',', '"', '\'', '.']);
    if value.len() > 60 || value.len() < 1 {
        Some("Customer identifiers must be at least 1 character long and less than 60 characters long."@)
    } else if found.len() > 0 {
        Some(
            "Illegal character(s) found in provided customer identifier : ["@ + join(
                found.map_values(|c: char| debug_char_str(c)),
                ", "@,
            ) + "]"@,
        )
    } else {
        None
    }
}

/// Validates a customer identifier; the message if it is refused.
pub fn validate_customer_id(value: &str) -> (r: Option<String>)
    ensures
        match r {
            Some(m) => customer_id_error(value@) == Some(m@),
            None => customer_id_error(value@) is None,
        },
{
    let chars = chars_of(value);
    let n = chars.len();
    if n > 60 || n < 1 {
        return Some(copy_str("Customer identifiers must be at least 1 character long and less than 60 characters long."));
    }
    let disallowed = [',', '"', '\'', '.'];
    assert(disallowed@ =~= seq![',', '"', '\'', '.']);
    let found = present_chars(&chars, &disallowed);
    if found.len() > 0 {
        let mut parts: Vec<Vec<char>> = Vec::new();
        let mut i: usize = 0;
        while i < found.len()
            invariant
                i <= found@.len(),
                parts@.len() == i,
                forall|k: int| 0 <= k < i ==> (#[trigger] parts@[k])@ == debug_char_str(found@[k]),
            decreases found@.len() - i,
        {
            let c = found[i];
            let mut p: Vec<char> = Vec::new();
            p.push('"');
            if c == '"' {
                p.push('\\');
            }
            p.push(c);
            p.push('"');
            assert(p@ =~= debug_char_str(c));
            parts.push(p);
            i = i + 1;
        }
        assert(parts@.map_values(|p: Vec<char>| p@) =~= found@.map_values(|c: char| debug_char_str(c)));
        let joined = join_chars(&parts, &[',', ' ']);
        proof {
            reveal_strlit(", ");
        }
        assert([',', ' ']@ =~= ", "@);
        return Some(concat3("Illegal character(s) found in provided customer identifier : [", string_of(&joined).as_str(), "]"));
    }
    None
}

/// The message rejecting a profile status, if any.
pub open spec fn profile_status_error(value: Seq<char>) -> Option<Seq<char>> {
    if value != "active"@ && value != "inactive"@ && value != "churned"@ {
        Some("Invalid status provided. Allowed statuses : 'active', 'inactive' or 'churned'"@)
    } else {
        None
    }
}

/// Validates a profile status (`active`, `inactive` or `churned`); the
/// message if it is refused.
pub fn validate_status(value: &str) -> (r: Option<String>)
    ensures
        match r {
            Some(m) => profile_status_error(value@) == Some(m@),
            None => profile_status_error(value@) is None,
        },
{
    if !str_eq(value, "active") && !str_eq(value, "inactive") && !str_eq(value, "churned") {
        return Some(copy_str("Invalid status provided. Allowed statuses : 'active', 'inactive' or 'churned'"));
    }
    None
}

/// The message for a null or blank member `k : v` of `attribute`.
pub open spec fn null_value_msg(attribute: Seq<char>, k: Seq<char>, v: JsonV) -> Seq<char> {
    "Invalid "@ + attribute
        + " attribute provided. Null values or empty strings can not be provided as "@ + attribute
        + " values. Invalid key pair value: ("@ + k + " : "@ + json_text(v) + ")"@
}

/// A null value, or a string of white space only.
pub open spec fn null_or_blank(v: JsonV) -> bool {
    v is Null || (v is Str && trim(v->Str_0).len() == 0)
}

pub open spec fn null_scan(m: Seq<(Seq<char>, JsonV)>, n: int, attribute: Seq<char>, loc: Seq<LocV>) -> Seq<FieldErrorV>
    decreases n,
{
    if n <= 0 {
        seq![]
    } else {
        null_scan(m, n - 1, attribute, loc) + if null_or_blank(m[n - 1].1) {
            seq![value_error(loc, null_value_msg(attribute, m[n - 1].0, m[n - 1].1))]
        } else {
            seq![]
        }
    }
}

/// The errors of `disallow_null_values` on `attribute` (one per null or
/// blank member of an object; none for other values), at `loc`.
pub open spec fn null_value_errors(v: JsonV, attribute: Seq<char>, loc: Seq<LocV>) -> Seq<FieldErrorV> {
    match v {
        JsonV::Obj(m) => null_scan(m, m.len() as int, attribute, loc),
        _ => seq![],
    }
}

/// Appends the errors of `disallow_null_values` on `attribute` at `loc`.
pub fn disallow_null_values(value: &Json, attribute: &str, loc: &Vec<Loc>, errors: &mut Vec<FieldError>)
    ensures
        errs_view(final(errors)@) == errs_view(old(errors)@) + null_value_errors(value@, attribute@, locs_view(loc@)),
{
    match value {
        Json::Object(m) => {
            proof {
                lemma_view_members(m@);
            }
            let ghost mv = view_members(m@);
            let ghost start = errs_view(errors@);
            let mut i: usize = 0;
            while i < m.len()
                invariant
                    i <= m@.len(),
                    mv == view_members(m@),
                    mv.len() == m@.len(),
                    forall|j: int| 0 <= j < m@.len() ==> #[trigger] mv[j] == (m@[j].0@, view_json(m@[j].1)),
                    errs_view(errors@) == start + null_scan(mv, i as int, attribute@, locs_view(loc@)),
                decreases m@.len() - i,
            {
                let entry = &m[i];
                assert(mv[i as int] == (entry.0@, view_json(entry.1)));
                let bad = match &entry.1 {
                    Json::Null => true,
                    Json::Str(s) => trimmed(s.as_str()).len() == 0,
                    _ => false,
                };
                if bad {
                    let a = concat3("Invalid ", attribute, " attribute provided. Null values or empty strings can not be provided as ");
                    let b = concat3(a.as_str(), attribute, " values. Invalid key pair value: (");
                    let c = concat3(b.as_str(), entry.0.as_str(), " : ");
                    let msg = concat3(c.as_str(), json_to_string(&entry.1).as_str(), ")");
                    push_error(errors, field_error(crate::json::copy_locs(loc), msg.as_str(), "value_error"));
                }
                assert(errs_view(errors@) =~= start + null_scan(mv, i + 1, attribute@, locs_view(loc@)));
                i = i + 1;
            }
        },
        _ => {
            assert(errs_view(errors@) =~= errs_view(old(errors)@) + null_value_errors(value@, attribute@, locs_view(loc@)));
        },
    }
}

// ---------------------------------------------------------------------------
// Request bodies
// ---------------------------------------------------------------------------

/// The location `body, profiles`.
pub open spec fn body_profiles() -> Seq<LocV> {
    seq![LocV::Key("body"@), LocV::Key("profiles"@)]
}

fn body_profiles_loc() -> (r: Vec<Loc>)
    ensures
        locs_view(r@) == body_profiles(),
{
    let mut out: Vec<Loc> = Vec::new();
    out.push(Loc::Key(copy_str("body")));
    out.push(Loc::Key(copy_str("profiles")));
    assert(locs_view(out@) =~= body_profiles());
    out
}

/// The prefix `[body,] profiles, <i>` of a profile's errors.
pub open spec fn profile_prefix(body: bool, i: int) -> Seq<LocV> {
    profile_loc(body, i, seq![]).drop_last()
}

fn profile_prefix_of(body: bool, i: usize) -> (r: Vec<Loc>)
    ensures
        locs_view(r@) == profile_prefix(body, i as int),
{
    let mut out: Vec<Loc> = Vec::new();
    if body {
        out.push(Loc::Key(copy_str("body")));
    }
    out.push(Loc::Key(copy_str("profiles")));
    out.push(Loc::Key(usize_to_string(i)));
    assert(locs_view(out@) =~= profile_prefix(body, i as int));
    out
}

/// A profile to create.
pub struct CreateProfilesChild {
    pub customer_id: String,
    pub profile_data: Json,
    pub platform_info: Json,
    pub has_charged: bool,
}

pub struct CreateProfiles {
    pub profiles: Vec<CreateProfilesChild>,
}

/// A segment tag of a profile update.
pub struct SegmentTagInput {
    pub segment_id: String,
    pub segment_tag: String,
    pub status: Option<String>,
}

/// A profile update, from the HTTP or the AMQP request.
pub struct ProfileUpdateInput {
    pub profile_id: String,
    pub customer_id: Option<String>,
    pub profile_data: Option<Json>,
    pub platform_info: Option<Json>,
    pub has_charged: Option<bool>,
    pub status: Option<String>,
    pub rfm_score: Option<i64>,
    pub rfm_segment_desc: Option<String>,
    pub churn_probability: Option<String>,
    pub ltv_prediction: Option<i64>,
    pub current_ltv: Option<i64>,
    pub segment_tags: Option<Vec<SegmentTagInput>>,
}

/// The errors of the customer id, profile data and platform info of the
/// profile at `i`.
pub open spec fn base_errors(customer_id: Seq<char>, profile_data: JsonV, platform_info: JsonV, i: int) -> Seq<FieldErrorV> {
    (match customer_id_error(customer_id) {
        Some(m) => seq![value_error(profile_loc(true, i, "customer_id"@), m)],
        None => seq![],
    }) + null_value_errors(profile_data, "profile_data"@, profile_loc(true, i, "profile_data"@))
        + null_value_errors(platform_info, "platform_info"@, profile_loc(true, i, "platform_info"@))
}

pub open spec fn create_children_errors(ps: Seq<CreateProfilesChild>, n: int) -> Seq<FieldErrorV>
    decreases n,
{
    if n <= 0 {
        seq![]
    } else {
        create_children_errors(ps, n - 1) + base_errors(
            ps[n - 1].customer_id@,
            ps[n - 1].profile_data@,
            ps[n - 1].platform_info@,
            n - 1,
        )
    }
}

/// The errors of a `CreateProfiles` request: the limit first, then each
/// profile's.
pub open spec fn create_profiles_errors(ps: Seq<CreateProfilesChild>, max: int) -> Seq<FieldErrorV> {
    (if ps.len() > max {
        seq![
            value_error(
                body_profiles(),
                up_to_msg(
                    "You can only create up to "@,
                    max,
                    " profiles per request. For larger uploads, please use the octy cli."@,
                ),
            ),
        ]
    } else {
        seq![]
    }) + create_children_errors(ps, ps.len() as int)
}

fn push_base_errors(customer_id: &str, profile_data: &Json, platform_info: &Json, i: usize, errors: &mut Vec<FieldError>)
    ensures
        errs_view(final(errors)@) == errs_view(old(errors)@) + base_errors(customer_id@, profile_data@, platform_info@, i as int),
{
    let ghost start = errs_view(errors@);
    match validate_customer_id(customer_id) {
        Some(m) => push_error(errors, field_error(profile_loc_of(true, i, "customer_id"), m.as_str(), "value_error")),
        None => {},
    }
    let ghost a = errs_view(errors@);
    disallow_null_values(profile_data, "profile_data", &profile_loc_of(true, i, "profile_data"), errors);
    disallow_null_values(platform_info, "platform_info", &profile_loc_of(true, i, "platform_info"), errors);
    assert(errs_view(errors@) =~= start + base_errors(customer_id@, profile_data@, platform_info@, i as int));
}

fn limit_error(verb_before: &str, max: i64, after_: &str, errors: &mut Vec<FieldError>)
    ensures
        errs_view(final(errors)@) == errs_view(old(errors)@).push(value_error(body_profiles(), up_to_msg(verb_before@, max as int, after_@))),
{
    let msg = concat3(verb_before, i64_to_string(max).as_str(), after_);
    push_error(errors, field_error(body_profiles_loc(), msg.as_str(), "value_error"));
}

impl CreateProfiles {
    /// Validates the profiles of a parsed `CreateProfiles` body; at most
    /// `max_create_profiles` of them.
    pub fn from_json(profiles: Vec<CreateProfilesChild>, max_create_profiles: i64) -> (r: Result<CreateProfiles, ValidationError>)
        ensures
            create_profiles_errors(profiles@, max_create_profiles as int).len() == 0 ==> (r matches Ok(c) && c.profiles@ == profiles@),
            create_profiles_errors(profiles@, max_create_profiles as int).len() > 0 ==> (r matches Err(e) && e.code == 422
                && errs_view(e.reasons@) == create_profiles_errors(profiles@, max_create_profiles as int)),
    {
        let mut errors: Vec<FieldError> = Vec::new();
        if profiles.len() as i128 > max_create_profiles as i128 {
            limit_error(
                "You can only create up to ",
                max_create_profiles,
                " profiles per request. For larger uploads, please use the octy cli.",
                &mut errors,
            );
        }
        let ghost start = errs_view(errors@);
        let mut i: usize = 0;
        while i < profiles.len()
            invariant
                i <= profiles@.len(),
                errs_view(errors@) == start + create_children_errors(profiles@, i as int),
            decreases profiles@.len() - i,
        {
            let c = &profiles[i];
            push_base_errors(c.customer_id.as_str(), &c.profile_data, &c.platform_info, i, &mut errors);
            assert(errs_view(errors@) =~= start + create_children_errors(profiles@, i + 1));
            i = i + 1;
        }
        assert(errs_view(errors@) =~= create_profiles_errors(profiles@, max_create_profiles as int));
        if errors.len() == 0 {
            Ok(CreateProfiles { profiles })
        } else {
            Err(validation_error(errors))
        }
    }
}

/// A profile of an HTTP update: every base field is required; segment
/// tags carry no status.
pub struct UpdateProfilesChildHttp {
    pub profile_id: String,
    pub customer_id: String,
    pub profile_data: Json,
    pub platform_info: Json,
    pub has_charged: bool,
    pub status: String,
    pub rfm_score: Option<i64>,
    pub rfm_segment_desc: Option<String>,
    pub churn_probability: Option<String>,
    pub ltv_prediction: Option<i64>,
    pub current_ltv: Option<i64>,
    /// `(segment_id, segment_tag)` pairs.
    pub segment_tags: Option<Vec<(String, String)>>,
}

pub struct UpdateProfilesHttp {
    pub profiles: Vec<ProfileUpdateInput>,
}

pub struct UpdateProfilesAmqp {
    pub account_id: String,
    pub profiles: Vec<ProfileUpdateInput>,
}

pub open spec fn http_child_errors(c: UpdateProfilesChildHttp, i: int) -> Seq<FieldErrorV> {
    base_errors(c.customer_id@, c.profile_data@, c.platform_info@, i) + match profile_status_error(c.status@) {
        Some(m) => seq![value_error(profile_loc(true, i, "status"@), m)],
        None => seq![],
    }
}

pub open spec fn http_children_errors(ps: Seq<UpdateProfilesChildHttp>, n: int) -> Seq<FieldErrorV>
    decreases n,
{
    if n <= 0 {
        seq![]
    } else {
        http_children_errors(ps, n - 1) + http_child_errors(ps[n - 1], n - 1)
    }
}

/// The errors of an HTTP `UpdateProfiles` request: the limit, then each
/// profile's customer id, null values and status.
pub open spec fn update_http_errors(ps: Seq<UpdateProfilesChildHttp>, max: int) -> Seq<FieldErrorV> {
    (if ps.len() > max {
        seq![value_error(body_profiles(), up_to_msg("You can only update up to "@, max, " profiles per request."@))]
    } else {
        seq![]
    }) + http_children_errors(ps, ps.len() as int)
}

/// The canonical update an HTTP profile describes (every base field set).
pub open spec fn http_update_matches(c: UpdateProfilesChildHttp, u: ProfileUpdateInput) -> bool {
    &&& u.profile_id@ == c.profile_id@
    &&& u.customer_id matches Some(x) && x@ == c.customer_id@
    &&& u.profile_data matches Some(x) && x@ == c.profile_data@
    &&& u.platform_info matches Some(x) && x@ == c.platform_info@
    &&& u.has_charged == Some(c.has_charged)
    &&& u.status matches Some(x) && x@ == c.status@
    &&& u.rfm_score == c.rfm_score
    &&& u.ltv_prediction == c.ltv_prediction
    &&& u.current_ltv == c.current_ltv
    &&& opt_string_view(u.rfm_segment_desc) == opt_string_view(c.rfm_segment_desc)
    &&& opt_string_view(u.churn_probability) == opt_string_view(c.churn_probability)
    &&& match (u.segment_tags, c.segment_tags) {
        (None, None) => true,
        (Some(ts), Some(cs)) => ts@.len() == cs@.len() && forall|k: int|
            0 <= k < ts@.len() ==> (#[trigger] ts@[k]).segment_id@ == cs@[k].0@ && ts@[k].segment_tag@
                == cs@[k].1@ && ts@[k].status is None,
        _ => false,
    }
}

pub open spec fn opt_string_view(o: Option<String>) -> Option<Seq<char>> {
    match o {
        Some(s) => Some(s@),
        None => None,
    }
}

fn copy_opt(o: &Option<String>) -> (r: Option<String>)
    ensures
        opt_string_view(r) == opt_string_view(*o),
{
    match o {
        Some(s) => Some(copy_str(s.as_str())),
        None => None,
    }
}

fn http_to_update(c: &UpdateProfilesChildHttp) -> (u: ProfileUpdateInput)
    ensures
        http_update_matches(*c, u),
{
    let segment_tags = match &c.segment_tags {
        None => None,
        Some(tags) => {
            let mut out: Vec<SegmentTagInput> = Vec::new();
            let mut k: usize = 0;
            while k < tags.len()
                invariant
                    k <= tags@.len(),
                    out@.len() == k,
                    forall|j: int| 0 <= j < k ==> (#[trigger] out@[j]).segment_id@ == tags@[j].0@ && out@[j].segment_tag@ == tags@[j].1@
                        && out@[j].status is None,
                decreases tags@.len() - k,
            {
                out.push(SegmentTagInput {
                    segment_id: copy_str(tags[k].0.as_str()),
                    segment_tag: copy_str(tags[k].1.as_str()),
                    status: None,
                });
                k = k + 1;
            }
            Some(out)
        },
    };
    ProfileUpdateInput {
        profile_id: copy_str(c.profile_id.as_str()),
        customer_id: Some(copy_str(c.customer_id.as_str())),
        profile_data: Some(c.profile_data.deep_clone()),
        platform_info: Some(c.platform_info.deep_clone()),
        has_charged: Some(c.has_charged),
        status: Some(copy_str(c.status.as_str())),
        rfm_score: c.rfm_score,
        rfm_segment_desc: copy_opt(&c.rfm_segment_desc),
        churn_probability: copy_opt(&c.churn_probability),
        ltv_prediction: c.ltv_prediction,
        current_ltv: c.current_ltv,
        segment_tags,
    }
}

impl UpdateProfilesHttp {
    /// Validates the profiles of a parsed HTTP `UpdateProfiles` body; at
    /// most `max_update_delete_profiles` of them.
    pub fn from_json(profiles: Vec<UpdateProfilesChildHttp>, max_update_delete_profiles: i64) -> (r: Result<UpdateProfilesHttp, ValidationError>)
        ensures
            update_http_errors(profiles@, max_update_delete_profiles as int).len() == 0 ==> (r matches Ok(u) && u.profiles@.len()
                == profiles@.len() && forall|k: int| 0 <= k < profiles@.len() ==> http_update_matches(profiles@[k], #[trigger] u.profiles@[k])),
            update_http_errors(profiles@, max_update_delete_profiles as int).len() > 0 ==> (r matches Err(e) && e.code == 422
                && errs_view(e.reasons@) == update_http_errors(profiles@, max_update_delete_profiles as int)),
    {
        let mut errors: Vec<FieldError> = Vec::new();
        if profiles.len() as i128 > max_update_delete_profiles as i128 {
            limit_error("You can only update up to ", max_update_delete_profiles, " profiles per request.", &mut errors);
        }
        let ghost start = errs_view(errors@);
        let mut out: Vec<ProfileUpdateInput> = Vec::new();
        let mut i: usize = 0;
        while i < profiles.len()
            invariant
                i <= profiles@.len(),
                errs_view(errors@) == start + http_children_errors(profiles@, i as int),
                out@.len() == i,
                forall|k: int| 0 <= k < i ==> http_update_matches(profiles@[k], #[trigger] out@[k]),
            decreases profiles@.len() - i,
        {
            let c = &profiles[i];
            push_base_errors(c.customer_id.as_str(), &c.profile_data, &c.platform_info, i, &mut errors);
            match validate_status(c.status.as_str()) {
                Some(m) => push_error(&mut errors, field_error(profile_loc_of(true, i, "status"), m.as_str(), "value_error")),
                None => {},
            }
            assert(errs_view(errors@) =~= start + http_children_errors(profiles@, i + 1));
            out.push(http_to_update(c));
            i = i + 1;
        }
        assert(errs_view(errors@) =~= update_http_errors(profiles@, max_update_delete_profiles as int));
        if errors.len() == 0 {
            Ok(UpdateProfilesHttp { profiles: out })
        } else {
            Err(validation_error(errors))
        }
    }
}

pub open spec fn amqp_children_errors(ps: Seq<ProfileUpdateInput>, n: int) -> Seq<FieldErrorV>
    decreases n,
{
    if n <= 0 {
        seq![]
    } else {
        amqp_children_errors(ps, n - 1) + match ps[n - 1].status {
            Some(st) => match profile_status_error(st@) {
                Some(m) => seq![value_error(profile_loc(false, n - 1, "status"@), m)],
                None => seq![],
            },
            None => seq![],
        }
    }
}

impl UpdateProfilesAmqp {
    /// Validates the profiles of a parsed AMQP `UpdateProfiles` message: a
    /// status, where one is given, must be allowed.
    pub fn from_json(account_id: String, profiles: Vec<ProfileUpdateInput>) -> (r: Result<UpdateProfilesAmqp, ValidationError>)
        ensures
            amqp_children_errors(profiles@, profiles@.len() as int).len() == 0 ==> (r matches Ok(u) && u.account_id == account_id
                && u.profiles@ == profiles@),
            amqp_children_errors(profiles@, profiles@.len() as int).len() > 0 ==> (r matches Err(e) && e.code == 422 && errs_view(
                e.reasons@,
            ) == amqp_children_errors(profiles@, profiles@.len() as int)),
    {
        let mut errors: Vec<FieldError> = Vec::new();
        let mut i: usize = 0;
        while i < profiles.len()
            invariant
                i <= profiles@.len(),
                errs_view(errors@) == amqp_children_errors(profiles@, i as int),
            decreases profiles@.len() - i,
        {
            let ghost before = errs_view(errors@);
            match &profiles[i].status {
                Some(st) => match validate_status(st.as_str()) {
                    Some(m) => push_error(&mut errors, field_error(profile_loc_of(false, i, "status"), m.as_str(), "value_error")),
                    None => {},
                },
                None => {},
            }
            assert(errs_view(errors@) =~= amqp_children_errors(profiles@, i + 1));
            i = i + 1;
        }
        if errors.len() == 0 {
            Ok(UpdateProfilesAmqp { account_id, profiles })
        } else {
            Err(validation_error(errors))
        }
    }
}

pub struct DeleteProfilesHttp {
    pub profiles: Vec<String>,
}

impl DeleteProfilesHttp {
    /// Checks the number of profiles of a parsed `DeleteProfiles` body.
    pub fn from_json(profiles: Vec<String>, max_update_delete_profiles: i64) -> (r: Result<DeleteProfilesHttp, ValidationError>)
        ensures
            profiles@.len() <= max_update_delete_profiles ==> (r matches Ok(d) && d.profiles@ == profiles@),
            profiles@.len() > max_update_delete_profiles ==> (r matches Err(e) && e.code == 422 && errs_view(e.reasons@) == seq![
                value_error(body_profiles(), up_to_msg("You can only delete up to "@, max_update_delete_profiles as int, " profiles per request."@)),
            ]),
    {
        if profiles.len() as i128 > max_update_delete_profiles as i128 {
            let mut errors: Vec<FieldError> = Vec::new();
            limit_error("You can only delete up to ", max_update_delete_profiles, " profiles per request.", &mut errors);
            assert(errs_view(errors@) =~= seq![
                value_error(body_profiles(), up_to_msg("You can only delete up to "@, max_update_delete_profiles as int, " profiles per request."@)),
            ]);
            return Err(validation_error(errors));
        }
        Ok(DeleteProfilesHttp { profiles })
    }
}

pub struct DeleteProfilesAmqp {
    pub account_id: String,
    pub profiles: Vec<String>,
}

pub struct GetProfilesInternal {
    pub account_id: String,
    pub profiles: Vec<String>,
    pub tag_statuses: Option<Vec<String>>,
    pub get_all: bool,
}

/// The segment tag statuses a profiles lookup keeps when none are given.
pub fn default_tag_statuses() -> (r: Option<Vec<String>>)
    ensures
        r matches Some(v) && strings_view(v@) == seq!["active"@],
{
    let mut v: Vec<String> = Vec::new();
    v.push(copy_str("active"));
    assert(strings_view(v@) =~= seq!["active"@]);
    Some(v)
}

pub struct DeleteAccountProfiles {
    pub account_id: String,
}

pub struct SegmentId {
    pub segment_id: String,
}

pub struct SegmentIdUpdateDelete {
    pub account_id: String,
    pub action: String,
    pub segment_ids: Vec<SegmentId>,
}

pub struct GroupedSegmentationDatabaseOperations {
    pub account_id: String,
    pub operations: Vec<Json>,
}

} // verus!
