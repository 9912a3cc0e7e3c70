//! The event documents the events service writes and returns: a created
//! event, a refused one, its creation time, and the live segmentation job
//! an event of a live segment's sequence starts.

use vstd::prelude::*;
use crate::events::models::CreateEvent;
use crate::json::{lemma_view_members, lemma_view_seq, lemma_view_seq_ext, view_members, view_seq, Json, JsonV};
use crate::text::copy_str;

verus! {

/// An event's properties as a JSON object.
pub open spec fn props_view(e: CreateEvent) -> JsonV {
    JsonV::Obj(view_members(e.event_properties@))
}

/// A created event, as stored (with its `created_at` when given).
pub open spec fn event_doc(event_id: Seq<char>, e: CreateEvent, type_id: JsonV, created_at: Option<JsonV>) -> JsonV {
    JsonV::Obj(seq![
        ("event_id"@, JsonV::Str(event_id)),
        ("profile_id"@, JsonV::Str(e.profile_id@)),
        ("event_type_id"@, type_id),
        ("event_type"@, JsonV::Str(e.event_type@)),
        ("event_properties"@, props_view(e)),
    ] + match created_at {
        Some(c) => seq![("created_at"@, c)],
        None => seq![],
    })
}

fn clone_props(e: &CreateEvent) -> (r: Json)
    ensures
        r@ == props_view(*e),
{
    Json::Object(crate::json::clone_members(&e.event_properties))
}

/// The document of a created event; `created_at`, when given, is the
/// value stored or returned for its creation time.
pub fn event_document(event_id: &str, e: &CreateEvent, event_type_id: &Json, created_at: Option<Json>) -> (r: Json)
    ensures
        r@ == event_doc(event_id@, *e, event_type_id@, match created_at {
            Some(c) => Some(c@),
            None => None,
        }),
{
    let mut m: Vec<(String, Json)> = Vec::new();
    m.push((copy_str("event_id"), Json::Str(copy_str(event_id))));
    m.push((copy_str("profile_id"), Json::Str(copy_str(e.profile_id.as_str()))));
    m.push((copy_str("event_type_id"), event_type_id.deep_clone()));
    m.push((copy_str("event_type"), Json::Str(copy_str(e.event_type.as_str()))));
    m.push((copy_str("event_properties"), clone_props(e)));
    let ghost cv = match &created_at {
        Some(c) => Some(c@),
        None => None::<JsonV>,
    };
    match created_at {
        Some(c) => m.push((copy_str("created_at"), c)),
        None => {},
    }
    proof {
        lemma_view_members(m@);
    }
    assert(view_members(m@) =~= match event_doc(event_id@, *e, event_type_id@, cv) {
        JsonV::Obj(x) => x,
        _ => seq![],
    });
    Json::Object(m)
}

/// A refused event of a batch, with the reason.
pub open spec fn refused_event(e: CreateEvent, msg: Seq<char>) -> JsonV {
    JsonV::Obj(seq![
        ("event_type"@, JsonV::Str(e.event_type@)),
        ("event_properties"@, props_view(e)),
        ("profile_id"@, JsonV::Str(e.profile_id@)),
        ("error_message"@, JsonV::Str(msg)),
    ])
}

/// The entry of a refused event of a batch.
pub fn refused_event_entry(e: &CreateEvent, msg: &str) -> (r: Json)
    ensures
        r@ == refused_event(*e, msg@),
{
    let mut m: Vec<(String, Json)> = Vec::new();
    m.push((copy_str("event_type"), Json::Str(copy_str(e.event_type.as_str()))));
    m.push((copy_str("event_properties"), clone_props(e)));
    m.push((copy_str("profile_id"), Json::Str(copy_str(e.profile_id.as_str()))));
    m.push((copy_str("error_message"), Json::Str(copy_str(msg))));
    proof {
        lemma_view_members(m@);
    }
    assert(view_members(m@) =~= match refused_event(*e, msg@) {
        JsonV::Obj(x) => x,
        _ => seq![],
    });
    Json::Object(m)
}

/// A `YYYY-MM-DD HH:MM:SS` text read as a UTC time: its epoch milliseconds
/// and its `%a, %d %b %Y %H:%M:%S GMT` rendering; none when the text is not
/// such a time.
pub uninterp spec fn naive_time(s: Seq<char>) -> Option<(int, Seq<char>)>;

/// Parses `%Y-%m-%d %H:%M:%S` by `chrono` (`NaiveDateTime::parse_from_str`),
/// then gives the UTC time's timestamp in milliseconds and its GMT
/// rendering (`format`). The contract names the pair; which texts chrono
/// accepts, and how it renders them, is left to it.
#[verifier::external_body]
fn parse_naive_time(s: &str) -> (r: Option<(i64, String)>)
    ensures
        match r {
            Some((ms, t)) => naive_time(s@) == Some((ms as int, t@)),
            None => naive_time(s@) is None,
        },
{
    match chrono::NaiveDateTime::parse_from_str(s, "%Y-%m-%d %H:%M:%S") {
        Ok(t) => {
            let at = t.and_utc();
            Some((at.timestamp_millis(), at.format("%a, %d %b %Y %H:%M:%S GMT").to_string()))
        },
        Err(_) => None,
    }
}

/// When an event of a batch was created.
pub enum EventTime {
    /// No time was given: the time of the request.
    Now,
    /// The given time, in epoch milliseconds, and its GMT text.
    At(i64, String),
    /// The given time is not `YYYY-MM-DD HH:MM:SS`.
    Invalid,
}

/// The creation time of an event from its optional `created_at` text: an
/// absent or empty text is the request's time; any other must parse.
pub fn event_time(created_at: &Option<String>) -> (r: EventTime)
    ensures
        match created_at {
            None => r is Now,
            Some(s) => if s@.len() == 0 {
                r is Now
            } else {
                match naive_time(s@) {
                    Some((ms, text)) => r matches EventTime::At(m, t) && m as int == ms && t@ == text,
                    None => r is Invalid,
                }
            },
        },
{
    match created_at {
        None => EventTime::Now,
        Some(s) => {
            if crate::text::chars_of(s.as_str()).len() == 0 {
                EventTime::Now
            } else {
                match parse_naive_time(s.as_str()) {
                    Some((ms, t)) => EventTime::At(ms, t),
                    None => EventTime::Invalid,
                }
            }
        },
    }
}

/// The refusal of a single event whose profile is unknown: when any of
/// the profiles looked up is invalid, or none is valid.
pub fn unknown_profile_refusal(valid_profiles: &Vec<Json>, invalid_profiles: &Vec<Json>) -> (r: Option<
    String,
>)
    ensures
        r is Some <==> (invalid_profiles@.len() > 0 || valid_profiles@.len() == 0),
        r matches Some(m) ==> m@ == "Unknown profile_id supplied with this event instance"@,
{
    if invalid_profiles.len() > 0 || valid_profiles.len() == 0 {
        Some(copy_str("Unknown profile_id supplied with this event instance"))
    } else {
        None
    }
}

/// The refusal of an event batch none of whose profiles is valid.
pub fn no_valid_profiles_refusal(valid_profiles: &Vec<Json>) -> (r: Option<String>)
    ensures
        r is Some <==> valid_profiles@.len() == 0,
        r matches Some(m) ==> m@ == "No valid profile_id(s) were supplied with event instance(s)"@,
{
    if valid_profiles.len() == 0 {
        Some(copy_str("No valid profile_id(s) were supplied with event instance(s)"))
    } else {
        None
    }
}

/// The reason given for an event of a batch whose `created_at` cannot be read.
pub open spec fn bad_time_msg() -> Seq<char> {
    "Incorrect date format supplied, should be YYYY-MM-DD HH:MM:SS"@
}

/// The reason a batch is refused when none of its events was created.
pub open spec fn none_created_msg() -> Seq<char> {
    "Invalid events data provided. No events were created."@
}

/// What working on one event of a batch came to.
pub enum BatchStep {
    /// Its `created_at` is not a `YYYY-MM-DD HH:MM:SS` time.
    BadTime,
    /// Its verification refused it, with this message.
    Refused(String),
    /// It was verified: its new identifier, its event type identifier, its
    /// creation time as stored, and as returned (GMT text).
    Created { event_id: String, event_type_id: Json, stored_at: Json, shown_at: String },
}

/// An event batch being worked through, in the order of its events: the
/// documents to store, the same documents as returned to the caller, and
/// the refused events with their reasons.
pub struct EventBatch {
    pub stored: Vec<Json>,
    pub returned: Vec<Json>,
    pub refused: Vec<Json>,
}

/// A batch none of whose events was created: the reason and the refused
/// events.
pub struct NoneCreated {
    pub message: String,
    pub refused: Vec<Json>,
}

fn push_doc(v: &mut Vec<Json>, x: Json)
    ensures
        view_seq(final(v)@) == view_seq(old(v)@).push(x@),
{
    let ghost before = v@;
    let ghost xv = x@;
    v.push(x);
    proof {
        lemma_view_seq(before);
        lemma_view_seq_ext(v@, view_seq(before).push(xv));
    }
}

impl EventBatch {
    /// A batch with no event worked on yet.
    pub fn new() -> (b: EventBatch)
        ensures
            b.stored@.len() == 0,
            b.returned@.len() == 0,
            b.refused@.len() == 0,
    {
        EventBatch { stored: Vec::new(), returned: Vec::new(), refused: Vec::new() }
    }

    /// Records what became of event `e`: a refused event gets an entry with
    /// its reason; a created one a document to store (with its stored
    /// creation time) and one to return (with its GMT text).
    pub fn record(&mut self, e: &CreateEvent, step: BatchStep)
        ensures
            match step {
                BatchStep::BadTime => {
                    &&& final(self).stored@ == old(self).stored@
                    &&& final(self).returned@ == old(self).returned@
                    &&& view_seq(final(self).refused@) == view_seq(old(self).refused@).push(
                        refused_event(*e, bad_time_msg()),
                    )
                },
                BatchStep::Refused(m) => {
                    &&& final(self).stored@ == old(self).stored@
                    &&& final(self).returned@ == old(self).returned@
                    &&& view_seq(final(self).refused@) == view_seq(old(self).refused@).push(
                        refused_event(*e, m@),
                    )
                },
                BatchStep::Created { event_id, event_type_id, stored_at, shown_at } => {
                    &&& view_seq(final(self).stored@) == view_seq(old(self).stored@).push(
                        event_doc(event_id@, *e, event_type_id@, Some(stored_at@)),
                    )
                    &&& view_seq(final(self).returned@) == view_seq(old(self).returned@).push(
                        event_doc(event_id@, *e, event_type_id@, Some(JsonV::Str(shown_at@))),
                    )
                    &&& final(self).refused@ == old(self).refused@
                },
            },
    {
        match step {
            BatchStep::BadTime => {
                let entry = refused_event_entry(
                    e,
                    "Incorrect date format supplied, should be YYYY-MM-DD HH:MM:SS",
                );
                push_doc(&mut self.refused, entry);
            },
            BatchStep::Refused(m) => {
                let entry = refused_event_entry(e, m.as_str());
                push_doc(&mut self.refused, entry);
            },
            BatchStep::Created { event_id, event_type_id, stored_at, shown_at } => {
                let stored = event_document(event_id.as_str(), e, &event_type_id, Some(stored_at));
                let returned = event_document(
                    event_id.as_str(),
                    e,
                    &event_type_id,
                    Some(Json::Str(shown_at)),
                );
                push_doc(&mut self.stored, stored);
                push_doc(&mut self.returned, returned);
            },
        }
    }

    /// The finished batch, or its refusal when none of its events was
    /// created.
    pub fn finish(self) -> (r: Result<EventBatch, NoneCreated>)
        ensures
            r is Err <==> self.stored@.len() == 0,
            r matches Ok(b) ==> b == self,
            r matches Err(n) ==> n.message@ == none_created_msg() && n.refused@ == self.refused@,
    {
        if self.stored.len() == 0 {
            Err(
                NoneCreated {
                    message: copy_str("Invalid events data provided. No events were created."),
                    refused: self.refused,
                },
            )
        } else {
            Ok(self)
        }
    }
}

/// The octy job message that runs live segmentation for a created event
/// of a live segment's sequence.
pub open spec fn live_segment_job(account_id: Seq<char>, event_id: Seq<char>, e: CreateEvent, type_id: JsonV, profile: JsonV) -> JsonV {
    JsonV::Obj(seq![
        ("account_id"@, JsonV::Str(account_id)),
        ("job_meta"@, JsonV::Obj(seq![
            ("job_type"@, JsonV::Str("seg"@)),
            ("amqp_routing_key"@, JsonV::Str("live.segmentation.cmd.run"@)),
            ("required_permissions"@, JsonV::Arr(seq![JsonV::Str("seg"@)])),
            ("required_configurations"@, JsonV::Obj(seq![
                ("account_attributes"@, JsonV::Arr(seq![JsonV::Str("account_configurations.webhook_url"@)])),
                ("algorithm_configuration_idxs"@, JsonV::Arr(seq![])),
            ])),
            ("desired_runs"@, JsonV::Num(crate::json::NumV::Int(1))),
            ("time_interval"@, JsonV::Num(crate::json::NumV::Int(0))),
            ("fail_threshold"@, JsonV::Num(crate::json::NumV::Int(10))),
        ])),
        ("job_data"@, JsonV::Obj(seq![
            ("segment_data"@, JsonV::Obj(seq![("segmentation_type"@, JsonV::Str("live"@))])),
            ("validation_job"@, JsonV::Bool(false)),
            ("event_data"@, JsonV::Obj(seq![
                ("event_id"@, JsonV::Str(event_id)),
                ("event_type_id"@, type_id),
                ("event_type"@, JsonV::Str(e.event_type@)),
                ("event_properties"@, props_view(e)),
                ("profile"@, profile),
            ])),
        ])),
    ])
}

fn obj_of(m: Vec<(String, Json)>) -> (r: Json)
    ensures
        r@ == JsonV::Obj(view_members(m@)),
{
    Json::Object(m)
}

fn str_json(s: &str) -> (r: Json)
    ensures
        r@ == JsonV::Str(s@),
{
    Json::Str(copy_str(s))
}

fn int_json(i: i64) -> (r: Json)
    ensures
        r@ == JsonV::Num(crate::json::NumV::Int(i as int)),
{
    Json::Number(crate::json::JsonNumber::Int(i))
}

/// The job message of a created event's live segmentation.
pub fn live_segment_job_message(account_id: &str, event_id: &str, e: &CreateEvent, event_type_id: &Json, profile: &Json) -> (r: Json)
    ensures
        r@ == live_segment_job(account_id@, event_id@, *e, event_type_id@, profile@),
{
    let mut attrs: Vec<Json> = Vec::new();
    attrs.push(str_json("account_configurations.webhook_url"));
    let mut perms: Vec<Json> = Vec::new();
    perms.push(str_json("seg"));
    let idxs: Vec<Json> = Vec::new();
    proof {
        crate::json::lemma_view_seq(attrs@);
        crate::json::lemma_view_seq(perms@);
        crate::json::lemma_view_seq(idxs@);
    }
    assert(crate::json::view_seq(attrs@) =~= seq![JsonV::Str("account_configurations.webhook_url"@)]);
    assert(crate::json::view_seq(perms@) =~= seq![JsonV::Str("seg"@)]);
    assert(crate::json::view_seq(idxs@) =~= Seq::<JsonV>::empty());
    let mut conf: Vec<(String, Json)> = Vec::new();
    conf.push((copy_str("account_attributes"), Json::Array(attrs)));
    conf.push((copy_str("algorithm_configuration_idxs"), Json::Array(idxs)));
    let mut meta: Vec<(String, Json)> = Vec::new();
    meta.push((copy_str("job_type"), str_json("seg")));
    meta.push((copy_str("amqp_routing_key"), str_json("live.segmentation.cmd.run")));
    meta.push((copy_str("required_permissions"), Json::Array(perms)));
    meta.push((copy_str("required_configurations"), obj_of(conf)));
    meta.push((copy_str("desired_runs"), int_json(1)));
    meta.push((copy_str("time_interval"), int_json(0)));
    meta.push((copy_str("fail_threshold"), int_json(10)));
    let mut seg: Vec<(String, Json)> = Vec::new();
    seg.push((copy_str("segmentation_type"), str_json("live")));
    let mut ev: Vec<(String, Json)> = Vec::new();
    ev.push((copy_str("event_id"), str_json(event_id)));
    ev.push((copy_str("event_type_id"), event_type_id.deep_clone()));
    ev.push((copy_str("event_type"), str_json(e.event_type.as_str())));
    ev.push((copy_str("event_properties"), clone_props(e)));
    ev.push((copy_str("profile"), profile.deep_clone()));
    let mut data: Vec<(String, Json)> = Vec::new();
    data.push((copy_str("segment_data"), obj_of(seg)));
    data.push((copy_str("validation_job"), Json::Bool(false)));
    data.push((copy_str("event_data"), obj_of(ev)));
    let mut out: Vec<(String, Json)> = Vec::new();
    out.push((copy_str("account_id"), str_json(account_id)));
    out.push((copy_str("job_meta"), obj_of(meta)));
    out.push((copy_str("job_data"), obj_of(data)));
    proof {
        lemma_view_members(conf@);
        lemma_view_members(meta@);
        lemma_view_members(seg@);
        lemma_view_members(ev@);
        lemma_view_members(data@);
        lemma_view_members(out@);
    }
    let ghost jv = live_segment_job(account_id@, event_id@, *e, event_type_id@, profile@);
    assert(view_members(conf@) =~= jv->Obj_0[1].1->Obj_0[3].1->Obj_0);
    assert(view_members(meta@) =~= jv->Obj_0[1].1->Obj_0);
    assert(view_members(seg@) =~= jv->Obj_0[2].1->Obj_0[0].1->Obj_0);
    assert(view_members(ev@) =~= jv->Obj_0[2].1->Obj_0[2].1->Obj_0);
    assert(view_members(data@) =~= jv->Obj_0[2].1->Obj_0);
    assert(view_members(out@) =~= jv->Obj_0);
    Json::Object(out)
}

} // verus!
