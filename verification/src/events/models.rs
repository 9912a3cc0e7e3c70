//! Request models of the events service and their validation: each
//! `from_json` checks a parsed request body and either builds the model or
//! returns the field errors (the 422 envelope's `error.errors`).

use vstd::prelude::*;
use crate::fields::{
    after, err_dict, err_list, err_missing, opt_str_field, str_field, str_list_errors,
    str_list_value, strings_view, take_opt_str, take_str, take_str_list, StrMode, coerce_int,
    coerce_int_v, err_int, take_opt_str_list,
};
use crate::json::{
    body_field_loc, body_loc, body_path, clone_members, copy_locs, errs_view, fe, field_error, lemma_view_seq, loc_index, loc_key, locs_view,
    push_error, view_json, view_members, view_seq, FieldError, FieldErrorV, Json, JsonV, Loc,
    LocV,
};
use crate::text::{
    chars_of, chars_present, concat3, i64_to_string, int_decimal, join, join_chars,
    present_chars, string_of,
};

verus! {

/// The location `["body", f]`.
pub open spec fn body_field(f: Seq<char>) -> Seq<LocV> {
    body_path(f)
}

/// The error of a body that is not a JSON object.
pub open spec fn not_a_dict_body() -> Seq<FieldErrorV> {
    seq![fe(seq![LocV::Key("body"@)], err_dict().0, err_dict().1)]
}

/// Rejects a request body that is not a JSON object.
pub fn require_object(body: &Json) -> (r: Result<(), Vec<FieldError>>)
    ensures
        r is Ok <==> body@ is Obj,
        r matches Err(e) ==> errs_view(e@) == not_a_dict_body(),
{
    if body.is_object() {
        Ok(())
    } else {
        let mut errors: Vec<FieldError> = Vec::new();
        push_error(&mut errors, field_error(body_loc(), "value is not a valid dict", "type_error.dict"));
        assert(errs_view(errors@) =~= not_a_dict_body());
        Err(errors)
    }
}

// ---------------------------------------------------------------------------
// CreateEvent / BatchCreateEvents
// ---------------------------------------------------------------------------

/// `CreateEvent` — `{event_type, event_properties, profile_id, created_at?}`.
pub struct CreateEvent {
    pub event_type: String,
    pub event_properties: Vec<(String, Json)>,
    pub profile_id: String,
    pub created_at: Option<String>,
}

pub struct CreateEventV {
    pub event_type: Seq<char>,
    pub event_properties: Seq<(Seq<char>, JsonV)>,
    pub profile_id: Seq<char>,
    pub created_at: Option<Seq<char>>,
}

impl View for CreateEvent {
    type V = CreateEventV;

    open spec fn view(&self) -> CreateEventV {
        CreateEventV {
            event_type: self.event_type@,
            event_properties: view_members(self.event_properties@),
            profile_id: self.profile_id@,
            created_at: match self.created_at {
                Some(s) => Some(s@),
                None => None,
            },
        }
    }
}

/// The error of the `event_properties` field of an event object.
pub open spec fn event_properties_errors(v: JsonV, prefix: Seq<LocV>) -> Seq<FieldErrorV> {
    let loc = prefix.push(LocV::Key("event_properties"@));
    match v.get("event_properties"@) {
        None => seq![fe(loc, err_missing().0, err_missing().1)],
        Some(JsonV::Obj(_)) => seq![],
        Some(_) => seq![fe(loc, err_dict().0, err_dict().1)],
    }
}

/// The field errors of one event object at `prefix`.
pub open spec fn create_event_errors(v: JsonV, prefix: Seq<LocV>) -> Seq<FieldErrorV> {
    if !(v is Obj) {
        seq![fe(prefix, err_dict().0, err_dict().1)]
    } else {
        let e1 = after(
            seq![],
            prefix.push(LocV::Key("event_type"@)),
            str_field(v, "event_type"@, StrMode::Lenient),
        );
        let e2 = after(
            e1,
            prefix.push(LocV::Key("profile_id"@)),
            str_field(v, "profile_id"@, StrMode::Lenient),
        );
        let e3 = after(
            e2,
            prefix.push(LocV::Key("created_at"@)),
            opt_str_field(v, "created_at"@, StrMode::Lenient),
        );
        e3 + event_properties_errors(v, prefix)
    }
}

/// The event an error-free event object describes.
pub open spec fn create_event_value(v: JsonV) -> CreateEventV {
    CreateEventV {
        event_type: str_field(v, "event_type"@, StrMode::Lenient)->Ok_0,
        event_properties: v.get("event_properties"@)->0->Obj_0,
        profile_id: str_field(v, "profile_id"@, StrMode::Lenient)->Ok_0,
        created_at: opt_str_field(v, "created_at"@, StrMode::Lenient)->Ok_0,
    }
}

impl CreateEvent {
    /// Validates one event object at `prefix`, appending its field errors.
    /// Builds the event unless a required field failed.
    fn from_value(value: &Json, prefix: &Vec<Loc>, errors: &mut Vec<FieldError>) -> (r: Option<
        CreateEvent,
    >)
        ensures
            errs_view(final(errors)@) == errs_view(old(errors)@) + create_event_errors(
                value@,
                locs_view(prefix@),
            ),
            create_event_errors(value@, locs_view(prefix@)).len() == 0 ==> (r matches Some(e) && e@
                == create_event_value(value@)),
    {
        if !value.is_object() {
            push_error(errors, field_error(copy_locs(prefix), "value is not a valid dict", "type_error.dict"));
            assert(errs_view(errors@) =~= errs_view(old(errors)@) + create_event_errors(value@, locs_view(prefix@)));
            return None;
        }
        let ghost start = errs_view(errors@);
        let event_type = take_str(value, "event_type", prefix, StrMode::Lenient, errors);
        let profile_id = take_str(value, "profile_id", prefix, StrMode::Lenient, errors);
        let created_at = take_opt_str(value, "created_at", prefix, StrMode::Lenient, errors);
        let ghost mid = errs_view(errors@);
        let event_properties = match value.get("event_properties") {
            None => {
                push_error(
                    errors,
                    field_error(loc_key(prefix, "event_properties"), "field required", "value_error.missing"),
                );
                None
            },
            Some(Json::Object(props)) => Some(clone_members(props)),
            Some(_) => {
                push_error(
                    errors,
                    field_error(loc_key(prefix, "event_properties"), "value is not a valid dict", "type_error.dict"),
                );
                None
            },
        };
        proof {
            let p = locs_view(prefix@);
            let e1 = after(seq![], p.push(LocV::Key("event_type"@)), str_field(value@, "event_type"@, StrMode::Lenient));
            let e2 = after(e1, p.push(LocV::Key("profile_id"@)), str_field(value@, "profile_id"@, StrMode::Lenient));
            let e3 = after(e2, p.push(LocV::Key("created_at"@)), opt_str_field(value@, "created_at"@, StrMode::Lenient));
            assert(mid =~= start + e3);
            assert(errs_view(errors@) =~= start + e3 + event_properties_errors(value@, p));
        }
        match (event_type, event_properties, profile_id) {
            (Some(event_type), Some(event_properties), Some(profile_id)) => {
                Some(CreateEvent { event_type, event_properties, profile_id, created_at })
            },
            _ => None,
        }
    }

    /// Validates a `CreateEvent` request body.
    pub fn from_json(body: &Json) -> (r: Result<CreateEvent, Vec<FieldError>>)
        ensures
            !(body@ is Obj) ==> (r matches Err(e) && errs_view(e@) == not_a_dict_body()),
            body@ is Obj ==> {
                let errs = create_event_errors(body@, seq![LocV::Key("body"@)]);
                &&& errs.len() == 0 ==> (r matches Ok(ev) && ev@ == create_event_value(body@))
                &&& errs.len() > 0 ==> (r matches Err(e) && errs_view(e@) == errs)
            },
    {
        match require_object(body) {
            Err(e) => return Err(e),
            Ok(()) => {},
        }
        let mut errors: Vec<FieldError> = Vec::new();
        let prefix = body_loc();
        let parsed = CreateEvent::from_value(body, &prefix, &mut errors);
        assert(errs_view(errors@) =~= create_event_errors(body@, seq![LocV::Key("body"@)]));
        if errors.len() == 0 {
            match parsed {
                Some(ev) => Ok(ev),
                None => Err(errors),
            }
        } else {
            Err(errors)
        }
    }
}

/// The location of item `i` of the `events` list.
pub open spec fn event_item_loc(i: int) -> Seq<LocV> {
    seq![LocV::Key("body"@), LocV::Key("events"@), LocV::Index(i as nat)]
}

/// The field errors of the first `n` items of the `events` list.
pub open spec fn batch_items_errors(items: Seq<JsonV>, n: int) -> Seq<FieldErrorV>
    decreases n,
{
    if n <= 0 {
        seq![]
    } else {
        batch_items_errors(items, n - 1) + create_event_errors(items[n - 1], event_item_loc(n - 1))
    }
}

/// The "only create up to" message of a list validator.
pub open spec fn up_to_msg(before: Seq<char>, max: int, after_: Seq<char>) -> Seq<char> {
    before + int_decimal(max) + after_
}

/// The field errors of a `BatchCreateEvents` body.
pub open spec fn batch_errors(body: JsonV, max: int) -> Seq<FieldErrorV> {
    match body.get("events"@) {
        None => seq![fe(body_field("events"@), err_missing().0, err_missing().1)],
        Some(JsonV::Arr(items)) => {
            let item_errs = batch_items_errors(items, items.len() as int);
            if item_errs.len() == 0 && items.len() > max {
                seq![
                    fe(
                        body_field("events"@),
                        up_to_msg("You can only create up to "@, max, " events per request."@),
                        "value_error"@,
                    ),
                ]
            } else {
                item_errs
            }
        },
        Some(_) => seq![fe(body_field("events"@), err_list().0, err_list().1)],
    }
}

/// `BatchCreateEvents` — `{events: [CreateEvent, …]}`.
pub struct BatchCreateEvents {
    pub events: Vec<CreateEvent>,
}

impl BatchCreateEvents {
    /// Validates a batch of events; at most `max_create_events` per request.
    pub fn from_json(body: &Json, max_create_events: i64) -> (r: Result<BatchCreateEvents, Vec<FieldError>>)
        ensures
            !(body@ is Obj) ==> (r matches Err(e) && errs_view(e@) == not_a_dict_body()),
            body@ is Obj ==> {
                let errs = batch_errors(body@, max_create_events as int);
                &&& errs.len() == 0 ==> (r matches Ok(b) && b.events@.len() == body@.get(
                    "events"@,
                )->0->Arr_0.len() && forall|i: int|
                    0 <= i < b.events@.len() ==> (#[trigger] b.events@[i])@ == create_event_value(
                        body@.get("events"@)->0->Arr_0[i],
                    ))
                &&& errs.len() > 0 ==> (r matches Err(e) && errs_view(e@) == errs)
            },
    {
        match require_object(body) {
            Err(e) => return Err(e),
            Ok(()) => {},
        }
        let mut errors: Vec<FieldError> = Vec::new();
        let mut events: Vec<CreateEvent> = Vec::new();
        match body.get("events") {
            None => {
                push_error(
                    &mut errors,
                    field_error(body_field_loc("events"), "field required", "value_error.missing"),
                );
                assert(errs_view(errors@) =~= batch_errors(body@, max_create_events as int));
                Err(errors)
            },
            Some(Json::Array(items)) => {
                let ghost vs = view_seq(items@);
                proof {
                    lemma_view_seq(items@);
                }
                let mut i: usize = 0;
                while i < items.len()
                    invariant
                        i <= items@.len(),
                        vs == view_seq(items@),
                        vs.len() == items@.len(),
                        forall|j: int| 0 <= j < items@.len() ==> #[trigger] vs[j] == view_json(items@[j]),
                        errs_view(errors@) == batch_items_errors(vs, i as int),
                        batch_items_errors(vs, i as int).len() == 0 ==> events@.len() == i && forall|
                            j: int,
                        | 0 <= j < i ==> (#[trigger] events@[j])@ == create_event_value(vs[j]),
                    decreases items@.len() - i,
                {
                    let prefix = loc_index(&body_field_loc("events"), i);
                    assert(locs_view(prefix@) =~= event_item_loc(i as int));
                    let ghost before = errs_view(errors@);
                    let parsed = CreateEvent::from_value(&items[i], &prefix, &mut errors);
                    assert(vs[i as int] == view_json(items@[i as int]));
                    assert(batch_items_errors(vs, i + 1) == before + create_event_errors(vs[i as int], event_item_loc(i as int)));
                    match parsed {
                        Some(ev) => {
                            events.push(ev);
                        },
                        None => {},
                    }
                    i = i + 1;
                }
                if errors.len() == 0 && items.len() as i128 > max_create_events as i128 {
                    let msg = concat3(
                        "You can only create up to ",
                        i64_to_string(max_create_events).as_str(),
                        " events per request.",
                    );
                    push_error(
                        &mut errors,
                        field_error(body_field_loc("events"), msg.as_str(), "value_error"),
                    );
                }
                assert(errs_view(errors@) =~= batch_errors(body@, max_create_events as int));
                if errors.len() == 0 {
                    Ok(BatchCreateEvents { events })
                } else {
                    Err(errors)
                }
            },
            Some(_) => {
                push_error(
                    &mut errors,
                    field_error(body_field_loc("events"), "value is not a valid list", "type_error.list"),
                );
                assert(errs_view(errors@) =~= batch_errors(body@, max_create_events as int));
                Err(errors)
            },
        }
    }
}

} // verus!

verus! {

// ---------------------------------------------------------------------------
// GetEventsInternal / DeleteEventsInternal
// ---------------------------------------------------------------------------

/// `GetEventsInternal` — internal events lookup body.
pub struct GetEventsInternal {
    pub timeframe: i64,
    pub account_id: String,
    pub event_sequence_event: Option<Json>,
    pub profile_ids: Option<Vec<String>>,
    pub event_type: Option<String>,
}

/// The outcome of the `timeframe` field (null counts as missing).
pub open spec fn timeframe_field(body: JsonV) -> Result<int, (Seq<char>, Seq<char>)> {
    match body.get("timeframe"@) {
        None => Err(err_missing()),
        Some(JsonV::Null) => Err(err_missing()),
        Some(v) => match coerce_int_v(v) {
            Some(i) => Ok(i),
            None => Err(err_int()),
        },
    }
}

/// The errors of the optional `event_sequence_event` object field.
pub open spec fn sequence_event_errors(body: JsonV) -> Seq<FieldErrorV> {
    match body.get("event_sequence_event"@) {
        None => seq![],
        Some(JsonV::Null) => seq![],
        Some(JsonV::Obj(_)) => seq![],
        Some(_) => seq![fe(body_field("event_sequence_event"@), err_dict().0, err_dict().1)],
    }
}

/// The errors of the optional `profile_ids` list field.
pub open spec fn opt_profile_ids_errors(body: JsonV) -> Seq<FieldErrorV> {
    match body.get("profile_ids"@) {
        None => seq![],
        Some(JsonV::Null) => seq![],
        Some(_) => str_list_errors(body, "profile_ids"@, StrMode::Lenient, false, seq![LocV::Key("body"@)]),
    }
}

/// The field errors of a `GetEventsInternal` body.
pub open spec fn get_events_internal_errors(body: JsonV) -> Seq<FieldErrorV> {
    let e1 = after(seq![], body_field("timeframe"@), timeframe_field(body));
    let e2 = after(e1, body_field("account_id"@), str_field(body, "account_id"@, StrMode::Lenient));
    let e3 = e2 + sequence_event_errors(body) + opt_profile_ids_errors(body);
    after(e3, body_field("event_type"@), opt_str_field(body, "event_type"@, StrMode::Lenient))
}

impl GetEventsInternal {
    /// Validates an internal events lookup body.
    pub fn from_json(body: &Json) -> (r: Result<GetEventsInternal, Vec<FieldError>>)
        ensures
            !(body@ is Obj) ==> (r matches Err(e) && errs_view(e@) == not_a_dict_body()),
            body@ is Obj ==> {
                let errs = get_events_internal_errors(body@);
                &&& errs.len() == 0 ==> (r matches Ok(g) && {
                    &&& g.timeframe as int == timeframe_field(body@)->Ok_0
                    &&& g.account_id@ == str_field(body@, "account_id"@, StrMode::Lenient)->Ok_0
                    &&& (g.event_sequence_event matches Some(j) ==> body@.get(
                        "event_sequence_event"@,
                    ) == Some(j@))
                    &&& (g.event_sequence_event is None ==> !(body@.get(
                        "event_sequence_event"@,
                    ) matches Some(JsonV::Obj(_))))
                    &&& (g.profile_ids matches Some(p) ==> str_list_value(
                        body@,
                        "profile_ids"@,
                        StrMode::Lenient,
                        false,
                    ) == Some(strings_view(p@)))
                    &&& (g.profile_ids is None ==> body@.get("profile_ids"@) is None
                        || body@.get("profile_ids"@) == Some(JsonV::Null))
                    &&& (g.event_type matches Some(t) ==> opt_str_field(
                        body@,
                        "event_type"@,
                        StrMode::Lenient,
                    ) == Ok::<Option<Seq<char>>, (Seq<char>, Seq<char>)>(Some(t@)))
                    &&& (g.event_type is None ==> opt_str_field(
                        body@,
                        "event_type"@,
                        StrMode::Lenient,
                    ) == Ok::<Option<Seq<char>>, (Seq<char>, Seq<char>)>(None))
                })
                &&& errs.len() > 0 ==> (r matches Err(e) && errs_view(e@) == errs)
            },
    {
        match require_object(body) {
            Err(e) => return Err(e),
            Ok(()) => {},
        }
        let mut errors: Vec<FieldError> = Vec::new();
        let prefix = body_loc();
        let timeframe = match body.get("timeframe") {
            None => {
                push_error(&mut errors, field_error(body_field_loc("timeframe"), "field required", "value_error.missing"));
                None
            },
            Some(v) => {
                if v.is_null() {
                    push_error(&mut errors, field_error(body_field_loc("timeframe"), "field required", "value_error.missing"));
                    None
                } else {
                    match coerce_int(v) {
                        Some(i) => Some(i),
                        None => {
                            push_error(
                                &mut errors,
                                field_error(body_field_loc("timeframe"), "value is not a valid integer", "type_error.integer"),
                            );
                            None
                        },
                    }
                }
            },
        };
        let ghost e1 = errs_view(errors@);
        assert(e1 =~= after(seq![], body_field("timeframe"@), timeframe_field(body@)));
        let account_id = take_str(body, "account_id", &prefix, StrMode::Lenient, &mut errors);
        let ghost e2 = errs_view(errors@);
        let event_sequence_event = match body.get("event_sequence_event") {
            None => None,
            Some(v) => match v {
                Json::Null => None,
                Json::Object(_) => Some(v.deep_clone()),
                _ => {
                    push_error(
                        &mut errors,
                        field_error(body_field_loc("event_sequence_event"), "value is not a valid dict", "type_error.dict"),
                    );
                    None
                },
            },
        };
        assert(errs_view(errors@) =~= e2 + sequence_event_errors(body@));
        let ghost e3 = errs_view(errors@);
        let profile_ids = take_opt_str_list(body, "profile_ids", &prefix, StrMode::Lenient, &mut errors);
        assert(errs_view(errors@) =~= e3 + opt_profile_ids_errors(body@));
        let event_type = take_opt_str(body, "event_type", &prefix, StrMode::Lenient, &mut errors);
        assert(errs_view(errors@) =~= get_events_internal_errors(body@));
        if errors.len() > 0 {
            return Err(errors);
        }
        match (timeframe, account_id) {
            (Some(timeframe), Some(account_id)) => Ok(
                GetEventsInternal { timeframe, account_id, event_sequence_event, profile_ids, event_type },
            ),
            _ => Err(errors),
        }
    }
}

/// `DeleteEventsInternal` — `{account_id}`.
pub struct DeleteEventsInternal {
    pub account_id: String,
}

impl DeleteEventsInternal {
    /// Validates an account-deletion body.
    pub fn from_json(body: &Json) -> (r: Result<DeleteEventsInternal, Vec<FieldError>>)
        ensures
            !(body@ is Obj) ==> (r matches Err(e) && errs_view(e@) == not_a_dict_body()),
            body@ is Obj ==> {
                let f = str_field(body@, "account_id"@, StrMode::Lenient);
                &&& f is Ok ==> (r matches Ok(d) && d.account_id@ == f->Ok_0)
                &&& f is Err ==> (r matches Err(e) && errs_view(e@) == after(
                    seq![],
                    body_field("account_id"@),
                    f,
                ))
            },
    {
        match require_object(body) {
            Err(e) => return Err(e),
            Ok(()) => {},
        }
        let mut errors: Vec<FieldError> = Vec::new();
        let account_id = take_str(body, "account_id", &body_loc(), StrMode::Lenient, &mut errors);
        assert(errs_view(errors@) =~= after(seq![], body_field("account_id"@), str_field(body@, "account_id"@, StrMode::Lenient)));
        match account_id {
            Some(account_id) => Ok(DeleteEventsInternal { account_id }),
            None => Err(errors),
        }
    }
}

// ---------------------------------------------------------------------------
// Event types
// ---------------------------------------------------------------------------

/// Python `repr()` of a character: single-quoted, except `'` itself.
pub open spec fn py_char_repr(c: char) -> Seq<char> {
    if c == '\'' {
        seq!['"', '\'', '"']
    } else {
        seq!['\'', c, '\'']
    }
}

/// Python `repr()` of a character inside the "Illegal character(s)" message.
pub fn py_repr_char(c: char) -> (r: Vec<char>)
    ensures
        r@ == py_char_repr(c),
{
    let mut v: Vec<char> = Vec::new();
    if c == '\'' {
        v.push('"');
        v.push('\'');
        v.push('"');
    } else {
        v.push('\'');
        v.push(c);
        v.push('\'');
    }
    assert(v@ =~= py_char_repr(c));
    v
}

/// The Python `repr()` of each character, joined with `, ` (the list in
/// an "Illegal character(s)" message).
pub fn illegal_chars_repr(found: &Vec<char>) -> (r: Vec<char>)
    ensures
        r@ == join(found@.map_values(|c: char| py_char_repr(c)), ", "@),
{
    let mut reprs: Vec<Vec<char>> = Vec::new();
    let mut i: usize = 0;
    while i < found.len()
        invariant
            i <= found@.len(),
            reprs@.len() == i,
            forall|k: int| 0 <= k < i ==> (#[trigger] reprs@[k])@ == py_char_repr(found@[k]),
        decreases found@.len() - i,
    {
        reprs.push(py_repr_char(found[i]));
        i = i + 1;
    }
    assert(reprs@.map_values(|p: Vec<char>| p@) =~= found@.map_values(|c: char| py_char_repr(c)));
    let joined = join_chars(&reprs, &[',', ' ']);
    proof {
        reveal_strlit(", ");
    }
    assert([',', ' ']@ =~= ", "@);
    joined
}

/// The characters an event type name may not contain, in message order.
pub open spec fn event_type_disallowed() -> Seq<char> {
    seq![',', '"', '\'', '.', ' ']
}

/// The message rejecting an event type name, if any.
pub open spec fn event_type_name_error(value: Seq<char>) -> Option<Seq<char>> {
    let found = chars_present(value, event_type_disallowed());
    if value.len() > 60 || value.len() < 1 {
        Some(
            "Event types must be at least 1 character long and less than 60 characters long."@,
        )
    } else if found.len() > 0 {
        Some(
            "Illegal character(s) found in provided event type : ["@ + join(
                found.map_values(|c: char| py_char_repr(c)),
                ", "@,
            ) + "]"@,
        )
    } else {
        None
    }
}

/// The `validate_event_type` validator: 1 to 60 characters, none of
/// `, " ' .` or space.
pub fn validate_event_type_name(value: &str) -> (r: Result<(), String>)
    ensures
        r is Ok <==> event_type_name_error(value@) is None,
        r matches Err(m) ==> event_type_name_error(value@) == Some(m@),
{
    let chars = chars_of(value);
    let n = chars.len();
    if n > 60 || n < 1 {
        return Err(
            crate::text::copy_str(
                "Event types must be at least 1 character long and less than 60 characters long.",
            ),
        );
    }
    let disallowed = [',', '"', '\'', '.', ' '];
    assert(disallowed@ =~= event_type_disallowed());
    let found = present_chars(&chars, &disallowed);
    if found.len() > 0 {
        let joined = illegal_chars_repr(&found);
        let msg = concat3(
            "Illegal character(s) found in provided event type : [",
            string_of(&joined).as_str(),
            "]",
        );
        return Err(msg);
    }
    Ok(())
}

pub struct CreateEventTypesChild {
    pub event_type: String,
    pub event_properties: Vec<String>,
}

pub struct CreateEventTypes {
    pub event_types: Vec<CreateEventTypesChild>,
}

/// The location of item `i` of the `event_types` list.
pub open spec fn event_type_item_loc(i: int) -> Seq<LocV> {
    seq![LocV::Key("body"@), LocV::Key("event_types"@), LocV::Index(i as nat)]
}

/// The field errors of one `event_types` item at `prefix`.
pub open spec fn event_type_child_errors(v: JsonV, prefix: Seq<LocV>) -> Seq<FieldErrorV> {
    if !(v is Obj) {
        seq![fe(prefix, err_dict().0, err_dict().1)]
    } else {
        let f = str_field(v, "event_type"@, StrMode::Lenient);
        let e1 = after(seq![], prefix.push(LocV::Key("event_type"@)), f);
        let e2 = match f {
            Ok(name) => match event_type_name_error(name) {
                Some(m) => e1.push(fe(prefix.push(LocV::Key("event_type"@)), m, "value_error"@)),
                None => e1,
            },
            Err(_) => e1,
        };
        e2 + str_list_errors(v, "event_properties"@, StrMode::Lenient, false, prefix)
    }
}

pub open spec fn event_type_items_errors(items: Seq<JsonV>, n: int) -> Seq<FieldErrorV>
    decreases n,
{
    if n <= 0 {
        seq![]
    } else {
        event_type_items_errors(items, n - 1) + event_type_child_errors(
            items[n - 1],
            event_type_item_loc(n - 1),
        )
    }
}

/// The field errors of a `CreateEventTypes` body.
pub open spec fn create_event_types_errors(body: JsonV, max: int) -> Seq<FieldErrorV> {
    match body.get("event_types"@) {
        None => seq![fe(body_field("event_types"@), err_missing().0, err_missing().1)],
        Some(JsonV::Arr(items)) => {
            let item_errs = event_type_items_errors(items, items.len() as int);
            if item_errs.len() == 0 && items.len() > max {
                seq![
                    fe(
                        body_field("event_types"@),
                        up_to_msg(
                            "You can only create up to "@,
                            max,
                            " custom event types per request."@,
                        ),
                        "value_error"@,
                    ),
                ]
            } else {
                item_errs
            }
        },
        Some(_) => seq![fe(body_field("event_types"@), err_list().0, err_list().1)],
    }
}

impl CreateEventTypes {
    /// Validates a `CreateEventTypes` body; at most `max_create_event_types`.
    pub fn from_json(body: &Json, max_create_event_types: i64) -> (r: Result<CreateEventTypes, Vec<FieldError>>)
        ensures
            !(body@ is Obj) ==> (r matches Err(e) && errs_view(e@) == not_a_dict_body()),
            body@ is Obj ==> {
                let errs = create_event_types_errors(body@, max_create_event_types as int);
                &&& errs.len() == 0 ==> (r matches Ok(c) && c.event_types@.len() == body@.get(
                    "event_types"@,
                )->0->Arr_0.len() && forall|i: int|
                    0 <= i < c.event_types@.len() ==> {
                        let item = body@.get("event_types"@)->0->Arr_0[i];
                        &&& (#[trigger] c.event_types@[i]).event_type@ == str_field(
                            item,
                            "event_type"@,
                            StrMode::Lenient,
                        )->Ok_0
                        &&& Some(strings_view(c.event_types@[i].event_properties@)) == str_list_value(
                            item,
                            "event_properties"@,
                            StrMode::Lenient,
                            false,
                        )
                    })
                &&& errs.len() > 0 ==> (r matches Err(e) && errs_view(e@) == errs)
            },
    {
        match require_object(body) {
            Err(e) => return Err(e),
            Ok(()) => {},
        }
        let mut errors: Vec<FieldError> = Vec::new();
        let mut event_types: Vec<CreateEventTypesChild> = Vec::new();
        match body.get("event_types") {
            None => {
                push_error(&mut errors, field_error(body_field_loc("event_types"), "field required", "value_error.missing"));
                assert(errs_view(errors@) =~= create_event_types_errors(body@, max_create_event_types as int));
                Err(errors)
            },
            Some(Json::Array(items)) => {
                let ghost vs = view_seq(items@);
                proof {
                    lemma_view_seq(items@);
                }
                let mut i: usize = 0;
                while i < items.len()
                    invariant
                        i <= items@.len(),
                        vs == view_seq(items@),
                        vs.len() == items@.len(),
                        forall|j: int| 0 <= j < items@.len() ==> #[trigger] vs[j] == view_json(items@[j]),
                        errs_view(errors@) == event_type_items_errors(vs, i as int),
                        event_type_items_errors(vs, i as int).len() == 0 ==> event_types@.len() == i
                            && forall|j: int|
                            0 <= j < i ==> {
                                &&& (#[trigger] event_types@[j]).event_type@ == str_field(
                                    vs[j],
                                    "event_type"@,
                                    StrMode::Lenient,
                                )->Ok_0
                                &&& Some(strings_view(event_types@[j].event_properties@))
                                    == str_list_value(vs[j], "event_properties"@, StrMode::Lenient, false)
                            },
                    decreases items@.len() - i,
                {
                    let prefix = loc_index(&body_field_loc("event_types"), i);
                    assert(locs_view(prefix@) =~= event_type_item_loc(i as int));
                    let ghost before = errs_view(errors@);
                    let item = &items[i];
                    assert(vs[i as int] == view_json(items@[i as int]));
                    if !item.is_object() {
                        push_error(&mut errors, field_error(prefix, "value is not a valid dict", "type_error.dict"));
                        assert(errs_view(errors@) =~= event_type_items_errors(vs, i + 1));
                        i = i + 1;
                        continue;
                    }
                    let name = take_str(item, "event_type", &prefix, StrMode::Lenient, &mut errors);
                    let name_ok = match name {
                        Some(n) => match validate_event_type_name(n.as_str()) {
                            Ok(()) => Some(n),
                            Err(msg) => {
                                push_error(
                                    &mut errors,
                                    field_error(loc_key(&prefix, "event_type"), msg.as_str(), "value_error"),
                                );
                                None
                            },
                        },
                        None => None,
                    };
                    let ghost mid = errs_view(errors@);
                    let props = take_str_list(item, "event_properties", &prefix, StrMode::Lenient, false, &mut errors);
                    proof {
                        let child = event_type_child_errors(vs[i as int], event_type_item_loc(i as int));
                        assert(errs_view(errors@) =~= before + child);
                    }
                    match (name_ok, props) {
                        (Some(event_type), Some(event_properties)) => {
                            event_types.push(CreateEventTypesChild { event_type, event_properties });
                        },
                        _ => {},
                    }
                    i = i + 1;
                }
                if errors.len() == 0 && items.len() as i128 > max_create_event_types as i128 {
                    let msg = concat3(
                        "You can only create up to ",
                        i64_to_string(max_create_event_types).as_str(),
                        " custom event types per request.",
                    );
                    push_error(&mut errors, field_error(body_field_loc("event_types"), msg.as_str(), "value_error"));
                }
                assert(errs_view(errors@) =~= create_event_types_errors(body@, max_create_event_types as int));
                if errors.len() == 0 {
                    Ok(CreateEventTypes { event_types })
                } else {
                    Err(errors)
                }
            },
            Some(_) => {
                push_error(&mut errors, field_error(body_field_loc("event_types"), "value is not a valid list", "type_error.list"));
                assert(errs_view(errors@) =~= create_event_types_errors(body@, max_create_event_types as int));
                Err(errors)
            },
        }
    }
}

pub struct DeleteEventTypes {
    pub event_type_ids: Vec<String>,
}

/// The field errors of a `DeleteEventTypes` body.
pub open spec fn delete_event_types_errors(body: JsonV, max: int) -> Seq<FieldErrorV> {
    let errs = str_list_errors(body, "event_type_ids"@, StrMode::Lenient, false, seq![LocV::Key("body"@)]);
    match str_list_value(body, "event_type_ids"@, StrMode::Lenient, false) {
        Some(ids) => if errs.len() == 0 && ids.len() > max {
            seq![
                fe(
                    body_field("event_type_ids"@),
                    up_to_msg("You can only delete up to "@, max, " custom event types per request."@),
                    "value_error"@,
                ),
            ]
        } else {
            errs
        },
        None => errs,
    }
}

impl DeleteEventTypes {
    /// Validates a `DeleteEventTypes` body; at most `max_delete_event_types`.
    pub fn from_json(body: &Json, max_delete_event_types: i64) -> (r: Result<DeleteEventTypes, Vec<FieldError>>)
        ensures
            !(body@ is Obj) ==> (r matches Err(e) && errs_view(e@) == not_a_dict_body()),
            body@ is Obj ==> {
                let errs = delete_event_types_errors(body@, max_delete_event_types as int);
                &&& errs.len() == 0 ==> (r matches Ok(d) && str_list_value(
                    body@,
                    "event_type_ids"@,
                    StrMode::Lenient,
                    false,
                ) == Some(strings_view(d.event_type_ids@)))
                &&& errs.len() > 0 ==> (r matches Err(e) && errs_view(e@) == errs)
            },
    {
        match require_object(body) {
            Err(e) => return Err(e),
            Ok(()) => {},
        }
        let mut errors: Vec<FieldError> = Vec::new();
        let ids = take_str_list(body, "event_type_ids", &body_loc(), StrMode::Lenient, false, &mut errors);
        match ids {
            Some(ids) => {
                if errors.len() == 0 && ids.len() as i128 > max_delete_event_types as i128 {
                    let msg = concat3(
                        "You can only delete up to ",
                        i64_to_string(max_delete_event_types).as_str(),
                        " custom event types per request.",
                    );
                    push_error(&mut errors, field_error(body_field_loc("event_type_ids"), msg.as_str(), "value_error"));
                }
                assert(errs_view(errors@) =~= delete_event_types_errors(body@, max_delete_event_types as int));
                if errors.len() == 0 {
                    Ok(DeleteEventTypes { event_type_ids: ids })
                } else {
                    Err(errors)
                }
            },
            None => {
                assert(errs_view(errors@) =~= delete_event_types_errors(body@, max_delete_event_types as int));
                proof {
                    if errors@.len() == 0 {
                        assert(str_list_errors(body@, "event_type_ids"@, StrMode::Lenient, false, seq![LocV::Key("body"@)]).len() == 0);
                    }
                }
                Err(errors)
            },
        }
    }
}

pub struct GetEventTypesInternal {
    pub account_id: String,
    pub event_type_names: Vec<String>,
}

/// The field errors of a `GetEventTypesInternal` body.
pub open spec fn get_event_types_internal_errors(body: JsonV) -> Seq<FieldErrorV> {
    after(seq![], body_field("account_id"@), str_field(body, "account_id"@, StrMode::Lenient))
        + str_list_errors(body, "event_type_names"@, StrMode::Lenient, false, seq![LocV::Key("body"@)])
}

impl GetEventTypesInternal {
    /// Validates an internal event-type lookup body.
    pub fn from_json(body: &Json) -> (r: Result<GetEventTypesInternal, Vec<FieldError>>)
        ensures
            !(body@ is Obj) ==> (r matches Err(e) && errs_view(e@) == not_a_dict_body()),
            body@ is Obj ==> {
                let errs = get_event_types_internal_errors(body@);
                &&& errs.len() == 0 ==> (r matches Ok(g) && g.account_id@ == str_field(
                    body@,
                    "account_id"@,
                    StrMode::Lenient,
                )->Ok_0 && str_list_value(body@, "event_type_names"@, StrMode::Lenient, false)
                    == Some(strings_view(g.event_type_names@)))
                &&& errs.len() > 0 ==> (r matches Err(e) && errs_view(e@) == errs)
            },
    {
        match require_object(body) {
            Err(e) => return Err(e),
            Ok(()) => {},
        }
        let mut errors: Vec<FieldError> = Vec::new();
        let prefix = body_loc();
        let account_id = take_str(body, "account_id", &prefix, StrMode::Lenient, &mut errors);
        let names = take_str_list(body, "event_type_names", &prefix, StrMode::Lenient, false, &mut errors);
        assert(errs_view(errors@) =~= get_event_types_internal_errors(body@));
        if errors.len() > 0 {
            return Err(errors);
        }
        match (account_id, names) {
            (Some(account_id), Some(event_type_names)) => Ok(GetEventTypesInternal { account_id, event_type_names }),
            _ => Err(errors),
        }
    }
}

// ---------------------------------------------------------------------------
// AMQP payload models (parsed in the application layer)
// ---------------------------------------------------------------------------

pub struct UpdateEventsOwnerChild {
    pub parent_profile: String,
    pub child_profiles: Vec<String>,
}

pub struct UpdateEventsOwner {
    pub account_id: String,
    pub profiles: Vec<UpdateEventsOwnerChild>,
}

pub struct DeleteProfiles {
    pub account_id: String,
    pub profile_id: String,
}

} // verus!
