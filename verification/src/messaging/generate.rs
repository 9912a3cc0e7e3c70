//! The `GenerateContent` request: its parsing and its three content
//! validators (message data limits, `item_rec` placeholders, reward cards).

use vstd::prelude::*;
use crate::events::models::body_field;
use crate::fields::{
    after, coerce_str, coerce_str_v, err_dict, err_list, err_missing, err_str, str_field, take_str,
    StrMode,
};
use crate::json::{
    body_field_loc, errs_view, fe, field_error, lemma_view_members, lemma_view_seq, loc_index,
    loc_key, locs_view, push_error, view_json, view_members, view_seq, FieldError, FieldErrorV,
    Json, JsonV, Loc, LocV,
};
use crate::text::copy_str;

verus! {

/// Why a messaging request was refused.
pub enum MsgRejection {
    /// Field errors (422).
    Validation(Vec<FieldError>),
    /// An internal error (500) with its detail.
    Internal(String),
    /// A configuration value could not be read; its key.
    ConfigMissing(String),
}

/// One message to generate: a template and a data object per recipient,
/// each member's value a string or null.
pub struct GenerateContentChild {
    pub template_id: String,
    pub data: Vec<Vec<(String, Option<String>)>>,
}

pub struct GenerateContent {
    pub messages: Vec<GenerateContentChild>,
}

pub open spec fn opt_str_view(o: Option<String>) -> Option<Seq<char>> {
    match o {
        Some(s) => Some(s@),
        None => None,
    }
}

/// A data object as its view.
pub open spec fn data_object_view(d: Seq<(String, Option<String>)>) -> Seq<(Seq<char>, Option<Seq<char>>)> {
    d.map_values(|e: (String, Option<String>)| (e.0@, opt_str_view(e.1)))
}

pub struct MessageV {
    pub template_id: Seq<char>,
    pub data: Seq<Seq<(Seq<char>, Option<Seq<char>>)>>,
}

impl View for GenerateContentChild {
    type V = MessageV;

    open spec fn view(&self) -> MessageV {
        MessageV {
            template_id: self.template_id@,
            data: self.data@.map_values(|d: Vec<(String, Option<String>)>| data_object_view(d@)),
        }
    }
}

// ---------------------------------------------------------------------------
// Parsing
// ---------------------------------------------------------------------------

/// The error of member `e` of a data object at `loc`: none for a null or a
/// value that coerces to a string.
pub open spec fn member_error(e: (Seq<char>, JsonV), loc: Seq<LocV>) -> Seq<FieldErrorV> {
    if e.1 is Null || coerce_str_v(e.1, StrMode::Lenient) is Some {
        seq![]
    } else {
        seq![fe(loc.push(LocV::Key(e.0)), err_str().0, err_str().1)]
    }
}

/// The errors of the first `n` members of a data object.
pub open spec fn members_errors(m: Seq<(Seq<char>, JsonV)>, n: int, loc: Seq<LocV>) -> Seq<FieldErrorV>
    decreases n,
{
    if n <= 0 {
        seq![]
    } else {
        members_errors(m, n - 1, loc) + member_error(m[n - 1], loc)
    }
}

/// The errors of data object `v` at `loc`.
pub open spec fn data_object_errors(v: JsonV, loc: Seq<LocV>) -> Seq<FieldErrorV> {
    match v {
        JsonV::Obj(m) => members_errors(m, m.len() as int, loc),
        _ => seq![fe(loc, err_dict().0, err_dict().1)],
    }
}

/// The errors of the first `n` data objects of a message's `data` list.
pub open spec fn data_list_errors(es: Seq<JsonV>, n: int, loc: Seq<LocV>) -> Seq<FieldErrorV>
    decreases n,
{
    if n <= 0 {
        seq![]
    } else {
        data_list_errors(es, n - 1, loc) + data_object_errors(es[n - 1], loc.push(LocV::Index((n - 1) as nat)))
    }
}

/// The errors of one message object at `prefix`.
pub open spec fn message_errors(v: JsonV, prefix: Seq<LocV>) -> Seq<FieldErrorV> {
    if !(v is Obj) {
        seq![fe(prefix, err_dict().0, err_dict().1)]
    } else {
        let e1 = after(seq![], prefix.push(LocV::Key("template_id"@)), str_field(v, "template_id"@, StrMode::Lenient));
        let dl = prefix.push(LocV::Key("data"@));
        e1 + match v.get("data"@) {
            None => seq![fe(dl, err_missing().0, err_missing().1)],
            Some(JsonV::Arr(es)) => data_list_errors(es, es.len() as int, dl),
            Some(_) => seq![fe(dl, err_list().0, err_list().1)],
        }
    }
}

/// A member's value once coerced: null stays null.
pub open spec fn member_value(v: JsonV) -> Option<Seq<char>> {
    if v is Null {
        None
    } else {
        coerce_str_v(v, StrMode::Lenient)
    }
}

/// The data object an error-free JSON object describes.
pub open spec fn data_object_value(v: JsonV) -> Seq<(Seq<char>, Option<Seq<char>>)> {
    match v {
        JsonV::Obj(m) => m.map_values(|e: (Seq<char>, JsonV)| (e.0, member_value(e.1))),
        _ => seq![],
    }
}

/// The message an error-free message object describes.
pub open spec fn message_value(v: JsonV) -> MessageV {
    MessageV {
        template_id: str_field(v, "template_id"@, StrMode::Lenient)->Ok_0,
        data: match v.get("data"@) {
            Some(JsonV::Arr(es)) => es.map_values(|e: JsonV| data_object_value(e)),
            _ => seq![],
        },
    }
}

/// The location of message `i`.
pub open spec fn message_loc(i: int) -> Seq<LocV> {
    seq![LocV::Key("body"@), LocV::Key("messages"@), LocV::Index(i as nat)]
}

/// The errors of the first `n` message objects.
pub open spec fn messages_errors(ms: Seq<JsonV>, n: int) -> Seq<FieldErrorV>
    decreases n,
{
    if n <= 0 {
        seq![]
    } else {
        messages_errors(ms, n - 1) + message_errors(ms[n - 1], message_loc(n - 1))
    }
}

/// The field errors of a `GenerateContent` body.
pub open spec fn generate_errors(body: JsonV) -> Seq<FieldErrorV> {
    match body.get("messages"@) {
        None => seq![fe(body_field("messages"@), err_missing().0, err_missing().1)],
        Some(JsonV::Arr(ms)) => messages_errors(ms, ms.len() as int),
        Some(_) => seq![fe(body_field("messages"@), err_list().0, err_list().1)],
    }
}

/// The message objects of a body whose `messages` is a list.
pub open spec fn body_messages(body: JsonV) -> Seq<JsonV> {
    match body.get("messages"@) {
        Some(JsonV::Arr(ms)) => ms,
        _ => seq![],
    }
}

/// Reads one data object at `loc`.
fn read_data_object(v: &Json, loc: &Vec<Loc>, errors: &mut Vec<FieldError>) -> (r: Vec<(String, Option<String>)>)
    ensures
        errs_view(final(errors)@) == errs_view(old(errors)@) + data_object_errors(v@, locs_view(loc@)),
        data_object_errors(v@, locs_view(loc@)).len() == 0 ==> data_object_view(r@) == data_object_value(v@),
{
    let mut out: Vec<(String, Option<String>)> = Vec::new();
    match v {
        Json::Object(m) => {
            proof {
                lemma_view_members(m@);
            }
            let ghost mv = view_members(m@);
            let ghost start = errs_view(errors@);
            let mut i: usize = 0;
            while i < m.len()
                invariant
                    i <= m@.len(),
                    mv == view_members(m@),
                    mv.len() == m@.len(),
                    forall|j: int| 0 <= j < m@.len() ==> #[trigger] mv[j] == (m@[j].0@, view_json(m@[j].1)),
                    errs_view(errors@) == start + members_errors(mv, i as int, locs_view(loc@)),
                    members_errors(mv, i as int, locs_view(loc@)).len() == 0 ==> data_object_view(out@)
                        == mv.take(i as int).map_values(|e: (Seq<char>, JsonV)| (e.0, member_value(e.1))),
                decreases m@.len() - i,
            {
                let entry = &m[i];
                assert(mv[i as int] == (entry.0@, view_json(entry.1)));
                let ghost before_out = out@;
                if entry.1.is_null() {
                    out.push((copy_str(entry.0.as_str()), None));
                } else {
                    match coerce_str(&entry.1, StrMode::Lenient) {
                        Some(s) => {
                            out.push((copy_str(entry.0.as_str()), Some(s)));
                        },
                        None => {
                            push_error(errors, field_error(loc_key(loc, entry.0.as_str()), "str type expected", "type_error.str"));
                        },
                    }
                }
                proof {
                    assert(members_errors(mv, i + 1, locs_view(loc@)) == members_errors(mv, i as int, locs_view(loc@)) + member_error(mv[i as int], locs_view(loc@)));
                    assert(errs_view(errors@) =~= start + members_errors(mv, i + 1, locs_view(loc@)));
                    if members_errors(mv, i + 1, locs_view(loc@)).len() == 0 {
                        assert(members_errors(mv, i as int, locs_view(loc@)).len() == 0);
                        assert(member_error(mv[i as int], locs_view(loc@)).len() == 0);
                        assert(out@.len() == before_out.len() + 1);
                        assert(out@.drop_last() =~= before_out);
                        assert(data_object_view(out@) =~= data_object_view(before_out).push((mv[i as int].0, member_value(mv[i as int].1))));
                        assert(mv.take(i + 1) =~= mv.take(i as int).push(mv[i as int]));
                        assert(data_object_view(out@) =~= mv.take(i + 1).map_values(|e: (Seq<char>, JsonV)| (e.0, member_value(e.1))));
                    }
                }
                i = i + 1;
            }
            assert(mv.take(m@.len() as int) =~= mv);
            out
        },
        _ => {
            push_error(errors, field_error(crate::json::copy_locs(loc), "value is not a valid dict", "type_error.dict"));
            assert(errs_view(errors@) =~= errs_view(old(errors)@) + data_object_errors(v@, locs_view(loc@)));
            out
        },
    }
}

/// Reads one message object at `prefix`.
fn read_message(v: &Json, prefix: &Vec<Loc>, errors: &mut Vec<FieldError>) -> (r: Option<GenerateContentChild>)
    ensures
        errs_view(final(errors)@) == errs_view(old(errors)@) + message_errors(v@, locs_view(prefix@)),
        message_errors(v@, locs_view(prefix@)).len() == 0 ==> (r matches Some(m) && m@ == message_value(v@)),
{
    if !v.is_object() {
        push_error(errors, field_error(crate::json::copy_locs(prefix), "value is not a valid dict", "type_error.dict"));
        assert(errs_view(errors@) =~= errs_view(old(errors)@) + message_errors(v@, locs_view(prefix@)));
        return None;
    }
    let ghost start = errs_view(errors@);
    let template_id = take_str(v, "template_id", prefix, StrMode::Lenient, errors);
    let ghost mid = errs_view(errors@);
    let dl = loc_key(prefix, "data");
    let mut data: Vec<Vec<(String, Option<String>)>> = Vec::new();
    let mut data_ok = true;
    match v.get("data") {
        None => {
            push_error(errors, field_error(crate::json::copy_locs(&dl), "field required", "value_error.missing"));
            data_ok = false;
            assert(errs_view(errors@) =~= mid + seq![fe(locs_view(dl@), err_missing().0, err_missing().1)]);
        },
        Some(dv) => match dv.as_array() {
            None => {
                push_error(errors, field_error(crate::json::copy_locs(&dl), "value is not a valid list", "type_error.list"));
                data_ok = false;
                assert(errs_view(errors@) =~= mid + seq![fe(locs_view(dl@), err_list().0, err_list().1)]);
            },
            Some(es) => {
                proof {
                    lemma_view_seq(es@);
                }
                let ghost ev = view_seq(es@);
                let mut j: usize = 0;
                while j < es.len()
                    invariant
                        j <= es@.len(),
                        ev == view_seq(es@),
                        ev.len() == es@.len(),
                        forall|k: int| 0 <= k < es@.len() ==> #[trigger] ev[k] == view_json(es@[k]),
                        errs_view(errors@) == mid + data_list_errors(ev, j as int, locs_view(dl@)),
                        data_list_errors(ev, j as int, locs_view(dl@)).len() == 0 ==> (data_ok && data@.len() == j
                            && forall|k: int| 0 <= k < j ==> data_object_view((#[trigger] data@[k])@) == data_object_value(ev[k])),
                        data_list_errors(ev, j as int, locs_view(dl@)).len() > 0 ==> !data_ok,
                    decreases es@.len() - j,
                {
                    let eloc = loc_index(&dl, j);
                    let ghost before = errs_view(errors@);
                    let count_before = errors.len();
                    let d = read_data_object(&es[j], &eloc, errors);
                    assert(ev[j as int] == view_json(es@[j as int]));
                    assert(data_list_errors(ev, j + 1, locs_view(dl@)) == data_list_errors(ev, j as int, locs_view(dl@))
                        + data_object_errors(ev[j as int], locs_view(dl@).push(LocV::Index(j as nat))));
                    if errors.len() > count_before {
                        data_ok = false;
                    }
                    proof {
                        if data_object_errors(ev[j as int], locs_view(dl@).push(LocV::Index(j as nat))).len() > 0 {
                            assert(errs_view(errors@).len() > before.len());
                        }
                    }
                    data.push(d);
                    j = j + 1;
                }
                assert(v@.get("data"@) == Some(JsonV::Arr(ev)));
            },
        },
    }
    proof {
        let p = locs_view(prefix@);
        assert(locs_view(dl@) == p.push(LocV::Key("data"@)));
        assert(errs_view(errors@) =~= start + message_errors(v@, p));
    }
    match template_id {
        Some(t) => {
            if data_ok {
                let m = GenerateContentChild { template_id: t, data };
                proof {
                    if message_errors(v@, locs_view(prefix@)).len() == 0 {
                        let es = v@.get("data"@)->0->Arr_0;
                        assert(m@.data =~= es.map_values(|e: JsonV| data_object_value(e)));
                    }
                }
                Some(m)
            } else {
                None
            }
        },
        None => None,
    }
}

/// The refusal of a request with the one field error `msg` at
/// `body.messages`.
pub open spec fn messages_error(msg: Seq<char>) -> Seq<FieldErrorV> {
    seq![fe(body_field("messages"@), msg, "value_error"@)]
}

fn messages_rejection(msg: &str) -> (r: MsgRejection)
    ensures
        r matches MsgRejection::Validation(e) && errs_view(e@) == messages_error(msg@),
{
    let mut errors: Vec<FieldError> = Vec::new();
    push_error(&mut errors, field_error(body_field_loc("messages"), msg, "value_error"));
    assert(errs_view(errors@) =~= messages_error(msg@));
    MsgRejection::Validation(errors)
}

/// Reads the messages of a `GenerateContent` body, before the parent
/// validators.
pub fn read_messages(body: &Json) -> (r: Result<Vec<GenerateContentChild>, Vec<FieldError>>)
    ensures
        generate_errors(body@).len() > 0 ==> (r matches Err(e) && errs_view(e@) == generate_errors(body@)),
        generate_errors(body@).len() == 0 ==> (r matches Ok(ms) && ms@.len() == body_messages(body@).len()
            && forall|i: int| 0 <= i < ms@.len() ==> (#[trigger] ms@[i])@ == message_value(body_messages(body@)[i])),
{
    let mut errors: Vec<FieldError> = Vec::new();
    match body.get("messages") {
        None => {
            push_error(&mut errors, field_error(body_field_loc("messages"), "field required", "value_error.missing"));
            assert(errs_view(errors@) =~= generate_errors(body@));
            Err(errors)
        },
        Some(mv) => match mv.as_array() {
            None => {
                push_error(&mut errors, field_error(body_field_loc("messages"), "value is not a valid list", "type_error.list"));
                assert(errs_view(errors@) =~= generate_errors(body@));
                Err(errors)
            },
            Some(ms) => {
                proof {
                    lemma_view_seq(ms@);
                }
                let ghost vs = view_seq(ms@);
                let mut out: Vec<GenerateContentChild> = Vec::new();
                let mut i: usize = 0;
                assert(errs_view(errors@) =~= messages_errors(vs, 0));
                while i < ms.len()
                    invariant
                        i <= ms@.len(),
                        vs == view_seq(ms@),
                        vs.len() == ms@.len(),
                        forall|k: int| 0 <= k < ms@.len() ==> #[trigger] vs[k] == view_json(ms@[k]),
                        errs_view(errors@) == messages_errors(vs, i as int),
                        messages_errors(vs, i as int).len() == 0 ==> out@.len() == i && forall|k: int|
                            0 <= k < i ==> (#[trigger] out@[k])@ == message_value(vs[k]),
                    decreases ms@.len() - i,
                {
                    let prefix = loc_index(&body_field_loc("messages"), i);
                    assert(locs_view(prefix@) =~= message_loc(i as int));
                    let ghost before = errs_view(errors@);
                    let parsed = read_message(&ms[i], &prefix, &mut errors);
                    assert(vs[i as int] == view_json(ms@[i as int]));
                    assert(messages_errors(vs, i + 1) == before + message_errors(vs[i as int], message_loc(i as int)));
                    match parsed {
                        Some(m) => {
                            out.push(m);
                        },
                        None => {},
                    }
                    i = i + 1;
                }
                assert(body@.get("messages"@) == Some(JsonV::Arr(vs)));
                if errors.len() > 0 {
                    Err(errors)
                } else {
                    Ok(out)
                }
            },
        },
    }
}

} // verus!
