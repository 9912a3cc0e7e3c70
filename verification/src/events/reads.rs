//! What the events service answers from stored documents: event types and
//! events as returned, the outcome of creating and deleting event types,
//! the query of an events listing, and the replies of the services it asks.

use vstd::prelude::*;
use crate::dates::{gmt_or_null, gmt_or_null_of};
use crate::events::verify::index_or_null;
use crate::fields::strings_view;
use crate::items::store::get_or_null;
use crate::json::{
    clone_members, insert_member, json_eq, json_equal, lemma_view_members, lemma_view_seq,
    members_insert, members_remove, remove_member, view_members, view_seq, Json, JsonNumber, JsonV,
    NumV,
};
use crate::messaging::assembly::str_member;
use crate::messaging::rewards::parsed_view;
use crate::events::models::UpdateEventsOwnerChild;
use crate::text::{concat2, copy_str, nat_decimal, str_eq, u16_text};

verus! {

/// A stored event type as returned: its `_id` also under `id_key`, and its
/// creation date as GMT text (null where it is no date).
pub open spec fn event_type_record(m: Seq<(Seq<char>, JsonV)>, id_key: Seq<char>) -> JsonV {
    let m1 = members_insert(m, id_key, index_or_null(JsonV::Obj(m), "_id"@));
    JsonV::Obj(members_insert(m1, "created_at"@, gmt_or_null(index_or_null(JsonV::Obj(m1), "created_at"@))))
}

/// Formats a stored event type, its `_id` copied under `id_key`.
pub fn format_event_type(doc: &Json, id_key: &str) -> (r: Json)
    requires
        doc@ is Obj,
    ensures
        r@ == event_type_record(doc@->Obj_0, id_key@),
{
    let id = get_or_null(doc, "_id");
    let mut m = match doc {
        Json::Object(m) => clone_members(m),
        _ => Vec::new(),
    };
    insert_member(&mut m, id_key, id);
    let created = match crate::json::members_get(&m, "created_at") {
        Some(c) => gmt_or_null_of(c),
        None => gmt_or_null_of(&Json::Null),
    };
    proof {
        lemma_view_members(m@);
    }
    insert_member(&mut m, "created_at", created);
    Json::Object(m)
}

/// A stored event as returned: its `_id` moved to `id_key`, its creation
/// date as GMT text (null where it is no date).
pub open spec fn event_record(m: Seq<(Seq<char>, JsonV)>, id_key: Seq<char>) -> JsonV {
    let m1 = members_insert(m, id_key, index_or_null(JsonV::Obj(m), "_id"@));
    let m2 = members_remove(m1, "_id"@);
    JsonV::Obj(members_insert(m2, "created_at"@, gmt_or_null(index_or_null(JsonV::Obj(m2), "created_at"@))))
}

/// Formats a stored event, its `_id` moved to `id_key`.
pub fn format_event(doc: &Json, id_key: &str) -> (r: Json)
    requires
        doc@ is Obj,
    ensures
        r@ == event_record(doc@->Obj_0, id_key@),
{
    let id = get_or_null(doc, "_id");
    let mut m = match doc {
        Json::Object(m) => clone_members(m),
        _ => Vec::new(),
    };
    insert_member(&mut m, id_key, id);
    remove_member(&mut m, "_id");
    let created = match crate::json::members_get(&m, "created_at") {
        Some(c) => gmt_or_null_of(c),
        None => gmt_or_null_of(&Json::Null),
    };
    insert_member(&mut m, "created_at", created);
    Json::Object(m)
}

/// The name of an event type to create: its `event_type` string, empty
/// for anything else.
pub open spec fn event_type_name(et: JsonV) -> Seq<char> {
    match index_or_null(et, "event_type"@) {
        JsonV::Str(s) => s,
        _ => seq![],
    }
}

/// The refusal of an event type named like a system event type.
pub open spec fn system_type_refusal(name: Seq<char>) -> JsonV {
    JsonV::Obj(seq![
        ("event_type"@, JsonV::Str(name)),
        ("error_message"@, JsonV::Str("System event type exists: "@ + name)),
    ])
}

/// The stored document of an event type created at `now` (epoch
/// milliseconds, stored as a plain number).
pub open spec fn type_document(et: JsonV, now: int) -> JsonV {
    JsonV::Obj(seq![
        ("_id"@, index_or_null(et, "event_type_id"@)),
        ("account_id"@, index_or_null(et, "account_id"@)),
        ("event_type"@, index_or_null(et, "event_type"@)),
        ("event_properties"@, index_or_null(et, "event_properties"@)),
        ("created_at"@, JsonV::Num(NumV::Int(now))),
    ])
}

/// The first `n` event types to create, split: the documents to store and
/// their names, and the refusals of those named like system event types.
pub open spec fn type_plan(batch: Seq<JsonV>, system: Seq<Seq<char>>, now: int, n: int) -> (Seq<JsonV>, Seq<Seq<char>>, Seq<JsonV>)
    decreases n,
{
    if n <= 0 {
        (seq![], seq![], seq![])
    } else {
        let (docs, names, failed) = type_plan(batch, system, now, n - 1);
        let et = batch[n - 1];
        if system.contains(event_type_name(et)) {
            (docs, names, failed.push(system_type_refusal(event_type_name(et))))
        } else {
            (docs.push(type_document(et, now)), names.push(event_type_name(et)), failed)
        }
    }
}

/// The event types of a creation: the documents to store, their names, and
/// the refusals so far.
pub struct EventTypePlan {
    pub documents: Vec<Json>,
    pub names: Vec<String>,
    pub failed: Vec<Json>,
}

fn type_document_of(et: &Json, now: i64) -> (r: Json)
    ensures
        r@ == type_document(et@, now as int),
{
    let mut m: Vec<(String, Json)> = Vec::new();
    m.push((copy_str("_id"), get_or_null(et, "event_type_id")));
    m.push((copy_str("account_id"), get_or_null(et, "account_id")));
    m.push((copy_str("event_type"), get_or_null(et, "event_type")));
    m.push((copy_str("event_properties"), get_or_null(et, "event_properties")));
    m.push((copy_str("created_at"), Json::Number(JsonNumber::Int(now))));
    proof {
        lemma_view_members(m@);
    }
    assert(view_members(m@) =~= type_document(et@, now as int)->Obj_0);
    Json::Object(m)
}

fn event_type_name_of(et: &Json) -> (r: String)
    ensures
        r@ == event_type_name(et@),
{
    match et.get("event_type") {
        Some(Json::Str(s)) => copy_str(s.as_str()),
        _ => String::new(),
    }
}

fn named_in(names: &Vec<String>, x: &str) -> (r: bool)
    ensures
        r == strings_view(names@).contains(x@),
{
    let ghost nv = strings_view(names@);
    let mut i: usize = 0;
    while i < names.len()
        invariant
            i <= names@.len(),
            nv == strings_view(names@),
            forall|j: int| 0 <= j < i ==> nv[j] != x@,
        decreases names@.len() - i,
    {
        assert(nv[i as int] == names@[i as int]@);
        if str_eq(names[i].as_str(), x) {
            return true;
        }
        i = i + 1;
    }
    false
}

/// Splits the event types of a creation at `now`: those named like a
/// system event type are refused, the others become documents to store.
pub fn plan_event_types(batch: &Vec<Json>, system: &Vec<String>, now: i64) -> (r: EventTypePlan)
    ensures
        type_plan(view_seq(batch@), strings_view(system@), now as int, batch@.len() as int)
            == (view_seq(r.documents@), strings_view(r.names@), view_seq(r.failed@)),
{
    proof {
        lemma_view_seq(batch@);
    }
    let ghost bv = view_seq(batch@);
    let mut documents: Vec<Json> = Vec::new();
    let mut names: Vec<String> = Vec::new();
    let mut failed: Vec<Json> = Vec::new();
    proof {
        lemma_view_seq(documents@);
        lemma_view_seq(failed@);
    }
    assert(strings_view(names@) =~= Seq::<Seq<char>>::empty());
    let mut i: usize = 0;
    while i < batch.len()
        invariant
            i <= batch@.len(),
            bv == view_seq(batch@),
            bv.len() == batch@.len(),
            forall|j: int| 0 <= j < batch@.len() ==> #[trigger] bv[j] == batch@[j]@,
            type_plan(bv, strings_view(system@), now as int, i as int) == (view_seq(documents@), strings_view(names@), view_seq(failed@)),
        decreases batch@.len() - i,
    {
        assert(bv[i as int] == batch@[i as int]@);
        let name = event_type_name_of(&batch[i]);
        if named_in(system, name.as_str()) {
            let mut m: Vec<(String, Json)> = Vec::new();
            m.push((copy_str("event_type"), Json::Str(copy_str(name.as_str()))));
            m.push((copy_str("error_message"), Json::Str(concat2("System event type exists: ", name.as_str()))));
            proof {
                lemma_view_members(m@);
            }
            assert(view_members(m@) =~= system_type_refusal(name@)->Obj_0);
            let ghost before = failed@;
            failed.push(Json::Object(m));
            proof {
                lemma_view_seq(before);
                lemma_view_seq(failed@);
                assert(view_seq(failed@) =~= view_seq(before).push(system_type_refusal(name@)));
            }
        } else {
            let d = type_document_of(&batch[i], now);
            let ghost before = documents@;
            let ghost nbefore = names@;
            documents.push(d);
            names.push(name);
            proof {
                lemma_view_seq(before);
                lemma_view_seq(documents@);
                assert(view_seq(documents@) =~= view_seq(before).push(type_document(bv[i as int], now as int)));
                assert(strings_view(names@) =~= strings_view(nbefore).push(event_type_name(bv[i as int])));
            }
        }
        i = i + 1;
    }
    EventTypePlan { documents, names, failed }
}

/// The refusal of an event type the store already has.
pub open spec fn conflict_refusal(name: Seq<char>) -> JsonV {
    JsonV::Obj(seq![
        ("event_type"@, JsonV::Str(name)),
        ("error_message"@, JsonV::Str("Conflict: "@ + name)),
    ])
}

/// The refusals of the first `n` write errors of a store of documents
/// named `names`: each names the document at its `index` (errors without
/// a valid index are passed over).
pub open spec fn conflicts(names: Seq<Seq<char>>, errors: Seq<JsonV>, n: int) -> Seq<JsonV>
    decreases n,
{
    if n <= 0 {
        seq![]
    } else {
        match index_or_null(errors[n - 1], "index"@) {
            JsonV::Num(NumV::Int(i)) => if 0 <= i < names.len() {
                conflicts(names, errors, n - 1).push(conflict_refusal(names[i]))
            } else {
                conflicts(names, errors, n - 1)
            },
            _ => conflicts(names, errors, n - 1),
        }
    }
}

/// The refusals of the write errors of a store of event types.
pub fn conflict_refusals(names: &Vec<String>, errors: &Vec<Json>) -> (r: Vec<Json>)
    ensures
        view_seq(r@) == conflicts(strings_view(names@), view_seq(errors@), errors@.len() as int),
{
    proof {
        lemma_view_seq(errors@);
    }
    let ghost ev = view_seq(errors@);
    let ghost nv = strings_view(names@);
    let mut out: Vec<Json> = Vec::new();
    proof {
        lemma_view_seq(out@);
    }
    let mut k: usize = 0;
    while k < errors.len()
        invariant
            k <= errors@.len(),
            ev == view_seq(errors@),
            ev.len() == errors@.len(),
            forall|j: int| 0 <= j < errors@.len() ==> #[trigger] ev[j] == errors@[j]@,
            nv == strings_view(names@),
            view_seq(out@) == conflicts(nv, ev, k as int),
        decreases errors@.len() - k,
    {
        assert(ev[k as int] == errors@[k as int]@);
        let idx: Option<usize> = match errors[k].get("index") {
            Some(Json::Number(JsonNumber::Int(i))) => if 0 <= *i && (*i as u64) < (names.len() as u64) {
                Some(*i as usize)
            } else {
                None
            },
            _ => None,
        };
        match idx {
            Some(i) => {
                assert(nv[i as int] == names@[i as int]@);
                let name = names[i].as_str();
                let mut m: Vec<(String, Json)> = Vec::new();
                m.push((copy_str("event_type"), Json::Str(copy_str(name))));
                m.push((copy_str("error_message"), Json::Str(concat2("Conflict: ", name))));
                proof {
                    lemma_view_members(m@);
                }
                assert(view_members(m@) =~= conflict_refusal(name@)->Obj_0);
                let ghost before = out@;
                out.push(Json::Object(m));
                proof {
                    lemma_view_seq(before);
                    lemma_view_seq(out@);
                    assert(view_seq(out@) =~= view_seq(before).push(conflict_refusal(nv[i as int])));
                }
            },
            None => {},
        }
        k = k + 1;
    }
    out
}

/// An event type was refused: some refusal names its `event_type`.
pub open spec fn type_refused(failed: Seq<JsonV>, et: JsonV) -> bool {
    exists|k: int| 0 <= k < failed.len() && json_eq(index_or_null(#[trigger] failed[k], "event_type"@), index_or_null(et, "event_type"@))
}

/// An event type as returned on creation: without its `account_id`.
pub open spec fn without_account(et: JsonV) -> JsonV {
    match et {
        JsonV::Obj(m) => JsonV::Obj(members_remove(m, "account_id"@)),
        other => other,
    }
}

/// The first `n` event types of a creation that were not refused, as
/// returned.
pub open spec fn created_types(batch: Seq<JsonV>, failed: Seq<JsonV>, n: int) -> Seq<JsonV>
    decreases n,
{
    if n <= 0 {
        seq![]
    } else if type_refused(failed, batch[n - 1]) {
        created_types(batch, failed, n - 1)
    } else {
        created_types(batch, failed, n - 1).push(without_account(batch[n - 1]))
    }
}

fn is_refused(failed: &Vec<Json>, et: &Json) -> (r: bool)
    ensures
        r == type_refused(view_seq(failed@), et@),
{
    proof {
        lemma_view_seq(failed@);
    }
    let ghost fv = view_seq(failed@);
    let name = get_or_null(et, "event_type");
    let mut k: usize = 0;
    while k < failed.len()
        invariant
            k <= failed@.len(),
            fv == view_seq(failed@),
            fv.len() == failed@.len(),
            forall|j: int| 0 <= j < failed@.len() ==> #[trigger] fv[j] == failed@[j]@,
            name@ == index_or_null(et@, "event_type"@),
            forall|j: int| 0 <= j < k ==> !json_eq(index_or_null(#[trigger] fv[j], "event_type"@), name@),
        decreases failed@.len() - k,
    {
        assert(fv[k as int] == failed@[k as int]@);
        let f = get_or_null(&failed[k], "event_type");
        if json_equal(&f, &name) {
            return true;
        }
        k = k + 1;
    }
    false
}

/// The event types of a creation that were not refused, as returned.
pub fn created_event_types(batch: &Vec<Json>, failed: &Vec<Json>) -> (r: Vec<Json>)
    ensures
        view_seq(r@) == created_types(view_seq(batch@), view_seq(failed@), batch@.len() as int),
{
    proof {
        lemma_view_seq(batch@);
    }
    let ghost bv = view_seq(batch@);
    let mut out: Vec<Json> = Vec::new();
    proof {
        lemma_view_seq(out@);
    }
    let mut i: usize = 0;
    while i < batch.len()
        invariant
            i <= batch@.len(),
            bv == view_seq(batch@),
            bv.len() == batch@.len(),
            forall|j: int| 0 <= j < batch@.len() ==> #[trigger] bv[j] == batch@[j]@,
            view_seq(out@) == created_types(bv, view_seq(failed@), i as int),
        decreases batch@.len() - i,
    {
        assert(bv[i as int] == batch@[i as int]@);
        if !is_refused(failed, &batch[i]) {
            let e = match &batch[i] {
                Json::Object(m) => {
                    let mut mm = clone_members(m);
                    remove_member(&mut mm, "account_id");
                    Json::Object(mm)
                },
                other => other.deep_clone(),
            };
            let ghost before = out@;
            out.push(e);
            proof {
                lemma_view_seq(before);
                lemma_view_seq(out@);
                assert(view_seq(out@) =~= view_seq(before).push(without_account(bv[i as int])));
            }
        }
        i = i + 1;
    }
    out
}

/// The names of the first `n` requested event types that no stored event
/// type has.
pub open spec fn types_not_found(names: Seq<Seq<char>>, docs: Seq<JsonV>, n: int) -> Seq<JsonV>
    decreases n,
{
    if n <= 0 {
        seq![]
    } else if exists|k: int| 0 <= k < docs.len() && str_member(#[trigger] docs[k], "event_type"@) == Some(names[n - 1]) {
        types_not_found(names, docs, n - 1)
    } else {
        types_not_found(names, docs, n - 1).push(JsonV::Str(names[n - 1]))
    }
}

fn has_type_named(docs: &Vec<Json>, name: &str) -> (r: bool)
    ensures
        r == exists|k: int| 0 <= k < docs@.len() && str_member(#[trigger] view_seq(docs@)[k], "event_type"@) == Some(name@),
{
    proof {
        lemma_view_seq(docs@);
    }
    let ghost dv = view_seq(docs@);
    let mut k: usize = 0;
    while k < docs.len()
        invariant
            k <= docs@.len(),
            dv == view_seq(docs@),
            dv.len() == docs@.len(),
            forall|j: int| 0 <= j < docs@.len() ==> #[trigger] dv[j] == docs@[j]@,
            forall|j: int| 0 <= j < k ==> str_member(#[trigger] dv[j], "event_type"@) != Some(name@),
        decreases docs@.len() - k,
    {
        assert(dv[k as int] == docs@[k as int]@);
        let hit = match docs[k].get("event_type") {
            Some(Json::Str(s)) => str_eq(s.as_str(), name),
            _ => false,
        };
        if hit {
            return true;
        }
        k = k + 1;
    }
    false
}

/// The requested event type names that no stored event type has.
pub fn event_types_not_found(names: &Vec<String>, docs: &Vec<Json>) -> (r: Vec<Json>)
    ensures
        view_seq(r@) == types_not_found(strings_view(names@), view_seq(docs@), names@.len() as int),
{
    let ghost nv = strings_view(names@);
    let mut out: Vec<Json> = Vec::new();
    proof {
        lemma_view_seq(out@);
        lemma_view_seq(docs@);
    }
    let mut i: usize = 0;
    while i < names.len()
        invariant
            i <= names@.len(),
            nv == strings_view(names@),
            view_seq(out@) == types_not_found(nv, view_seq(docs@), i as int),
            view_seq(docs@).len() == docs@.len(),
        decreases names@.len() - i,
    {
        assert(nv[i as int] == names@[i as int]@);
        if !has_type_named(docs, names[i].as_str()) {
            let ghost before = out@;
            out.push(Json::Str(copy_str(names[i].as_str())));
            proof {
                lemma_view_seq(before);
                lemma_view_seq(out@);
                assert(view_seq(out@) =~= view_seq(before).push(JsonV::Str(nv[i as int])));
            }
        }
        i = i + 1;
    }
    out
}

/// The answer to deleting an event type: deleted where the store removed
/// a document, else failed for want of a match.
pub open spec fn type_deletion(id: JsonV, deleted: int) -> (bool, JsonV) {
    if deleted > 0 {
        (true, JsonV::Obj(seq![("event_type_id"@, id)]))
    } else {
        (false, JsonV::Obj(seq![("event_type_id"@, id), ("error_message"@, JsonV::Str("No match found for deletion"@))]))
    }
}

/// Answers the deletion of an event type: whether it was deleted, and its
/// entry.
pub fn event_type_deletion(id: &Json, deleted: i64) -> (r: (bool, Json))
    ensures
        (r.0, r.1@) == type_deletion(id@, deleted as int),
{
    let mut m: Vec<(String, Json)> = Vec::new();
    m.push((copy_str("event_type_id"), id.deep_clone()));
    if deleted <= 0 {
        m.push((copy_str("error_message"), Json::Str(copy_str("No match found for deletion"))));
    }
    proof {
        lemma_view_members(m@);
    }
    assert(view_members(m@) =~= type_deletion(id@, deleted as int).1->Obj_0);
    (deleted > 0, Json::Object(m))
}

/// The entry of a stored event type deleted with its account.
pub open spec fn account_type_deleted(doc: JsonV) -> JsonV {
    JsonV::Obj(seq![
        ("event_type_id"@, index_or_null(doc, "_id"@)),
        ("event_type"@, JsonV::Str(match str_member(doc, "event_type"@) {
            Some(s) => s,
            None => "unknown"@,
        })),
    ])
}

/// The entries of an account's stored event types, deleted with it.
pub fn account_types_deleted(docs: &Vec<Json>) -> (r: Vec<Json>)
    ensures
        view_seq(r@) == view_seq(docs@).map_values(|d: JsonV| account_type_deleted(d)),
{
    proof {
        lemma_view_seq(docs@);
    }
    let ghost dv = view_seq(docs@);
    let mut out: Vec<Json> = Vec::new();
    let mut i: usize = 0;
    while i < docs.len()
        invariant
            i <= docs@.len(),
            dv == view_seq(docs@),
            dv.len() == docs@.len(),
            forall|j: int| 0 <= j < docs@.len() ==> #[trigger] dv[j] == docs@[j]@,
            out@.len() == i,
            forall|j: int| 0 <= j < i ==> (#[trigger] out@[j])@ == account_type_deleted(dv[j]),
        decreases docs@.len() - i,
    {
        assert(dv[i as int] == docs@[i as int]@);
        let name = match docs[i].get("event_type") {
            Some(Json::Str(s)) => copy_str(s.as_str()),
            _ => copy_str("unknown"),
        };
        let mut m: Vec<(String, Json)> = Vec::new();
        m.push((copy_str("event_type_id"), get_or_null(&docs[i], "_id")));
        m.push((copy_str("event_type"), Json::Str(name)));
        proof {
            lemma_view_members(m@);
        }
        assert(view_members(m@) =~= account_type_deleted(dv[i as int])->Obj_0);
        out.push(Json::Object(m));
        i = i + 1;
    }
    proof {
        lemma_view_seq(out@);
    }
    assert(view_seq(out@) =~= dv.map_values(|d: JsonV| account_type_deleted(d)));
    out
}

/// The failure of deleting an account's event types: `prefix` then
/// `detail`.
pub open spec fn account_types_failure(account_id: Seq<char>, prefix: Seq<char>, detail: Seq<char>) -> JsonV {
    JsonV::Obj(seq![
        ("account_id"@, JsonV::Str(account_id)),
        ("error_message"@, JsonV::Str(prefix + detail)),
    ])
}

/// The failure of an account without event types.
pub fn no_account_types_entry(account_id: &str) -> (r: Json)
    ensures
        r@ == account_types_failure(account_id@, "No event types found for account_id: "@, account_id@),
{
    account_failure_of(account_id, "No event types found for account_id: ", account_id)
}

/// The failure of a deletion the store refused, with its error.
pub fn account_types_refused_entry(account_id: &str, error: &str) -> (r: Json)
    ensures
        r@ == account_types_failure(account_id@, "Failed to delete: "@, error@),
{
    account_failure_of(account_id, "Failed to delete: ", error)
}

fn account_failure_of(account_id: &str, prefix: &str, detail: &str) -> (r: Json)
    ensures
        r@ == account_types_failure(account_id@, prefix@, detail@),
{
    let mut m: Vec<(String, Json)> = Vec::new();
    m.push((copy_str("account_id"), Json::Str(copy_str(account_id))));
    m.push((copy_str("error_message"), Json::Str(concat2(prefix, detail))));
    proof {
        lemma_view_members(m@);
    }
    assert(view_members(m@) =~= account_types_failure(account_id@, prefix@, detail@)->Obj_0);
    Json::Object(m)
}

/// The latest stored event of a type as its type's meta data.
pub open spec fn event_meta(doc: JsonV) -> JsonV {
    JsonV::Obj(seq![
        ("event_type"@, index_or_null(doc, "event_type"@)),
        ("event_properties"@, index_or_null(doc, "event_properties"@)),
    ])
}

/// The meta data of an event type from its latest stored event.
pub fn event_meta_entry(doc: &Json) -> (r: Json)
    ensures
        r@ == event_meta(doc@),
{
    let mut m: Vec<(String, Json)> = Vec::new();
    m.push((copy_str("event_type"), get_or_null(doc, "event_type")));
    m.push((copy_str("event_properties"), get_or_null(doc, "event_properties")));
    proof {
        lemma_view_members(m@);
    }
    assert(view_members(m@) =~= event_meta(doc@)->Obj_0);
    Json::Object(m)
}

/// The filter members of an event sequence event's properties, from the
/// first `n` of them: each property `k` as `event_properties.k`.
pub open spec fn property_filters(acc: Seq<(Seq<char>, JsonV)>, props: Seq<(Seq<char>, JsonV)>, n: int) -> Seq<(Seq<char>, JsonV)>
    decreases n,
{
    if n <= 0 {
        acc
    } else {
        members_insert(property_filters(acc, props, n - 1), "event_properties."@ + props[n - 1].0, props[n - 1].1)
    }
}

/// The query of an events listing: the account's events created after
/// `from` (epoch milliseconds), narrowed to an event sequence event (its
/// type and properties) when one is given, else to the profiles (and the
/// event type) when given; the error of a sequence event without a type or
/// with properties that are no object.
pub open spec fn events_query_of(
    account_id: Seq<char>,
    from: int,
    ese: Option<JsonV>,
    profile_ids: Option<Seq<Seq<char>>>,
    event_type: Option<Seq<char>>,
) -> Result<JsonV, Seq<char>> {
    let base = seq![
        ("account_id"@, JsonV::Str(account_id)),
        ("created_at"@, JsonV::Obj(seq![("$gt"@, JsonV::Obj(seq![("$date"@, JsonV::Num(NumV::Int(from)))]))])),
    ];
    let pids = match profile_ids {
        Some(p) => if p.len() > 0 { Some(p) } else { None },
        None => None,
    };
    let et = match event_type {
        Some(t) => if t.len() > 0 { Some(t) } else { None },
        None => None,
    };
    match ese {
        Some(JsonV::Obj(em)) if em.len() > 0 => match JsonV::Obj(em).get("event_type"@) {
            None => Err("KeyError: event_sequence_event['event_type']"@),
            Some(t) => {
                let q = members_insert(base, "event_type"@, t);
                match JsonV::Obj(em).get("event_properties"@) {
                    None => Ok(JsonV::Obj(q)),
                    Some(JsonV::Obj(props)) => Ok(JsonV::Obj(property_filters(q, props, props.len() as int))),
                    Some(_) => Err("event_sequence_event['event_properties'] is not a dict"@),
                }
            },
        },
        _ => match (pids, et) {
            (Some(p), Some(t)) => Ok(JsonV::Obj(members_insert(
                members_insert(base, "profile_id"@, JsonV::Obj(seq![("$in"@, JsonV::Arr(p.map_values(|x: Seq<char>| JsonV::Str(x))))])),
                "event_type"@,
                JsonV::Str(t),
            ))),
            (Some(p), None) => Ok(JsonV::Obj(members_insert(
                base,
                "profile_id"@,
                JsonV::Obj(seq![("$in"@, JsonV::Arr(p.map_values(|x: Seq<char>| JsonV::Str(x))))]),
            ))),
            _ => Ok(JsonV::Obj(base)),
        },
    }
}

fn str_array(v: &Vec<String>) -> (r: Json)
    ensures
        r@ == JsonV::Arr(strings_view(v@).map_values(|x: Seq<char>| JsonV::Str(x))),
{
    let ghost sv = strings_view(v@);
    let mut out: Vec<Json> = Vec::new();
    let mut i: usize = 0;
    while i < v.len()
        invariant
            i <= v@.len(),
            sv == strings_view(v@),
            out@.len() == i,
            forall|j: int| 0 <= j < i ==> (#[trigger] out@[j])@ == JsonV::Str(sv[j]),
        decreases v@.len() - i,
    {
        assert(sv[i as int] == v@[i as int]@);
        out.push(Json::Str(copy_str(v[i].as_str())));
        i = i + 1;
    }
    proof {
        lemma_view_seq(out@);
    }
    assert(view_seq(out@) =~= sv.map_values(|x: Seq<char>| JsonV::Str(x)));
    Json::Array(out)
}

fn in_filter(v: &Vec<String>) -> (r: Json)
    ensures
        r@ == JsonV::Obj(seq![("$in"@, JsonV::Arr(strings_view(v@).map_values(|x: Seq<char>| JsonV::Str(x))))]),
{
    let mut m: Vec<(String, Json)> = Vec::new();
    m.push((copy_str("$in"), str_array(v)));
    proof {
        lemma_view_members(m@);
    }
    assert(view_members(m@) =~= seq![("$in"@, JsonV::Arr(strings_view(v@).map_values(|x: Seq<char>| JsonV::Str(x))))]);
    Json::Object(m)
}

/// Builds the query of an events listing.
pub fn events_query(
    account_id: &str,
    from: i64,
    ese: Option<&Json>,
    profile_ids: Option<&Vec<String>>,
    event_type: Option<&str>,
) -> (r: Result<Json, String>)
    ensures
        ({
            let q = events_query_of(
                account_id@,
                from as int,
                match ese { Some(e) => Some(e@), None => None },
                match profile_ids { Some(p) => Some(strings_view(p@)), None => None },
                match event_type { Some(t) => Some(t@), None => None },
            );
            match r {
                Ok(j) => q == Ok::<JsonV, Seq<char>>(j@),
                Err(e) => q == Err::<JsonV, Seq<char>>(e@),
            }
        }),
{
    let mut date: Vec<(String, Json)> = Vec::new();
    date.push((copy_str("$date"), Json::Number(JsonNumber::Int(from))));
    let mut gt: Vec<(String, Json)> = Vec::new();
    gt.push((copy_str("$gt"), Json::Object(date)));
    let mut q: Vec<(String, Json)> = Vec::new();
    q.push((copy_str("account_id"), Json::Str(copy_str(account_id))));
    q.push((copy_str("created_at"), Json::Object(gt)));
    proof {
        lemma_view_members(date@);
        lemma_view_members(gt@);
        lemma_view_members(q@);
    }
    let ghost base = seq![
        ("account_id"@, JsonV::Str(account_id@)),
        ("created_at"@, JsonV::Obj(seq![("$gt"@, JsonV::Obj(seq![("$date"@, JsonV::Num(NumV::Int(from as int)))]))])),
    ];
    assert(view_members(date@) =~= seq![("$date"@, JsonV::Num(NumV::Int(from as int)))]);
    assert(view_members(gt@) =~= seq![("$gt"@, JsonV::Obj(seq![("$date"@, JsonV::Num(NumV::Int(from as int)))]))]);
    assert(view_members(q@) =~= base);
    let with_sequence = match ese {
        Some(Json::Object(em)) => em.len() > 0,
        _ => false,
    };
    if with_sequence {
        let e = ese.unwrap();
        let t = match e.get("event_type") {
            None => return Err(copy_str("KeyError: event_sequence_event['event_type']")),
            Some(t) => t.deep_clone(),
        };
        insert_member(&mut q, "event_type", t);
        match e.get("event_properties") {
            None => {},
            Some(Json::Object(props)) => {
                proof {
                    lemma_view_members(props@);
                }
                let ghost start = view_members(q@);
                let ghost pv = view_members(props@);
                let mut k: usize = 0;
                while k < props.len()
                    invariant
                        k <= props@.len(),
                        pv == view_members(props@),
                        pv.len() == props@.len(),
                        forall|j: int| 0 <= j < props@.len() ==> #[trigger] pv[j] == (props@[j].0@, props@[j].1@),
                        view_members(q@) == property_filters(start, pv, k as int),
                    decreases props@.len() - k,
                {
                    assert(pv[k as int] == (props@[k as int].0@, props@[k as int].1@));
                    let key = concat2("event_properties.", props[k].0.as_str());
                    insert_member(&mut q, key.as_str(), props[k].1.deep_clone());
                    k = k + 1;
                }
            },
            Some(_) => return Err(copy_str("event_sequence_event['event_properties'] is not a dict")),
        }
        return Ok(Json::Object(q));
    }
    let pids = match profile_ids {
        Some(p) => if p.len() > 0 { Some(p) } else { None },
        None => None,
    };
    let et = match event_type {
        Some(t) => if crate::text::chars_of(t).len() > 0 { Some(t) } else { None },
        None => None,
    };
    match pids {
        Some(p) => {
            insert_member(&mut q, "profile_id", in_filter(p));
            match et {
                Some(t) => insert_member(&mut q, "event_type", Json::Str(copy_str(t))),
                None => {},
            }
        },
        None => {},
    }
    Ok(Json::Object(q))
}

/// The pairs (child profile, parent profile) of an ownership update: each
/// child of the first `n` profiles, in order, with the first profile that
/// lists it.
pub open spec fn owner_pairs(ps: Seq<UpdateEventsOwnerChild>, n: int) -> Seq<(Seq<char>, Seq<char>)>
    decreases n,
{
    if n <= 0 {
        seq![]
    } else {
        owner_pairs(ps, n - 1) + owner_pairs_of(ps, strings_view(ps[n - 1].child_profiles@), strings_view(ps[n - 1].child_profiles@).len() as int)
    }
}

/// The pairs of the first `k` children of one profile.
pub open spec fn owner_pairs_of(ps: Seq<UpdateEventsOwnerChild>, children: Seq<Seq<char>>, k: int) -> Seq<(Seq<char>, Seq<char>)>
    decreases k,
{
    if k <= 0 {
        seq![]
    } else {
        match owner_of(ps, children[k - 1], 0) {
            Some(p) => owner_pairs_of(ps, children, k - 1).push((children[k - 1], p)),
            None => owner_pairs_of(ps, children, k - 1),
        }
    }
}

/// The parent of the first profile (from `i` on) that lists child `c`.
pub open spec fn owner_of(ps: Seq<UpdateEventsOwnerChild>, c: Seq<char>, i: int) -> Option<Seq<char>>
    decreases ps.len() - i,
{
    if i < 0 || i >= ps.len() {
        None
    } else if strings_view(ps[i].child_profiles@).contains(c) {
        Some(ps[i].parent_profile@)
    } else {
        owner_of(ps, c, i + 1)
    }
}

fn owner_of_exec(ps: &Vec<UpdateEventsOwnerChild>, c: &str) -> (r: Option<String>)
    ensures
        match r {
            Some(p) => owner_of(ps@, c@, 0) == Some(p@),
            None => owner_of(ps@, c@, 0) is None,
        },
{
    let mut i: usize = 0;
    while i < ps.len()
        invariant
            i <= ps@.len(),
            owner_of(ps@, c@, 0) == owner_of(ps@, c@, i as int),
        decreases ps@.len() - i,
    {
        if named_in(&ps[i].child_profiles, c) {
            return Some(copy_str(ps[i].parent_profile.as_str()));
        }
        i = i + 1;
    }
    None
}

/// The (child, parent) pairs of an ownership update of events.
pub fn owner_updates(ps: &Vec<UpdateEventsOwnerChild>) -> (r: Vec<(String, String)>)
    ensures
        crate::messaging::engine::pairs_view(r@) == owner_pairs(ps@, ps@.len() as int),
{
    let mut out: Vec<(String, String)> = Vec::new();
    assert(crate::messaging::engine::pairs_view(out@) =~= Seq::<(Seq<char>, Seq<char>)>::empty());
    let mut i: usize = 0;
    while i < ps.len()
        invariant
            i <= ps@.len(),
            crate::messaging::engine::pairs_view(out@) == owner_pairs(ps@, i as int),
        decreases ps@.len() - i,
    {
        let children = &ps[i].child_profiles;
        let ghost cv = strings_view(children@);
        let ghost start = crate::messaging::engine::pairs_view(out@);
        let mut k: usize = 0;
        while k < children.len()
            invariant
                k <= children@.len(),
                children == ps@[i as int].child_profiles,
                cv == strings_view(children@),
                crate::messaging::engine::pairs_view(out@) == start + owner_pairs_of(ps@, cv, k as int),
            decreases children@.len() - k,
        {
            assert(cv[k as int] == children@[k as int]@);
            match owner_of_exec(ps, children[k].as_str()) {
                Some(p) => {
                    let ghost before = out@;
                    let ghost pv = p@;
                    out.push((copy_str(children[k].as_str()), p));
                    assert(crate::messaging::engine::pairs_view(out@) =~= crate::messaging::engine::pairs_view(before).push((cv[k as int], pv)));
                    assert(start + owner_pairs_of(ps@, cv, k + 1) =~= (start + owner_pairs_of(ps@, cv, k as int)).push((cv[k as int], pv)));
                },
                None => {},
            }
            k = k + 1;
        }
        i = i + 1;
    }
    out
}

/// The profiles service's answer to a profile lookup: the found profiles
/// and the identifiers not found (none where the reply lacks them); the
/// error of a failed reply.
pub open spec fn profile_lookup_of(status: int, parsed: Result<JsonV, Seq<char>>) -> Result<(Seq<JsonV>, Seq<JsonV>), Seq<char>> {
    if status >= 400 {
        Err("Profile API error: status "@ + nat_decimal(status as nat))
    } else {
        match parsed {
            Err(e) => Err("Profile API error: invalid JSON response: "@ + e),
            Ok(p) => Ok((array_or_empty(p, "profiles"@), array_or_empty(p, "not_found"@))),
        }
    }
}

/// An array member of a reply, or none.
pub open spec fn array_or_empty(p: JsonV, k: Seq<char>) -> Seq<JsonV> {
    match p.get(k) {
        Some(JsonV::Arr(a)) => a,
        _ => seq![],
    }
}

fn array_member(p: &Json, k: &str) -> (r: Vec<Json>)
    ensures
        view_seq(r@) == array_or_empty(p@, k@),
{
    let mut out: Vec<Json> = Vec::new();
    match p.get(k) {
        Some(Json::Array(a)) => {
            proof {
                lemma_view_seq(a@);
            }
            let mut i: usize = 0;
            while i < a.len()
                invariant
                    i <= a@.len(),
                    out@.len() == i,
                    forall|j: int| 0 <= j < i ==> (#[trigger] out@[j])@ == a@[j]@,
                decreases a@.len() - i,
            {
                out.push(a[i].deep_clone());
                i = i + 1;
            }
            proof {
                lemma_view_seq(out@);
            }
            assert(view_seq(out@) =~= view_seq(a@));
        },
        _ => {
            proof {
                lemma_view_seq(out@);
            }
            assert(view_seq(out@) =~= Seq::<JsonV>::empty());
        },
    }
    out
}

/// Reads the profiles service's answer to a profile lookup.
pub fn profile_lookup(status: u16, parsed: Result<Json, String>) -> (r: Result<(Vec<Json>, Vec<Json>), String>)
    ensures
        match r {
            Ok((found, missing)) => profile_lookup_of(status as int, parsed_view(parsed)) == Ok::<(Seq<JsonV>, Seq<JsonV>), Seq<char>>((view_seq(found@), view_seq(missing@))),
            Err(e) => profile_lookup_of(status as int, parsed_view(parsed)) == Err::<(Seq<JsonV>, Seq<JsonV>), Seq<char>>(e@),
        },
{
    if status >= 400 {
        return Err(concat2("Profile API error: status ", u16_text(status).as_str()));
    }
    match parsed {
        Err(e) => Err(concat2("Profile API error: invalid JSON response: ", e.as_str())),
        Ok(p) => Ok((array_member(&p, "profiles"), array_member(&p, "not_found"))),
    }
}

/// The segmentation service's answer: its live segments (none where the
/// reply lacks them); the error of a failed reply.
pub open spec fn segments_of(status: int, parsed: Result<JsonV, Seq<char>>) -> Result<Seq<JsonV>, Seq<char>> {
    if status >= 400 {
        Err("Segment API error: status "@ + nat_decimal(status as nat))
    } else {
        match parsed {
            Err(e) => Err("Segment API error: invalid JSON response: "@ + e),
            Ok(p) => Ok(array_or_empty(p, "segments"@)),
        }
    }
}

/// Reads the segmentation service's answer.
pub fn live_segments_reply(status: u16, parsed: Result<Json, String>) -> (r: Result<Vec<Json>, String>)
    ensures
        match r {
            Ok(s) => segments_of(status as int, parsed_view(parsed)) == Ok::<Seq<JsonV>, Seq<char>>(view_seq(s@)),
            Err(e) => segments_of(status as int, parsed_view(parsed)) == Err::<Seq<JsonV>, Seq<char>>(e@),
        },
{
    if status >= 400 {
        return Err(concat2("Segment API error: status ", u16_text(status).as_str()));
    }
    match parsed {
        Err(e) => Err(concat2("Segment API error: invalid JSON response: ", e.as_str())),
        Ok(p) => Ok(array_member(&p, "segments")),
    }
}

} // verus!
