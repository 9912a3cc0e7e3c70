//! The template documents the messaging service writes and returns: a new
//! template's stored document, the outcomes of a creation, an update and a
//! deletion, and the shape of a returned template.

use vstd::prelude::*;
use crate::dates::{date_millis, date_millis_of, gmt_date_text, millis_to_gmt};
use crate::fields::strings_view;
use crate::json::{
    insert_member, lemma_view_members, lemma_view_seq, member_lookup, members_get, members_insert,
    members_remove, remove_member, view_members, view_seq, Json, JsonV,
};
use crate::messaging::engine::pairs_view;
use crate::messaging::templates::contains_string;
use crate::text::{concat2, copy_str, str_eq};

verus! {

/// A template as the repository writes it.
pub struct TemplateBatchEntry {
    pub template_id: String,
    pub account_id: String,
    pub friendly_name: String,
    pub template_type: String,
    pub title: String,
    pub content: String,
    /// The default value of each placeholder.
    pub default_values: Vec<(String, String)>,
    /// `None` when the request had none.
    pub metadata: Option<Json>,
}

/// The default values as a JSON object of strings.
pub open spec fn values_object(d: Seq<(Seq<char>, Seq<char>)>) -> JsonV {
    JsonV::Obj(d.map_values(|p: (Seq<char>, Seq<char>)| (p.0, JsonV::Str(p.1))))
}

/// The metadata member, when the template has metadata.
pub open spec fn metadata_members(m: Option<Json>) -> Seq<(Seq<char>, JsonV)> {
    match m {
        Some(v) => seq![("metadata"@, v@)],
        None => seq![],
    }
}

/// The metadata value of a returned template: null when there is none.
pub open spec fn metadata_value(m: Option<Json>) -> JsonV {
    match m {
        Some(v) => v@,
        None => JsonV::Null,
    }
}

fn values_json(d: &Vec<(String, String)>) -> (r: Json)
    ensures
        r@ == values_object(pairs_view(d@)),
{
    let mut m: Vec<(String, Json)> = Vec::new();
    let mut i: usize = 0;
    while i < d.len()
        invariant
            i <= d@.len(),
            m@.len() == i,
            forall|k: int| 0 <= k < i ==> (#[trigger] m@[k]).0@ == d@[k].0@ && m@[k].1@ == JsonV::Str(d@[k].1@),
        decreases d@.len() - i,
    {
        m.push((copy_str(d[i].0.as_str()), Json::Str(copy_str(d[i].1.as_str()))));
        i = i + 1;
    }
    proof {
        lemma_view_members(m@);
    }
    assert(view_members(m@) =~= pairs_view(d@).map_values(|p: (Seq<char>, Seq<char>)| (p.0, JsonV::Str(p.1))));
    Json::Object(m)
}

fn opt_json(m: &Option<Json>) -> (r: Json)
    ensures
        r@ == metadata_value(*m),
{
    match m {
        Some(v) => v.deep_clone(),
        None => Json::Null,
    }
}

fn push_str_member(m: &mut Vec<(String, Json)>, k: &str, v: &str)
    ensures
        final(m)@ == old(m)@.push(final(m)@.last()),
        final(m)@.last().0@ == k@,
        final(m)@.last().1@ == JsonV::Str(v@),
{
    m.push((copy_str(k), Json::Str(copy_str(v))));
}

// ---------------------------------------------------------------------------
// Creation
// ---------------------------------------------------------------------------

/// The stored document of a new template, created at `now`.
pub open spec fn template_document(t: TemplateBatchEntry, now: JsonV) -> JsonV {
    JsonV::Obj(seq![
        ("_id"@, JsonV::Str(t.template_id@)),
        ("account_id"@, JsonV::Str(t.account_id@)),
        ("friendly_name"@, JsonV::Str(t.friendly_name@)),
        ("template_type"@, JsonV::Str(t.template_type@)),
        ("title"@, JsonV::Str(t.title@)),
        ("content"@, JsonV::Str(t.content@)),
        ("default_values"@, values_object(pairs_view(t.default_values@))),
        ("status"@, JsonV::Str("active"@)),
        ("created_at"@, now),
        ("updated_at"@, JsonV::Null),
    ] + metadata_members(t.metadata))
}

/// The document stored for a new template; `now` is its creation date.
pub fn create_template_document(t: &TemplateBatchEntry, now: &Json) -> (r: Json)
    ensures
        r@ == template_document(*t, now@),
{
    let mut m: Vec<(String, Json)> = Vec::new();
    push_str_member(&mut m, "_id", t.template_id.as_str());
    push_str_member(&mut m, "account_id", t.account_id.as_str());
    push_str_member(&mut m, "friendly_name", t.friendly_name.as_str());
    push_str_member(&mut m, "template_type", t.template_type.as_str());
    push_str_member(&mut m, "title", t.title.as_str());
    push_str_member(&mut m, "content", t.content.as_str());
    m.push((copy_str("default_values"), values_json(&t.default_values)));
    push_str_member(&mut m, "status", "active");
    m.push((copy_str("created_at"), now.deep_clone()));
    m.push((copy_str("updated_at"), Json::Null));
    match &t.metadata {
        Some(v) => m.push((copy_str("metadata"), v.deep_clone())),
        None => {},
    }
    proof {
        lemma_view_members(m@);
    }
    assert(view_members(m@) =~= match template_document(*t, now@) {
        JsonV::Obj(x) => x,
        _ => seq![],
    });
    Json::Object(m)
}

/// A created template as returned to the client.
pub open spec fn created_template(t: TemplateBatchEntry) -> JsonV {
    JsonV::Obj(seq![
        ("template_id"@, JsonV::Str(t.template_id@)),
        ("friendly_name"@, JsonV::Str(t.friendly_name@)),
        ("template_type"@, JsonV::Str(t.template_type@)),
        ("title"@, JsonV::Str(t.title@)),
        ("content"@, JsonV::Str(t.content@)),
        ("default_values"@, values_object(pairs_view(t.default_values@))),
        ("metadata"@, metadata_value(t.metadata)),
    ])
}

fn created_template_of(t: &TemplateBatchEntry) -> (r: Json)
    ensures
        r@ == created_template(*t),
{
    let mut m: Vec<(String, Json)> = Vec::new();
    push_str_member(&mut m, "template_id", t.template_id.as_str());
    push_str_member(&mut m, "friendly_name", t.friendly_name.as_str());
    push_str_member(&mut m, "template_type", t.template_type.as_str());
    push_str_member(&mut m, "title", t.title.as_str());
    push_str_member(&mut m, "content", t.content.as_str());
    m.push((copy_str("default_values"), values_json(&t.default_values)));
    m.push((copy_str("metadata"), opt_json(&t.metadata)));
    proof {
        lemma_view_members(m@);
    }
    assert(view_members(m@) =~= match created_template(*t) {
        JsonV::Obj(x) => x,
        _ => seq![],
    });
    Json::Object(m)
}

/// The failure entry of a template whose friendly name is taken.
pub open spec fn name_taken_entry(name: Seq<char>) -> JsonV {
    JsonV::Obj(seq![
        ("friendly_name"@, JsonV::Str(name)),
        (
            "error_message"@,
            JsonV::Str(
                "Failed to created new message template. Template(s) with provided friendly_name(s) already exist. : "@
                    + name,
            ),
        ),
    ])
}

fn name_taken_entry_of(name: &str) -> (r: Json)
    ensures
        r@ == name_taken_entry(name@),
{
    let mut m: Vec<(String, Json)> = Vec::new();
    push_str_member(&mut m, "friendly_name", name);
    let msg = concat2(
        "Failed to created new message template. Template(s) with provided friendly_name(s) already exist. : ",
        name,
    );
    m.push((copy_str("error_message"), Json::Str(msg)));
    proof {
        lemma_view_members(m@);
    }
    assert(view_members(m@) =~= match name_taken_entry(name@) {
        JsonV::Obj(x) => x,
        _ => seq![],
    });
    Json::Object(m)
}

/// An entry before `k` has the friendly name `name`.
pub open spec fn name_seen_before(batch: Seq<TemplateBatchEntry>, name: Seq<char>, k: int) -> bool {
    exists|j: int| 0 <= j < k && (#[trigger] batch[j]).friendly_name@ == name
}

/// The created templates among the first `n` entries: each friendly name
/// once, at its first entry, unless the name was taken.
pub open spec fn created_templates(batch: Seq<TemplateBatchEntry>, taken: Seq<Seq<char>>, n: int) -> Seq<JsonV>
    decreases n,
{
    if n <= 0 {
        seq![]
    } else {
        let acc = created_templates(batch, taken, n - 1);
        let name = batch[n - 1].friendly_name@;
        if taken.contains(name) || name_seen_before(batch, name, n - 1) {
            acc
        } else {
            acc.push(created_template(batch[n - 1]))
        }
    }
}

fn name_seen_before_of(batch: &Vec<TemplateBatchEntry>, name: &str, k: usize) -> (r: bool)
    requires
        k <= batch@.len(),
    ensures
        r == name_seen_before(batch@, name@, k as int),
{
    let mut j: usize = 0;
    while j < k
        invariant
            j <= k <= batch@.len(),
            forall|q: int| 0 <= q < j ==> (#[trigger] batch@[q]).friendly_name@ != name@,
        decreases k - j,
    {
        if str_eq(batch[j].friendly_name.as_str(), name) {
            return true;
        }
        j = j + 1;
    }
    false
}

/// The outcome of creating a batch of which the friendly names `taken`
/// were refused as duplicates: `(created, failed)`.
pub fn template_creation_outcome(batch: &Vec<TemplateBatchEntry>, taken: &Vec<String>) -> (r: (Vec<Json>, Vec<Json>))
    ensures
        view_seq(r.0@) == created_templates(batch@, strings_view(taken@), batch@.len() as int),
        view_seq(r.1@) == strings_view(taken@).map_values(|n: Seq<char>| name_taken_entry(n)),
{
    let ghost tv = strings_view(taken@);
    let mut failed: Vec<Json> = Vec::new();
    let mut i: usize = 0;
    while i < taken.len()
        invariant
            i <= taken@.len(),
            failed@.len() == i,
            forall|q: int| 0 <= q < i ==> (#[trigger] failed@[q])@ == name_taken_entry(taken@[q]@),
        decreases taken@.len() - i,
    {
        failed.push(name_taken_entry_of(taken[i].as_str()));
        i = i + 1;
    }
    proof {
        lemma_view_seq(failed@);
        assert(view_seq(failed@) =~= tv.map_values(|n: Seq<char>| name_taken_entry(n)));
    }
    let mut created: Vec<Json> = Vec::new();
    proof {
        lemma_view_seq(created@);
    }
    let mut k: usize = 0;
    while k < batch.len()
        invariant
            k <= batch@.len(),
            tv == strings_view(taken@),
            view_seq(created@) == created_templates(batch@, tv, k as int),
        decreases batch@.len() - k,
    {
        let name = batch[k].friendly_name.as_str();
        let skip = contains_string(taken, name) || name_seen_before_of(batch, name, k);
        if !skip {
            let ghost before = created@;
            created.push(created_template_of(&batch[k]));
            proof {
                lemma_view_seq(before);
                lemma_view_seq(created@);
                assert(view_seq(created@) =~= view_seq(before).push(created_template(batch@[k as int])));
            }
        }
        k = k + 1;
    }
    (created, failed)
}

// ---------------------------------------------------------------------------
// Update and deletion
// ---------------------------------------------------------------------------

/// The first template identifier that occurs twice among the first `n`
/// entries, at its second occurrence.
pub open spec fn first_repeated_id(batch: Seq<TemplateBatchEntry>, n: int) -> Option<Seq<char>>
    decreases n,
{
    if n <= 0 {
        None
    } else {
        match first_repeated_id(batch, n - 1) {
            Some(d) => Some(d),
            None => if exists|j: int| 0 <= j < n - 1 && (#[trigger] batch[j]).template_id@ == batch[n - 1].template_id@ {
                Some(batch[n - 1].template_id@)
            } else {
                None
            },
        }
    }
}

proof fn lemma_repeated_stays(batch: Seq<TemplateBatchEntry>, k: int, n: int)
    requires
        k <= n,
        first_repeated_id(batch, k) is Some,
    ensures
        first_repeated_id(batch, n) == first_repeated_id(batch, k),
    decreases n - k,
{
    if k < n {
        lemma_repeated_stays(batch, k, n - 1);
    }
}

/// The repeated template identifier of an update batch, if any (such a
/// batch is refused).
pub fn duplicate_template_id(batch: &Vec<TemplateBatchEntry>) -> (r: Option<String>)
    ensures
        match r {
            Some(d) => first_repeated_id(batch@, batch@.len() as int) == Some(d@),
            None => first_repeated_id(batch@, batch@.len() as int) is None,
        },
{
    let mut k: usize = 0;
    while k < batch.len()
        invariant
            k <= batch@.len(),
            first_repeated_id(batch@, k as int) is None,
        decreases batch@.len() - k,
    {
        let tid = batch[k].template_id.as_str();
        let mut j: usize = 0;
        while j < k
            invariant
                j <= k < batch@.len(),
                tid@ == batch@[k as int].template_id@,
                first_repeated_id(batch@, k as int) is None,
                forall|q: int| 0 <= q < j ==> (#[trigger] batch@[q]).template_id@ != tid@,
            decreases k - j,
        {
            if str_eq(batch[j].template_id.as_str(), tid) {
                proof {
                    assert(batch@[j as int].template_id@ == batch@[k as int].template_id@);
                    assert(first_repeated_id(batch@, k + 1) == Some(tid@));
                    lemma_repeated_stays(batch@, k + 1, batch@.len() as int);
                }
                return Some(copy_str(tid));
            }
            j = j + 1;
        }
        k = k + 1;
    }
    None
}

/// The failure entry of a template identifier without a template.
pub open spec fn template_failure(tid: Seq<char>, msg: Seq<char>) -> JsonV {
    JsonV::Obj(seq![("template_id"@, JsonV::Str(tid)), ("error_message"@, JsonV::Str(msg + tid))])
}

fn template_failure_of(tid: &str, msg: &str) -> (r: Json)
    ensures
        r@ == template_failure(tid@, msg@),
{
    let mut m: Vec<(String, Json)> = Vec::new();
    push_str_member(&mut m, "template_id", tid);
    m.push((copy_str("error_message"), Json::Str(concat2(msg, tid))));
    proof {
        lemma_view_members(m@);
    }
    assert(view_members(m@) =~= match template_failure(tid@, msg@) {
        JsonV::Obj(x) => x,
        _ => seq![],
    });
    Json::Object(m)
}

/// A stored template has the identifier `tid`.
pub open spec fn has_template_id(stored: JsonV, tid: Seq<char>) -> bool {
    stored.get("_id"@) == Some(JsonV::Str(tid))
}

/// Some stored template has the identifier `tid`.
pub open spec fn template_found(found: Seq<JsonV>, tid: Seq<char>) -> bool {
    exists|k: int| 0 <= k < found.len() && has_template_id(#[trigger] found[k], tid)
}

fn template_found_of(found: &Vec<Json>, tid: &str) -> (r: bool)
    ensures
        r == template_found(view_seq(found@), tid@),
{
    proof {
        lemma_view_seq(found@);
    }
    let ghost fv = view_seq(found@);
    let mut k: usize = 0;
    while k < found.len()
        invariant
            k <= found@.len(),
            fv == view_seq(found@),
            fv.len() == found@.len(),
            forall|q: int| 0 <= q < found@.len() ==> #[trigger] fv[q] == found@[q]@,
            forall|q: int| 0 <= q < k ==> !has_template_id(#[trigger] fv[q], tid@),
        decreases found@.len() - k,
    {
        assert(fv[k as int] == found@[k as int]@);
        let hit = match found[k].get("_id") {
            Some(Json::Str(s)) => str_eq(s.as_str(), tid),
            _ => false,
        };
        if hit {
            return true;
        }
        k = k + 1;
    }
    false
}

/// The failure entries of the first `n` update entries without a stored
/// template.
pub open spec fn missing_templates(batch: Seq<TemplateBatchEntry>, found: Seq<JsonV>, n: int) -> Seq<JsonV>
    decreases n,
{
    if n <= 0 {
        seq![]
    } else {
        let acc = missing_templates(batch, found, n - 1);
        let tid = batch[n - 1].template_id@;
        if found.len() == 0 {
            acc.push(template_failure(tid, "No template found with template_id : "@))
        } else if template_found(found, tid) {
            acc
        } else {
            acc.push(template_failure(tid, "No template exists with provided template_id : "@))
        }
    }
}

/// The failure entries of an update batch whose templates were not all
/// found (every entry when none was).
pub fn missing_template_entries(batch: &Vec<TemplateBatchEntry>, found: &Vec<Json>) -> (r: Vec<Json>)
    ensures
        view_seq(r@) == missing_templates(batch@, view_seq(found@), batch@.len() as int),
{
    proof {
        lemma_view_seq(found@);
    }
    let mut out: Vec<Json> = Vec::new();
    proof {
        lemma_view_seq(out@);
    }
    let mut k: usize = 0;
    while k < batch.len()
        invariant
            k <= batch@.len(),
            view_seq(found@).len() == found@.len(),
            view_seq(out@) == missing_templates(batch@, view_seq(found@), k as int),
        decreases batch@.len() - k,
    {
        let tid = batch[k].template_id.as_str();
        let ghost before = out@;
        if found.len() == 0 {
            out.push(template_failure_of(tid, "No template found with template_id : "));
        } else if !template_found_of(found, tid) {
            out.push(template_failure_of(tid, "No template exists with provided template_id : "));
        }
        proof {
            lemma_view_seq(before);
            lemma_view_seq(out@);
            assert(view_seq(out@) =~= missing_templates(batch@, view_seq(found@), k + 1));
        }
        k = k + 1;
    }
    out
}

/// The first entry (from `i` on) for the stored template.
pub open spec fn entry_for(batch: Seq<TemplateBatchEntry>, stored: JsonV, i: int) -> int
    decreases batch.len() - i,
{
    if i < 0 || i >= batch.len() {
        batch.len() as int
    } else if has_template_id(stored, batch[i].template_id@) {
        i
    } else {
        entry_for(batch, stored, i + 1)
    }
}

/// The `$set` of a template's update, at `now`.
pub open spec fn template_set(b: TemplateBatchEntry, now: JsonV) -> JsonV {
    JsonV::Obj(seq![
        ("_id"@, JsonV::Str(b.template_id@)),
        ("friendly_name"@, JsonV::Str(b.friendly_name@)),
        ("template_type"@, JsonV::Str(b.template_type@)),
        ("title"@, JsonV::Str(b.title@)),
        ("content"@, JsonV::Str(b.content@)),
        ("default_values"@, values_object(pairs_view(b.default_values@))),
        ("updated_at"@, now),
    ] + metadata_members(b.metadata))
}

/// A date value as returned: a stored date as GMT text; anything else as
/// it is.
pub open spec fn date_value(v: JsonV) -> JsonV {
    if v is Null {
        JsonV::Null
    } else {
        match date_millis(v) {
            Some(ms) => match gmt_date_text(ms) {
                Some(s) => JsonV::Str(s),
                None => v,
            },
            None => v,
        }
    }
}

/// Renders a stored date value.
pub fn format_date_value(v: &Json) -> (r: Json)
    ensures
        r@ == date_value(v@),
{
    if v.is_null() {
        return Json::Null;
    }
    match date_millis_of(v) {
        Some(ms) => match millis_to_gmt(ms) {
            Some(s) => Json::Str(s),
            None => v.deep_clone(),
        },
        None => v.deep_clone(),
    }
}

/// A template as returned after its update at `now_text`.
pub open spec fn updated_template(b: TemplateBatchEntry, stored: JsonV, now_text: Seq<char>) -> JsonV {
    JsonV::Obj(seq![
        ("template_id"@, JsonV::Str(b.template_id@)),
        ("friendly_name"@, JsonV::Str(b.friendly_name@)),
        ("template_type"@, JsonV::Str(b.template_type@)),
        ("title"@, JsonV::Str(b.title@)),
        ("content"@, JsonV::Str(b.content@)),
        ("default_values"@, values_object(pairs_view(b.default_values@))),
        ("metadata"@, metadata_value(b.metadata)),
        ("created_at"@, date_value(crate::events::verify::index_or_null(stored, "created_at"@))),
        ("updated_at"@, JsonV::Str(now_text)),
    ])
}

fn entry_index(stored: &Json, batch: &Vec<TemplateBatchEntry>) -> (r: usize)
    ensures
        r as int == entry_for(batch@, stored@, 0),
{
    let sid: Option<&str> = match stored.get("_id") {
        Some(Json::Str(s)) => Some(s.as_str()),
        _ => None,
    };
    let mut j: usize = 0;
    while j < batch.len()
        invariant
            j <= batch@.len(),
            entry_for(batch@, stored@, 0) == entry_for(batch@, stored@, j as int),
            match sid {
                Some(s) => stored@.get("_id"@) == Some(JsonV::Str(s@)),
                None => !(stored@.get("_id"@) matches Some(JsonV::Str(_))),
            },
        decreases batch@.len() - j,
    {
        let hit = match sid {
            Some(s) => str_eq(s, batch[j].template_id.as_str()),
            None => false,
        };
        if hit {
            return j;
        }
        j = j + 1;
    }
    j
}

/// Plans the update of a stored template: the index of its batch entry,
/// the `$set` and the template returned once it is written; `None` when
/// the batch has no entry for it.
pub fn plan_template_update(stored: &Json, batch: &Vec<TemplateBatchEntry>, now: &Json, now_text: &str) -> (r: Option<(usize, Json, Json)>)
    ensures
        match r {
            Some((j, set, out)) => j as int == entry_for(batch@, stored@, 0) && j < batch@.len()
                && set@ == template_set(batch@[j as int], now@)
                && out@ == updated_template(batch@[j as int], stored@, now_text@),
            None => entry_for(batch@, stored@, 0) >= batch@.len(),
        },
{
    let j = entry_index(stored, batch);
    if j >= batch.len() {
        return None;
    }
    let b = &batch[j];
    let mut set: Vec<(String, Json)> = Vec::new();
    push_str_member(&mut set, "_id", b.template_id.as_str());
    push_str_member(&mut set, "friendly_name", b.friendly_name.as_str());
    push_str_member(&mut set, "template_type", b.template_type.as_str());
    push_str_member(&mut set, "title", b.title.as_str());
    push_str_member(&mut set, "content", b.content.as_str());
    set.push((copy_str("default_values"), values_json(&b.default_values)));
    set.push((copy_str("updated_at"), now.deep_clone()));
    match &b.metadata {
        Some(v) => set.push((copy_str("metadata"), v.deep_clone())),
        None => {},
    }
    proof {
        lemma_view_members(set@);
    }
    assert(view_members(set@) =~= match template_set(*b, now@) {
        JsonV::Obj(x) => x,
        _ => seq![],
    });
    let created = match stored.get("created_at") {
        Some(c) => format_date_value(c),
        None => format_date_value(&Json::Null),
    };
    let mut out: Vec<(String, Json)> = Vec::new();
    push_str_member(&mut out, "template_id", b.template_id.as_str());
    push_str_member(&mut out, "friendly_name", b.friendly_name.as_str());
    push_str_member(&mut out, "template_type", b.template_type.as_str());
    push_str_member(&mut out, "title", b.title.as_str());
    push_str_member(&mut out, "content", b.content.as_str());
    out.push((copy_str("default_values"), values_json(&b.default_values)));
    out.push((copy_str("metadata"), opt_json(&b.metadata)));
    out.push((copy_str("created_at"), created));
    push_str_member(&mut out, "updated_at", now_text);
    proof {
        lemma_view_members(out@);
    }
    assert(view_members(out@) =~= match updated_template(*b, stored@, now_text@) {
        JsonV::Obj(x) => x,
        _ => seq![],
    });
    Some((j, Json::Object(set), Json::Object(out)))
}

/// The failure entry of a template whose update the store refused: its
/// friendly name was taken (`duplicate`) or the write failed.
pub open spec fn update_refused(b: TemplateBatchEntry, duplicate: bool) -> JsonV {
    JsonV::Obj(seq![
        ("template_id"@, JsonV::Str(b.template_id@)),
        ("friendly_name"@, JsonV::Str(b.friendly_name@)),
        (
            "error_message"@,
            JsonV::Str(
                if duplicate {
                    "Another template exists with provided friendly_name : "@
                } else {
                    "Unknown error occurred when updating template with friendly_name : "@
                } + b.friendly_name@,
            ),
        ),
    ])
}

/// The failure entry of a refused template update.
pub fn template_update_refused(b: &TemplateBatchEntry, duplicate: bool) -> (r: Json)
    ensures
        r@ == update_refused(*b, duplicate),
{
    let mut m: Vec<(String, Json)> = Vec::new();
    push_str_member(&mut m, "template_id", b.template_id.as_str());
    push_str_member(&mut m, "friendly_name", b.friendly_name.as_str());
    let msg = if duplicate {
        concat2("Another template exists with provided friendly_name : ", b.friendly_name.as_str())
    } else {
        concat2("Unknown error occurred when updating template with friendly_name : ", b.friendly_name.as_str())
    };
    m.push((copy_str("error_message"), Json::Str(msg)));
    proof {
        lemma_view_members(m@);
    }
    assert(view_members(m@) =~= match update_refused(*b, duplicate) {
        JsonV::Obj(x) => x,
        _ => seq![],
    });
    Json::Object(m)
}

/// A stored template is the account's template `tid`.
pub open spec fn owned_by(stored: JsonV, tid: Seq<char>, account: Seq<char>) -> bool {
    has_template_id(stored, tid) && stored.get("account_id"@) == Some(JsonV::Str(account))
}

/// The deleted and failed entries of the first `n` deletions.
pub open spec fn template_deletions(batch: Seq<(Seq<char>, Seq<char>)>, found: Seq<JsonV>, n: int) -> (Seq<JsonV>, Seq<JsonV>)
    decreases n,
{
    if n <= 0 {
        (seq![], seq![])
    } else {
        let (d, f) = template_deletions(batch, found, n - 1);
        let (tid, account) = batch[n - 1];
        if exists|k: int| 0 <= k < found.len() && owned_by(#[trigger] found[k], tid, account) {
            (d.push(JsonV::Obj(seq![("template_id"@, JsonV::Str(tid))])), f)
        } else {
            (d, f.push(template_failure(tid, "No template found with template_id : "@)))
        }
    }
}

fn owned_of(found: &Vec<Json>, tid: &str, account: &str) -> (r: bool)
    ensures
        r == exists|k: int| 0 <= k < found@.len() && owned_by(#[trigger] view_seq(found@)[k], tid@, account@),
{
    proof {
        lemma_view_seq(found@);
    }
    let ghost fv = view_seq(found@);
    let mut k: usize = 0;
    while k < found.len()
        invariant
            k <= found@.len(),
            fv == view_seq(found@),
            fv.len() == found@.len(),
            forall|q: int| 0 <= q < found@.len() ==> #[trigger] fv[q] == found@[q]@,
            forall|q: int| 0 <= q < k ==> !owned_by(#[trigger] fv[q], tid@, account@),
        decreases found@.len() - k,
    {
        assert(fv[k as int] == found@[k as int]@);
        let a = match found[k].get("_id") {
            Some(Json::Str(s)) => str_eq(s.as_str(), tid),
            _ => false,
        };
        let b = match found[k].get("account_id") {
            Some(Json::Str(s)) => str_eq(s.as_str(), account),
            _ => false,
        };
        if a && b {
            return true;
        }
        k = k + 1;
    }
    false
}

/// Splits a deletion batch of `(template_id, account_id)` by the stored
/// templates found: `(deleted, failed)`.
pub fn template_deletion_entries(batch: &Vec<(String, String)>, found: &Vec<Json>) -> (r: (Vec<Json>, Vec<Json>))
    ensures
        (view_seq(r.0@), view_seq(r.1@)) == template_deletions(pairs_view(batch@), view_seq(found@), batch@.len() as int),
{
    proof {
        lemma_view_seq(found@);
    }
    let ghost pv = pairs_view(batch@);
    let mut deleted: Vec<Json> = Vec::new();
    let mut failed: Vec<Json> = Vec::new();
    proof {
        lemma_view_seq(deleted@);
        lemma_view_seq(failed@);
    }
    let mut k: usize = 0;
    while k < batch.len()
        invariant
            k <= batch@.len(),
            pv == pairs_view(batch@),
            view_seq(found@).len() == found@.len(),
            (view_seq(deleted@), view_seq(failed@)) == template_deletions(pv, view_seq(found@), k as int),
        decreases batch@.len() - k,
    {
        let tid = batch[k].0.as_str();
        let account = batch[k].1.as_str();
        assert(pv[k as int] == (tid@, account@));
        let ghost d0 = deleted@;
        let ghost f0 = failed@;
        if owned_of(found, tid, account) {
            let mut m: Vec<(String, Json)> = Vec::new();
            push_str_member(&mut m, "template_id", tid);
            proof {
                lemma_view_members(m@);
            }
            assert(view_members(m@) =~= seq![("template_id"@, JsonV::Str(tid@))]);
            deleted.push(Json::Object(m));
        } else {
            failed.push(template_failure_of(tid, "No template found with template_id : "));
        }
        proof {
            lemma_view_seq(d0);
            lemma_view_seq(f0);
            lemma_view_seq(deleted@);
            lemma_view_seq(failed@);
            assert(view_seq(deleted@) =~= template_deletions(pv, view_seq(found@), k + 1).0);
            assert(view_seq(failed@) =~= template_deletions(pv, view_seq(found@), k + 1).1);
        }
        k = k + 1;
    }
    (deleted, failed)
}

/// A stored template as returned: `_id` as `template_id`, without
/// `account_id`, its dates rendered (when it has a creation date).
pub open spec fn formatted_template(doc: JsonV) -> JsonV {
    match doc {
        JsonV::Obj(m0) => {
            let id = member_lookup(m0, "_id"@);
            let m1 = members_remove(members_remove(m0, "_id"@), "account_id"@);
            let m2 = match id {
                Some(v) => members_insert(m1, "template_id"@, v),
                None => m1,
            };
            JsonV::Obj(
                match member_lookup(m2, "created_at"@) {
                    None => m2,
                    Some(c) => {
                        let m3 = members_insert(m2, "created_at"@, date_value(c));
                        match member_lookup(m3, "updated_at"@) {
                            Some(u) => members_insert(m3, "updated_at"@, date_value(u)),
                            None => m3,
                        }
                    },
                },
            )
        },
        _ => doc,
    }
}

/// The template as it is returned to a client.
pub fn format_template_doc(doc: &Json) -> (r: Json)
    ensures
        r@ == formatted_template(doc@),
{
    match doc {
        Json::Object(m0) => {
            let mut m = crate::json::clone_members(m0);
            let ghost c0 = view_members(m@);
            proof {
                lemma_view_members(m@);
            }
            let id = remove_member(&mut m, "_id");
            proof {
                crate::json::lemma_member_index_lookup(c0, "_id"@);
            }
            assert(match id {
                Some(v) => member_lookup(c0, "_id"@) == Some(v@),
                None => member_lookup(c0, "_id"@) is None,
            });
            remove_member(&mut m, "account_id");
            let ghost m1 = view_members(m@);
            assert(m1 == members_remove(members_remove(view_members(m0@), "_id"@), "account_id"@));
            assert(match id {
                Some(v) => member_lookup(view_members(m0@), "_id"@) == Some(v@),
                None => member_lookup(view_members(m0@), "_id"@) is None,
            });
            match id {
                Some(v) => insert_member(&mut m, "template_id", v),
                None => {},
            }
            let ghost m2 = view_members(m@);
            assert(m2 == match member_lookup(view_members(m0@), "_id"@) {
                Some(v) => members_insert(m1, "template_id"@, v),
                None => m1,
            });
            let created = match members_get(&m, "created_at") {
                Some(c) => Some(format_date_value(c)),
                None => None,
            };
            match created {
                None => {},
                Some(c) => {
                    insert_member(&mut m, "created_at", c);
                    let updated = match members_get(&m, "updated_at") {
                        Some(u) => Some(format_date_value(u)),
                        None => None,
                    };
                    match updated {
                        Some(u) => insert_member(&mut m, "updated_at", u),
                        None => {},
                    }
                },
            }
            Json::Object(m)
        },
        _ => doc.deep_clone(),
    }
}

/// Every entry of a template deletion batch is answered once: as deleted
/// or as failed.
pub proof fn law_template_deletion_answers_every_entry(batch: Seq<(Seq<char>, Seq<char>)>, found: Seq<JsonV>, n: int)
    requires
        0 <= n,
    ensures
        template_deletions(batch, found, n).0.len() + template_deletions(batch, found, n).1.len() == n,
    decreases n,
{
    if n > 0 {
        law_template_deletion_answers_every_entry(batch, found, n - 1);
    }
}

/// The friendly names of the templates created among the first `n`
/// entries, in order.
pub open spec fn created_names(batch: Seq<TemplateBatchEntry>, taken: Seq<Seq<char>>, n: int) -> Seq<Seq<char>>
    decreases n,
{
    if n <= 0 {
        seq![]
    } else {
        let acc = created_names(batch, taken, n - 1);
        let name = batch[n - 1].friendly_name@;
        if taken.contains(name) || name_seen_before(batch, name, n - 1) {
            acc
        } else {
            acc.push(name)
        }
    }
}

/// A creation returns one template per created friendly name: the names
/// are distinct, none of them was refused as taken, and each is a name of
/// the batch.
pub proof fn law_created_templates_are_distinct_and_untaken(batch: Seq<TemplateBatchEntry>, taken: Seq<Seq<char>>, n: int)
    requires
        0 <= n <= batch.len(),
    ensures
        created_names(batch, taken, n).len() == created_templates(batch, taken, n).len(),
        forall|k: int| 0 <= k < created_names(batch, taken, n).len() ==> !taken.contains(
            #[trigger] created_names(batch, taken, n)[k],
        ),
        forall|k: int| 0 <= k < created_names(batch, taken, n).len() ==> name_seen_before(
            batch,
            #[trigger] created_names(batch, taken, n)[k],
            n,
        ),
        forall|i: int, j: int|
            0 <= i < j < created_names(batch, taken, n).len() ==> #[trigger] created_names(batch, taken, n)[i]
                != #[trigger] created_names(batch, taken, n)[j],
        forall|k: int|
            0 <= k < created_templates(batch, taken, n).len() ==> exists|j: int|
                0 <= j < n && #[trigger] created_templates(batch, taken, n)[k] == created_template(batch[j])
                    && batch[j].friendly_name@ == created_names(batch, taken, n)[k],
    decreases n,
{
    if n > 0 {
        law_created_templates_are_distinct_and_untaken(batch, taken, n - 1);
        let ct = created_templates(batch, taken, n - 1);
        let cn = created_names(batch, taken, n - 1);
        assert forall|k: int| 0 <= k < ct.len() implies exists|j: int|
            0 <= j < n && #[trigger] created_templates(batch, taken, n)[k] == created_template(batch[j])
                && batch[j].friendly_name@ == created_names(batch, taken, n)[k] by {
            let j = choose|j: int|
                0 <= j < n - 1 && #[trigger] ct[k] == created_template(batch[j]) && batch[j].friendly_name@ == cn[k];
            assert(created_templates(batch, taken, n)[k] == ct[k]);
            assert(created_names(batch, taken, n)[k] == cn[k]);
        }
        if created_templates(batch, taken, n).len() > ct.len() {
            let k = ct.len() as int;
            assert(created_templates(batch, taken, n)[k] == created_template(batch[n - 1]));
        }
        let acc = created_names(batch, taken, n - 1);
        let name = batch[n - 1].friendly_name@;
        assert forall|k: int| 0 <= k < acc.len() implies name_seen_before(batch, #[trigger] acc[k], n) by {
            let j = choose|j: int| 0 <= j < n - 1 && (#[trigger] batch[j]).friendly_name@ == acc[k];
            assert(0 <= j < n && batch[j].friendly_name@ == acc[k]);
        }
        if !(taken.contains(name) || name_seen_before(batch, name, n - 1)) {
            assert(name_seen_before(batch, name, n)) by {
                assert(batch[n - 1].friendly_name@ == name);
            }
            assert forall|i: int, j: int|
                0 <= i < j < created_names(batch, taken, n).len() implies #[trigger] created_names(batch, taken, n)[i]
                    != #[trigger] created_names(batch, taken, n)[j] by {
                if j == acc.len() {
                    assert(created_names(batch, taken, n)[i] == acc[i]);
                    assert(name_seen_before(batch, acc[i], n - 1));
                }
            }
        }
    }
}

/// A list of identifiers as a JSON array of strings.
pub open spec fn str_list(ids: Seq<Seq<char>>) -> JsonV {
    JsonV::Arr(ids.map_values(|x: Seq<char>| JsonV::Str(x)))
}

/// `{"<field>": {"$in": ids}}`.
pub open spec fn in_condition(field: Seq<char>, ids: Seq<Seq<char>>) -> JsonV {
    JsonV::Obj(seq![(field, JsonV::Obj(seq![("$in"@, str_list(ids))]))])
}

/// `{"<field>": {"$eq": v}}`.
pub open spec fn eq_condition(field: Seq<char>, v: Seq<char>) -> JsonV {
    JsonV::Obj(seq![(field, JsonV::Obj(seq![("$eq"@, JsonV::Str(v))]))])
}

/// The query of a templates listing: the account's active templates, and
/// of those identified (by identifier, friendly name or type) when
/// identifiers are given.
pub open spec fn templates_query_of(account_id: Seq<char>, ids: Option<Seq<Seq<char>>>) -> JsonV {
    let base = seq![eq_condition("account_id"@, account_id), eq_condition("status"@, "active"@)];
    let conds = match ids {
        Some(i) => base.push(JsonV::Obj(seq![("$or"@, JsonV::Arr(seq![
            in_condition("_id"@, i),
            in_condition("friendly_name"@, i),
            in_condition("template_type"@, i),
        ]))])),
        None => base,
    };
    JsonV::Obj(seq![("$and"@, JsonV::Arr(conds))])
}

fn str_list_of(ids: &Vec<String>) -> (r: Json)
    ensures
        r@ == str_list(strings_view(ids@)),
{
    let ghost sv = strings_view(ids@);
    let mut out: Vec<Json> = Vec::new();
    let mut i: usize = 0;
    while i < ids.len()
        invariant
            i <= ids@.len(),
            sv == strings_view(ids@),
            out@.len() == i,
            forall|j: int| 0 <= j < i ==> (#[trigger] out@[j])@ == JsonV::Str(sv[j]),
        decreases ids@.len() - i,
    {
        assert(sv[i as int] == ids@[i as int]@);
        out.push(Json::Str(copy_str(ids[i].as_str())));
        i = i + 1;
    }
    proof {
        lemma_view_seq(out@);
    }
    assert(view_seq(out@) =~= sv.map_values(|x: Seq<char>| JsonV::Str(x)));
    Json::Array(out)
}

fn single(field: &str, op: &str, v: Json) -> (r: Json)
    ensures
        r@ == JsonV::Obj(seq![(field@, JsonV::Obj(seq![(op@, v@)]))]),
{
    let mut inner: Vec<(String, Json)> = Vec::new();
    inner.push((copy_str(op), v));
    let mut outer: Vec<(String, Json)> = Vec::new();
    outer.push((copy_str(field), Json::Object(inner)));
    proof {
        lemma_view_members(inner@);
        lemma_view_members(outer@);
    }
    assert(view_members(inner@) =~= seq![(op@, v@)]);
    assert(view_members(outer@) =~= seq![(field@, JsonV::Obj(seq![(op@, v@)]))]);
    Json::Object(outer)
}

/// Builds the query of a templates listing.
pub fn templates_query(account_id: &str, ids: Option<&Vec<String>>) -> (r: Json)
    ensures
        r@ == templates_query_of(account_id@, match ids { Some(i) => Some(strings_view(i@)), None => None }),
{
    let mut conds: Vec<Json> = Vec::new();
    conds.push(single("account_id", "$eq", Json::Str(copy_str(account_id))));
    conds.push(single("status", "$eq", Json::Str(copy_str("active"))));
    match ids {
        Some(i) => {
            let mut alts: Vec<Json> = Vec::new();
            alts.push(single("_id", "$in", str_list_of(i)));
            alts.push(single("friendly_name", "$in", str_list_of(i)));
            alts.push(single("template_type", "$in", str_list_of(i)));
            proof {
                lemma_view_seq(alts@);
            }
            let ghost iv = strings_view(i@);
            assert(view_seq(alts@) =~= seq![in_condition("_id"@, iv), in_condition("friendly_name"@, iv), in_condition("template_type"@, iv)]);
            let ghost av = view_seq(alts@);
            let mut or: Vec<(String, Json)> = Vec::new();
            or.push((copy_str("$or"), Json::Array(alts)));
            proof {
                lemma_view_members(or@);
            }
            assert(view_members(or@) =~= seq![("$or"@, JsonV::Arr(av))]);
            conds.push(Json::Object(or));
        },
        None => {},
    }
    proof {
        lemma_view_seq(conds@);
    }
    let ghost want = templates_query_of(account_id@, match ids { Some(i) => Some(strings_view(i@)), None => None });
    assert(view_seq(conds@) =~= want->Obj_0[0].1->Arr_0);
    let mut m: Vec<(String, Json)> = Vec::new();
    m.push((copy_str("$and"), Json::Array(conds)));
    proof {
        lemma_view_members(m@);
    }
    assert(view_members(m@) =~= want->Obj_0);
    Json::Object(m)
}

} // verus!
