//! The item documents the items service writes and returns: a new item's
//! stored document, the outcome of a creation, the plan of an update and
//! the shape of a returned item.

use vstd::prelude::*;
use crate::dates::{date_millis, date_millis_of, fmt_gmt, gmt_text_or_empty};
use crate::events::verify::index_or_null;
use crate::items::store::{get_or_null, id_text, item_id_text};
use crate::fields::strings_view;
use crate::messaging::templates::contains_string;
use crate::json::{
    json_eq, json_equal, insert_member, lemma_view_members, lemma_view_seq, member_lookup, members_get, members_insert, members_remove,
    remove_member, view_members, view_seq, Json, JsonV,
};
use crate::text::{concat2, copy_str, str_eq};

verus! {

/// Members without `_id`, `account_id` and `event_type`.
pub open spec fn without_private(m: Seq<(Seq<char>, JsonV)>) -> Seq<(Seq<char>, JsonV)> {
    members_remove(members_remove(members_remove(m, "_id"@), "account_id"@), "event_type"@)
}

/// `updated_at` of a returned item: a stored date rendered as GMT text; a
/// null or a text stays.
pub open spec fn formatted_updated(m: Seq<(Seq<char>, JsonV)>) -> Seq<(Seq<char>, JsonV)> {
    match member_lookup(m, "updated_at"@) {
        None => m,
        Some(u) => if u is Null || u is Str {
            m
        } else {
            match date_millis(u) {
                Some(ms) => members_insert(m, "updated_at"@, JsonV::Str(gmt_text_or_empty(ms))),
                None => m,
            }
        },
    }
}

/// A returned item: its private members dropped, then `created_at` (a
/// null stays, a date becomes GMT text, anything else ends the
/// formatting) and `updated_at` rendered; an absent `created_at` ends the
/// formatting too.
pub open spec fn formatted_item(v: JsonV) -> JsonV {
    match v {
        JsonV::Obj(m0) => {
            let m = without_private(m0);
            JsonV::Obj(
                match member_lookup(m, "created_at"@) {
                    None => m,
                    Some(c) => if c is Null {
                        formatted_updated(m)
                    } else {
                        match date_millis(c) {
                            Some(ms) => formatted_updated(members_insert(m, "created_at"@, JsonV::Str(gmt_text_or_empty(ms)))),
                            None => m,
                        }
                    },
                },
            )
        },
        _ => v,
    }
}

fn format_updated(m: &mut Vec<(String, Json)>)
    ensures
        view_members(final(m)@) == formatted_updated(view_members(old(m)@)),
{
    let ms: Option<i64> = match members_get(m, "updated_at") {
        None => None,
        Some(u) => match u {
            Json::Null => None,
            Json::Str(_) => None,
            _ => date_millis_of(u),
        },
    };
    match ms {
        Some(ms) => {
            let t = fmt_gmt(ms);
            insert_member(m, "updated_at", Json::Str(t));
        },
        None => {},
    }
}

/// The item as it is returned to a client.
pub fn format_item(item: &Json) -> (r: Json)
    ensures
        r@ == formatted_item(item@),
{
    match item {
        Json::Object(m0) => {
            let mut m = crate::json::clone_members(m0);
            remove_member(&mut m, "_id");
            remove_member(&mut m, "account_id");
            remove_member(&mut m, "event_type");
            let ghost base = view_members(m@);
            assert(base == without_private(view_members(m0@)));
            let created: Option<Option<i64>> = match members_get(&m, "created_at") {
                None => None,
                Some(c) => match c {
                    Json::Null => Some(None),
                    _ => match date_millis_of(c) {
                        Some(ms) => Some(Some(ms)),
                        None => None,
                    },
                },
            };
            match created {
                None => Json::Object(m),
                Some(None) => {
                    format_updated(&mut m);
                    Json::Object(m)
                },
                Some(Some(ms)) => {
                    let t = fmt_gmt(ms);
                    insert_member(&mut m, "created_at", Json::Str(t));
                    format_updated(&mut m);
                    Json::Object(m)
                },
            }
        },
        _ => item.deep_clone(),
    }
}

// ---------------------------------------------------------------------------
// Creation
// ---------------------------------------------------------------------------

/// The stored document of a new item: the batch entry's fields, status
/// `active`, created now, never updated.
pub open spec fn item_document(item: JsonV, now: JsonV) -> JsonV {
    JsonV::Obj(seq![
        ("item_id"@, index_or_null(item, "item_id"@)),
        ("account_id"@, index_or_null(item, "account_id"@)),
        ("item_category"@, index_or_null(item, "item_category"@)),
        ("item_name"@, index_or_null(item, "item_name"@)),
        ("item_description"@, index_or_null(item, "item_description"@)),
        ("item_price"@, index_or_null(item, "item_price"@)),
        ("event_type"@, index_or_null(item, "event_type"@)),
        ("status"@, JsonV::Str("active"@)),
        ("created_at"@, now),
        ("updated_at"@, JsonV::Null),
    ])
}

/// The document stored for a new item; `now` is the creation date.
pub fn create_item_document(item: &Json, now: &Json) -> (r: Json)
    ensures
        r@ == item_document(item@, now@),
{
    let mut m: Vec<(String, Json)> = Vec::new();
    m.push((copy_str("item_id"), get_or_null(item, "item_id")));
    m.push((copy_str("account_id"), get_or_null(item, "account_id")));
    m.push((copy_str("item_category"), get_or_null(item, "item_category")));
    m.push((copy_str("item_name"), get_or_null(item, "item_name")));
    m.push((copy_str("item_description"), get_or_null(item, "item_description")));
    m.push((copy_str("item_price"), get_or_null(item, "item_price")));
    m.push((copy_str("event_type"), get_or_null(item, "event_type")));
    m.push((copy_str("status"), Json::Str(copy_str("active"))));
    m.push((copy_str("created_at"), now.deep_clone()));
    m.push((copy_str("updated_at"), Json::Null));
    proof {
        lemma_view_members(m@);
    }
    let r = Json::Object(m);
    assert(view_members(m@) =~= match item_document(item@, now@) {
        JsonV::Obj(x) => x,
        _ => seq![],
    });
    r
}

/// The failure entry of an item whose identifier is taken.
pub open spec fn taken_entry(id: Seq<char>) -> JsonV {
    JsonV::Obj(seq![
        ("item_id"@, JsonV::Str(id)),
        ("error_message"@, JsonV::Str("Another item exists with provided item_id : "@ + id)),
    ])
}

/// An item as returned after its creation: without `account_id` and
/// `event_type`.
pub open spec fn created_view(v: JsonV) -> JsonV {
    match v {
        JsonV::Obj(m) => JsonV::Obj(members_remove(members_remove(m, "account_id"@), "event_type"@)),
        _ => v,
    }
}

/// The first batch entry (from `i` on) whose `item_id` is the string `id`.
pub open spec fn first_with_id(batch: Seq<JsonV>, id: Seq<char>, i: int) -> int
    decreases batch.len() - i,
{
    if i < 0 || i >= batch.len() {
        batch.len() as int
    } else if batch[i].get("item_id"@) == Some(JsonV::Str(id)) {
        i
    } else {
        first_with_id(batch, id, i + 1)
    }
}

/// An entry before `k` has the identifier `id`.
pub open spec fn seen_before(batch: Seq<JsonV>, id: Seq<char>, k: int) -> bool {
    exists|j: int| 0 <= j < k && item_id_text(#[trigger] batch[j]) == id
}

/// The created items among the first `n` batch entries: each identifier
/// once, in the order of first occurrence, unless it was taken.
pub open spec fn created_items(batch: Seq<JsonV>, taken: Seq<Seq<char>>, n: int) -> Seq<JsonV>
    decreases n,
{
    if n <= 0 {
        seq![]
    } else {
        let acc = created_items(batch, taken, n - 1);
        let id = item_id_text(batch[n - 1]);
        if taken.contains(id) || seen_before(batch, id, n - 1) {
            acc
        } else {
            let f = first_with_id(batch, id, 0);
            if f < batch.len() {
                acc.push(created_view(batch[f]))
            } else {
                acc
            }
        }
    }
}

fn first_with_id_of(batch: &Vec<Json>, id: &str) -> (r: usize)
    ensures
        r as int == first_with_id(view_seq(batch@), id@, 0),
{
    proof {
        lemma_view_seq(batch@);
    }
    let ghost bv = view_seq(batch@);
    let mut i: usize = 0;
    while i < batch.len()
        invariant
            i <= batch@.len(),
            bv == view_seq(batch@),
            bv.len() == batch@.len(),
            forall|k: int| 0 <= k < batch@.len() ==> #[trigger] bv[k] == batch@[k]@,
            first_with_id(bv, id@, 0) == first_with_id(bv, id@, i as int),
        decreases batch@.len() - i,
    {
        assert(bv[i as int] == batch@[i as int]@);
        let hit = match batch[i].get("item_id") {
            Some(Json::Str(s)) => str_eq(s.as_str(), id),
            _ => false,
        };
        if hit {
            return i;
        }
        i = i + 1;
    }
    i
}

fn seen_before_of(batch: &Vec<Json>, id: &str, k: usize) -> (r: bool)
    requires
        k <= batch@.len(),
    ensures
        r == seen_before(view_seq(batch@), id@, k as int),
{
    proof {
        lemma_view_seq(batch@);
    }
    let ghost bv = view_seq(batch@);
    let mut j: usize = 0;
    while j < k
        invariant
            j <= k <= batch@.len(),
            bv == view_seq(batch@),
            bv.len() == batch@.len(),
            forall|q: int| 0 <= q < batch@.len() ==> #[trigger] bv[q] == batch@[q]@,
            forall|q: int| 0 <= q < j ==> item_id_text(#[trigger] bv[q]) != id@,
        decreases k - j,
    {
        assert(bv[j as int] == batch@[j as int]@);
        let t = id_text(&batch[j]);
        if str_eq(t.as_str(), id) {
            assert(item_id_text(bv[j as int]) == id@);
            return true;
        }
        j = j + 1;
    }
    false
}

fn created_copy(v: &Json) -> (r: Json)
    ensures
        r@ == created_view(v@),
{
    match v {
        Json::Object(m0) => {
            let mut m = crate::json::clone_members(m0);
            remove_member(&mut m, "account_id");
            remove_member(&mut m, "event_type");
            Json::Object(m)
        },
        _ => v.deep_clone(),
    }
}

fn taken_entry_of(id: &str) -> (r: Json)
    ensures
        r@ == taken_entry(id@),
{
    let mut m: Vec<(String, Json)> = Vec::new();
    m.push((copy_str("item_id"), Json::Str(copy_str(id))));
    m.push((copy_str("error_message"), Json::Str(concat2("Another item exists with provided item_id : ", id))));
    proof {
        lemma_view_members(m@);
    }
    let r = Json::Object(m);
    assert(view_members(m@) =~= match taken_entry(id@) {
        JsonV::Obj(x) => x,
        _ => seq![],
    });
    r
}

/// The outcome of creating a batch of which the identifiers `taken` were
/// refused as duplicates: `(created, failed)`.
pub fn creation_outcome(items_batch: &Vec<Json>, taken: &Vec<String>) -> (r: (Vec<Json>, Vec<Json>))
    ensures
        view_seq(r.0@) == created_items(view_seq(items_batch@), strings_view(taken@), items_batch@.len() as int),
        view_seq(r.1@) == strings_view(taken@).map_values(|id: Seq<char>| taken_entry(id)),
{
    proof {
        lemma_view_seq(items_batch@);
    }
    let ghost bv = view_seq(items_batch@);
    let ghost tv = strings_view(taken@);
    let mut failed: Vec<Json> = Vec::new();
    let mut i: usize = 0;
    while i < taken.len()
        invariant
            i <= taken@.len(),
            tv == strings_view(taken@),
            failed@.len() == i,
            forall|q: int| 0 <= q < i ==> (#[trigger] failed@[q])@ == taken_entry(taken@[q]@),
        decreases taken@.len() - i,
    {
        failed.push(taken_entry_of(taken[i].as_str()));
        i = i + 1;
    }
    proof {
        lemma_view_seq(failed@);
        assert(view_seq(failed@) =~= tv.map_values(|id: Seq<char>| taken_entry(id)));
    }
    let mut created: Vec<Json> = Vec::new();
    let mut k: usize = 0;
    proof {
        lemma_view_seq(created@);
    }
    while k < items_batch.len()
        invariant
            k <= items_batch@.len(),
            bv == view_seq(items_batch@),
            bv.len() == items_batch@.len(),
            forall|q: int| 0 <= q < items_batch@.len() ==> #[trigger] bv[q] == items_batch@[q]@,
            tv == strings_view(taken@),
            view_seq(created@) == created_items(bv, tv, k as int),
        decreases items_batch@.len() - k,
    {
        assert(bv[k as int] == items_batch@[k as int]@);
        let id = id_text(&items_batch[k]);
        let skip = contains_string(taken, id.as_str()) || seen_before_of(items_batch, id.as_str(), k);
        if !skip {
            let f = first_with_id_of(items_batch, id.as_str());
            if f < items_batch.len() {
                assert(bv[f as int] == items_batch@[f as int]@);
                let ghost before = created@;
                created.push(created_copy(&items_batch[f]));
                proof {
                    lemma_view_seq(before);
                    lemma_view_seq(created@);
                    assert(view_seq(created@) =~= view_seq(before).push(created_view(bv[f as int])));
                }
            }
        }
        k = k + 1;
    }
    (created, failed)
}

// ---------------------------------------------------------------------------
// Update
// ---------------------------------------------------------------------------

/// The failure entry of an update whose item does not exist.
pub open spec fn missing_entry(id: Seq<char>) -> JsonV {
    JsonV::Obj(seq![
        ("item_id"@, JsonV::Str(id)),
        ("error_message"@, JsonV::Str("No item exists with provided item_id : "@ + id)),
    ])
}

/// The failure entries of the first `n` batch entries with no stored item.
pub open spec fn missing_items(batch: Seq<JsonV>, found: Seq<JsonV>, n: int) -> Seq<JsonV>
    decreases n,
{
    if n <= 0 {
        seq![]
    } else {
        let acc = missing_items(batch, found, n - 1);
        let id = item_id_text(batch[n - 1]);
        if first_with_id(found, id, 0) < found.len() {
            acc
        } else {
            acc.push(missing_entry(id))
        }
    }
}

fn missing_entry_of(id: &str) -> (r: Json)
    ensures
        r@ == missing_entry(id@),
{
    let mut m: Vec<(String, Json)> = Vec::new();
    m.push((copy_str("item_id"), Json::Str(copy_str(id))));
    m.push((copy_str("error_message"), Json::Str(concat2("No item exists with provided item_id : ", id))));
    proof {
        lemma_view_members(m@);
    }
    let r = Json::Object(m);
    assert(view_members(m@) =~= match missing_entry(id@) {
        JsonV::Obj(x) => x,
        _ => seq![],
    });
    r
}

/// The failure entries of an update batch whose items were not all found.
pub fn missing_update_entries(items_batch: &Vec<Json>, found: &Vec<Json>) -> (r: Vec<Json>)
    ensures
        view_seq(r@) == missing_items(view_seq(items_batch@), view_seq(found@), items_batch@.len() as int),
{
    proof {
        lemma_view_seq(items_batch@);
        lemma_view_seq(found@);
    }
    let ghost bv = view_seq(items_batch@);
    let mut out: Vec<Json> = Vec::new();
    proof {
        lemma_view_seq(out@);
    }
    let mut k: usize = 0;
    while k < items_batch.len()
        invariant
            k <= items_batch@.len(),
            bv == view_seq(items_batch@),
            bv.len() == items_batch@.len(),
            forall|q: int| 0 <= q < items_batch@.len() ==> #[trigger] bv[q] == items_batch@[q]@,
            view_seq(out@) == missing_items(bv, view_seq(found@), k as int),
            view_seq(found@).len() == found@.len(),
        decreases items_batch@.len() - k,
    {
        assert(bv[k as int] == items_batch@[k as int]@);
        let id = id_text(&items_batch[k]);
        let f = first_with_id_of(found, id.as_str());
        if f >= found.len() {
            let ghost before = out@;
            out.push(missing_entry_of(id.as_str()));
            proof {
                lemma_view_seq(before);
                lemma_view_seq(out@);
                assert(view_seq(out@) =~= view_seq(before).push(missing_entry(id@)));
            }
        }
        k = k + 1;
    }
    out
}

/// The batch entry (from `i` on) with the stored item's `item_id`.
pub open spec fn batch_entry_of(batch: Seq<JsonV>, stored: JsonV, i: int) -> int
    decreases batch.len() - i,
{
    if i < 0 || i >= batch.len() {
        batch.len() as int
    } else if json_eq(index_or_null(batch[i], "item_id"@), index_or_null(stored, "item_id"@)) {
        i
    } else {
        batch_entry_of(batch, stored, i + 1)
    }
}

/// The `$set` of a stored item's update from its batch entry `b`.
pub open spec fn update_set(stored: JsonV, b: JsonV, now: JsonV) -> JsonV {
    JsonV::Obj(seq![
        ("item_id"@, index_or_null(stored, "item_id"@)),
        ("item_category"@, index_or_null(b, "item_category"@)),
        ("item_name"@, index_or_null(b, "item_name"@)),
        ("item_description"@, index_or_null(b, "item_description"@)),
        ("item_price"@, index_or_null(b, "item_price"@)),
        ("event_type"@, index_or_null(b, "event_type"@)),
        ("status"@, index_or_null(b, "status"@)),
        ("updated_at"@, now),
    ])
}

/// The item returned after an update: the batch entry with the stored
/// creation date and the update's date text, formatted.
pub open spec fn updated_item(b: JsonV, created: JsonV, now_text: Seq<char>) -> JsonV {
    formatted_item(
        match b {
            JsonV::Obj(m) => JsonV::Obj(members_insert(members_insert(m, "created_at"@, created), "updated_at"@, JsonV::Str(now_text))),
            _ => b,
        },
    )
}

/// The update of a stored item: its `$set` and the item returned, or the
/// error when the batch has no entry for it or it has no creation date.
pub open spec fn item_update(stored: JsonV, batch: Seq<JsonV>, now: JsonV, now_text: Seq<char>) -> Result<(JsonV, JsonV), Seq<char>> {
    let j = batch_entry_of(batch, stored, 0);
    if j >= batch.len() {
        Err("StopIteration: item not found in batch"@)
    } else {
        match stored.get("created_at"@) {
            None => Err("KeyError: 'created_at'"@),
            Some(c) => Ok((update_set(stored, batch[j], now), updated_item(batch[j], c, now_text))),
        }
    }
}

fn batch_entry_index(batch: &Vec<Json>, stored: &Json) -> (r: usize)
    ensures
        r as int == batch_entry_of(view_seq(batch@), stored@, 0),
{
    proof {
        lemma_view_seq(batch@);
    }
    let ghost bv = view_seq(batch@);
    let sid = get_or_null(stored, "item_id");
    let mut i: usize = 0;
    while i < batch.len()
        invariant
            i <= batch@.len(),
            bv == view_seq(batch@),
            bv.len() == batch@.len(),
            forall|k: int| 0 <= k < batch@.len() ==> #[trigger] bv[k] == batch@[k]@,
            batch_entry_of(bv, stored@, 0) == batch_entry_of(bv, stored@, i as int),
            sid@ == index_or_null(stored@, "item_id"@),
        decreases batch@.len() - i,
    {
        assert(bv[i as int] == batch@[i as int]@);
        if json_equal(&get_or_null(&batch[i], "item_id"), &sid) {
            return i;
        }
        i = i + 1;
    }
    i
}

/// Plans the update of a stored item from the batch: `($set, returned
/// item)`; `now` is the update's date and `now_text` its GMT text.
pub fn plan_item_update(stored: &Json, items_batch: &Vec<Json>, now: &Json, now_text: &str) -> (r: Result<(Json, Json), String>)
    ensures
        match r {
            Ok((set, out)) => item_update(stored@, view_seq(items_batch@), now@, now_text@) == Ok::<(JsonV, JsonV), Seq<char>>((set@, out@)),
            Err(m) => item_update(stored@, view_seq(items_batch@), now@, now_text@) == Err::<(JsonV, JsonV), Seq<char>>(m@),
        },
{
    proof {
        lemma_view_seq(items_batch@);
    }
    let j = batch_entry_index(items_batch, stored);
    if j >= items_batch.len() {
        return Err(copy_str("StopIteration: item not found in batch"));
    }
    assert(view_seq(items_batch@)[j as int] == items_batch@[j as int]@);
    let b = &items_batch[j];
    let created = match stored.get("created_at") {
        None => return Err(copy_str("KeyError: 'created_at'")),
        Some(c) => c.deep_clone(),
    };
    let mut set: Vec<(String, Json)> = Vec::new();
    set.push((copy_str("item_id"), get_or_null(stored, "item_id")));
    set.push((copy_str("item_category"), get_or_null(b, "item_category")));
    set.push((copy_str("item_name"), get_or_null(b, "item_name")));
    set.push((copy_str("item_description"), get_or_null(b, "item_description")));
    set.push((copy_str("item_price"), get_or_null(b, "item_price")));
    set.push((copy_str("event_type"), get_or_null(b, "event_type")));
    set.push((copy_str("status"), get_or_null(b, "status")));
    set.push((copy_str("updated_at"), now.deep_clone()));
    proof {
        lemma_view_members(set@);
    }
    assert(view_members(set@) =~= match update_set(stored@, b@, now@) {
        JsonV::Obj(x) => x,
        _ => seq![],
    });
    let set_doc = Json::Object(set);
    let merged = match b {
        Json::Object(m0) => {
            let mut m = crate::json::clone_members(m0);
            insert_member(&mut m, "created_at", created);
            insert_member(&mut m, "updated_at", Json::Str(copy_str(now_text)));
            Json::Object(m)
        },
        _ => b.deep_clone(),
    };
    let out = format_item(&merged);
    Ok((set_doc, out))
}

/// The identifiers of the items created among the first `n` batch
/// entries, in order.
pub open spec fn created_ids(batch: Seq<JsonV>, taken: Seq<Seq<char>>, n: int) -> Seq<Seq<char>>
    decreases n,
{
    if n <= 0 {
        seq![]
    } else {
        let acc = created_ids(batch, taken, n - 1);
        let id = item_id_text(batch[n - 1]);
        if taken.contains(id) || seen_before(batch, id, n - 1) || first_with_id(batch, id, 0) >= batch.len() {
            acc
        } else {
            acc.push(id)
        }
    }
}

/// A creation returns each created identifier once: the identifiers are
/// distinct, none was refused as taken, and each created item is the first
/// batch entry with its identifier.
pub proof fn law_created_items_are_distinct_and_untaken(batch: Seq<JsonV>, taken: Seq<Seq<char>>, n: int)
    requires
        0 <= n <= batch.len(),
    ensures
        created_ids(batch, taken, n).len() == created_items(batch, taken, n).len(),
        forall|k: int| 0 <= k < created_ids(batch, taken, n).len() ==> !taken.contains(
            #[trigger] created_ids(batch, taken, n)[k],
        ),
        forall|k: int| 0 <= k < created_ids(batch, taken, n).len() ==> seen_before(
            batch,
            #[trigger] created_ids(batch, taken, n)[k],
            n,
        ),
        forall|i: int, j: int|
            0 <= i < j < created_ids(batch, taken, n).len() ==> #[trigger] created_ids(batch, taken, n)[i]
                != #[trigger] created_ids(batch, taken, n)[j],
        forall|k: int|
            0 <= k < created_items(batch, taken, n).len() ==> #[trigger] created_items(batch, taken, n)[k]
                == created_view(batch[first_with_id(batch, created_ids(batch, taken, n)[k], 0)]),
    decreases n,
{
    if n > 0 {
        law_created_items_are_distinct_and_untaken(batch, taken, n - 1);
        let acc = created_ids(batch, taken, n - 1);
        let items = created_items(batch, taken, n - 1);
        let id = item_id_text(batch[n - 1]);
        assert forall|k: int| 0 <= k < acc.len() implies seen_before(batch, #[trigger] acc[k], n) by {
            let j = choose|j: int| 0 <= j < n - 1 && item_id_text(#[trigger] batch[j]) == acc[k];
            assert(0 <= j < n && item_id_text(batch[j]) == acc[k]);
        }
        if !(taken.contains(id) || seen_before(batch, id, n - 1) || first_with_id(batch, id, 0) >= batch.len()) {
            assert(seen_before(batch, id, n)) by {
                assert(item_id_text(batch[n - 1]) == id);
            }
            assert forall|i: int, j: int|
                0 <= i < j < created_ids(batch, taken, n).len() implies #[trigger] created_ids(batch, taken, n)[i]
                    != #[trigger] created_ids(batch, taken, n)[j] by {
                if j == acc.len() {
                    assert(created_ids(batch, taken, n)[i] == acc[i]);
                    assert(seen_before(batch, acc[i], n - 1));
                }
            }
            assert forall|k: int| 0 <= k < created_items(batch, taken, n).len() implies #[trigger] created_items(batch, taken, n)[k]
                == created_view(batch[first_with_id(batch, created_ids(batch, taken, n)[k], 0)]) by {
                if k < items.len() {
                    assert(created_items(batch, taken, n)[k] == items[k]);
                    assert(created_ids(batch, taken, n)[k] == acc[k]);
                }
            }
        }
    }
}

/// The filter of an items listing: the account's items, of one status
/// unless `status` is `all`.
pub open spec fn items_filter(account_id: JsonV, status: Seq<char>) -> JsonV {
    if status == "all"@ {
        JsonV::Obj(seq![("account_id"@, account_id)])
    } else {
        JsonV::Obj(seq![("account_id"@, account_id), ("status"@, JsonV::Str(status))])
    }
}

/// Builds the filter of an items listing.
pub fn items_listing_filter(account_id: &Json, status: &str) -> (r: Json)
    ensures
        r@ == items_filter(account_id@, status@),
{
    let mut m: Vec<(String, Json)> = Vec::new();
    m.push((copy_str("account_id"), account_id.deep_clone()));
    let all = crate::text::str_eq(status, "all");
    proof {
        reveal_strlit("all");
    }
    if !all {
        m.push((copy_str("status"), Json::Str(copy_str(status))));
    }
    proof {
        lemma_view_members(m@);
    }
    assert(view_members(m@) =~= items_filter(account_id@, status@)->Obj_0);
    Json::Object(m)
}

/// The most items of a listing page: 200 identifiers, or 100 items.
pub fn items_page_size(ids: bool) -> (r: i64)
    ensures
        r == (if ids { 200i64 } else { 100i64 }),
{
    if ids { 200 } else { 100 }
}

/// An item of a listing: its identifier alone for a listing of
/// identifiers, else the item as returned.
pub open spec fn listed_item(doc: JsonV, ids: bool) -> JsonV {
    if ids {
        JsonV::Obj(seq![("item_id"@, index_or_null(doc, "item_id"@))])
    } else {
        formatted_item(doc)
    }
}

/// The items of a listing page, as returned.
pub fn listed_items(docs: &Vec<Json>, ids: bool) -> (r: Vec<Json>)
    ensures
        view_seq(r@) == view_seq(docs@).map_values(|d: JsonV| listed_item(d, ids)),
{
    proof {
        lemma_view_seq(docs@);
    }
    let ghost dv = view_seq(docs@);
    let mut out: Vec<Json> = Vec::new();
    let mut i: usize = 0;
    while i < docs.len()
        invariant
            i <= docs@.len(),
            dv == view_seq(docs@),
            dv.len() == docs@.len(),
            forall|j: int| 0 <= j < docs@.len() ==> #[trigger] dv[j] == docs@[j]@,
            out@.len() == i,
            forall|j: int| 0 <= j < i ==> (#[trigger] out@[j])@ == listed_item(dv[j], ids),
        decreases docs@.len() - i,
    {
        assert(dv[i as int] == docs@[i as int]@);
        let e = if ids {
            let mut m: Vec<(String, Json)> = Vec::new();
            m.push((copy_str("item_id"), crate::items::store::get_or_null(&docs[i], "item_id")));
            proof {
                lemma_view_members(m@);
            }
            assert(view_members(m@) =~= seq![("item_id"@, index_or_null(dv[i as int], "item_id"@))]);
            Json::Object(m)
        } else {
            format_item(&docs[i])
        };
        out.push(e);
        i = i + 1;
    }
    proof {
        lemma_view_seq(out@);
    }
    assert(view_seq(out@) =~= dv.map_values(|d: JsonV| listed_item(d, ids)));
    out
}

} // verus!
