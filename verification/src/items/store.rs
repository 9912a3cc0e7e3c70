//! The decisions of the items service on stored items: duplicate
//! identifiers in an update, which items a deletion found, and the
//! recommendation stop list after a deletion.

use vstd::prelude::*;
use crate::events::verify::index_or_null;
use crate::json::{
    insert_member, json_eq, json_equal, lemma_view_members, lemma_view_seq, members_insert, view_members,
    view_seq, Json, JsonV,
};
use crate::text::{concat2, copy_str, str_eq};

verus! {

/// The `item_id` of an item as a string (empty unless a string).
pub open spec fn item_id_text(v: JsonV) -> Seq<char> {
    match index_or_null(v, "item_id"@) {
        JsonV::Str(s) => s,
        _ => seq![],
    }
}

/// The first `item_id` (as text) that occurs twice in the batch, if any.
pub open spec fn first_duplicate(batch: Seq<JsonV>, n: int) -> Option<Seq<char>>
    decreases n,
{
    if n <= 0 {
        None
    } else {
        match first_duplicate(batch, n - 1) {
            Some(d) => Some(d),
            None => if exists|j: int| 0 <= j < n - 1 && item_id_text(#[trigger] batch[j]) == item_id_text(batch[n - 1]) {
                Some(item_id_text(batch[n - 1]))
            } else {
                None
            },
        }
    }
}

pub(crate) fn id_text(v: &Json) -> (r: String)
    ensures
        r@ == item_id_text(v@),
{
    match v.get("item_id") {
        Some(Json::Str(s)) => copy_str(s.as_str()),
        _ => String::new(),
    }
}

/// The first repeated item identifier of an update batch, if any (such a
/// batch is refused).
pub fn duplicate_item_id(items_batch: &Vec<Json>) -> (r: Option<String>)
    ensures
        match r {
            Some(d) => first_duplicate(view_seq(items_batch@), items_batch@.len() as int) == Some(d@),
            None => first_duplicate(view_seq(items_batch@), items_batch@.len() as int) is None,
        },
{
    proof {
        lemma_view_seq(items_batch@);
    }
    let ghost bv = view_seq(items_batch@);
    let mut ids: Vec<String> = Vec::new();
    let mut i: usize = 0;
    while i < items_batch.len()
        invariant
            i <= items_batch@.len(),
            bv == view_seq(items_batch@),
            bv.len() == items_batch@.len(),
            forall|k: int| 0 <= k < items_batch@.len() ==> #[trigger] bv[k] == items_batch@[k]@,
            ids@.len() == i,
            forall|k: int| 0 <= k < i ==> (#[trigger] ids@[k])@ == item_id_text(bv[k]),
            first_duplicate(bv, i as int) is None,
        decreases items_batch@.len() - i,
    {
        assert(bv[i as int] == items_batch@[i as int]@);
        let id = id_text(&items_batch[i]);
        let mut j: usize = 0;
        while j < ids.len()
            invariant
                j <= ids@.len(),
                ids@.len() == i,
                forall|k: int| 0 <= k < i ==> (#[trigger] ids@[k])@ == item_id_text(bv[k]),
                forall|k: int| 0 <= k < j ==> item_id_text(#[trigger] bv[k]) != id@,
                i < bv.len(),
                bv == view_seq(items_batch@),
                bv.len() == items_batch@.len(),
                id@ == item_id_text(bv[i as int]),
                first_duplicate(bv, i as int) is None,
            decreases ids@.len() - j,
        {
            if str_eq(ids[j].as_str(), id.as_str()) {
                assert(item_id_text(bv[j as int]) == id@);
                assert(first_duplicate(bv, i + 1) == Some(id@));
                proof {
                    lemma_duplicate_stays(bv, i as int + 1, id@);
                }
                return Some(id);
            }
            j = j + 1;
        }
        ids.push(id);
        i = i + 1;
    }
    None
}

proof fn lemma_duplicate_stays(b: Seq<JsonV>, n: int, d: Seq<char>)
    requires
        0 < n <= b.len(),
        first_duplicate(b, n) == Some(d),
    ensures
        first_duplicate(b, b.len() as int) == Some(d),
    decreases b.len() - n,
{
    if n < b.len() {
        lemma_duplicate_stays(b, n + 1, d);
    }
}

// ---------------------------------------------------------------------------
// Deletion
// ---------------------------------------------------------------------------

/// A stored item is the batch entry's: same `item_id` and `account_id`.
pub open spec fn is_stored_entry(stored: JsonV, entry: JsonV) -> bool {
    json_eq(index_or_null(stored, "item_id"@), index_or_null(entry, "item_id"@)) && json_eq(
        index_or_null(stored, "account_id"@),
        index_or_null(entry, "account_id"@),
    )
}

/// The first stored item (from `i` on) that is the entry's.
pub open spec fn first_stored(found: Seq<JsonV>, entry: JsonV, i: int) -> int
    decreases found.len() - i,
{
    if i < 0 || i >= found.len() {
        found.len() as int
    } else if is_stored_entry(found[i], entry) {
        i
    } else {
        first_stored(found, entry, i + 1)
    }
}

/// The failure entry of an item that was not found.
pub open spec fn not_found_entry(entry: JsonV) -> JsonV {
    JsonV::Obj(
        seq![
            ("item_id"@, index_or_null(entry, "item_id"@)),
            ("error_message"@, JsonV::Str("No item found with item_id : "@ + item_id_text(entry))),
        ],
    )
}

/// The deleted and the failed entries for the first `n` batch entries.
pub open spec fn deletion_outcome(batch: Seq<JsonV>, found: Seq<JsonV>, n: int) -> (Seq<JsonV>, Seq<JsonV>)
    decreases n,
{
    if n <= 0 {
        (seq![], seq![])
    } else {
        let (d, f) = deletion_outcome(batch, found, n - 1);
        let k = first_stored(found, batch[n - 1], 0);
        if k < found.len() {
            (d.push(JsonV::Obj(seq![("item_id"@, index_or_null(found[k], "item_id"@))])), f)
        } else {
            (d, f.push(not_found_entry(batch[n - 1])))
        }
    }
}

pub(crate) fn get_or_null(v: &Json, key: &str) -> (r: Json)
    ensures
        r@ == index_or_null(v@, key@),
{
    match v.get(key) {
        Some(x) => x.deep_clone(),
        None => Json::Null,
    }
}

fn single_member(k: &str, v: Json) -> (r: Json)
    ensures
        r@ == JsonV::Obj(seq![(k@, v@)]),
{
    let m = vec![(copy_str(k), v)];
    proof {
        lemma_view_members(m@);
        assert(view_members(m@) =~= seq![(k@, v@)]);
    }
    Json::Object(m)
}

fn find_stored(found: &Vec<Json>, entry: &Json) -> (r: usize)
    ensures
        r as int == first_stored(view_seq(found@), entry@, 0),
{
    proof {
        lemma_view_seq(found@);
    }
    let ghost fv = view_seq(found@);
    let id = get_or_null(entry, "item_id");
    let acc = get_or_null(entry, "account_id");
    let mut i: usize = 0;
    while i < found.len()
        invariant
            i <= found@.len(),
            fv == view_seq(found@),
            fv.len() == found@.len(),
            forall|k: int| 0 <= k < found@.len() ==> #[trigger] fv[k] == found@[k]@,
            first_stored(fv, entry@, 0) == first_stored(fv, entry@, i as int),
            id@ == index_or_null(entry@, "item_id"@),
            acc@ == index_or_null(entry@, "account_id"@),
        decreases found@.len() - i,
    {
        assert(fv[i as int] == found@[i as int]@);
        let sid = get_or_null(&found[i], "item_id");
        let sacc = get_or_null(&found[i], "account_id");
        if json_equal(&sid, &id) && json_equal(&sacc, &acc) {
            return i;
        }
        i = i + 1;
    }
    i
}

/// Splits a deletion batch by the stored items found: `(deleted,
/// failed)`, each deleted entry `{item_id}` of the stored item, each failed
/// one with its message.
pub fn deletion_entries(items_batch: &Vec<Json>, found: &Vec<Json>) -> (r: (Vec<Json>, Vec<Json>))
    ensures
        (view_seq(r.0@), view_seq(r.1@)) == deletion_outcome(view_seq(items_batch@), view_seq(found@), items_batch@.len() as int),
{
    proof {
        lemma_view_seq(items_batch@);
        lemma_view_seq(found@);
    }
    let ghost bv = view_seq(items_batch@);
    let mut deleted: Vec<Json> = Vec::new();
    let mut failed: Vec<Json> = Vec::new();
    proof {
        lemma_view_seq(deleted@);
        lemma_view_seq(failed@);
    }
    let mut i: usize = 0;
    while i < items_batch.len()
        invariant
            i <= items_batch@.len(),
            bv == view_seq(items_batch@),
            bv.len() == items_batch@.len(),
            forall|k: int| 0 <= k < items_batch@.len() ==> #[trigger] bv[k] == items_batch@[k]@,
            view_seq(found@).len() == found@.len(),
            forall|k: int| 0 <= k < found@.len() ==> #[trigger] view_seq(found@)[k] == found@[k]@,
            (view_seq(deleted@), view_seq(failed@)) == deletion_outcome(bv, view_seq(found@), i as int),
        decreases items_batch@.len() - i,
    {
        assert(bv[i as int] == items_batch@[i as int]@);
        let k = find_stored(found, &items_batch[i]);
        let ghost d0 = deleted@;
        let ghost f0 = failed@;
        if k < found.len() {
            assert(view_seq(found@)[k as int] == found@[k as int]@);
            deleted.push(single_member("item_id", get_or_null(&found[k], "item_id")));
        } else {
            let id = id_text(&items_batch[i]);
            let msg = concat2("No item found with item_id : ", id.as_str());
            let m = vec![(copy_str("item_id"), get_or_null(&items_batch[i], "item_id")), (copy_str("error_message"), Json::Str(msg))];
            proof {
                lemma_view_members(m@);
                assert(view_members(m@) =~= not_found_entry(bv[i as int])->Obj_0);
            }
            failed.push(Json::Object(m));
        }
        proof {
            lemma_view_seq(deleted@);
            lemma_view_seq(failed@);
            lemma_view_seq(d0);
            lemma_view_seq(f0);
            assert(view_seq(deleted@) =~= deletion_outcome(bv, view_seq(found@), i + 1).0) by {
                if deleted@.len() > d0.len() {
                    assert forall|q: int| 0 <= q < d0.len() implies deleted@[q] == d0[q] by {}
                }
            }
            assert(view_seq(failed@) =~= deletion_outcome(bv, view_seq(found@), i + 1).1) by {
                if failed@.len() > f0.len() {
                    assert forall|q: int| 0 <= q < f0.len() implies failed@[q] == f0[q] by {}
                }
            }
        }
        i = i + 1;
    }
    (deleted, failed)
}

// ---------------------------------------------------------------------------
// The recommendation stop list
// ---------------------------------------------------------------------------

/// The first entry (from `i` on) whose `item_id` equals `id`.
pub open spec fn id_position(a: Seq<JsonV>, id: JsonV, i: int) -> int
    decreases a.len() - i,
{
    if i < 0 || i >= a.len() {
        a.len() as int
    } else if json_eq(index_or_null(a[i], "item_id"@), id) {
        i
    } else {
        id_position(a, id, i + 1)
    }
}

/// The stop list once its first `m` entries have been checked against
/// deleted item `d`: each entry of `d`'s id removes the first remaining
/// entry with that id (an error when none remains).
pub open spec fn strike_entries(stop: Seq<JsonV>, d: JsonV, m: int, aug: Seq<JsonV>) -> Option<Seq<JsonV>>
    decreases m,
{
    if m <= 0 {
        Some(aug)
    } else {
        match strike_entries(stop, d, m - 1, aug) {
            None => None,
            Some(a) => {
                let sid = index_or_null(stop[m - 1], "item_id"@);
                if json_eq(sid, index_or_null(d, "item_id"@)) {
                    let p = id_position(a, sid, 0);
                    if p < a.len() {
                        Some(a.remove(p))
                    } else {
                        None
                    }
                } else {
                    Some(a)
                }
            },
        }
    }
}

/// The stop list once the first `n` deleted items were struck from it.
pub open spec fn struck_stop_list(stop: Seq<JsonV>, deleted: Seq<JsonV>, n: int) -> Option<Seq<JsonV>>
    decreases n,
{
    if n <= 0 {
        Some(stop)
    } else {
        match struck_stop_list(stop, deleted, n - 1) {
            None => None,
            Some(a) => strike_entries(stop, deleted[n - 1], stop.len() as int, a),
        }
    }
}

/// The first algorithm configuration named `rec`, from `i` on.
pub open spec fn rec_index(confs: Seq<JsonV>, i: int) -> int
    decreases confs.len() - i,
{
    if i < 0 || i >= confs.len() {
        confs.len() as int
    } else if index_or_null(confs[i], "algorithm_name"@) == JsonV::Str("rec"@) {
        i
    } else {
        rec_index(confs, i + 1)
    }
}

/// The `rec` configuration's `config_json` after a deletion: `Ok(None)`
/// without a `rec` configuration; its stop list with the deleted items
/// struck; the errors of a missing configuration, a stop list that is no
/// list, or an entry struck twice.
pub open spec fn stop_list_update(algos: JsonV, deleted: Seq<JsonV>) -> Result<Option<JsonV>, Seq<char>> {
    let confs = match algos {
        JsonV::Arr(a) => a,
        _ => seq![],
    };
    let i = rec_index(confs, 0);
    if i >= confs.len() {
        Ok(None)
    } else {
        match index_or_null(confs[i], "config_json"@) {
            JsonV::Obj(cm) => {
                let stop = match crate::json::member_lookup(cm, "item_id_stop_list"@) {
                    None => Some(seq![]),
                    Some(JsonV::Arr(l)) => Some(l),
                    Some(_) => None,
                };
                match stop {
                    None => Err("item_id_stop_list is not a list"@),
                    Some(l) => match struck_stop_list(l, deleted, deleted.len() as int) {
                        None => Err("stop-list entry already removed"@),
                        Some(aug) => Ok(Some(JsonV::Obj(members_insert(cm, "item_id_stop_list"@, JsonV::Arr(aug))))),
                    },
                }
            },
            _ => Err("rec algorithm 'config_json' missing or not an object"@),
        }
    }
}

fn position_of_id(a: &Vec<Json>, id: &Json) -> (r: usize)
    ensures
        r as int == id_position(view_seq(a@), id@, 0),
{
    proof {
        lemma_view_seq(a@);
    }
    let ghost av = view_seq(a@);
    let mut i: usize = 0;
    while i < a.len()
        invariant
            i <= a@.len(),
            av == view_seq(a@),
            av.len() == a@.len(),
            forall|k: int| 0 <= k < a@.len() ==> #[trigger] av[k] == a@[k]@,
            id_position(av, id@, 0) == id_position(av, id@, i as int),
        decreases a@.len() - i,
    {
        assert(av[i as int] == a@[i as int]@);
        if json_equal(&get_or_null(&a[i], "item_id"), id) {
            return i;
        }
        i = i + 1;
    }
    i
}

fn strike(stop: &Vec<Json>, d: &Json, aug: &mut Vec<Json>) -> (ok: bool)
    ensures
        ok ==> strike_entries(view_seq(stop@), d@, stop@.len() as int, view_seq(old(aug)@)) == Some(view_seq(final(aug)@)),
        !ok ==> strike_entries(view_seq(stop@), d@, stop@.len() as int, view_seq(old(aug)@)) is None,
{
    proof {
        lemma_view_seq(stop@);
    }
    let ghost sv = view_seq(stop@);
    let ghost start = view_seq(aug@);
    let did = get_or_null(d, "item_id");
    let mut m: usize = 0;
    while m < stop.len()
        invariant
            m <= stop@.len(),
            sv == view_seq(stop@),
            sv.len() == stop@.len(),
            forall|k: int| 0 <= k < stop@.len() ==> #[trigger] sv[k] == stop@[k]@,
            strike_entries(sv, d@, m as int, start) == Some(view_seq(aug@)),
            did@ == index_or_null(d@, "item_id"@),
            start == view_seq(old(aug)@),
        decreases stop@.len() - m,
    {
        assert(sv[m as int] == stop@[m as int]@);
        proof {
            lemma_view_seq(aug@);
        }
        let sid = get_or_null(&stop[m], "item_id");
        if json_equal(&sid, &did) {
            let p = position_of_id(aug, &sid);
            assert(sid@ == index_or_null(sv[m as int], "item_id"@));
            if p < aug.len() {
                let ghost before = aug@;
                aug.remove(p);
                proof {
                    lemma_view_seq(aug@);
                    lemma_view_seq(before);
                    assert(view_seq(aug@) =~= view_seq(before).remove(p as int)) by {
                        assert forall|q: int| 0 <= q < aug@.len() implies aug@[q]@ == view_seq(before).remove(p as int)[q] by {
                            if q < p {
                                assert(aug@[q] == before[q]);
                            } else {
                                assert(aug@[q] == before[q + 1]);
                            }
                        }
                    }
                }
            } else {
                proof {
                    assert(strike_entries(sv, d@, m as int + 1, start) is None);
                    lemma_strike_none(sv, d@, m as int + 1, start);
                }
                return false;
            }
        }
        m = m + 1;
    }
    true
}

proof fn lemma_strike_none(stop: Seq<JsonV>, d: JsonV, m: int, aug: Seq<JsonV>)
    requires
        0 < m <= stop.len(),
        strike_entries(stop, d, m, aug) is None,
    ensures
        strike_entries(stop, d, stop.len() as int, aug) is None,
    decreases stop.len() - m,
{
    if m < stop.len() {
        lemma_strike_none(stop, d, m + 1, aug);
    }
}

proof fn lemma_struck_none(stop: Seq<JsonV>, deleted: Seq<JsonV>, n: int)
    requires
        0 < n <= deleted.len(),
        struck_stop_list(stop, deleted, n) is None,
    ensures
        struck_stop_list(stop, deleted, deleted.len() as int) is None,
    decreases deleted.len() - n,
{
    if n < deleted.len() {
        lemma_struck_none(stop, deleted, n + 1);
    }
}

fn find_rec(confs: &Vec<Json>) -> (r: usize)
    ensures
        r as int == rec_index(view_seq(confs@), 0),
{
    proof {
        lemma_view_seq(confs@);
    }
    let ghost cv = view_seq(confs@);
    let mut i: usize = 0;
    while i < confs.len()
        invariant
            i <= confs@.len(),
            cv == view_seq(confs@),
            cv.len() == confs@.len(),
            forall|k: int| 0 <= k < confs@.len() ==> #[trigger] cv[k] == confs@[k]@,
            rec_index(cv, 0) == rec_index(cv, i as int),
        decreases confs@.len() - i,
    {
        assert(cv[i as int] == confs@[i as int]@);
        let name = get_or_null(&confs[i], "algorithm_name");
        let is_rec = match &name {
            Json::Str(s) => str_eq(s.as_str(), "rec"),
            _ => false,
        };
        if is_rec {
            proof {
                reveal_strlit("rec");
            }
            return i;
        }
        i = i + 1;
    }
    i
}

/// The stop list with every deleted item struck from it, or `None` when an
/// entry would be struck twice.
fn strike_all(stop: &Vec<Json>, deleted: &Vec<Json>) -> (r: Option<Vec<Json>>)
    ensures
        match r {
            Some(a) => struck_stop_list(view_seq(stop@), view_seq(deleted@), deleted@.len() as int)
                == Some(view_seq(a@)),
            None => struck_stop_list(view_seq(stop@), view_seq(deleted@), deleted@.len() as int) is None,
        },
{
    proof {
        lemma_view_seq(stop@);
        lemma_view_seq(deleted@);
    }
    let ghost lv = view_seq(stop@);
    let mut aug: Vec<Json> = Vec::new();
    let mut k: usize = 0;
    while k < stop.len()
        invariant
            k <= stop@.len(),
            aug@.len() == k,
            forall|q: int| 0 <= q < k ==> (#[trigger] aug@[q])@ == stop@[q]@,
        decreases stop@.len() - k,
    {
        aug.push(stop[k].deep_clone());
        k = k + 1;
    }
    proof {
        lemma_view_seq(aug@);
        assert(view_seq(aug@) =~= lv);
    }
    let mut n: usize = 0;
    while n < deleted.len()
        invariant
            n <= deleted@.len(),
            lv == view_seq(stop@),
            lv.len() == stop@.len(),
            view_seq(deleted@).len() == deleted@.len(),
            forall|q: int| 0 <= q < deleted@.len() ==> #[trigger] view_seq(deleted@)[q] == deleted@[q]@,
            struck_stop_list(lv, view_seq(deleted@), n as int) == Some(view_seq(aug@)),
        decreases deleted@.len() - n,
    {
        assert(view_seq(deleted@)[n as int] == deleted@[n as int]@);
        let ghost before = view_seq(aug@);
        let ok = strike(stop, &deleted[n], &mut aug);
        assert(struck_stop_list(lv, view_seq(deleted@), n as int + 1)
            == strike_entries(lv, view_seq(deleted@)[n as int], lv.len() as int, before));
        if !ok {
            proof {
                lemma_struck_none(lv, view_seq(deleted@), n as int + 1);
            }
            return None;
        }
        n = n + 1;
    }
    Some(aug)
}

/// The `rec` configuration's new `config_json` after `deleted` items were
/// deleted, for the account's algorithm configurations.
pub fn rec_stop_list_update(algorithm_configurations: &Json, deleted: &Vec<Json>) -> (r: Result<Option<Json>, String>)
    ensures
        match r {
            Ok(Some(c)) => stop_list_update(algorithm_configurations@, view_seq(deleted@)) == Ok::<Option<JsonV>, Seq<char>>(Some(c@)),
            Ok(None) => stop_list_update(algorithm_configurations@, view_seq(deleted@)) == Ok::<Option<JsonV>, Seq<char>>(None),
            Err(m) => stop_list_update(algorithm_configurations@, view_seq(deleted@)) == Err::<Option<JsonV>, Seq<char>>(m@),
        },
{
    let empty: Vec<Json> = Vec::new();
    proof {
        lemma_view_seq(empty@);
        assert(view_seq(empty@) =~= Seq::<JsonV>::empty());
    }
    let confs: &Vec<Json> = match algorithm_configurations.as_array() {
        Some(a) => a,
        None => &empty,
    };
    proof {
        lemma_view_seq(confs@);
        lemma_view_seq(deleted@);
    }
    let ghost cv = view_seq(confs@);
    let i = find_rec(confs);
    if i >= confs.len() {
        return Ok(None);
    }
    assert(cv[i as int] == confs@[i as int]@);
    let cm = match confs[i].get("config_json") {
        Some(Json::Object(cm)) => cm,
        _ => return Err(copy_str("rec algorithm 'config_json' missing or not an object")),
    };
    let stop: Vec<Json> = match crate::json::members_get(cm, "item_id_stop_list") {
        None => Vec::new(),
        Some(Json::Array(l)) => {
            let mut out: Vec<Json> = Vec::new();
            let mut k: usize = 0;
            proof {
                lemma_view_seq(l@);
            }
            while k < l.len()
                invariant
                    k <= l@.len(),
                    out@.len() == k,
                    view_seq(l@).len() == l@.len(),
                    forall|q: int| 0 <= q < l@.len() ==> #[trigger] view_seq(l@)[q] == l@[q]@,
                    forall|q: int| 0 <= q < k ==> (#[trigger] out@[q])@ == l@[q]@,
                decreases l@.len() - k,
            {
                out.push(l[k].deep_clone());
                k = k + 1;
            }
            proof {
                lemma_view_seq(out@);
                assert(view_seq(out@) =~= view_seq(l@));
            }
            out
        },
        Some(_) => return Err(copy_str("item_id_stop_list is not a list")),
    };
    proof {
        lemma_view_seq(stop@);
        if stop@.len() == 0 {
            assert(view_seq(stop@) =~= Seq::<JsonV>::empty());
        }
    }
    let aug = match strike_all(&stop, deleted) {
        Some(a) => a,
        None => return Err(copy_str("stop-list entry already removed")),
    };
    let mut newm = crate::json::clone_members(cm);
    insert_member(&mut newm, "item_id_stop_list", Json::Array(aug));
    Ok(Some(Json::Object(newm)))
}

/// Every entry of a deletion batch is answered once: as deleted or as
/// failed.
pub proof fn law_deletion_answers_every_entry(batch: Seq<JsonV>, found: Seq<JsonV>, n: int)
    requires
        0 <= n,
    ensures
        deletion_outcome(batch, found, n).0.len() + deletion_outcome(batch, found, n).1.len() == n,
    decreases n,
{
    if n > 0 {
        law_deletion_answers_every_entry(batch, found, n - 1);
    }
}

} // verus!
