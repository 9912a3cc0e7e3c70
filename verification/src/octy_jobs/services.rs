//! The decisions of one scheduling pass over the octy jobs: whether an
//! account meets a job's requirements, and the message the job publishes.

use vstd::prelude::*;
use crate::events::verify::index_or_null;
use crate::json::{
    insert_member, json_eq, json_equal, lemma_view_seq, members_get, members_insert, member_lookup,
    truthy, view_seq, Json, JsonNumber, JsonV, NumV,
};
use crate::text::{chars_of, copy_str, has_char, split_on, split_seq, string_of};

verus! {

/// The value at the path `parts` of nested objects.
pub open spec fn deep_get_path(v: JsonV, parts: Seq<Seq<char>>) -> Option<JsonV>
    decreases parts.len(),
{
    if parts.len() == 0 {
        Some(v)
    } else {
        match v {
            JsonV::Obj(m) => match member_lookup(m, parts[0]) {
                Some(x) => deep_get_path(x, parts.drop_first()),
                None => None,
            },
            _ => None,
        }
    }
}

/// The value at the dotted path `key` (`a.b.c`).
pub open spec fn deep_get_key(v: JsonV, key: Seq<char>) -> Option<JsonV> {
    deep_get_path(v, split_seq(key, seq!['.']))
}

/// Looks up the dotted path `key` in nested objects.
pub fn deep_get<'a>(value: &'a Json, key: &str) -> (r: Option<&'a Json>)
    ensures
        match r {
            Some(x) => deep_get_key(value@, key@) == Some(x@),
            None => deep_get_key(value@, key@) is None,
        },
{
    let kc = chars_of(key);
    let parts = split_on(&kc, &['.']);
    assert(['.']@ =~= seq!['.']);
    let ghost pv = parts@.map_values(|p: Vec<char>| p@);
    let mut current: &Json = value;
    let mut i: usize = 0;
    assert(pv.skip(0) =~= pv);
    while i < parts.len()
        invariant
            i <= parts@.len(),
            pv == parts@.map_values(|p: Vec<char>| p@),
            pv == split_seq(key@, seq!['.']),
            deep_get_key(value@, key@) == deep_get_path(current@, pv.skip(i as int)),
        decreases parts@.len() - i,
    {
        assert(pv.skip(i as int)[0] == parts@[i as int]@);
        assert(pv.skip(i as int).drop_first() =~= pv.skip(i + 1));
        let name = string_of(&parts[i]);
        match current {
            Json::Object(m) => match members_get(m, name.as_str()) {
                Some(x) => {
                    current = x;
                },
                None => return None,
            },
            _ => return None,
        }
        i = i + 1;
    }
    assert(pv.skip(i as int).len() == 0);
    Some(current)
}

/// A number (booleans count as numbers).
pub open spec fn is_number_v(v: JsonV) -> bool {
    v is Num || v is Bool
}

/// `(valid, nested)` for a required account attribute: a dotted path must
/// lead to a number or a truthy value; a plain key likewise.
pub open spec fn attr_check(account: JsonV, key: Seq<char>) -> (bool, bool) {
    let val = deep_get_key(account, key);
    let num = val matches Some(x) && is_number_v(x);
    if key.contains('.') {
        if num {
            (true, true)
        } else {
            (
                truthy(
                    match val {
                        Some(x) => x,
                        None => JsonV::Null,
                    },
                ),
                true,
            )
        }
    } else if num {
        (true, false)
    } else {
        match account.get(key) {
            Some(v) => (truthy(v), false),
            None => (false, false),
        }
    }
}

/// Checks a required account attribute: whether it is valid, and whether
/// it is a dotted path.
pub fn validate_account_attr(account: &Json, key: &str) -> (r: (bool, bool))
    ensures
        r == attr_check(account@, key@),
{
    let val = deep_get(account, key);
    let num = match val {
        Some(x) => match x {
            Json::Number(_) => true,
            Json::Bool(_) => true,
            _ => false,
        },
        None => false,
    };
    let dotted = has_char(&chars_of(key), '.');
    if dotted {
        if num {
            return (true, true);
        }
        return match val {
            Some(x) => (x.truthy(), true),
            None => (false, true),
        };
    }
    if num {
        return (true, false);
    }
    match account.get(key) {
        Some(v) => (v.truthy(), false),
        None => (false, false),
    }
}

/// The elements of a list (none unless a list).
pub open spec fn arr_or_empty(v: JsonV) -> Seq<JsonV> {
    match v {
        JsonV::Arr(a) => a,
        _ => seq![],
    }
}

/// `v[a][b]` (null when absent).
pub open spec fn at2(v: JsonV, a: Seq<char>, b: Seq<char>) -> JsonV {
    index_or_null(index_or_null(v, a), b)
}

/// The job's required permissions are all among the account's.
pub open spec fn permissions_ok(account: JsonV, job: JsonV) -> bool {
    let required = arr_or_empty(at2(job, "job_meta"@, "required_permissions"@));
    let held = arr_or_empty(index_or_null(account, "permissions"@));
    forall|i: int| 0 <= i < required.len() ==> held_by(#[trigger] required[i], held)
}

/// `p` equals one of `held`.
pub open spec fn held_by(p: JsonV, held: Seq<JsonV>) -> bool {
    exists|j: int| 0 <= j < held.len() && #[trigger] json_eq(p, held[j])
}

/// The last `.`-separated part of a key.
pub open spec fn last_part(key: Seq<char>) -> Seq<char> {
    split_seq(key, seq!['.']).last()
}

/// The string of an attribute entry (empty unless a string).
pub open spec fn attr_name(v: JsonV) -> Seq<char> {
    match v {
        JsonV::Str(s) => s,
        _ => seq![],
    }
}

/// The account data after the first `n` required attributes: each copied
/// in (a dotted one under its last part); none when one is not valid.
pub open spec fn attrs_fold(account: JsonV, attrs: Seq<JsonV>, n: int, ad: Seq<(Seq<char>, JsonV)>) -> Option<Seq<(Seq<char>, JsonV)>>
    decreases n,
{
    if n <= 0 {
        Some(ad)
    } else {
        match attrs_fold(account, attrs, n - 1, ad) {
            None => None,
            Some(a) => {
                let key = attr_name(attrs[n - 1]);
                let (valid, nested) = attr_check(account, key);
                if !valid {
                    None
                } else if nested {
                    Some(
                        members_insert(
                            a,
                            last_part(key),
                            match deep_get_key(account, key) {
                                Some(x) => x,
                                None => JsonV::Null,
                            },
                        ),
                    )
                } else {
                    Some(members_insert(a, key, index_or_null(account, key)))
                }
            },
        }
    }
}

/// The index an entry of `algorithm_configuration_idxs` names.
pub open spec fn idx_value(v: JsonV) -> Option<int> {
    match v {
        JsonV::Num(NumV::Int(i)) => if i >= 0 {
            Some(i)
        } else {
            None
        },
        JsonV::Num(NumV::BigUInt(u)) => Some(u as int),
        _ => None,
    }
}

/// The `config_json` of the account's algorithm configuration `i` (null
/// when there is none).
pub open spec fn config_entry(account: JsonV, i: Option<int>) -> JsonV {
    match index_or_null(account, "algorithm_configurations"@) {
        JsonV::Arr(a) => match i {
            Some(k) => if 0 <= k < a.len() {
                index_or_null(a[k], "config_json"@)
            } else {
                JsonV::Null
            },
            None => JsonV::Null,
        },
        _ => JsonV::Null,
    }
}

/// The account data after the first `n` required algorithm
/// configurations; none when one is missing or empty.
pub open spec fn idx_fold(account: JsonV, idxs: Seq<JsonV>, n: int, ad: Seq<(Seq<char>, JsonV)>) -> Option<Seq<(Seq<char>, JsonV)>>
    decreases n,
{
    if n <= 0 {
        Some(ad)
    } else {
        match idx_fold(account, idxs, n - 1, ad) {
            None => None,
            Some(a) => {
                let entry = config_entry(account, idx_value(idxs[n - 1]));
                if !truthy(entry) {
                    None
                } else {
                    Some(members_insert(a, "algorithm_configurations"@, entry))
                }
            },
        }
    }
}

/// The message a job publishes for an account, if the account meets the
/// job's requirements: permissions, account attributes, algorithm
/// configurations.
pub open spec fn message_payload(account: JsonV, job: JsonV) -> Option<JsonV> {
    let attrs = arr_or_empty(index_or_null(at2(job, "job_meta"@, "required_configurations"@), "account_attributes"@));
    let idxs = arr_or_empty(index_or_null(at2(job, "job_meta"@, "required_configurations"@), "algorithm_configuration_idxs"@));
    if !permissions_ok(account, job) {
        None
    } else {
        match attrs_fold(account, attrs, attrs.len() as int, seq![("account_id"@, index_or_null(account, "_id"@))]) {
            None => None,
            Some(ad1) => match idx_fold(account, idxs, idxs.len() as int, ad1) {
                None => None,
                Some(ad2) => Some(
                    JsonV::Obj(
                        seq![
                            ("account_data"@, JsonV::Obj(ad2)),
                            ("octy_job_id"@, index_or_null(job, "_id"@)),
                            ("job_data"@, index_or_null(job, "job_data"@)),
                        ],
                    ),
                ),
            },
        }
    }
}

/// `v[key]`, a copy (null when absent).
fn get_or_null(v: &Json, key: &str) -> (r: Json)
    ensures
        r@ == index_or_null(v@, key@),
{
    match v.get(key) {
        Some(x) => x.deep_clone(),
        None => Json::Null,
    }
}

/// `v[key]` by reference, when present.
fn list_at<'a>(v: &'a Json, path: &[&str]) -> (r: Option<&'a Vec<Json>>)
    requires
        path@.len() == 2 || path@.len() == 3,
    ensures
        path@.len() == 2 ==> arr_or_empty(at2(v@, path@[0]@, path@[1]@)) == match r {
            Some(a) => view_seq(a@),
            None => Seq::<JsonV>::empty(),
        },
        path@.len() == 3 ==> arr_or_empty(index_or_null(at2(v@, path@[0]@, path@[1]@), path@[2]@)) == match r {
            Some(a) => view_seq(a@),
            None => Seq::<JsonV>::empty(),
        },
{
    let a = match v.get(path[0]) {
        Some(x) => x,
        None => return None,
    };
    let b = match a.get(path[1]) {
        Some(x) => x,
        None => return None,
    };
    if path.len() == 2 {
        return b.as_array();
    }
    match b.get(path[2]) {
        Some(x) => x.as_array(),
        None => None,
    }
}

fn contains_json(held: &Vec<Json>, p: &Json) -> (r: bool)
    ensures
        r == held_by(p@, view_seq(held@)),
{
    proof {
        lemma_view_seq(held@);
    }
    let ghost hv = view_seq(held@);
    let mut j: usize = 0;
    while j < held.len()
        invariant
            j <= held@.len(),
            hv == view_seq(held@),
            hv.len() == held@.len(),
            forall|k: int| 0 <= k < held@.len() ==> #[trigger] hv[k] == held@[k]@,
            forall|k: int| 0 <= k < j ==> !json_eq(p@, #[trigger] hv[k]),
        decreases held@.len() - j,
    {
        assert(hv[j as int] == held@[j as int]@);
        if json_equal(p, &held[j]) {
            return true;
        }
        j = j + 1;
    }
    false
}

fn empty_object() -> (r: Json)
    ensures
        r@ == JsonV::Obj(seq![]),
{
    let m: Vec<(String, Json)> = Vec::new();
    proof {
        crate::json::lemma_view_members(m@);
        assert(crate::json::view_members(m@) =~= Seq::<(Seq<char>, JsonV)>::empty());
    }
    Json::Object(m)
}

/// The `config_json` of the account's algorithm configuration named by
/// `idx`, a copy.
fn config_entry_of(account: &Json, idx: &Json) -> (r: Json)
    ensures
        r@ == config_entry(account@, idx_value(idx@)),
{
    let i: Option<u64> = match idx {
        Json::Number(JsonNumber::Int(i)) => if *i >= 0 {
            Some(*i as u64)
        } else {
            None
        },
        Json::Number(JsonNumber::BigUInt(u)) => Some(*u),
        _ => None,
    };
    let confs = match account.get("algorithm_configurations") {
        Some(c) => match c.as_array() {
            Some(a) => a,
            None => return Json::Null,
        },
        None => return Json::Null,
    };
    proof {
        lemma_view_seq(confs@);
    }
    match i {
        Some(k) => {
            if k < confs.len() as u64 {
                assert(view_seq(confs@)[k as int] == confs@[k as int]@);
                get_or_null(&confs[k as usize], "config_json")
            } else {
                Json::Null
            }
        },
        None => Json::Null,
    }
}

/// The message a job publishes for an account: `(true, payload)` when the
/// account meets the job's requirements, else `(false, {})`.
#[verifier::rlimit(40)]
pub fn build_message_payload(account: &Json, job: &Json) -> (r: (bool, Json))
    ensures
        match message_payload(account@, job@) {
            Some(p) => r.0 && r.1@ == p,
            None => !r.0 && r.1@ == JsonV::Obj(seq![]),
        },
{
    let required = list_at(job, &["job_meta", "required_permissions"]);
    let empty: Vec<Json> = Vec::new();
    proof {
        lemma_view_seq(empty@);
        assert(view_seq(empty@) =~= Seq::<JsonV>::empty());
    }
    let held: &Vec<Json> = match account.get("permissions") {
        Some(p) => match p.as_array() {
            Some(a) => a,
            None => &empty,
        },
        None => &empty,
    };
    assert(view_seq(held@) == arr_or_empty(index_or_null(account@, "permissions"@)));
    let required: &Vec<Json> = match required {
        Some(a) => a,
        None => &empty,
    };
    let ghost rv = view_seq(required@);
    proof {
        lemma_view_seq(required@);
    }
    assert(rv == arr_or_empty(at2(job@, "job_meta"@, "required_permissions"@)));
    let mut i: usize = 0;
    while i < required.len()
        invariant
            i <= required@.len(),
            rv == view_seq(required@),
            rv.len() == required@.len(),
            forall|k: int| 0 <= k < required@.len() ==> #[trigger] rv[k] == required@[k]@,
            forall|k: int| 0 <= k < i ==> held_by(#[trigger] rv[k], view_seq(held@)),
            rv == arr_or_empty(at2(job@, "job_meta"@, "required_permissions"@)),
            view_seq(held@) == arr_or_empty(index_or_null(account@, "permissions"@)),
        decreases required@.len() - i,
    {
        assert(rv[i as int] == required@[i as int]@);
        if !contains_json(held, &required[i]) {
            return (false, empty_object());
        }
        i = i + 1;
    }
    assert(permissions_ok(account@, job@));
    let mut ad: Vec<(String, Json)> = Vec::new();
    ad.push((copy_str("account_id"), get_or_null(account, "_id")));
    proof {
        crate::json::lemma_view_members(ad@);
        assert(crate::json::view_members(ad@) =~= seq![("account_id"@, index_or_null(account@, "_id"@))]);
    }
    let ghost ad0 = crate::json::view_members(ad@);
    let attrs: &Vec<Json> = match list_at(job, &["job_meta", "required_configurations", "account_attributes"]) {
        Some(a) => a,
        None => &empty,
    };
    let ghost av = view_seq(attrs@);
    proof {
        lemma_view_seq(attrs@);
    }
    let mut k: usize = 0;
    while k < attrs.len()
        invariant
            k <= attrs@.len(),
            av == view_seq(attrs@),
            av.len() == attrs@.len(),
            forall|q: int| 0 <= q < attrs@.len() ==> #[trigger] av[q] == attrs@[q]@,
            attrs_fold(account@, av, k as int, ad0) == Some(crate::json::view_members(ad@)),
            av == arr_or_empty(index_or_null(at2(job@, "job_meta"@, "required_configurations"@), "account_attributes"@)),
            permissions_ok(account@, job@),
            ad0 == seq![("account_id"@, index_or_null(account@, "_id"@))],
        decreases attrs@.len() - k,
    {
        assert(av[k as int] == attrs@[k as int]@);
        let key: String = match attrs[k].as_str() {
            Some(s) => copy_str(s),
            None => String::new(),
        };
        assert(key@ == attr_name(av[k as int]));
        let (valid, nested) = validate_account_attr(account, key.as_str());
        if !valid {
            proof {
                lemma_attrs_none(account@, av, k as int + 1, ad0);
            }
            return (false, empty_object());
        }
        if nested {
            let kc = chars_of(key.as_str());
            let parts = split_on(&kc, &['.']);
            assert(['.']@ =~= seq!['.']);
            let last = string_of(&parts[parts.len() - 1]);
            assert(parts@.map_values(|p: Vec<char>| p@).last() == parts@[parts@.len() - 1]@);
            let val = match deep_get(account, key.as_str()) {
                Some(x) => x.deep_clone(),
                None => Json::Null,
            };
            insert_member(&mut ad, last.as_str(), val);
        } else {
            insert_member(&mut ad, key.as_str(), get_or_null(account, key.as_str()));
        }
        k = k + 1;
    }
    let ghost ad1 = crate::json::view_members(ad@);
    let idxs: &Vec<Json> = match list_at(job, &["job_meta", "required_configurations", "algorithm_configuration_idxs"]) {
        Some(a) => a,
        None => &empty,
    };
    let ghost iv = view_seq(idxs@);
    proof {
        lemma_view_seq(idxs@);
    }
    let mut k: usize = 0;
    while k < idxs.len()
        invariant
            k <= idxs@.len(),
            iv == view_seq(idxs@),
            iv.len() == idxs@.len(),
            forall|q: int| 0 <= q < idxs@.len() ==> #[trigger] iv[q] == idxs@[q]@,
            idx_fold(account@, iv, k as int, ad1) == Some(crate::json::view_members(ad@)),
            iv == arr_or_empty(index_or_null(at2(job@, "job_meta"@, "required_configurations"@), "algorithm_configuration_idxs"@)),
            av == arr_or_empty(index_or_null(at2(job@, "job_meta"@, "required_configurations"@), "account_attributes"@)),
            attrs_fold(account@, av, av.len() as int, ad0) == Some(ad1),
            permissions_ok(account@, job@),
            ad0 == seq![("account_id"@, index_or_null(account@, "_id"@))],
        decreases idxs@.len() - k,
    {
        assert(iv[k as int] == idxs@[k as int]@);
        let entry = config_entry_of(account, &idxs[k]);
        if !entry.truthy() {
            proof {
                lemma_idx_none(account@, iv, k as int + 1, ad1);
            }
            return (false, empty_object());
        }
        insert_member(&mut ad, "algorithm_configurations", entry);
        k = k + 1;
    }
    let payload = vec![
        (copy_str("account_data"), Json::Object(ad)),
        (copy_str("octy_job_id"), get_or_null(job, "_id")),
        (copy_str("job_data"), get_or_null(job, "job_data")),
    ];
    proof {
        crate::json::lemma_view_members(payload@);
        assert(crate::json::view_members(payload@) =~= seq![
            ("account_data"@, JsonV::Obj(crate::json::view_members(ad@))),
            ("octy_job_id"@, index_or_null(job@, "_id"@)),
            ("job_data"@, index_or_null(job@, "job_data"@)),
        ]);
    }
    let r = Json::Object(payload);
    assert(r@ == message_payload(account@, job@)->0);
    (true, r)
}

proof fn lemma_attrs_none(account: JsonV, attrs: Seq<JsonV>, n: int, ad: Seq<(Seq<char>, JsonV)>)
    requires
        0 < n <= attrs.len(),
        attrs_fold(account, attrs, n, ad) is None,
    ensures
        attrs_fold(account, attrs, attrs.len() as int, ad) is None,
    decreases attrs.len() - n,
{
    if n < attrs.len() {
        lemma_attrs_none(account, attrs, n + 1, ad);
    }
}

proof fn lemma_idx_none(account: JsonV, idxs: Seq<JsonV>, n: int, ad: Seq<(Seq<char>, JsonV)>)
    requires
        0 < n <= idxs.len(),
        idx_fold(account, idxs, n, ad) is None,
    ensures
        idx_fold(account, idxs, idxs.len() as int, ad) is None,
    decreases idxs.len() - n,
{
    if n < idxs.len() {
        lemma_idx_none(account, idxs, n + 1, ad);
    }
}

} // verus!
