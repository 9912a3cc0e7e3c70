//! The type of each profile key: every `profile_data` and `platform_info`
//! key keeps the JSON type it was first seen with, within a request and
//! across the account's stored key types.

use vstd::prelude::*;
use crate::json::{lemma_view_members, view_members, Json, JsonV, NumV};
use crate::text::{concat2, concat3, copy_str, str_eq};
use crate::messaging::engine::pairs_view;
use crate::fields::strings_view;

verus! {

/// The type name of a JSON value, as `str(type(v))` names it.
pub open spec fn value_type_name(v: JsonV) -> Seq<char> {
    match v {
        JsonV::Null => "<class 'NoneType'>"@,
        JsonV::Bool(_) => "<class 'bool'>"@,
        JsonV::Num(NumV::Float { .. }) => "<class 'float'>"@,
        JsonV::Num(_) => "<class 'int'>"@,
        JsonV::Str(_) => "<class 'str'>"@,
        JsonV::Arr(_) => "<class 'list'>"@,
        JsonV::Obj(_) => "<class 'dict'>"@,
    }
}

/// The type name of a JSON value.
pub fn py_type_str(v: &Json) -> (r: String)
    ensures
        r@ == value_type_name(v@),
{
    match v {
        Json::Null => copy_str("<class 'NoneType'>"),
        Json::Bool(_) => copy_str("<class 'bool'>"),
        Json::Number(crate::json::JsonNumber::Float(_)) => copy_str("<class 'float'>"),
        Json::Number(_) => copy_str("<class 'int'>"),
        Json::Str(_) => copy_str("<class 'str'>"),
        Json::Array(_) => copy_str("<class 'list'>"),
        Json::Object(_) => copy_str("<class 'dict'>"),
    }
}

/// The members of an object; none for another value.
pub open spec fn members_of(v: Option<JsonV>) -> Seq<(Seq<char>, JsonV)> {
    match v {
        Some(JsonV::Obj(m)) => m,
        _ => seq![],
    }
}

/// The key-type pairs found so far: `(key, type)` in first-seen order, or
/// the error that ends the scan.
pub type KeyTypes = Result<Seq<(Seq<char>, Seq<char>)>, Seq<char>>;

/// The position of `key` among the pairs; their length when absent.
pub open spec fn pair_index(m: Seq<(Seq<char>, Seq<char>)>, key: Seq<char>) -> int
    decreases m.len(),
{
    if m.len() == 0 {
        0
    } else if m[0].0 == key {
        0
    } else {
        1 + pair_index(m.drop_first(), key)
    }
}

/// The duplicate-key error of a profile.
pub open spec fn duplicate_key_msg(k: Seq<char>, customer_id: Seq<char>) -> Seq<char> {
    "Duplicate key: '"@ + k + "', provided in profile with customer_id: "@ + customer_id
}

/// The first of the first `n` keys of `keys` that occurs earlier in
/// `keys` (from index 0).
pub open spec fn first_repeated_key(keys: Seq<Seq<char>>, n: int) -> Option<Seq<char>>
    decreases n,
{
    if n <= 0 {
        None
    } else {
        match first_repeated_key(keys, n - 1) {
            Some(k) => Some(k),
            None => if exists|j: int| 0 <= j < n - 1 && #[trigger] keys[j] == keys[n - 1] {
                Some(keys[n - 1])
            } else {
                None
            },
        }
    }
}

/// The type error of a key typed differently by two profiles of a request.
pub open spec fn request_type_msg(k: Seq<char>, first: Seq<char>, now: Seq<char>) -> Seq<char> {
    "Invalid type provided for key '"@ + k + "'. Got type "@ + first + " expected type "@ + now
        + " according the data type of the value for the first instance of the key: "@ + k + "."@
}

/// Adds the first `n` members to the pairs, stopping at a type mismatch.
pub open spec fn add_types(acc: Seq<(Seq<char>, Seq<char>)>, m: Seq<(Seq<char>, JsonV)>, n: int) -> KeyTypes
    decreases n,
{
    if n <= 0 {
        Ok(acc)
    } else {
        match add_types(acc, m, n - 1) {
            Err(e) => Err(e),
            Ok(a) => {
                let (k, v) = m[n - 1];
                let i = pair_index(a, k);
                if i < a.len() {
                    if a[i].1 != value_type_name(v) {
                        Err(request_type_msg(k, a[i].1, value_type_name(v)))
                    } else {
                        Ok(a)
                    }
                } else {
                    Ok(a.push((k, value_type_name(v))))
                }
            },
        }
    }
}

/// The key types of one profile added to `acc`.
pub open spec fn profile_types(acc: Seq<(Seq<char>, Seq<char>)>, profile: JsonV) -> KeyTypes {
    let pi = members_of(profile.get("platform_info"@));
    let pd = members_of(profile.get("profile_data"@));
    let cid = match profile.get("customer_id"@) {
        Some(JsonV::Str(s)) => s,
        _ => seq![],
    };
    let keys = pi.map_values(|e: (Seq<char>, JsonV)| e.0) + pd.map_values(|e: (Seq<char>, JsonV)| e.0);
    match first_repeated_key(keys, keys.len() as int) {
        Some(k) => Err(duplicate_key_msg(k, cid)),
        None => add_types(acc, pi + pd, (pi + pd).len() as int),
    }
}

/// The key types of the first `n` profiles of a request.
pub open spec fn request_key_types(profiles: Seq<JsonV>, n: int) -> KeyTypes
    decreases n,
{
    if n <= 0 {
        Ok(seq![])
    } else {
        match request_key_types(profiles, n - 1) {
            Err(e) => Err(e),
            Ok(acc) => profile_types(acc, profiles[n - 1]),
        }
    }
}

proof fn lemma_repeated_key_stays(keys: Seq<Seq<char>>, k: int, n: int)
    requires
        k <= n,
        first_repeated_key(keys, k) is Some,
    ensures
        first_repeated_key(keys, n) == first_repeated_key(keys, k),
    decreases n - k,
{
    if k < n {
        lemma_repeated_key_stays(keys, k, n - 1);
    }
}

proof fn lemma_pair_index(m: Seq<(Seq<char>, Seq<char>)>, key: Seq<char>)
    ensures
        0 <= pair_index(m, key) <= m.len(),
        pair_index(m, key) < m.len() ==> m[pair_index(m, key)].0 == key,
        forall|j: int| 0 <= j < pair_index(m, key) ==> (#[trigger] m[j]).0 != key,
    decreases m.len(),
{
    if m.len() > 0 && m[0].0 != key {
        lemma_pair_index(m.drop_first(), key);
        assert forall|j: int| 0 <= j < pair_index(m, key) implies (#[trigger] m[j]).0 != key by {
            if j > 0 {
                assert(m[j] == m.drop_first()[j - 1]);
            }
        }
    }
}

proof fn lemma_pair_index_push(m: Seq<(Seq<char>, Seq<char>)>, key: Seq<char>, e: (Seq<char>, Seq<char>))
    requires
        pair_index(m, key) < m.len(),
    ensures
        pair_index(m.push(e), key) == pair_index(m, key),
    decreases m.len(),
{
    if m[0].0 != key {
        assert(m.push(e).drop_first() =~= m.drop_first().push(e));
        lemma_pair_index_push(m.drop_first(), key, e);
    }
}

proof fn lemma_add_types_err(acc: Seq<(Seq<char>, Seq<char>)>, m: Seq<(Seq<char>, JsonV)>, k: int, n: int)
    requires
        k <= n,
        add_types(acc, m, k) is Err,
    ensures
        add_types(acc, m, n) == add_types(acc, m, k),
    decreases n - k,
{
    if k < n {
        lemma_add_types_err(acc, m, k, n - 1);
    }
}

proof fn lemma_request_err(profiles: Seq<JsonV>, k: int, n: int)
    requires
        k <= n,
        request_key_types(profiles, k) is Err,
    ensures
        request_key_types(profiles, n) == request_key_types(profiles, k),
    decreases n - k,
{
    if k < n {
        lemma_request_err(profiles, k, n - 1);
    }
}

fn key_index(a: &Vec<(String, String)>, k: &str) -> (r: usize)
    ensures
        r as int == pair_index(pairs_view(a@), k@),
{
    let ghost av = pairs_view(a@);
    proof {
        lemma_pair_index(av, k@);
    }
    let mut i: usize = 0;
    while i < a.len()
        invariant
            i <= a@.len(),
            av == pairs_view(a@),
            av.len() == a@.len(),
            0 <= pair_index(av, k@) <= av.len(),
            pair_index(av, k@) < av.len() ==> av[pair_index(av, k@)].0 == k@,
            forall|j: int| 0 <= j < pair_index(av, k@) ==> (#[trigger] av[j]).0 != k@,
            i <= pair_index(av, k@),
        decreases a@.len() - i,
    {
        assert(av[i as int] == (a@[i as int].0@, a@[i as int].1@));
        if str_eq(a[i].0.as_str(), k) {
            return i;
        }
        i = i + 1;
    }
    i
}

/// Adds the members of `m` to the types of `acc`, stopping at a mismatch.
fn add_member_types(acc: &mut Vec<(String, String)>, m: &Vec<(String, Json)>) -> (r: Option<String>)
    ensures
        match r {
            None => add_types(pairs_view(old(acc)@), view_members(m@), m@.len() as int) == Ok::<Seq<(Seq<char>, Seq<char>)>, Seq<char>>(pairs_view(final(acc)@)),
            Some(e) => add_types(pairs_view(old(acc)@), view_members(m@), m@.len() as int) == Err::<Seq<(Seq<char>, Seq<char>)>, Seq<char>>(e@),
        },
{
    proof {
        lemma_view_members(m@);
    }
    let ghost start = pairs_view(acc@);
    let ghost mv = view_members(m@);
    let mut i: usize = 0;
    while i < m.len()
        invariant
            i <= m@.len(),
            mv == view_members(m@),
            mv.len() == m@.len(),
            forall|q: int| 0 <= q < m@.len() ==> #[trigger] mv[q] == (m@[q].0@, m@[q].1@),
            start == pairs_view(old(acc)@),
            add_types(start, mv, i as int) == Ok::<Seq<(Seq<char>, Seq<char>)>, Seq<char>>(pairs_view(acc@)),
        decreases m@.len() - i,
    {
        assert(mv[i as int] == (m@[i as int].0@, m@[i as int].1@));
        let k = m[i].0.as_str();
        let t = py_type_str(&m[i].1);
        let j = key_index(acc, k);
        proof {
            lemma_pair_index(pairs_view(acc@), k@);
        }
        if j < acc.len() {
            assert(pairs_view(acc@)[j as int] == (acc@[j as int].0@, acc@[j as int].1@));
            if !str_eq(acc[j].1.as_str(), t.as_str()) {
                let a = concat3("Invalid type provided for key '", k, "'. Got type ");
                let b = concat3(a.as_str(), acc[j].1.as_str(), " expected type ");
                let c = concat3(b.as_str(), t.as_str(), " according the data type of the value for the first instance of the key: ");
                let d = concat3(c.as_str(), k, ".");
                assert(d@ =~= request_type_msg(k@, acc@[j as int].1@, t@));
                proof {
                    assert(add_types(start, mv, i + 1) == Err::<Seq<(Seq<char>, Seq<char>)>, Seq<char>>(d@));
                    lemma_add_types_err(start, mv, i + 1, mv.len() as int);
                }
                return Some(d);
            }
        } else {
            let ghost before = acc@;
            acc.push((copy_str(k), t));
            assert(pairs_view(acc@) =~= pairs_view(before).push((k@, value_type_name(m@[i as int].1@))));
        }
        i = i + 1;
    }
    None
}

fn push_keys(keys: &mut Vec<String>, m: &Vec<(String, Json)>)
    ensures
        strings_view(final(keys)@) == strings_view(old(keys)@) + view_members(m@).map_values(|e: (Seq<char>, JsonV)| e.0),
{
    proof {
        lemma_view_members(m@);
    }
    let ghost start = strings_view(keys@);
    let mut i: usize = 0;
    while i < m.len()
        invariant
            i <= m@.len(),
            view_members(m@).len() == m@.len(),
            forall|q: int| 0 <= q < m@.len() ==> #[trigger] view_members(m@)[q] == (m@[q].0@, m@[q].1@),
            start == strings_view(old(keys)@),
            strings_view(keys@) == start + view_members(m@).map_values(|e: (Seq<char>, JsonV)| e.0).take(i as int),
        decreases m@.len() - i,
    {
        let ghost before = strings_view(keys@);
        let ghost ks = view_members(m@).map_values(|e: (Seq<char>, JsonV)| e.0);
        keys.push(copy_str(m[i].0.as_str()));
        assert(view_members(m@)[i as int] == (m@[i as int].0@, m@[i as int].1@));
        assert(ks[i as int] == m@[i as int].0@);
        assert(ks.take(i + 1) =~= ks.take(i as int).push(ks[i as int]));
        assert(strings_view(keys@) =~= before.push(m@[i as int].0@));
        assert(strings_view(keys@) =~= start + ks.take(i + 1));
        i = i + 1;
    }
    assert(view_members(m@).map_values(|e: (Seq<char>, JsonV)| e.0).take(m@.len() as int) =~= view_members(m@).map_values(|e: (Seq<char>, JsonV)| e.0));
}

fn repeated_key(keys: &Vec<String>) -> (r: Option<String>)
    ensures
        match r {
            Some(k) => first_repeated_key(strings_view(keys@), keys@.len() as int) == Some(k@),
            None => first_repeated_key(strings_view(keys@), keys@.len() as int) is None,
        },
{
    let ghost kv = strings_view(keys@);
    let mut i: usize = 0;
    while i < keys.len()
        invariant
            i <= keys@.len(),
            kv == strings_view(keys@),
            kv.len() == keys@.len(),
            first_repeated_key(kv, i as int) is None,
        decreases keys@.len() - i,
    {
        let k = keys[i].as_str();
        let mut j: usize = 0;
        while j < i
            invariant
                j <= i < keys@.len(),
                kv == strings_view(keys@),
                kv.len() == keys@.len(),
                k@ == kv[i as int],
                first_repeated_key(kv, i as int) is None,
                forall|q: int| 0 <= q < j ==> #[trigger] kv[q] != k@,
            decreases i - j,
        {
            if str_eq(keys[j].as_str(), k) {
                proof {
                    assert(kv[j as int] == kv[i as int]);
                    assert(first_repeated_key(kv, i + 1) == Some(k@));
                    lemma_repeated_key_stays(kv, i + 1, kv.len() as int);
                }
                return Some(copy_str(k));
            }
            j = j + 1;
        }
        i = i + 1;
    }
    None
}

fn object_members<'a>(v: Option<&'a Json>, empty: &'a Vec<(String, Json)>) -> (r: &'a Vec<(String, Json)>)
    requires
        empty@.len() == 0,
    ensures
        view_members(r@) == members_of(match v {
            Some(x) => Some(x@),
            None => None,
        }),
{
    proof {
        lemma_view_members(empty@);
    }
    assert(view_members(empty@) =~= Seq::<(Seq<char>, JsonV)>::empty());
    match v {
        Some(Json::Object(m)) => m,
        _ => empty,
    }
}

/// The key types of a request's profiles, in first-seen order; the error
/// of a key given twice in a profile or with two types.
pub fn build_key_types(profiles: &Vec<Json>) -> (r: Result<Vec<(String, String)>, String>)
    ensures
        match r {
            Ok(a) => request_key_types(crate::json::view_seq(profiles@), profiles@.len() as int) == Ok::<Seq<(Seq<char>, Seq<char>)>, Seq<char>>(pairs_view(a@)),
            Err(e) => request_key_types(crate::json::view_seq(profiles@), profiles@.len() as int) == Err::<Seq<(Seq<char>, Seq<char>)>, Seq<char>>(e@),
        },
{
    proof {
        crate::json::lemma_view_seq(profiles@);
    }
    let ghost pv = crate::json::view_seq(profiles@);
    let empty: Vec<(String, Json)> = Vec::new();
    let mut acc: Vec<(String, String)> = Vec::new();
    assert(pairs_view(acc@) =~= Seq::<(Seq<char>, Seq<char>)>::empty());
    let mut n: usize = 0;
    while n < profiles.len()
        invariant
            n <= profiles@.len(),
            pv == crate::json::view_seq(profiles@),
            pv.len() == profiles@.len(),
            forall|q: int| 0 <= q < profiles@.len() ==> #[trigger] pv[q] == profiles@[q]@,
            empty@.len() == 0,
            request_key_types(pv, n as int) == Ok::<Seq<(Seq<char>, Seq<char>)>, Seq<char>>(pairs_view(acc@)),
        decreases profiles@.len() - n,
    {
        assert(pv[n as int] == profiles@[n as int]@);
        let p = &profiles[n];
        let pi = object_members(p.get("platform_info"), &empty);
        let pd = object_members(p.get("profile_data"), &empty);
        let cid: &str = match p.get("customer_id") {
            Some(Json::Str(s)) => s.as_str(),
            _ => "",
        };
        let mut keys: Vec<String> = Vec::new();
        assert(strings_view(keys@) =~= Seq::<Seq<char>>::empty());
        push_keys(&mut keys, pi);
        push_keys(&mut keys, pd);
        let ghost kseq = view_members(pi@).map_values(|e: (Seq<char>, JsonV)| e.0) + view_members(pd@).map_values(|e: (Seq<char>, JsonV)| e.0);
        assert(strings_view(keys@) =~= kseq);
        match repeated_key(&keys) {
            Some(k) => {
                proof {
                    reveal_strlit("");
                }
                let a = concat3("Duplicate key: '", k.as_str(), "', provided in profile with customer_id: ");
                let e = concat2(a.as_str(), cid);
                assert(e@ =~= duplicate_key_msg(k@, match pv[n as int].get("customer_id"@) {
                    Some(JsonV::Str(s)) => s,
                    _ => seq![],
                }));
                proof {
                    lemma_request_err(pv, n + 1, pv.len() as int);
                }
                return Err(e);
            },
            None => {},
        }
        let mut all = crate::json::clone_members(pi);
        let mut more = crate::json::clone_members(pd);
        proof {
            lemma_view_members(all@);
            lemma_view_members(more@);
        }
        let ghost a0 = all@;
        let ghost b0 = more@;
        all.append(&mut more);
        assert(all@ =~= a0 + b0);
        proof {
            lemma_view_members(a0);
            lemma_view_members(b0);
            lemma_view_members(all@);
            lemma_view_members(pi@);
            lemma_view_members(pd@);
        }
        assert(view_members(all@) =~= view_members(pi@) + view_members(pd@));
        match add_member_types(&mut acc, &all) {
            Some(e) => {
                proof {
                    lemma_request_err(pv, n + 1, pv.len() as int);
                }
                return Err(e);
            },
            None => {},
        }
        n = n + 1;
    }
    Ok(acc)
}

/// The stored type of `key` among the account's key-type documents: the
/// first document for the key (its `type_`, empty unless a string).
pub open spec fn stored_type(existing: Seq<JsonV>, key: Seq<char>, i: int) -> Option<Seq<char>>
    decreases existing.len() - i,
{
    if i < 0 || i >= existing.len() {
        None
    } else if existing[i].get("key"@) == Some(JsonV::Str(key)) {
        match existing[i].get("type_"@) {
            Some(JsonV::Str(t)) => Some(t),
            _ => Some(seq![]),
        }
    } else {
        stored_type(existing, key, i + 1)
    }
}

/// The type error of a key whose stored type differs.
pub open spec fn stored_type_msg(k: Seq<char>, now: Seq<char>, stored: Seq<char>) -> Seq<char> {
    "Invalid type provided for key '"@ + k + "'. Got type "@ + now + " expected type "@ + stored
}

/// Checks the first `n` new key types against the stored ones: the keys
/// to record (those the account has no type for, every key when it has
/// none), up to the first mismatch, and that mismatch's error.
pub open spec fn key_types_check(new_types: Seq<(Seq<char>, Seq<char>)>, existing: Seq<JsonV>, n: int) -> (Seq<(Seq<char>, Seq<char>)>, Option<Seq<char>>)
    decreases n,
{
    if n <= 0 {
        (seq![], None)
    } else {
        let (rec, err) = key_types_check(new_types, existing, n - 1);
        if err is Some {
            (rec, err)
        } else {
            let (k, t) = new_types[n - 1];
            if existing.len() == 0 {
                (rec.push((k, t)), None)
            } else {
                match stored_type(existing, k, 0) {
                    Some(st) => if st != t {
                        (rec, Some(stored_type_msg(k, t, st)))
                    } else {
                        (rec, None)
                    },
                    None => (rec.push((k, t)), None),
                }
            }
        }
    }
}

fn stored_type_of(existing: &Vec<Json>, key: &str) -> (r: Option<String>)
    ensures
        match r {
            Some(t) => stored_type(crate::json::view_seq(existing@), key@, 0) == Some(t@),
            None => stored_type(crate::json::view_seq(existing@), key@, 0) is None,
        },
{
    proof {
        crate::json::lemma_view_seq(existing@);
        reveal_strlit("");
    }
    let ghost ev = crate::json::view_seq(existing@);
    let mut i: usize = 0;
    while i < existing.len()
        invariant
            i <= existing@.len(),
            ev == crate::json::view_seq(existing@),
            ev.len() == existing@.len(),
            forall|q: int| 0 <= q < existing@.len() ==> #[trigger] ev[q] == existing@[q]@,
            stored_type(ev, key@, 0) == stored_type(ev, key@, i as int),
        decreases existing@.len() - i,
    {
        assert(ev[i as int] == existing@[i as int]@);
        let hit = match existing[i].get("key") {
            Some(Json::Str(s)) => str_eq(s.as_str(), key),
            _ => false,
        };
        if hit {
            assert(ev[i as int].get("key"@) == Some(JsonV::Str(key@)));
            proof {
                reveal_strlit("");
            }
            let t: String = match existing[i].get("type_") {
                Some(Json::Str(t)) => copy_str(t.as_str()),
                _ => copy_str(""),
            };
            assert(stored_type(ev, key@, i as int) == Some(t@));
            return Some(t);
        }
        i = i + 1;
    }
    None
}

/// Checks a request's key types against the account's stored ones: the
/// key types to record, and the error of the first key stored with
/// another type (the keys before it are recorded all the same).
pub fn check_key_types(new_types: &Vec<(String, String)>, existing: &Vec<Json>) -> (r: (Vec<(String, String)>, Option<String>))
    ensures
        key_types_check(pairs_view(new_types@), crate::json::view_seq(existing@), new_types@.len() as int) == (
            pairs_view(r.0@),
            match r.1 {
                Some(e) => Some(e@),
                None => None::<Seq<char>>,
            },
        ),
{
    proof {
        crate::json::lemma_view_seq(existing@);
    }
    let ghost nv = pairs_view(new_types@);
    let ghost ev = crate::json::view_seq(existing@);
    let mut rec: Vec<(String, String)> = Vec::new();
    assert(pairs_view(rec@) =~= Seq::<(Seq<char>, Seq<char>)>::empty());
    let mut n: usize = 0;
    while n < new_types.len()
        invariant
            n <= new_types@.len(),
            nv == pairs_view(new_types@),
            ev == crate::json::view_seq(existing@),
            ev.len() == existing@.len(),
            key_types_check(nv, ev, n as int) == (pairs_view(rec@), None::<Seq<char>>),
        decreases new_types@.len() - n,
    {
        let k = new_types[n].0.as_str();
        let t = new_types[n].1.as_str();
        assert(nv[n as int] == (k@, t@));
        let ghost before = rec@;
        if existing.len() == 0 {
            rec.push((copy_str(k), copy_str(t)));
            assert(pairs_view(rec@) =~= pairs_view(before).push((k@, t@)));
        } else {
            match stored_type_of(existing, k) {
                Some(st) => {
                    if !str_eq(st.as_str(), t) {
                        let a = concat3("Invalid type provided for key '", k, "'. Got type ");
                        let b = concat3(a.as_str(), t, " expected type ");
                        let e = concat2(b.as_str(), st.as_str());
                        assert(e@ =~= stored_type_msg(k@, t@, st@));
                        proof {
                            lemma_check_err(nv, ev, n + 1, nv.len() as int);
                        }
                        return (rec, Some(e));
                    }
                },
                None => {
                    rec.push((copy_str(k), copy_str(t)));
                    assert(pairs_view(rec@) =~= pairs_view(before).push((k@, t@)));
                },
            }
        }
        n = n + 1;
    }
    (rec, None)
}

proof fn lemma_check_err(new_types: Seq<(Seq<char>, Seq<char>)>, existing: Seq<JsonV>, k: int, n: int)
    requires
        k <= n,
        key_types_check(new_types, existing, k).1 is Some,
    ensures
        key_types_check(new_types, existing, n) == key_types_check(new_types, existing, k),
    decreases n - k,
{
    if k < n {
        lemma_check_err(new_types, existing, k, n - 1);
    }
}

proof fn lemma_add_types_distinct(acc: Seq<(Seq<char>, Seq<char>)>, m: Seq<(Seq<char>, JsonV)>, n: int)
    requires
        forall|i: int, j: int| 0 <= i < j < acc.len() ==> (#[trigger] acc[i]).0 != (#[trigger] acc[j]).0,
    ensures
        add_types(acc, m, n) matches Ok(a) ==> forall|i: int, j: int|
            0 <= i < j < a.len() ==> (#[trigger] a[i]).0 != (#[trigger] a[j]).0,
    decreases n,
{
    if n > 0 {
        lemma_add_types_distinct(acc, m, n - 1);
        match add_types(acc, m, n - 1) {
            Ok(a) => {
                let k = m[n - 1].0;
                lemma_pair_index(a, k);
                if pair_index(a, k) >= a.len() {
                    let b = a.push((k, value_type_name(m[n - 1].1)));
                    assert forall|i: int, j: int| 0 <= i < j < b.len() implies (#[trigger] b[i]).0 != (#[trigger] b[j]).0 by {
                        if j == a.len() {
                            assert(b[i] == a[i]);
                        } else {
                            assert(b[i] == a[i] && b[j] == a[j]);
                        }
                    }
                }
            },
            Err(_) => {},
        }
    }
}

/// A key gets one type: the key types of a request name each key once
/// (the type of its first instance).
pub proof fn law_request_key_types_name_each_key_once(profiles: Seq<JsonV>, n: int)
    ensures
        request_key_types(profiles, n) matches Ok(a) ==> forall|i: int, j: int|
            0 <= i < j < a.len() ==> (#[trigger] a[i]).0 != (#[trigger] a[j]).0,
    decreases n,
{
    if n > 0 {
        law_request_key_types_name_each_key_once(profiles, n - 1);
        match request_key_types(profiles, n - 1) {
            Ok(acc) => {
                let p = profiles[n - 1];
                let pi = members_of(p.get("platform_info"@));
                let pd = members_of(p.get("profile_data"@));
                lemma_add_types_distinct(acc, pi + pd, (pi + pd).len() as int);
            },
            Err(_) => {},
        }
    }
}

} // verus!
