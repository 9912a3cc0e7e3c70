//! The metadata of a provided profile identifier: whether a profile has it,
//! and whether that profile was merged, as parent or as child.

use vstd::prelude::*;
use crate::json::{lemma_view_members, lemma_view_seq, truthy, view_members, view_seq, Json, JsonV};
use crate::text::{copy_str, str_eq};

verus! {

/// Member `k` of `v` is the string `i`.
pub open spec fn has_str(v: JsonV, k: Seq<char>, i: Seq<char>) -> bool {
    v.get(k) == Some(JsonV::Str(i))
}

/// A profile has the identifier as its profile or customer id.
pub open spec fn profile_has_id(p: JsonV, i: Seq<char>) -> bool {
    has_str(p, "profile_id"@, i) || has_str(p, "customer_id"@, i)
}

/// A merge record has the identifier as its parent.
pub open spec fn parent_has_id(m: JsonV, i: Seq<char>) -> bool {
    has_str(m, "parent_profile_id"@, i) || has_str(m, "parent_customer_id"@, i)
}

/// Some profile of the list has the identifier.
pub open spec fn list_has_id(a: Seq<JsonV>, i: Seq<char>) -> bool {
    exists|k: int| 0 <= k < a.len() && profile_has_id(#[trigger] a[k], i)
}

/// A merge record lists the identifier among its merged profiles.
pub open spec fn child_has_id(m: JsonV, i: Seq<char>) -> bool {
    match m.get("merged_profiles"@) {
        Some(JsonV::Arr(a)) => list_has_id(a, i),
        _ => false,
    }
}

/// Which of the three identifier tests to apply to a record.
pub enum IdTest {
    Profile,
    Parent,
    Child,
}

/// The identifier test as a predicate on records.
pub open spec fn test_fn(t: IdTest, i: Seq<char>) -> spec_fn(JsonV) -> bool {
    match t {
        IdTest::Profile => |p: JsonV| profile_has_id(p, i),
        IdTest::Parent => |m: JsonV| parent_has_id(m, i),
        IdTest::Child => |m: JsonV| child_has_id(m, i),
    }
}

/// The first element (from `j` on) that satisfies `f`.
pub open spec fn first_where(s: Seq<JsonV>, f: spec_fn(JsonV) -> bool, j: int) -> Option<JsonV>
    decreases s.len() - j,
{
    if j < 0 || j >= s.len() {
        None
    } else if f(s[j]) {
        Some(s[j])
    } else {
        first_where(s, f, j + 1)
    }
}

/// Member `k` of the record, null when absent or null.
pub open spec fn value_or_null(o: Option<JsonV>, k: Seq<char>) -> JsonV {
    match o {
        Some(v) => match v.get(k) {
            Some(x) => x,
            None => JsonV::Null,
        },
        None => JsonV::Null,
    }
}

/// The truthy `merged_profiles` of a record, if any.
pub open spec fn truthy_merged(o: Option<JsonV>) -> Option<JsonV> {
    match o {
        Some(v) => match v.get("merged_profiles"@) {
            Some(x) => if truthy(x) {
                Some(x)
            } else {
                None
            },
            None => None,
        },
        None => None,
    }
}

/// The metadata of identifier `i`, given the account's profiles that have
/// one of the identifiers and its merge records.
pub open spec fn identifier_meta(i: Seq<char>, found: Seq<JsonV>, merged: Seq<JsonV>) -> JsonV {
    let exists_p = first_where(found, test_fn(IdTest::Profile, i), 0);
    let parent = first_where(merged, test_fn(IdTest::Parent, i), 0);
    let child = first_where(merged, test_fn(IdTest::Child, i), 0);
    let src = if parent is Some {
        parent
    } else {
        child
    };
    JsonV::Obj(seq![
        ("provided_identifier"@, JsonV::Str(i)),
        ("profile"@, JsonV::Obj(seq![
            ("profile_exists"@, JsonV::Bool(exists_p is Some)),
            ("profile_id"@, value_or_null(exists_p, "profile_id"@)),
            ("customer_id"@, value_or_null(exists_p, "customer_id"@)),
            ("created_at"@, value_or_null(exists_p, "created_at"@)),
            ("updated_at"@, value_or_null(exists_p, "updated_at"@)),
        ])),
        ("merged_info"@, JsonV::Obj(seq![
            ("was_merged"@, JsonV::Bool(parent is Some || child is Some)),
            ("merged_at"@, value_or_null(src, "merged_at"@)),
            ("authenticated_id_key"@, value_or_null(src, "authenticated_id_key"@)),
            ("authenticated_id_value"@, value_or_null(src, "authenticated_id_value"@)),
            ("parent_or_child"@, if parent is Some {
                JsonV::Str("parent_profile"@)
            } else if child is Some {
                JsonV::Str("child_profile"@)
            } else {
                JsonV::Null
            }),
            ("parent_profile"@, JsonV::Obj(seq![
                ("parent_profile_id"@, value_or_null(child, "parent_profile_id"@)),
                ("parent_customer_id"@, value_or_null(child, "parent_customer_id"@)),
            ])),
            ("merged_child_profiles"@, match truthy_merged(parent) {
                Some(x) => x,
                None => match truthy_merged(child) {
                    Some(x) => x,
                    None => JsonV::Arr(seq![]),
                },
            }),
        ])),
    ])
}

fn has_str_of(v: &Json, k: &str, i: &str) -> (r: bool)
    ensures
        r == has_str(v@, k@, i@),
{
    match v.get(k) {
        Some(Json::Str(s)) => str_eq(s.as_str(), i),
        _ => false,
    }
}

fn profile_has_id_of(p: &Json, i: &str) -> (r: bool)
    ensures
        r == profile_has_id(p@, i@),
{
    has_str_of(p, "profile_id", i) || has_str_of(p, "customer_id", i)
}

fn parent_has_id_of(m: &Json, i: &str) -> (r: bool)
    ensures
        r == parent_has_id(m@, i@),
{
    has_str_of(m, "parent_profile_id", i) || has_str_of(m, "parent_customer_id", i)
}

fn child_has_id_of(m: &Json, i: &str) -> (r: bool)
    ensures
        r == child_has_id(m@, i@),
{
    match m.get("merged_profiles") {
        Some(Json::Array(a)) => {
            proof {
                lemma_view_seq(a@);
            }
            let ghost av = view_seq(a@);
            let mut k: usize = 0;
            while k < a.len()
                invariant
                    k <= a@.len(),
                    av == view_seq(a@),
                    av.len() == a@.len(),
                    forall|q: int| 0 <= q < a@.len() ==> #[trigger] av[q] == a@[q]@,
                    forall|q: int| 0 <= q < k ==> !profile_has_id(#[trigger] av[q], i@),
                    m@.get("merged_profiles"@) == Some(JsonV::Arr(av)),
                decreases a@.len() - k,
            {
                assert(av[k as int] == a@[k as int]@);
                if profile_has_id_of(&a[k], i) {
                    assert(profile_has_id(av[k as int], i@));
                    assert(m@.get("merged_profiles"@) == Some(JsonV::Arr(av)));
                    assert(list_has_id(av, i@));
                    return true;
                }
                k = k + 1;
            }
            false
        },
        _ => false,
    }
}


fn find_first<'a>(s: &'a Vec<Json>, t: IdTest, i: &str) -> (r: Option<&'a Json>)
    ensures
        match r {
            Some(v) => first_where(view_seq(s@), test_fn(t, i@), 0) == Some(v@),
            None => first_where(view_seq(s@), test_fn(t, i@), 0) is None,
        },
{
    proof {
        lemma_view_seq(s@);
    }
    let ghost sv = view_seq(s@);
    let ghost f = test_fn(t, i@);
    let mut j: usize = 0;
    while j < s.len()
        invariant
            j <= s@.len(),
            sv == view_seq(s@),
            sv.len() == s@.len(),
            forall|q: int| 0 <= q < s@.len() ==> #[trigger] sv[q] == s@[q]@,
            f == test_fn(t, i@),
            first_where(sv, f, 0) == first_where(sv, f, j as int),
        decreases s@.len() - j,
    {
        assert(sv[j as int] == s@[j as int]@);
        let hit = match t {
            IdTest::Profile => profile_has_id_of(&s[j], i),
            IdTest::Parent => parent_has_id_of(&s[j], i),
            IdTest::Child => child_has_id_of(&s[j], i),
        };
        assert(hit == f(sv[j as int]));
        if hit {
            return Some(&s[j]);
        }
        j = j + 1;
    }
    None
}

fn value_or_null_of(o: Option<&Json>, k: &str) -> (r: Json)
    ensures
        r@ == value_or_null(
            match o {
                Some(v) => Some(v@),
                None => None,
            },
            k@,
        ),
{
    match o {
        Some(v) => match v.get(k) {
            Some(x) => x.deep_clone(),
            None => Json::Null,
        },
        None => Json::Null,
    }
}

fn truthy_merged_of(o: Option<&Json>) -> (r: Option<Json>)
    ensures
        match r {
            Some(x) => truthy_merged(
                match o {
                    Some(v) => Some(v@),
                    None => None,
                },
            ) == Some(x@),
            None => truthy_merged(
                match o {
                    Some(v) => Some(v@),
                    None => None,
                },
            ) is None,
        },
{
    match o {
        Some(v) => match v.get("merged_profiles") {
            Some(x) => if x.truthy() {
                Some(x.deep_clone())
            } else {
                None
            },
            None => None,
        },
        None => None,
    }
}

fn obj_of(m: Vec<(String, Json)>) -> (r: Json)
    ensures
        r@ == JsonV::Obj(view_members(m@)),
{
    Json::Object(m)
}

/// The metadata of a provided identifier, given the account's profiles
/// found for the identifiers and the account's merge records.
pub fn profile_identifier_meta(i: &str, found: &Vec<Json>, merged: &Vec<Json>) -> (r: Json)
    ensures
        r@ == identifier_meta(i@, view_seq(found@), view_seq(merged@)),
{
    let exists_p = find_first(found, IdTest::Profile, i);
    let parent = find_first(merged, IdTest::Parent, i);
    let child = find_first(merged, IdTest::Child, i);
    let src = if parent.is_some() {
        parent
    } else {
        child
    };
    let mut profile: Vec<(String, Json)> = Vec::new();
    profile.push((copy_str("profile_exists"), Json::Bool(exists_p.is_some())));
    profile.push((copy_str("profile_id"), value_or_null_of(exists_p, "profile_id")));
    profile.push((copy_str("customer_id"), value_or_null_of(exists_p, "customer_id")));
    profile.push((copy_str("created_at"), value_or_null_of(exists_p, "created_at")));
    profile.push((copy_str("updated_at"), value_or_null_of(exists_p, "updated_at")));
    let mut parent_profile: Vec<(String, Json)> = Vec::new();
    parent_profile.push((copy_str("parent_profile_id"), value_or_null_of(child, "parent_profile_id")));
    parent_profile.push((copy_str("parent_customer_id"), value_or_null_of(child, "parent_customer_id")));
    let role = if parent.is_some() {
        Json::Str(copy_str("parent_profile"))
    } else if child.is_some() {
        Json::Str(copy_str("child_profile"))
    } else {
        Json::Null
    };
    let children = match truthy_merged_of(parent) {
        Some(x) => x,
        None => match truthy_merged_of(child) {
            Some(x) => x,
            None => Json::Array(Vec::new()),
        },
    };
    let mut info: Vec<(String, Json)> = Vec::new();
    info.push((copy_str("was_merged"), Json::Bool(parent.is_some() || child.is_some())));
    info.push((copy_str("merged_at"), value_or_null_of(src, "merged_at")));
    info.push((copy_str("authenticated_id_key"), value_or_null_of(src, "authenticated_id_key")));
    info.push((copy_str("authenticated_id_value"), value_or_null_of(src, "authenticated_id_value")));
    info.push((copy_str("parent_or_child"), role));
    info.push((copy_str("parent_profile"), obj_of(parent_profile)));
    info.push((copy_str("merged_child_profiles"), children));
    let mut out: Vec<(String, Json)> = Vec::new();
    out.push((copy_str("provided_identifier"), Json::Str(copy_str(i))));
    out.push((copy_str("profile"), obj_of(profile)));
    out.push((copy_str("merged_info"), obj_of(info)));
    proof {
        lemma_view_members(profile@);
        lemma_view_members(parent_profile@);
        lemma_view_members(info@);
        lemma_view_members(out@);
        lemma_view_seq(Seq::<Json>::empty());
    }
    assert(view_seq(Seq::<Json>::empty()) =~= Seq::<JsonV>::empty());
    let ghost fv = view_seq(found@);
    let ghost mv = view_seq(merged@);
    let ghost e = first_where(fv, test_fn(IdTest::Profile, i@), 0);
    let ghost par = first_where(mv, test_fn(IdTest::Parent, i@), 0);
    let ghost chi = first_where(mv, test_fn(IdTest::Child, i@), 0);
    assert(view_members(profile@) =~= seq![
        ("profile_exists"@, JsonV::Bool(e is Some)),
        ("profile_id"@, value_or_null(e, "profile_id"@)),
        ("customer_id"@, value_or_null(e, "customer_id"@)),
        ("created_at"@, value_or_null(e, "created_at"@)),
        ("updated_at"@, value_or_null(e, "updated_at"@)),
    ]);
    let ghost srcv = if par is Some { par } else { chi };
    assert(view_members(parent_profile@) =~= seq![
        ("parent_profile_id"@, value_or_null(chi, "parent_profile_id"@)),
        ("parent_customer_id"@, value_or_null(chi, "parent_customer_id"@)),
    ]);
    assert(children@ == match truthy_merged(par) {
        Some(x) => x,
        None => match truthy_merged(chi) {
            Some(x) => x,
            None => JsonV::Arr(seq![]),
        },
    });
    assert(view_members(info@) =~= seq![
        ("was_merged"@, JsonV::Bool(par is Some || chi is Some)),
        ("merged_at"@, value_or_null(srcv, "merged_at"@)),
        ("authenticated_id_key"@, value_or_null(srcv, "authenticated_id_key"@)),
        ("authenticated_id_value"@, value_or_null(srcv, "authenticated_id_value"@)),
        ("parent_or_child"@, if par is Some {
            JsonV::Str("parent_profile"@)
        } else if chi is Some {
            JsonV::Str("child_profile"@)
        } else {
            JsonV::Null
        }),
        ("parent_profile"@, JsonV::Obj(view_members(parent_profile@))),
        ("merged_child_profiles"@, children@),
    ]);
    assert(view_members(out@) =~= seq![
        ("provided_identifier"@, JsonV::Str(i@)),
        ("profile"@, JsonV::Obj(view_members(profile@))),
        ("merged_info"@, JsonV::Obj(view_members(info@))),
    ]);
    let ghost im = identifier_meta(i@, view_seq(found@), view_seq(merged@));
    assert(im matches JsonV::Obj(x) && x.len() == 3);
    assert(im->Obj_0[0] == view_members(out@)[0]);
    assert(im->Obj_0[1] == view_members(out@)[1]);
    let ghost iv = im->Obj_0[2].1->Obj_0;
    assert(iv.len() == 7);
    assert(iv[0] == view_members(info@)[0]);
    assert(iv[1] == view_members(info@)[1]);
    assert(iv[2] == view_members(info@)[2]);
    assert(iv[3] == view_members(info@)[3]);
    assert(iv[4] == view_members(info@)[4]);
    assert(iv[5] == view_members(info@)[5]);
    assert(iv[6] == view_members(info@)[6]);
    assert(iv =~= view_members(info@));
    assert(im->Obj_0[2] == view_members(out@)[2]);
    assert(view_members(out@) =~= im->Obj_0);
    Json::Object(out)
}

} // verus!
