//! The steps of message generation that decide on data alone: the
//! profiles to fetch recommendations for, the item recommended to each
//! profile, the template of a message and its content's placeholders.

use vstd::prelude::*;
use crate::fields::strings_view;
use crate::json::{
    clone_members, insert_member, lemma_view_members, lemma_view_seq, members_insert, view_members, view_seq, Json, JsonNumber, JsonV,
};
use crate::events::verify::index_or_null;
use crate::messaging::currency::{replace_all, replace_text};
use crate::messaging::engine::pairs_view;
use crate::messaging::models::{py_str, py_str_text};
use crate::messaging::generate::GenerateContentChild;
use crate::messaging::templates::contains_string;
use crate::text::{chars_of, contains_seq, copy_str, split_on, split_seq, str_contains, str_eq, string_of};

verus! {

/// The value of `key` in a data object: its first entry with that key.
pub open spec fn data_value(d: Seq<(String, Option<String>)>, key: Seq<char>, i: int) -> Option<Option<Seq<char>>>
    decreases d.len() - i,
{
    if i < 0 || i >= d.len() {
        None
    } else if d[i].0@ == key {
        Some(match d[i].1 {
            Some(s) => Some(s@),
            None => None,
        })
    } else {
        data_value(d, key, i + 1)
    }
}

/// The profile a data value names for placeholder `r`: for an
/// `item_rec` placeholder, the string itself, or its part before the first
/// `::` for an `item_price` one.
pub open spec fn profile_of(r: Seq<char>, raw: Option<Seq<char>>) -> Option<Seq<char>> {
    if contains_seq(r, "item_rec"@) {
        match raw {
            Some(s) => if contains_seq(r, "item_price"@) {
                Some(split_seq(s, "::"@)[0])
            } else {
                Some(s)
            },
            None => None,
        }
    } else {
        None
    }
}

/// The profiles named so far, distinct, in order of first mention.
pub open spec fn add_profile(acc: Seq<Seq<char>>, p: Option<Seq<char>>) -> Seq<Seq<char>> {
    match p {
        Some(x) => if acc.contains(x) {
            acc
        } else {
            acc.push(x)
        },
        None => acc,
    }
}

/// The profiles named by the first `n` data objects for placeholder `r`.
pub open spec fn profiles_in_data(acc: Seq<Seq<char>>, r: Seq<char>, data: Seq<Vec<(String, Option<String>)>>, n: int) -> Seq<Seq<char>>
    decreases n,
{
    if n <= 0 {
        acc
    } else {
        let a = profiles_in_data(acc, r, data, n - 1);
        match data_value(data[n - 1]@, r, 0) {
            Some(raw) => add_profile(a, profile_of(r, raw)),
            None => a,
        }
    }
}

/// The profiles named by the first `n` messages for placeholder `r`.
pub open spec fn profiles_in_messages(acc: Seq<Seq<char>>, r: Seq<char>, ms: Seq<GenerateContentChild>, n: int) -> Seq<Seq<char>>
    decreases n,
{
    if n <= 0 {
        acc
    } else {
        let a = profiles_in_messages(acc, r, ms, n - 1);
        profiles_in_data(a, r, ms[n - 1].data@, ms[n - 1].data@.len() as int)
    }
}

/// The profiles named for the first `n` placeholders.
pub open spec fn profiles_for(acc: Seq<Seq<char>>, required: Seq<Seq<char>>, ms: Seq<GenerateContentChild>, n: int) -> Seq<Seq<char>>
    decreases n,
{
    if n <= 0 {
        acc
    } else {
        let a = profiles_for(acc, required, ms, n - 1);
        profiles_in_messages(a, required[n - 1], ms, ms.len() as int)
    }
}

/// The profiles named for the required data of the first `n` templates.
pub open spec fn profiles_for_templates(required: Seq<Vec<String>>, ms: Seq<GenerateContentChild>, n: int) -> Seq<Seq<char>>
    decreases n,
{
    if n <= 0 {
        seq![]
    } else {
        let acc = profiles_for_templates(required, ms, n - 1);
        profiles_for(acc, strings_view(required[n - 1]@), ms, required[n - 1]@.len() as int)
    }
}

pub(crate) fn data_value_of<'a>(d: &'a Vec<(String, Option<String>)>, key: &str) -> (r: Option<&'a Option<String>>)
    ensures
        match r {
            Some(v) => data_value(d@, key@, 0) == Some(match v {
                Some(s) => Some(s@),
                None => None::<Seq<char>>,
            }),
            None => data_value(d@, key@, 0) is None,
        },
{
    let mut i: usize = 0;
    while i < d.len()
        invariant
            i <= d@.len(),
            data_value(d@, key@, 0) == data_value(d@, key@, i as int),
        decreases d@.len() - i,
    {
        if str_eq(d[i].0.as_str(), key) {
            return Some(&d[i].1);
        }
        i = i + 1;
    }
    None
}

fn profile_of_value(r: &str, raw: &Option<String>) -> (p: Option<String>)
    ensures
        match p {
            Some(s) => profile_of(r@, match raw { Some(x) => Some(x@), None => None }) == Some(s@),
            None => profile_of(r@, match raw { Some(x) => Some(x@), None => None }) is None,
        },
{
    if !str_contains(r, "item_rec") {
        return None;
    }
    match raw {
        Some(s) => {
            if str_contains(r, "item_price") {
                let cs = chars_of(s.as_str());
                let parts = split_on(&cs, &[':', ':']);
                proof {
                    reveal_strlit("::");
                }
                assert([':', ':']@ =~= "::"@);
                let ghost pv = parts@.map_values(|p: Vec<char>| p@);
                assert(pv[0] == parts@[0]@);
                Some(string_of(&parts[0]))
            } else {
                Some(copy_str(s.as_str()))
            }
        },
        None => None,
    }
}

fn push_profile(acc: &mut Vec<String>, p: Option<String>)
    ensures
        strings_view(final(acc)@) == add_profile(strings_view(old(acc)@), match p { Some(x) => Some(x@), None => None }),
{
    match p {
        Some(x) => {
            if !contains_string(acc, x.as_str()) {
                let ghost before = strings_view(acc@);
                let ghost xv = x@;
                acc.push(x);
                assert(strings_view(acc@) =~= before.push(xv));
            }
        },
        None => {},
    }
}

/// The profiles whose recommendations message generation needs: those
/// named by the messages' data for the `item_rec` placeholders of the
/// templates' required data (`required`, template by template), distinct,
/// in order of first mention.
pub fn recommendation_profiles(required: &Vec<Vec<String>>, messages: &Vec<GenerateContentChild>) -> (r: Vec<String>)
    ensures
        strings_view(r@) == profiles_for_templates(required@, messages@, required@.len() as int),
{
    let mut acc: Vec<String> = Vec::new();
    assert(strings_view(acc@) =~= Seq::<Seq<char>>::empty());
    let mut t: usize = 0;
    while t < required.len()
        invariant
            t <= required@.len(),
            strings_view(acc@) == profiles_for_templates(required@, messages@, t as int),
        decreases required@.len() - t,
    {
        let rs = &required[t];
        let ghost start = strings_view(acc@);
        let mut k: usize = 0;
        while k < rs.len()
            invariant
                k <= rs@.len(),
                strings_view(acc@) == profiles_for(start, strings_view(rs@), messages@, k as int),
            decreases rs@.len() - k,
        {
            let r = rs[k].as_str();
            assert(strings_view(rs@)[k as int] == r@);
            let ghost s1 = strings_view(acc@);
            let mut m: usize = 0;
            while m < messages.len()
                invariant
                    m <= messages@.len(),
                    r@ == strings_view(rs@)[k as int],
                    strings_view(acc@) == profiles_in_messages(s1, r@, messages@, m as int),
                decreases messages@.len() - m,
            {
                let data = &messages[m].data;
                let ghost s2 = strings_view(acc@);
                let mut j: usize = 0;
                while j < data.len()
                    invariant
                        j <= data@.len(),
                        data == messages@[m as int].data,
                        strings_view(acc@) == profiles_in_data(s2, r@, data@, j as int),
                    decreases data@.len() - j,
                {
                    match data_value_of(&data[j], r) {
                        Some(raw) => {
                            let p = profile_of_value(r, raw);
                            push_profile(&mut acc, p);
                        },
                        None => {},
                    }
                    j = j + 1;
                }
                m = m + 1;
            }
            k = k + 1;
        }
        t = t + 1;
    }
    acc
}

/// A string member of a value.
pub open spec fn str_member(v: JsonV, k: Seq<char>) -> Option<Seq<char>> {
    match v.get(k) {
        Some(JsonV::Str(s)) => Some(s),
        _ => None,
    }
}

/// The first item (from `i` on) with the given `item_id`.
pub open spec fn item_with_id(items: Seq<JsonV>, id: Seq<char>, i: int) -> Option<JsonV>
    decreases items.len() - i,
{
    if i < 0 || i >= items.len() {
        None
    } else if str_member(items[i], "item_id"@) == Some(id) {
        Some(items[i])
    } else {
        item_with_id(items, id, i + 1)
    }
}

/// The profile and recommended item of a recommendation record: its
/// profile and its top recommendation's item, when all are there.
pub open spec fn recommended_item(rec: JsonV, items: Seq<JsonV>) -> Option<(Seq<char>, JsonV)> {
    match rec.get("recommendations"@) {
        Some(JsonV::Arr(rs)) => if rs.len() == 0 {
            None
        } else {
            match (str_member(rec, "profile_id"@), str_member(rs[0], "item_id"@)) {
                (Some(p), Some(top)) => match item_with_id(items, top, 0) {
                    Some(item) => Some((p, item)),
                    None => None,
                },
                _ => None,
            }
        },
        _ => None,
    }
}

/// The profile-item pairs of the first `n` recommendation records.
pub open spec fn profile_items(recs: Seq<JsonV>, items: Seq<JsonV>, n: int) -> Seq<(Seq<char>, JsonV)>
    decreases n,
{
    if n <= 0 {
        seq![]
    } else {
        match recommended_item(recs[n - 1], items) {
            Some(pi) => profile_items(recs, items, n - 1).push(pi),
            None => profile_items(recs, items, n - 1),
        }
    }
}

fn str_member_of<'a>(v: &'a Json, k: &str) -> (r: Option<&'a str>)
    ensures
        match r {
            Some(s) => str_member(v@, k@) == Some(s@),
            None => str_member(v@, k@) is None,
        },
{
    match v.get(k) {
        Some(Json::Str(s)) => Some(s.as_str()),
        _ => None,
    }
}

fn item_with_id_of<'a>(items: &'a Vec<Json>, id: &str) -> (r: Option<&'a Json>)
    ensures
        match r {
            Some(x) => item_with_id(view_seq(items@), id@, 0) == Some(x@),
            None => item_with_id(view_seq(items@), id@, 0) is None,
        },
{
    proof {
        lemma_view_seq(items@);
    }
    let ghost iv = view_seq(items@);
    let mut i: usize = 0;
    while i < items.len()
        invariant
            i <= items@.len(),
            iv == view_seq(items@),
            iv.len() == items@.len(),
            forall|k: int| 0 <= k < items@.len() ==> #[trigger] iv[k] == items@[k]@,
            item_with_id(iv, id@, 0) == item_with_id(iv, id@, i as int),
        decreases items@.len() - i,
    {
        assert(iv[i as int] == items@[i as int]@);
        let hit = match str_member_of(&items[i], "item_id") {
            Some(s) => str_eq(s, id),
            None => false,
        };
        if hit {
            return Some(&items[i]);
        }
        i = i + 1;
    }
    None
}

fn recommended_item_of(rec: &Json, items: &Vec<Json>) -> (r: Option<(String, Json)>)
    ensures
        match r {
            Some((p, item)) => recommended_item(rec@, view_seq(items@)) == Some((p@, item@)),
            None => recommended_item(rec@, view_seq(items@)) is None,
        },
{
    let rs = match rec.get("recommendations") {
        Some(Json::Array(rs)) => rs,
        _ => return None,
    };
    proof {
        lemma_view_seq(rs@);
    }
    if rs.len() == 0 {
        return None;
    }
    assert(view_seq(rs@)[0] == rs@[0]@);
    let p = match str_member_of(rec, "profile_id") {
        Some(p) => p,
        None => return None,
    };
    let top = match str_member_of(&rs[0], "item_id") {
        Some(t) => t,
        None => return None,
    };
    match item_with_id_of(items, top) {
        Some(item) => Some((copy_str(p), item.deep_clone())),
        None => None,
    }
}

/// Each profile's recommended item: for every recommendation record with a
/// profile and a first recommendation whose item is known, in order.
pub fn profile_item_map(recommendations: &Vec<Json>, items: &Vec<Json>) -> (r: Vec<(String, Json)>)
    ensures
        r@.map_values(|e: (String, Json)| (e.0@, e.1@)) == profile_items(
            view_seq(recommendations@),
            view_seq(items@),
            recommendations@.len() as int,
        ),
{
    proof {
        lemma_view_seq(recommendations@);
    }
    let ghost rv = view_seq(recommendations@);
    let mut out: Vec<(String, Json)> = Vec::new();
    let mut n: usize = 0;
    assert(out@.map_values(|e: (String, Json)| (e.0@, e.1@)) =~= Seq::<(Seq<char>, JsonV)>::empty());
    while n < recommendations.len()
        invariant
            n <= recommendations@.len(),
            rv == view_seq(recommendations@),
            rv.len() == recommendations@.len(),
            forall|k: int| 0 <= k < recommendations@.len() ==> #[trigger] rv[k] == recommendations@[k]@,
            out@.map_values(|e: (String, Json)| (e.0@, e.1@)) == profile_items(rv, view_seq(items@), n as int),
        decreases recommendations@.len() - n,
    {
        assert(rv[n as int] == recommendations@[n as int]@);
        match recommended_item_of(&recommendations[n], items) {
            Some(pi) => {
                let ghost before = out@.map_values(|e: (String, Json)| (e.0@, e.1@));
                let ghost pv = (pi.0@, pi.1@);
                out.push(pi);
                assert(out@.map_values(|e: (String, Json)| (e.0@, e.1@)) =~= before.push(pv));
            },
            None => {},
        }
        n = n + 1;
    }
    out
}

/// A template's content with `{{` and `}}` collapsed to `{` and `}`.
pub open spec fn collapsed_content(content: Seq<char>) -> Seq<char> {
    replace_all(replace_all(content, "{{"@, "{"@), "}}"@, "}"@)
}

/// Collapses the double braces of a template's placeholders.
pub fn collapse_braces(content: &str) -> (r: String)
    ensures
        r@ == collapsed_content(content@),
{
    proof {
        reveal_strlit("{{");
        reveal_strlit("}}");
    }
    let a = replace_text(content, "{{", "{");
    replace_text(a.as_str(), "}}", "}")
}

/// A stored template is the message's template `tid`: by `_id` or by
/// `template_id`.
pub open spec fn template_matches(t: JsonV, tid: Seq<char>) -> bool {
    str_member(t, "_id"@) == Some(tid) || str_member(t, "template_id"@) == Some(tid)
}

/// The first of the account's templates (from `i` on) that is `tid`.
pub open spec fn template_for(templates: Seq<JsonV>, tid: Seq<char>, i: int) -> Option<JsonV>
    decreases templates.len() - i,
{
    if i < 0 || i >= templates.len() {
        None
    } else if template_matches(templates[i], tid) {
        Some(templates[i])
    } else {
        template_for(templates, tid, i + 1)
    }
}

/// The account's template for a message's `template_id`, if it has one.
pub fn find_template<'a>(templates: &'a Vec<Json>, tid: &str) -> (r: Option<&'a Json>)
    ensures
        match r {
            Some(t) => template_for(view_seq(templates@), tid@, 0) == Some(t@),
            None => template_for(view_seq(templates@), tid@, 0) is None,
        },
{
    proof {
        lemma_view_seq(templates@);
    }
    let ghost tv = view_seq(templates@);
    let mut i: usize = 0;
    while i < templates.len()
        invariant
            i <= templates@.len(),
            tv == view_seq(templates@),
            tv.len() == templates@.len(),
            forall|k: int| 0 <= k < templates@.len() ==> #[trigger] tv[k] == templates@[k]@,
            template_for(tv, tid@, 0) == template_for(tv, tid@, i as int),
        decreases templates@.len() - i,
    {
        assert(tv[i as int] == templates@[i as int]@);
        let a = match str_member_of(&templates[i], "_id") {
            Some(s) => str_eq(s, tid),
            None => false,
        };
        let b = match str_member_of(&templates[i], "template_id") {
            Some(s) => str_eq(s, tid),
            None => false,
        };
        if a || b {
            return Some(&templates[i]);
        }
        i = i + 1;
    }
    None
}

/// A generated message.
pub open spec fn generated_message(template_id: Seq<char>, template: JsonV, content: Seq<char>) -> JsonV {
    JsonV::Obj(seq![
        ("template_id"@, JsonV::Str(template_id)),
        ("friendly_name"@, index_or_null(template, "friendly_name"@)),
        ("title"@, index_or_null(template, "title"@)),
        ("content"@, JsonV::Str(content)),
    ])
}

/// The entry of a generated message.
pub fn generated_message_entry(template_id: &str, template: &Json, content: &str) -> (r: Json)
    ensures
        r@ == generated_message(template_id@, template@, content@),
{
    let mut m: Vec<(String, Json)> = Vec::new();
    m.push((copy_str("template_id"), Json::Str(copy_str(template_id))));
    m.push((copy_str("friendly_name"), crate::items::store::get_or_null(template, "friendly_name")));
    m.push((copy_str("title"), crate::items::store::get_or_null(template, "title")));
    m.push((copy_str("content"), Json::Str(copy_str(content))));
    proof {
        lemma_view_members(m@);
    }
    assert(view_members(m@) =~= generated_message(template_id@, template@, content@)->Obj_0);
    Json::Object(m)
}

/// A data object as the failure entry shows it.
pub open spec fn data_object(d: Seq<(String, Option<String>)>) -> JsonV {
    JsonV::Obj(d.map_values(|e: (String, Option<String>)| (e.0@, match e.1 {
        Some(s) => JsonV::Str(s@),
        None => JsonV::Null,
    })))
}

/// The failure entry of a message whose data lacks a required key.
pub open spec fn missing_data(template_id: Seq<char>, d: Seq<(String, Option<String>)>, key: Seq<char>) -> JsonV {
    JsonV::Obj(seq![
        ("template_id"@, JsonV::Str(template_id)),
        ("provided_data"@, data_object(d)),
        ("error_message"@, JsonV::Str("Missing required data parameter for this message: '"@ + key + "'"@)),
    ])
}

/// The failure entry of a message whose data lacks `key`.
pub fn missing_data_entry(template_id: &str, data: &Vec<(String, Option<String>)>, key: &str) -> (r: Json)
    ensures
        r@ == missing_data(template_id@, data@, key@),
{
    let mut provided: Vec<(String, Json)> = Vec::new();
    let mut i: usize = 0;
    while i < data.len()
        invariant
            i <= data@.len(),
            provided@.len() == i,
            forall|k: int| 0 <= k < i ==> (#[trigger] provided@[k]).0@ == data@[k].0@ && provided@[k].1@ == match data@[k].1 {
                Some(s) => JsonV::Str(s@),
                None => JsonV::Null,
            },
        decreases data@.len() - i,
    {
        let v = match &data[i].1 {
            Some(s) => Json::Str(copy_str(s.as_str())),
            None => Json::Null,
        };
        provided.push((copy_str(data[i].0.as_str()), v));
        i = i + 1;
    }
    proof {
        lemma_view_members(provided@);
    }
    assert(view_members(provided@) =~= data_object(data@)->Obj_0);
    let mut m: Vec<(String, Json)> = Vec::new();
    m.push((copy_str("template_id"), Json::Str(copy_str(template_id))));
    m.push((copy_str("provided_data"), Json::Object(provided)));
    let a = crate::text::concat3("Missing required data parameter for this message: '", key, "'");
    m.push((copy_str("error_message"), Json::Str(a)));
    proof {
        lemma_view_members(m@);
    }
    assert(view_members(m@) =~= missing_data(template_id@, data@, key@)->Obj_0);
    Json::Object(m)
}

/// The index of `key` among the pairs (from `i` on); their length when
/// absent.
pub open spec fn pair_index(p: Seq<(Seq<char>, Seq<char>)>, key: Seq<char>, i: int) -> int
    decreases p.len() - i,
{
    if i < 0 || i >= p.len() {
        p.len() as int
    } else if p[i].0 == key {
        i
    } else {
        pair_index(p, key, i + 1)
    }
}

/// `dict[key] = value` on pairs: the value replaced, or the pair appended.
pub open spec fn pairs_set(p: Seq<(Seq<char>, Seq<char>)>, key: Seq<char>, v: Seq<char>) -> Seq<(Seq<char>, Seq<char>)> {
    let i = pair_index(p, key, 0);
    if i < p.len() {
        p.update(i, (key, v))
    } else {
        p.push((key, v))
    }
}

fn set_pair(p: &mut Vec<(String, String)>, key: &str, v: String)
    ensures
        pairs_view(final(p)@) == pairs_set(pairs_view(old(p)@), key@, v@),
{
    let ghost pv = pairs_view(p@);
    let mut i: usize = 0;
    while i < p.len()
        invariant
            i <= p@.len(),
            pv == pairs_view(p@),
            p@ == old(p)@,
            pair_index(pv, key@, 0) == pair_index(pv, key@, i as int),
        decreases p@.len() - i,
    {
        assert(pv[i as int] == (p@[i as int].0@, p@[i as int].1@));
        if str_eq(p[i].0.as_str(), key) {
            let ghost vv = v@;
            p.set(i, (copy_str(key), v));
            assert(pairs_view(p@) =~= pv.update(i as int, (key@, vv)));
            return;
        }
        i = i + 1;
    }
    let ghost vv = v@;
    p.push((copy_str(key), v));
    assert(pairs_view(p@) =~= pv.push((key@, vv)));
}

/// The part of a placeholder after its first `.`; empty without one.
pub open spec fn attribute_of(key: Seq<char>) -> Seq<char> {
    let i = crate::text::first_occurrence_from(key, seq!['.'], 0);
    if i < key.len() {
        key.skip(i + 1)
    } else {
        seq![]
    }
}

fn attribute_text(key: &str) -> (r: String)
    ensures
        r@ == attribute_of(key@),
{
    let cs = chars_of(key);
    let mut i: usize = 0;
    proof {
        crate::text::lemma_first_occurrence_bounds(cs@, seq!['.'], 0);
    }
    while i < cs.len()
        invariant
            i <= cs@.len(),
            cs@ == key@,
            crate::text::first_occurrence_from(key@, seq!['.'], 0) == crate::text::first_occurrence_from(key@, seq!['.'], i as int),
        decreases cs@.len() - i,
    {
        if cs[i] == '.' {
            assert(crate::text::occurs_at(key@, seq!['.'], i as int)) by {
                assert(key@.subrange(i as int, i + 1) =~= seq!['.']);
            }
            let rest = crate::text::sub_chars(&cs, i + 1, cs.len());
            assert(rest@ =~= key@.skip(i + 1));
            return string_of(&rest);
        }
        assert(!crate::text::occurs_at(key@, seq!['.'], i as int)) by {
            if crate::text::occurs_at(key@, seq!['.'], i as int) {
                assert(key@.subrange(i as int, i + 1)[0] == key@[i as int]);
            }
        }
        i = i + 1;
    }
    assert(!crate::text::occurs_at(key@, seq!['.'], i as int));
    assert(crate::text::first_occurrence_from(key@, seq!['.'], i + 1) == key@.len());
    assert(crate::text::first_occurrence_from(key@, seq!['.'], i as int) == key@.len());
    String::new()
}

/// The default value of a placeholder: the template's, else null.
pub open spec fn default_of(defaults: JsonV, key: Seq<char>) -> JsonV {
    index_or_null(defaults, key)
}

/// What filling the placeholders of a data object gives: the first
/// required key the data lacks, or the message's values and the
/// recommended item's values; an error when the item or the reward lacks
/// what a placeholder reads.
pub enum Filling {
    Missing(String),
    Values(Vec<(String, String)>, Vec<(String, String)>),
}

/// The fillings after the first `n` required keys:
/// `Ok(Ok((values, item_rec)))`, `Ok(Err(missing key))` or `Err(error)`.
pub open spec fn fill_upto(
    required: Seq<Seq<char>>,
    data: Seq<(String, Option<String>)>,
    defaults: JsonV,
    item: Option<JsonV>,
    prices: Seq<(Seq<char>, Result<Seq<char>, Seq<char>>)>,
    reward: Option<JsonV>,
    n: int,
) -> Result<Result<(Seq<(Seq<char>, Seq<char>)>, Seq<(Seq<char>, Seq<char>)>), Seq<char>>, Seq<char>>
    decreases n,
{
    if n <= 0 {
        Ok(Ok((seq![], seq![])))
    } else {
        match fill_upto(required, data, defaults, item, prices, reward, n - 1) {
            Err(e) => Err(e),
            Ok(Err(k)) => Ok(Err(k)),
            Ok(Ok((values, recs))) => {
                let key = required[n - 1];
                match data_value(data, key, 0) {
                    None => Ok(Err(key)),
                    Some(raw) => if contains_seq(key, "item_rec"@) {
                        let attr = attribute_of(key);
                        match item {
                            Some(it) => match it.get(attr) {
                                None => Err("KeyError: '"@ + attr + "'"@),
                                Some(iv) => if contains_seq(key, "item_price"@) {
                                    match price_lookup(prices, key, 0) {
                                        Some(Ok(t)) => Ok(Ok((values, pairs_set(recs, attr, t)))),
                                        Some(Err(e)) => Err(e),
                                        None => Err("item_price attribute is not numeric"@),
                                    }
                                } else {
                                    Ok(Ok((values, pairs_set(recs, attr, py_str_text(iv)))))
                                },
                            },
                            None => Ok(Ok((values, pairs_set(recs, attr, py_str_text(default_of(defaults, key)))))),
                        }
                    } else if contains_seq(key, "rybbon_reward_card"@) {
                        match reward {
                            Some(rw) => match rw.get("htmlSnippet"@) {
                                None => Err("KeyError: 'htmlSnippet'"@),
                                Some(h) => Ok(Ok((pairs_set(values, "rybbon_reward_card"@, py_str_text(h)), recs))),
                            },
                            None => Ok(Ok((pairs_set(values, "rybbon_reward_card"@, py_str_text(default_of(defaults, key))), recs))),
                        }
                    } else {
                        let empty = match raw {
                            None => true,
                            Some(s) => s.len() == 0,
                        };
                        if empty {
                            Ok(Ok((pairs_set(values, key, py_str_text(default_of(defaults, key))), recs)))
                        } else {
                            Ok(Ok((pairs_set(values, key, raw->0), recs)))
                        }
                    },
                }
            },
        }
    }
}

fn default_text(defaults: &Json, key: &str) -> (r: String)
    ensures
        r@ == py_str_text(default_of(defaults@, key@)),
{
    match defaults.get(key) {
        Some(v) => py_str(v),
        None => py_str(&Json::Null),
    }
}

proof fn lemma_fill_stays(
    required: Seq<Seq<char>>,
    data: Seq<(String, Option<String>)>,
    defaults: JsonV,
    item: Option<JsonV>,
    prices: Seq<(Seq<char>, Result<Seq<char>, Seq<char>>)>,
    reward: Option<JsonV>,
    k: int,
    n: int,
)
    requires
        0 <= k <= n,
        !(fill_upto(required, data, defaults, item, prices, reward, k) matches Ok(Ok(_))),
    ensures
        fill_upto(required, data, defaults, item, prices, reward, n) == fill_upto(required, data, defaults, item, prices, reward, k),
    decreases n - k,
{
    if k < n {
        lemma_fill_stays(required, data, defaults, item, prices, reward, k, n - 1);
    }
}

proof fn lemma_pair_index_bounds(p: Seq<(Seq<char>, Seq<char>)>, key: Seq<char>, i: int)
    requires
        0 <= i,
    ensures
        i <= pair_index(p, key, i) <= p.len() || (i > p.len() && pair_index(p, key, i) == p.len()),
        pair_index(p, key, i) < p.len() ==> p[pair_index(p, key, i)].0 == key,
    decreases p.len() - i,
{
    if i < p.len() && p[i].0 != key {
        lemma_pair_index_bounds(p, key, i + 1);
    }
}

/// No two pairs have the same name.
pub open spec fn pair_names_distinct(p: Seq<(Seq<char>, Seq<char>)>) -> bool {
    forall|a: int, b: int| 0 <= a < b < p.len() ==> p[a].0 != p[b].0
}

proof fn lemma_pair_index_absent(p: Seq<(Seq<char>, Seq<char>)>, key: Seq<char>, i: int)
    requires
        0 <= i,
        pair_index(p, key, i) >= p.len(),
    ensures
        forall|m: int| i <= m < p.len() ==> p[m].0 != key,
    decreases p.len() - i,
{
    if i < p.len() {
        lemma_pair_index_absent(p, key, i + 1);
    }
}

proof fn lemma_pairs_set_distinct(p: Seq<(Seq<char>, Seq<char>)>, key: Seq<char>, v: Seq<char>)
    requires
        pair_names_distinct(p),
    ensures
        pair_names_distinct(pairs_set(p, key, v)),
{
    lemma_pair_index_bounds(p, key, 0);
    let i = pair_index(p, key, 0);
    if i >= p.len() {
        lemma_pair_index_absent(p, key, 0);
    }
    let q = pairs_set(p, key, v);
    assert forall|a: int, b: int| 0 <= a < b < q.len() implies q[a].0 != q[b].0 by {
        if i >= p.len() && b == p.len() {
            assert(q[a] == p[a]);
        }
    }
}

proof fn lemma_fill_names_distinct(
    required: Seq<Seq<char>>,
    data: Seq<(String, Option<String>)>,
    defaults: JsonV,
    item: Option<JsonV>,
    prices: Seq<(Seq<char>, Result<Seq<char>, Seq<char>>)>,
    reward: Option<JsonV>,
    n: int,
)
    ensures
        fill_upto(required, data, defaults, item, prices, reward, n) matches Ok(Ok((values, recs))) ==> pair_names_distinct(values)
            && pair_names_distinct(recs),
    decreases n,
{
    if n > 0 {
        lemma_fill_names_distinct(required, data, defaults, item, prices, reward, n - 1);
        match fill_upto(required, data, defaults, item, prices, reward, n - 1) {
            Ok(Ok((values0, recs0))) => {
                let key = required[n - 1];
                let attr = attribute_of(key);
                lemma_pairs_set_distinct(values0, key, py_str_text(default_of(defaults, key)));
                match data_value(data, key, 0) {
                    Some(Some(raw)) => lemma_pairs_set_distinct(values0, key, raw),
                    _ => {},
                }
                lemma_pairs_set_distinct(values0, "rybbon_reward_card"@, py_str_text(default_of(defaults, key)));
                match reward {
                    Some(rw) => match rw.get("htmlSnippet"@) {
                        Some(h) => lemma_pairs_set_distinct(values0, "rybbon_reward_card"@, py_str_text(h)),
                        None => {},
                    },
                    None => {},
                }
                lemma_pairs_set_distinct(recs0, attr, py_str_text(default_of(defaults, key)));
                match item {
                    Some(it) => match it.get(attr) {
                        Some(iv) => {
                            lemma_pairs_set_distinct(recs0, attr, py_str_text(iv));
                            match price_lookup(prices, key, 0) {
                                Some(Ok(t)) => lemma_pairs_set_distinct(recs0, attr, t),
                                _ => {},
                            }
                        },
                        None => {},
                    },
                    None => {},
                }
            },
            _ => {},
        }
    }
}

proof fn lemma_pairs_set_holds(p: Seq<(Seq<char>, Seq<char>)>, key: Seq<char>, v: Seq<char>)
    ensures
        pairs_set(p, key, v).contains((key, v)),
{
    lemma_pair_index_bounds(p, key, 0);
    let i = pair_index(p, key, 0);
    if i < p.len() {
        assert(pairs_set(p, key, v)[i] == (key, v));
    } else {
        assert(pairs_set(p, key, v)[p.len() as int] == (key, v));
    }
}

proof fn lemma_pairs_set_keeps(p: Seq<(Seq<char>, Seq<char>)>, key: Seq<char>, v: Seq<char>, q: (Seq<char>, Seq<char>))
    requires
        p.contains(q),
        q.0 != key,
    ensures
        pairs_set(p, key, v).contains(q),
{
    lemma_pair_index_bounds(p, key, 0);
    let m = choose|m: int| 0 <= m < p.len() && p[m] == q;
    assert(pairs_set(p, key, v)[m] == q);
}

proof fn lemma_contains_itself(s: Seq<char>)
    ensures
        contains_seq(s, s),
{
    assert(s.subrange(0, s.len() as int) =~= s);
    assert(crate::text::occurs_at(s, s, 0));
}

proof fn lemma_fill_keeps_data_value(
    required: Seq<Seq<char>>,
    data: Seq<(String, Option<String>)>,
    defaults: JsonV,
    item: Option<JsonV>,
    prices: Seq<(Seq<char>, Result<Seq<char>, Seq<char>>)>,
    reward: Option<JsonV>,
    j: int,
    v: Seq<char>,
    n: int,
)
    requires
        0 <= j < n <= required.len(),
        !contains_seq(required[j], "item_rec"@),
        !contains_seq(required[j], "rybbon_reward_card"@),
        data_value(data, required[j], 0) == Some(Some(v)),
        v.len() > 0,
    ensures
        fill_upto(required, data, defaults, item, prices, reward, n) matches Ok(Ok((values, _))) ==> values.contains(
            (required[j], v),
        ),
    decreases n,
{
    let k = required[j];
    let key = required[n - 1];
    if n - 1 > j {
        lemma_fill_keeps_data_value(required, data, defaults, item, prices, reward, j, v, n - 1);
    }
    match fill_upto(required, data, defaults, item, prices, reward, n - 1) {
        Ok(Ok((values0, recs0))) => {
            if key == k {
                lemma_pairs_set_holds(values0, k, v);
            } else if n - 1 > j {
                lemma_pairs_set_keeps(values0, key, py_str_text(default_of(defaults, key)), (k, v));
                match data_value(data, key, 0) {
                    Some(Some(raw)) => lemma_pairs_set_keeps(values0, key, raw, (k, v)),
                    _ => {},
                }
                if k == "rybbon_reward_card"@ {
                    lemma_contains_itself(k);
                }
                lemma_pairs_set_keeps(values0, "rybbon_reward_card"@, py_str_text(default_of(defaults, key)), (k, v));
                match reward {
                    Some(rw) => match rw.get("htmlSnippet"@) {
                        Some(h) => lemma_pairs_set_keeps(values0, "rybbon_reward_card"@, py_str_text(h), (k, v)),
                        None => {},
                    },
                    None => {},
                }
            }
        },
        _ => {},
    }
}

proof fn lemma_fill_keeps_default(
    required: Seq<Seq<char>>,
    data: Seq<(String, Option<String>)>,
    defaults: JsonV,
    item: Option<JsonV>,
    prices: Seq<(Seq<char>, Result<Seq<char>, Seq<char>>)>,
    reward: Option<JsonV>,
    j: int,
    v: Seq<char>,
    n: int,
)
    requires
        0 <= j < n <= required.len(),
        !contains_seq(required[j], "item_rec"@),
        !contains_seq(required[j], "rybbon_reward_card"@),
        data_value(data, required[j], 0) matches Some(raw) && (raw is None || raw->0.len() == 0),
        v == py_str_text(index_or_null(defaults, required[j])),
    ensures
        fill_upto(required, data, defaults, item, prices, reward, n) matches Ok(Ok((values, _))) ==> values.contains(
            (required[j], v),
        ),
    decreases n,
{
    let k = required[j];
    let key = required[n - 1];
    if n - 1 > j {
        lemma_fill_keeps_default(required, data, defaults, item, prices, reward, j, v, n - 1);
    }
    match fill_upto(required, data, defaults, item, prices, reward, n - 1) {
        Ok(Ok((values0, recs0))) => {
            if key == k {
                lemma_pairs_set_holds(values0, k, v);
            } else if n - 1 > j {
                lemma_pairs_set_keeps(values0, key, py_str_text(default_of(defaults, key)), (k, v));
                match data_value(data, key, 0) {
                    Some(Some(raw)) => lemma_pairs_set_keeps(values0, key, raw, (k, v)),
                    _ => {},
                }
                if k == "rybbon_reward_card"@ {
                    lemma_contains_itself(k);
                }
                lemma_pairs_set_keeps(values0, "rybbon_reward_card"@, py_str_text(default_of(defaults, key)), (k, v));
                match reward {
                    Some(rw) => match rw.get("htmlSnippet"@) {
                        Some(h) => lemma_pairs_set_keeps(values0, "rybbon_reward_card"@, py_str_text(h), (k, v)),
                        None => {},
                    },
                    None => {},
                }
            }
        },
        _ => {},
    }
}

/// Law: a placeholder that is neither an item recommendation nor a reward
/// card, and for which the message's data holds a non-empty text, is
/// filled with that text, not the template's default; once the
/// placeholders are filled, the values hold it under the placeholder's
/// name, and no name appears twice among them.
pub proof fn law_data_value_fills_its_placeholder(
    required: Seq<Seq<char>>,
    data: Seq<(String, Option<String>)>,
    defaults: JsonV,
    item: Option<JsonV>,
    prices: Seq<(Seq<char>, Result<Seq<char>, Seq<char>>)>,
    reward: Option<JsonV>,
    j: int,
    v: Seq<char>,
)
    requires
        0 <= j < required.len(),
        !contains_seq(required[j], "item_rec"@),
        !contains_seq(required[j], "rybbon_reward_card"@),
        data_value(data, required[j], 0) == Some(Some(v)),
        v.len() > 0,
    ensures
        fill_upto(required, data, defaults, item, prices, reward, required.len() as int) matches Ok(
            Ok((values, _)),
        ) ==> values.contains((required[j], v)) && pair_names_distinct(values),
{
    lemma_fill_names_distinct(required, data, defaults, item, prices, reward, required.len() as int);
    lemma_fill_keeps_data_value(required, data, defaults, item, prices, reward, j, v, required.len() as int);
}

/// Law: a placeholder that is neither an item recommendation nor a reward
/// card, and for which the message's data holds null or an empty text, is
/// filled with the template's default for it, rendered as Python's `str()`
/// renders it (`None` when the template has none).
pub proof fn law_default_fills_an_empty_placeholder(
    required: Seq<Seq<char>>,
    data: Seq<(String, Option<String>)>,
    defaults: JsonV,
    item: Option<JsonV>,
    prices: Seq<(Seq<char>, Result<Seq<char>, Seq<char>>)>,
    reward: Option<JsonV>,
    j: int,
)
    requires
        0 <= j < required.len(),
        !contains_seq(required[j], "item_rec"@),
        !contains_seq(required[j], "rybbon_reward_card"@),
        data_value(data, required[j], 0) matches Some(raw) && (raw is None || raw->0.len() == 0),
    ensures
        fill_upto(required, data, defaults, item, prices, reward, required.len() as int) matches Ok(
            Ok((values, _)),
        ) ==> values.contains((required[j], py_str_text(index_or_null(defaults, required[j])))),
{
    lemma_fill_keeps_default(
        required,
        data,
        defaults,
        item,
        prices,
        reward,
        j,
        py_str_text(index_or_null(defaults, required[j])),
        required.len() as int,
    );
}

/// The rendered prices of a data object's `item_price` placeholders, or the
/// error of rendering one.
pub open spec fn prices_view(p: Seq<(String, Result<String, String>)>) -> Seq<(Seq<char>, Result<Seq<char>, Seq<char>>)> {
    p.map_values(|e: (String, Result<String, String>)| (e.0@, match e.1 {
        Ok(s) => Ok(s@),
        Err(m) => Err(m@),
    }))
}

/// The price (from `i` on) of placeholder `key`: that of its first pair.
pub open spec fn price_lookup(p: Seq<(Seq<char>, Result<Seq<char>, Seq<char>>)>, key: Seq<char>, i: int) -> Option<Result<Seq<char>, Seq<char>>>
    decreases p.len() - i,
{
    if i < 0 || i >= p.len() {
        None
    } else if p[i].0 == key {
        Some(p[i].1)
    } else {
        price_lookup(p, key, i + 1)
    }
}

fn lookup_price<'a>(prices: &'a Vec<(String, Result<String, String>)>, key: &str) -> (r: Option<&'a Result<String, String>>)
    ensures
        match r {
            Some(v) => price_lookup(prices_view(prices@), key@, 0) == Some(match v {
                Ok(s) => Ok::<Seq<char>, Seq<char>>(s@),
                Err(m) => Err::<Seq<char>, Seq<char>>(m@),
            }),
            None => price_lookup(prices_view(prices@), key@, 0) is None,
        },
{
    let ghost pv = prices_view(prices@);
    let mut i: usize = 0;
    while i < prices.len()
        invariant
            i <= prices@.len(),
            pv == prices_view(prices@),
            price_lookup(pv, key@, 0) == price_lookup(pv, key@, i as int),
        decreases prices@.len() - i,
    {
        assert(pv[i as int].0 == prices@[i as int].0@);
        if str_eq(prices[i].0.as_str(), key) {
            return Some(&prices[i].1);
        }
        i = i + 1;
    }
    None
}

/// Fills the placeholders of one data object of a message: `required` are
/// the template's placeholders, `defaults` its default values, `item` the
/// item recommended to the data's profile, `prices` the rendered price (or
/// its error) of each `item_price` placeholder, `reward` the data's reward
/// card.
pub fn fill_placeholders(
    required: &Vec<String>,
    data: &Vec<(String, Option<String>)>,
    defaults: &Json,
    item: Option<&Json>,
    prices: &Vec<(String, Result<String, String>)>,
    reward: Option<&Json>,
) -> (r: Result<Filling, String>)
    ensures
        ({
            let f = fill_upto(
                strings_view(required@),
                data@,
                defaults@,
                match item { Some(x) => Some(x@), None => None },
                prices_view(prices@),
                match reward { Some(x) => Some(x@), None => None },
                required@.len() as int,
            );
            match r {
                Err(e) => f == Err::<Result<(Seq<(Seq<char>, Seq<char>)>, Seq<(Seq<char>, Seq<char>)>), Seq<char>>, Seq<char>>(e@),
                Ok(Filling::Missing(k)) => f == Ok::<Result<(Seq<(Seq<char>, Seq<char>)>, Seq<(Seq<char>, Seq<char>)>), Seq<char>>, Seq<char>>(Err(k@)),
                Ok(Filling::Values(v, rec)) => f == Ok::<Result<(Seq<(Seq<char>, Seq<char>)>, Seq<(Seq<char>, Seq<char>)>), Seq<char>>, Seq<char>>(Ok((pairs_view(v@), pairs_view(rec@)))),
            }
        }),
{
    let ghost rq = strings_view(required@);
    let ghost iv = match item { Some(x) => Some(x@), None => None::<JsonV> };
    let ghost rv = match reward { Some(x) => Some(x@), None => None::<JsonV> };
    let ghost pv = prices_view(prices@);
    let mut values: Vec<(String, String)> = Vec::new();
    let mut recs: Vec<(String, String)> = Vec::new();
    assert(pairs_view(values@) =~= Seq::<(Seq<char>, Seq<char>)>::empty());
    assert(pairs_view(recs@) =~= Seq::<(Seq<char>, Seq<char>)>::empty());
    let mut n: usize = 0;
    while n < required.len()
        invariant
            n <= required@.len(),
            rq == strings_view(required@),
            iv == match item { Some(x) => Some(x@), None => None::<JsonV> },
            rv == match reward { Some(x) => Some(x@), None => None::<JsonV> },
            pv == prices_view(prices@),
            fill_upto(rq, data@, defaults@, iv, pv, rv, n as int) == Ok::<Result<(Seq<(Seq<char>, Seq<char>)>, Seq<(Seq<char>, Seq<char>)>), Seq<char>>, Seq<char>>(Ok((pairs_view(values@), pairs_view(recs@)))),
        decreases required@.len() - n,
    {
        let key = required[n].as_str();
        assert(rq[n as int] == key@);
        let raw = match data_value_of(data, key) {
            None => {
                proof {
                    lemma_fill_stays(rq, data@, defaults@, iv, pv, rv, n + 1, rq.len() as int);
                }
                return Ok(Filling::Missing(copy_str(key)));
            },
            Some(raw) => raw,
        };
        if str_contains(key, "item_rec") {
            let attr = attribute_text(key);
            let text: String = match item {
                Some(it) => match it.get(attr.as_str()) {
                    None => {
                        let e = crate::text::concat3("KeyError: '", attr.as_str(), "'");
                        proof {
                            lemma_fill_stays(rq, data@, defaults@, iv, pv, rv, n + 1, rq.len() as int);
                        }
                        return Err(e);
                    },
                    Some(v) => if str_contains(key, "item_price") {
                        match lookup_price(prices, key) {
                            Some(Ok(t)) => copy_str(t.as_str()),
                            Some(Err(e)) => {
                                let e = copy_str(e.as_str());
                                proof {
                                    lemma_fill_stays(rq, data@, defaults@, iv, pv, rv, n + 1, rq.len() as int);
                                }
                                return Err(e);
                            },
                            None => {
                                proof {
                                    lemma_fill_stays(rq, data@, defaults@, iv, pv, rv, n + 1, rq.len() as int);
                                }
                                return Err(copy_str("item_price attribute is not numeric"));
                            },
                        }
                    } else {
                        py_str(v)
                    },
                },
                None => default_text(defaults, key),
            };
            set_pair(&mut recs, attr.as_str(), text);
        } else if str_contains(key, "rybbon_reward_card") {
            let text: String = match reward {
                Some(rw) => match rw.get("htmlSnippet") {
                    None => {
                        proof {
                            lemma_fill_stays(rq, data@, defaults@, iv, pv, rv, n + 1, rq.len() as int);
                        }
                        return Err(copy_str("KeyError: 'htmlSnippet'"));
                    },
                    Some(h) => py_str(h),
                },
                None => default_text(defaults, key),
            };
            set_pair(&mut values, "rybbon_reward_card", text);
        } else {
            let text: String = match raw {
                None => default_text(defaults, key),
                Some(s) => if chars_of(s.as_str()).len() == 0 {
                    default_text(defaults, key)
                } else {
                    copy_str(s.as_str())
                },
            };
            set_pair(&mut values, key, text);
        }
        n = n + 1;
    }
    Ok(Filling::Values(values, recs))
}

/// The first required key (from `i` on) that contains `pat`.
pub open spec fn first_containing(required: Seq<Seq<char>>, pat: Seq<char>, i: int) -> Option<Seq<char>>
    decreases required.len() - i,
{
    if i < 0 || i >= required.len() {
        None
    } else if contains_seq(required[i], pat) {
        Some(required[i])
    } else {
        first_containing(required, pat, i + 1)
    }
}

fn first_containing_of<'a>(required: &'a Vec<String>, pat: &str) -> (r: Option<&'a String>)
    ensures
        match r {
            Some(k) => first_containing(strings_view(required@), pat@, 0) == Some(k@),
            None => first_containing(strings_view(required@), pat@, 0) is None,
        },
{
    let ghost rq = strings_view(required@);
    let mut i: usize = 0;
    while i < required.len()
        invariant
            i <= required@.len(),
            rq == strings_view(required@),
            first_containing(rq, pat@, 0) == first_containing(rq, pat@, i as int),
        decreases required@.len() - i,
    {
        assert(rq[i as int] == required@[i as int]@);
        if str_contains(required[i].as_str(), pat) {
            return Some(&required[i]);
        }
        i = i + 1;
    }
    None
}

/// The first pair (from `i` on) whose profile is `p`.
pub open spec fn item_of_profile(pairs: Seq<(Seq<char>, JsonV)>, p: Seq<char>, i: int) -> Option<JsonV>
    decreases pairs.len() - i,
{
    if i < 0 || i >= pairs.len() {
        None
    } else if pairs[i].0 == p {
        Some(pairs[i].1)
    } else {
        item_of_profile(pairs, p, i + 1)
    }
}

/// The item recommended to the profile a data object names in its first
/// `item_rec` placeholder, when the template has one.
pub open spec fn data_item(required: Seq<Seq<char>>, data: Seq<(String, Option<String>)>, pairs: Seq<(Seq<char>, JsonV)>) -> Option<JsonV> {
    match first_containing(required, "item_rec"@, 0) {
        Some(k) => match data_value(data, k, 0) {
            Some(Some(p)) => item_of_profile(pairs, p, 0),
            _ => None,
        },
        None => None,
    }
}

/// The item recommended for a data object of a message.
pub fn item_for_data<'a>(required: &Vec<String>, data: &Vec<(String, Option<String>)>, pairs: &'a Vec<(String, Json)>) -> (r: Option<&'a Json>)
    ensures
        match r {
            Some(x) => data_item(strings_view(required@), data@, pairs@.map_values(|e: (String, Json)| (e.0@, e.1@))) == Some(x@),
            None => data_item(strings_view(required@), data@, pairs@.map_values(|e: (String, Json)| (e.0@, e.1@))) is None,
        },
{
    let k = match first_containing_of(required, "item_rec") {
        Some(k) => k,
        None => return None,
    };
    let p: &str = match data_value_of(data, k.as_str()) {
        Some(Some(p)) => p.as_str(),
        _ => return None,
    };
    let ghost pv = pairs@.map_values(|e: (String, Json)| (e.0@, e.1@));
    assert(data_item(strings_view(required@), data@, pv) == item_of_profile(pv, p@, 0));
    let mut i: usize = 0;
    while i < pairs.len()
        invariant
            i <= pairs@.len(),
            pv == pairs@.map_values(|e: (String, Json)| (e.0@, e.1@)),
            data_item(strings_view(required@), data@, pv) == item_of_profile(pv, p@, 0),
            item_of_profile(pv, p@, 0) == item_of_profile(pv, p@, i as int),
        decreases pairs@.len() - i,
    {
        assert(pv[i as int] == (pairs@[i as int].0@, pairs@[i as int].1@));
        if str_eq(pairs[i].0.as_str(), p) {
            return Some(&pairs[i].1);
        }
        i = i + 1;
    }
    None
}

/// The reward of a data object when the template has a reward card
/// placeholder (`tag`): the reward whose `requestId` is the customer the
/// data's `rybbon_reward_card` value names before its first `::`.
pub open spec fn data_reward(required: Seq<Seq<char>>, data: Seq<(String, Option<String>)>, rewards: Seq<JsonV>, tag: Seq<char>) -> Option<JsonV> {
    if first_containing(required, tag, 0) is None {
        None
    } else {
        match data_value(data, "rybbon_reward_card"@, 0) {
            Some(Some(v)) => first_where_str(rewards, "requestId"@, split_seq(v, "::"@)[0], 0),
            _ => None,
        }
    }
}

/// The first value (from `i` on) whose string member `k` is `s`.
pub open spec fn first_where_str(vs: Seq<JsonV>, k: Seq<char>, s: Seq<char>, i: int) -> Option<JsonV>
    decreases vs.len() - i,
{
    if i < 0 || i >= vs.len() {
        None
    } else if str_member(vs[i], k) == Some(s) {
        Some(vs[i])
    } else {
        first_where_str(vs, k, s, i + 1)
    }
}

/// The reward card of a data object of a message.
pub fn reward_for_data<'a>(required: &Vec<String>, data: &Vec<(String, Option<String>)>, rewards: &'a Vec<Json>, tag: &str) -> (r: Option<&'a Json>)
    ensures
        match r {
            Some(x) => data_reward(strings_view(required@), data@, view_seq(rewards@), tag@) == Some(x@),
            None => data_reward(strings_view(required@), data@, view_seq(rewards@), tag@) is None,
        },
{
    if first_containing_of(required, tag).is_none() {
        return None;
    }
    let v: &str = match data_value_of(data, "rybbon_reward_card") {
        Some(Some(v)) => v.as_str(),
        _ => return None,
    };
    let cs = chars_of(v);
    let parts = split_on(&cs, &[':', ':']);
    proof {
        reveal_strlit("::");
    }
    assert([':', ':']@ =~= "::"@);
    let ghost pv = parts@.map_values(|p: Vec<char>| p@);
    assert(pv[0] == parts@[0]@);
    let customer = string_of(&parts[0]);
    proof {
        lemma_view_seq(rewards@);
    }
    let ghost rv = view_seq(rewards@);
    assert(data_reward(strings_view(required@), data@, rv, tag@) == first_where_str(rv, "requestId"@, customer@, 0));
    let mut i: usize = 0;
    while i < rewards.len()
        invariant
            i <= rewards@.len(),
            rv == view_seq(rewards@),
            data_reward(strings_view(required@), data@, rv, tag@) == first_where_str(rv, "requestId"@, customer@, 0),
            rv.len() == rewards@.len(),
            forall|k: int| 0 <= k < rewards@.len() ==> #[trigger] rv[k] == rewards@[k]@,
            first_where_str(rv, "requestId"@, customer@, 0) == first_where_str(rv, "requestId"@, customer@, i as int),
        decreases rewards@.len() - i,
    {
        assert(rv[i as int] == rewards@[i as int]@);
        let hit = match str_member_of(&rewards[i], "requestId") {
            Some(s) => str_eq(s, customer.as_str()),
            None => false,
        };
        if hit {
            return Some(&rewards[i]);
        }
        i = i + 1;
    }
    None
}

/// A stored template as message generation reads it: its `_id` copied to
/// `template_id` (where it has one).
pub open spec fn template_with_id(t: JsonV) -> JsonV {
    match t {
        JsonV::Obj(m) => match t.get("_id"@) {
            Some(id) => JsonV::Obj(members_insert(m, "template_id"@, id)),
            None => t,
        },
        _ => t,
    }
}

/// Copies a stored template's `_id` to its `template_id`.
pub fn with_template_id(t: &Json) -> (r: Json)
    ensures
        r@ == template_with_id(t@),
{
    match t {
        Json::Object(m) => match t.get("_id") {
            Some(id) => {
                let mut mm = clone_members(m);
                insert_member(&mut mm, "template_id", id.deep_clone());
                Json::Object(mm)
            },
            None => t.deep_clone(),
        },
        _ => t.deep_clone(),
    }
}

/// Some required placeholder of some template contains `pat`.
pub open spec fn templates_mention(required: Seq<Vec<String>>, pat: Seq<char>) -> bool {
    exists|t: int, k: int| 0 <= t < required.len() && 0 <= k < required[t]@.len() && contains_seq(#[trigger] required[t]@[k]@, pat)
}

/// Whether some required placeholder of some template contains `pat`.
pub fn mention_in_templates(required: &Vec<Vec<String>>, pat: &str) -> (r: bool)
    ensures
        r == templates_mention(required@, pat@),
{
    let mut t: usize = 0;
    while t < required.len()
        invariant
            t <= required@.len(),
            forall|a: int, k: int| 0 <= a < t && 0 <= k < required@[a]@.len() ==> !contains_seq(#[trigger] required@[a]@[k]@, pat@),
        decreases required@.len() - t,
    {
        if first_containing_of(&required[t], pat).is_some() {
            proof {
                lemma_first_containing_found(strings_view(required@[t as int]@), pat@, 0);
                let k = choose|k: int| 0 <= k < required@[t as int]@.len() && contains_seq(strings_view(required@[t as int]@)[k], pat@);
                assert(strings_view(required@[t as int]@)[k] == required@[t as int]@[k]@);
            }
            return true;
        }
        proof {
            assert forall|k: int| 0 <= k < required@[t as int]@.len() implies !contains_seq(#[trigger] required@[t as int]@[k]@, pat@) by {
                lemma_first_containing_none(strings_view(required@[t as int]@), pat@, 0, k);
                assert(strings_view(required@[t as int]@)[k] == required@[t as int]@[k]@);
            }
        }
        t = t + 1;
    }
    false
}

proof fn lemma_first_containing_found(required: Seq<Seq<char>>, pat: Seq<char>, i: int)
    requires
        0 <= i,
        first_containing(required, pat, i) is Some,
    ensures
        exists|k: int| i <= k < required.len() && contains_seq(required[k], pat),
    decreases required.len() - i,
{
    if i < required.len() && !contains_seq(required[i], pat) {
        lemma_first_containing_found(required, pat, i + 1);
    }
}

proof fn lemma_first_containing_none(required: Seq<Seq<char>>, pat: Seq<char>, i: int, k: int)
    requires
        0 <= i <= k < required.len(),
        first_containing(required, pat, i) is None,
    ensures
        !contains_seq(required[k], pat),
    decreases k - i,
{
    if i < k {
        lemma_first_containing_none(required, pat, i + 1, k);
    }
}

/// Whether some placeholder of a template contains `pat`.
pub fn mentions(required: &Vec<String>, pat: &str) -> (r: bool)
    ensures
        r == (first_containing(strings_view(required@), pat@, 0) is Some),
{
    first_containing_of(required, pat).is_some()
}

/// The entry of a template that no message can use.
pub open spec fn missing_template(template_id: Seq<char>) -> JsonV {
    JsonV::Obj(seq![
        ("template_id"@, JsonV::Str(template_id)),
        ("error_message"@, JsonV::Str("No template found with this template_id. All messages using this template_id were not created."@)),
    ])
}

/// Builds the entry of a template that no message can use.
pub fn missing_template_entry(template_id: &str) -> (r: Json)
    ensures
        r@ == missing_template(template_id@),
{
    let mut m: Vec<(String, Json)> = Vec::new();
    m.push((copy_str("template_id"), Json::Str(copy_str(template_id))));
    m.push((copy_str("error_message"), Json::Str(copy_str(
        "No template found with this template_id. All messages using this template_id were not created.",
    ))));
    proof {
        lemma_view_members(m@);
    }
    assert(view_members(m@) =~= missing_template(template_id@)->Obj_0);
    Json::Object(m)
}

/// The body of a generation reply: how many messages were made, and the
/// made and failed ones.
pub open spec fn generation_reply(created: Seq<JsonV>, failed_messages: Seq<JsonV>, failed_templates: Seq<JsonV>) -> JsonV {
    JsonV::Obj(seq![
        ("request_meta"@, JsonV::Obj(seq![
            ("request_status"@, JsonV::Str("Success"@)),
            ("message"@, JsonV::Str(if created.len() == 0 { "No content generated"@ } else { "Successfully generated content"@ })),
            ("count"@, JsonV::Num(crate::json::NumV::Int(created.len() as int))),
        ])),
        ("generated_messages"@, JsonV::Arr(created)),
        ("failed_messages"@, JsonV::Arr(failed_messages)),
        ("failed_templates"@, JsonV::Arr(failed_templates)),
    ])
}

fn copy_all(v: &Vec<Json>) -> (r: Vec<Json>)
    ensures
        view_seq(r@) == view_seq(v@),
{
    proof {
        lemma_view_seq(v@);
    }
    let mut out: Vec<Json> = Vec::new();
    let mut k: usize = 0;
    while k < v.len()
        invariant
            k <= v@.len(),
            out@.len() == k,
            forall|q: int| 0 <= q < k ==> (#[trigger] out@[q])@ == v@[q]@,
        decreases v@.len() - k,
    {
        out.push(v[k].deep_clone());
        k = k + 1;
    }
    proof {
        lemma_view_seq(out@);
    }
    assert(view_seq(out@) =~= view_seq(v@));
    out
}

/// Builds the body of a generation reply.
pub fn generation_reply_body(created: &Vec<Json>, failed_messages: &Vec<Json>, failed_templates: &Vec<Json>) -> (r: Json)
    requires
        created@.len() <= i64::MAX,
    ensures
        r@ == generation_reply(view_seq(created@), view_seq(failed_messages@), view_seq(failed_templates@)),
{
    proof {
        lemma_view_seq(created@);
    }
    let count = created.len() as i64;
    let mut meta: Vec<(String, Json)> = Vec::new();
    meta.push((copy_str("request_status"), Json::Str(copy_str("Success"))));
    meta.push((copy_str("message"), Json::Str(if created.len() == 0 {
        copy_str("No content generated")
    } else {
        copy_str("Successfully generated content")
    })));
    meta.push((copy_str("count"), Json::Number(JsonNumber::Int(count))));
    let mut m: Vec<(String, Json)> = Vec::new();
    m.push((copy_str("request_meta"), Json::Object(meta)));
    m.push((copy_str("generated_messages"), Json::Array(copy_all(created))));
    m.push((copy_str("failed_messages"), Json::Array(copy_all(failed_messages))));
    m.push((copy_str("failed_templates"), Json::Array(copy_all(failed_templates))));
    proof {
        lemma_view_members(meta@);
        lemma_view_members(m@);
    }
    let ghost want = generation_reply(view_seq(created@), view_seq(failed_messages@), view_seq(failed_templates@))->Obj_0;
    assert(view_members(meta@) =~= want[0].1->Obj_0);
    assert(view_members(m@) =~= want);
    Json::Object(m)
}

} // verus!
