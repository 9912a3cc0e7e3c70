//! The JSON document model the request validators and services work on,
//! with its mathematical view.
//!
//! A JSON number is held as what the services read of it: integers exactly,
//! and a float by its two renderings (serde's and Python's `str`), its value
//! truncated toward zero and whether it is zero.

use vstd::prelude::*;
use crate::text::{
    chars_of, copy_str, digit_char, i64_to_string, int_decimal, nat_decimal, string_of,
    u64_to_chars,
};

verus! {

/// A floating-point JSON number, by the values the services read of it.
pub struct JsonFloat {
    /// serde_json's `Display` rendering.
    pub text: String,
    /// Python's `str(float)` rendering.
    pub py_text: String,
    /// The value truncated toward zero (saturating), as `f as i64` gives it.
    pub truncated: i64,
    /// Whether the value is (positive or negative) zero.
    pub is_zero: bool,
}

pub enum JsonNumber {
    /// A number that fits in `i64`.
    Int(i64),
    /// A non-negative integer above `i64::MAX`.
    BigUInt(u64),
    Float(JsonFloat),
}

pub enum Json {
    Null,
    Bool(bool),
    Number(JsonNumber),
    Str(String),
    Array(Vec<Json>),
    /// Members in document order; keys are distinct.
    Object(Vec<(String, Json)>),
}

pub enum NumV {
    Int(int),
    BigUInt(nat),
    Float { text: Seq<char>, py_text: Seq<char>, truncated: int, is_zero: bool },
}

/// The mathematical value of a JSON document.
pub enum JsonV {
    Null,
    Bool(bool),
    Num(NumV),
    Str(Seq<char>),
    Arr(Seq<JsonV>),
    Obj(Seq<(Seq<char>, JsonV)>),
}

pub open spec fn view_number(n: JsonNumber) -> NumV {
    match n {
        JsonNumber::Int(i) => NumV::Int(i as int),
        JsonNumber::BigUInt(u) => NumV::BigUInt(u as nat),
        JsonNumber::Float(f) => NumV::Float {
            text: f.text@,
            py_text: f.py_text@,
            truncated: f.truncated as int,
            is_zero: f.is_zero,
        },
    }
}

pub open spec fn view_json(j: Json) -> JsonV
    decreases j, 0nat,
{
    match j {
        Json::Null => JsonV::Null,
        Json::Bool(b) => JsonV::Bool(b),
        Json::Number(n) => JsonV::Num(view_number(n)),
        Json::Str(s) => JsonV::Str(s@),
        Json::Array(v) => JsonV::Arr(view_seq(v@)),
        Json::Object(m) => JsonV::Obj(view_members(m@)),
    }
}

pub open spec fn view_seq(s: Seq<Json>) -> Seq<JsonV>
    decreases s, s.len(),
{
    if s.len() == 0 {
        Seq::empty()
    } else {
        seq![view_json(s[0])] + view_seq(s.subrange(1, s.len() as int))
    }
}

pub open spec fn view_members(s: Seq<(String, Json)>) -> Seq<(Seq<char>, JsonV)>
    decreases s, s.len(),
{
    if s.len() == 0 {
        Seq::empty()
    } else {
        seq![(s[0].0@, view_json(s[0].1))] + view_members(s.subrange(1, s.len() as int))
    }
}

impl View for Json {
    type V = JsonV;

    open spec fn view(&self) -> JsonV {
        view_json(*self)
    }
}

pub proof fn lemma_view_seq(s: Seq<Json>)
    ensures
        view_seq(s).len() == s.len(),
        forall|i: int| 0 <= i < s.len() ==> #[trigger] view_seq(s)[i] == view_json(s[i]),
    decreases s.len(),
{
    if s.len() > 0 {
        lemma_view_seq(s.subrange(1, s.len() as int));
        assert forall|i: int| 0 <= i < s.len() implies #[trigger] view_seq(s)[i] == view_json(
            s[i],
        ) by {
            if i > 0 {
                assert(s.subrange(1, s.len() as int)[i - 1] == s[i]);
            }
        }
    }
}

pub proof fn lemma_view_members(s: Seq<(String, Json)>)
    ensures
        view_members(s).len() == s.len(),
        forall|i: int|
            0 <= i < s.len() ==> #[trigger] view_members(s)[i] == (s[i].0@, view_json(s[i].1)),
    decreases s.len(),
{
    if s.len() > 0 {
        lemma_view_members(s.subrange(1, s.len() as int));
        assert forall|i: int| 0 <= i < s.len() implies #[trigger] view_members(s)[i] == (
            s[i].0@,
            view_json(s[i].1),
        ) by {
            if i > 0 {
                assert(s.subrange(1, s.len() as int)[i - 1] == s[i]);
            }
        }
    }
}

/// Sequences of views equal element-wise are equal.
pub proof fn lemma_view_seq_ext(a: Seq<Json>, b: Seq<JsonV>)
    requires
        a.len() == b.len(),
        forall|i: int| 0 <= i < a.len() ==> view_json(#[trigger] a[i]) == b[i],
    ensures
        view_seq(a) == b,
{
    lemma_view_seq(a);
    assert(view_seq(a) =~= b);
}

pub proof fn lemma_view_members_ext(a: Seq<(String, Json)>, b: Seq<(Seq<char>, JsonV)>)
    requires
        a.len() == b.len(),
        forall|i: int| 0 <= i < a.len() ==> (#[trigger] a[i]).0@ == b[i].0 && view_json(a[i].1) == b[i].1,
    ensures
        view_members(a) == b,
{
    lemma_view_members(a);
    assert(view_members(a) =~= b);
}

/// The value of the first member named `key`.
pub open spec fn member_lookup(m: Seq<(Seq<char>, JsonV)>, key: Seq<char>) -> Option<JsonV>
    decreases m.len(),
{
    if m.len() == 0 {
        None
    } else if m[0].0 == key {
        Some(m[0].1)
    } else {
        member_lookup(m.subrange(1, m.len() as int), key)
    }
}

pub proof fn lemma_member_lookup_at(m: Seq<(Seq<char>, JsonV)>, key: Seq<char>, i: int)
    requires
        0 <= i <= m.len(),
        forall|j: int| 0 <= j < i ==> (#[trigger] m[j]).0 != key,
    ensures
        i < m.len() && m[i].0 == key ==> member_lookup(m, key) == Some(m[i].1),
        i == m.len() ==> member_lookup(m, key) is None,
    decreases i,
{
    if i > 0 {
        let t = m.subrange(1, m.len() as int);
        assert forall|j: int| 0 <= j < i - 1 implies (#[trigger] t[j]).0 != key by {
            assert(t[j] == m[j + 1]);
        }
        lemma_member_lookup_at(t, key, i - 1);
        assert(m[0].0 != key);
        if i < m.len() {
            assert(t[i - 1] == m[i]);
        }
    }
}

/// Whether some member is named `key`.
pub open spec fn has_member(m: Seq<(Seq<char>, JsonV)>, key: Seq<char>) -> bool {
    exists|i: int| 0 <= i < m.len() && (#[trigger] m[i]).0 == key
}

pub proof fn lemma_member_lookup_some(m: Seq<(Seq<char>, JsonV)>, key: Seq<char>)
    ensures
        member_lookup(m, key) is Some <==> has_member(m, key),
    decreases m.len(),
{
    if m.len() > 0 {
        let t = m.subrange(1, m.len() as int);
        lemma_member_lookup_some(t, key);
        if has_member(t, key) {
            let j = choose|j: int| 0 <= j < t.len() && (#[trigger] t[j]).0 == key;
            assert(m[j + 1] == t[j]);
        }
        if has_member(m, key) && m[0].0 != key {
            let j = choose|j: int| 0 <= j < m.len() && (#[trigger] m[j]).0 == key;
            assert(t[j - 1] == m[j]);
        }
    }
}

impl JsonV {
    /// `Value::get`: the member `key` of an object; nothing for other values.
    pub open spec fn get(self, key: Seq<char>) -> Option<JsonV> {
        match self {
            JsonV::Obj(m) => member_lookup(m, key),
            _ => None,
        }
    }

    pub open spec fn is_null(self) -> bool {
        self is Null
    }

    pub open spec fn is_obj(self) -> bool {
        self is Obj
    }

    /// The string value, if this is a string.
    pub open spec fn as_str(self) -> Option<Seq<char>> {
        match self {
            JsonV::Str(s) => Some(s),
            _ => None,
        }
    }
}

/// serde_json's rendering of a number.
pub open spec fn number_text(n: NumV) -> Seq<char> {
    match n {
        NumV::Int(i) => int_decimal(i),
        NumV::BigUInt(u) => nat_decimal(u),
        NumV::Float { text, .. } => text,
    }
}

/// Python's `str` of a number.
pub open spec fn py_number_text(n: NumV) -> Seq<char> {
    match n {
        NumV::Int(i) => int_decimal(i),
        NumV::BigUInt(u) => nat_decimal(u),
        NumV::Float { py_text, .. } => py_text,
    }
}

/// `as_i64`, else the float truncated toward zero (saturating).
pub open spec fn number_as_int(n: NumV) -> int {
    match n {
        NumV::Int(i) => i,
        NumV::BigUInt(u) => i64::MAX as int,
        NumV::Float { truncated, .. } => truncated,
    }
}

/// Whether the number is zero.
pub open spec fn number_is_zero(n: NumV) -> bool {
    match n {
        NumV::Int(i) => i == 0,
        NumV::BigUInt(u) => false,
        NumV::Float { is_zero, .. } => is_zero,
    }
}

/// Python truthiness of a JSON value.
pub open spec fn truthy(v: JsonV) -> bool {
    match v {
        JsonV::Null => false,
        JsonV::Bool(b) => b,
        JsonV::Num(n) => !number_is_zero(n),
        JsonV::Str(s) => s.len() > 0,
        JsonV::Arr(a) => a.len() > 0,
        JsonV::Obj(m) => m.len() > 0,
    }
}

impl JsonNumber {
    /// serde_json's `Display` of the number.
    pub fn text(&self) -> (r: String)
        ensures
            r@ == number_text(view_number(*self)),
    {
        match self {
            JsonNumber::Int(i) => i64_to_string(*i),
            JsonNumber::BigUInt(u) => string_of(&u64_to_chars(*u)),
            JsonNumber::Float(f) => copy_str(f.text.as_str()),
        }
    }

    /// Python `str` of the number.
    pub fn py_text(&self) -> (r: String)
        ensures
            r@ == py_number_text(view_number(*self)),
    {
        match self {
            JsonNumber::Int(i) => i64_to_string(*i),
            JsonNumber::BigUInt(u) => string_of(&u64_to_chars(*u)),
            JsonNumber::Float(f) => copy_str(f.py_text.as_str()),
        }
    }

    /// `as_i64`, else the float value truncated toward zero.
    pub fn as_int(&self) -> (r: i64)
        ensures
            r as int == number_as_int(view_number(*self)),
    {
        match self {
            JsonNumber::Int(i) => *i,
            JsonNumber::BigUInt(_) => i64::MAX,
            JsonNumber::Float(f) => f.truncated,
        }
    }

    pub fn is_zero(&self) -> (r: bool)
        ensures
            r == number_is_zero(view_number(*self)),
    {
        match self {
            JsonNumber::Int(i) => *i == 0,
            JsonNumber::BigUInt(_) => false,
            JsonNumber::Float(f) => f.is_zero,
        }
    }

    pub fn copy(&self) -> (r: JsonNumber)
        ensures
            view_number(r) == view_number(*self),
    {
        match self {
            JsonNumber::Int(i) => JsonNumber::Int(*i),
            JsonNumber::BigUInt(u) => JsonNumber::BigUInt(*u),
            JsonNumber::Float(f) => JsonNumber::Float(
                JsonFloat {
                    text: copy_str(f.text.as_str()),
                    py_text: copy_str(f.py_text.as_str()),
                    truncated: f.truncated,
                    is_zero: f.is_zero,
                },
            ),
        }
    }
}

/// The value of the first member named `key`.
#[verifier::loop_isolation(false)]
pub fn members_get<'a>(m: &'a Vec<(String, Json)>, key: &str) -> (r: Option<&'a Json>)
    ensures
        r matches Some(v) ==> member_lookup(view_members(m@), key@) == Some(v@),
        r is None ==> member_lookup(view_members(m@), key@) is None,
{
    let k = copy_str(key);
    let mut i: usize = 0;
    proof {
        lemma_view_members(m@);
    }
    while i < m.len()
        invariant
            i <= m@.len(),
            k@ == key@,
            view_members(m@).len() == m@.len(),
            forall|j: int|
                0 <= j < m@.len() ==> #[trigger] view_members(m@)[j] == (m@[j].0@, view_json(m@[j].1)),
            forall|j: int| 0 <= j < i ==> (#[trigger] view_members(m@)[j]).0 != key@,
        decreases m@.len() - i,
    {
        if m[i].0 == k {
            proof {
                assert(view_members(m@)[i as int].0 == key@);
                lemma_member_lookup_at(view_members(m@), key@, i as int);
            }
            return Some(&m[i].1);
        }
        i = i + 1;
    }
    proof {
        lemma_member_lookup_at(view_members(m@), key@, i as int);
    }
    None
}

impl Json {
    /// The member `key` of an object (`Value::get`); `None` for other values.
    pub fn get(&self, key: &str) -> (r: Option<&Json>)
        ensures
            r matches Some(v) ==> self@.get(key@) == Some(v@),
            r is None ==> self@.get(key@) is None,
    {
        match self {
            Json::Object(m) => members_get(m, key),
            _ => None,
        }
    }

    /// The elements, if this is an array.
    pub fn as_array(&self) -> (r: Option<&Vec<Json>>)
        ensures
            r matches Some(v) ==> self@ == JsonV::Arr(view_seq(v@)),
            r is None ==> !(self@ is Arr),
    {
        match self {
            Json::Array(v) => Some(v),
            _ => None,
        }
    }

    pub fn is_null(&self) -> (r: bool)
        ensures
            r == (self@ is Null),
    {
        match self {
            Json::Null => true,
            _ => false,
        }
    }

    pub fn is_object(&self) -> (r: bool)
        ensures
            r == (self@ is Obj),
    {
        match self {
            Json::Object(_) => true,
            _ => false,
        }
    }

    /// The string value, if this is a string.
    pub fn as_str(&self) -> (r: Option<&str>)
        ensures
            r matches Some(s) ==> self@ == JsonV::Str(s@),
            r is None ==> !(self@ is Str),
    {
        match self {
            Json::Str(s) => Some(s.as_str()),
            _ => None,
        }
    }

    /// Python truthiness.
    pub fn truthy(&self) -> (r: bool)
        ensures
            r == truthy(self@),
    {
        proof {
            match self {
                Json::Array(v) => lemma_view_seq(v@),
                Json::Object(m) => lemma_view_members(m@),
                _ => {},
            }
        }
        match self {
            Json::Null => false,
            Json::Bool(b) => *b,
            Json::Number(n) => !n.is_zero(),
            Json::Str(s) => s.as_str().unicode_len() > 0,
            Json::Array(a) => a.len() > 0,
            Json::Object(m) => m.len() > 0,
        }
    }

    /// A copy of this document.
    #[verifier::loop_isolation(false)]
    pub fn deep_clone(&self) -> (r: Json)
        ensures
            r@ == self@,
        decreases self,
    {
        match self {
            Json::Null => Json::Null,
            Json::Bool(b) => Json::Bool(*b),
            Json::Number(n) => Json::Number(n.copy()),
            Json::Str(s) => Json::Str(copy_str(s.as_str())),
            Json::Array(v) => {
                let mut out: Vec<Json> = Vec::new();
                let mut i: usize = 0;
                proof {
                    lemma_view_seq(v@);
                }
                while i < v.len()
                    invariant
                        i <= v@.len(),
                        out@.len() == i,
                        forall|j: int| 0 <= j < i ==> view_json(#[trigger] out@[j]) == view_json(v@[j]),
                    decreases v@.len() - i,
                {
                    proof {
                        assert(decreases_to!(*self => *v));
                        assert(decreases_to!(*v => v@));
                        assert(decreases_to!(v@ => v@[i as int]));
                    }
                    let c = v[i].deep_clone();
                    out.push(c);
                    i = i + 1;
                }
                proof {
                    lemma_view_seq(out@);
                    lemma_view_seq_ext(out@, view_seq(v@));
                }
                Json::Array(out)
            },
            Json::Object(m) => {
                let mut out: Vec<(String, Json)> = Vec::new();
                let mut i: usize = 0;
                proof {
                    lemma_view_members(m@);
                }
                while i < m.len()
                    invariant
                        i <= m@.len(),
                        out@.len() == i,
                        forall|j: int|
                            0 <= j < i ==> (#[trigger] out@[j]).0@ == m@[j].0@ && view_json(out@[j].1)
                                == view_json(m@[j].1),
                    decreases m@.len() - i,
                {
                    let k = copy_str(m[i].0.as_str());
                    proof {
                        assert(decreases_to!(*self => *m));
                        assert(decreases_to!(*m => m@));
                        assert(decreases_to!(m@ => m@[i as int]));
                        assert(decreases_to!(m@[i as int] => m@[i as int].1));
                    }
                    let c = m[i].1.deep_clone();
                    out.push((k, c));
                    i = i + 1;
                }
                proof {
                    lemma_view_members_ext(out@, view_members(m@));
                }
                Json::Object(out)
            },
        }
    }
}

/// The index of the first member named `key` at or after `i`; the length
/// when there is none.
pub open spec fn member_index(m: Seq<(Seq<char>, JsonV)>, key: Seq<char>, i: int) -> int
    decreases m.len() - i,
{
    if i < 0 || i >= m.len() {
        m.len() as int
    } else if m[i].0 == key {
        i
    } else {
        member_index(m, key, i + 1)
    }
}

/// The member at `member_index` is the one `member_lookup` finds.
pub proof fn lemma_member_index_lookup(m: Seq<(Seq<char>, JsonV)>, key: Seq<char>)
    ensures
        member_index(m, key, 0) < m.len() ==> m[member_index(m, key, 0)].0 == key
            && member_lookup(m, key) == Some(m[member_index(m, key, 0)].1),
        member_index(m, key, 0) >= m.len() ==> member_lookup(m, key) is None,
{
    lemma_member_index_from(m, key, 0);
    let i = member_index(m, key, 0);
    lemma_member_lookup_at(m, key, if i < m.len() { i } else { m.len() as int });
}

proof fn lemma_member_index_from(m: Seq<(Seq<char>, JsonV)>, key: Seq<char>, i: int)
    requires
        0 <= i <= m.len(),
    ensures
        i <= member_index(m, key, i) <= m.len(),
        forall|j: int| i <= j < member_index(m, key, i) ==> (#[trigger] m[j]).0 != key,
        member_index(m, key, i) < m.len() ==> m[member_index(m, key, i)].0 == key,
    decreases m.len() - i,
{
    if i < m.len() && m[i].0 != key {
        lemma_member_index_from(m, key, i + 1);
    }
}

/// `Map::insert` on the members of an object: the value of member `key`
/// replaced, or the member appended.
pub open spec fn members_insert(m: Seq<(Seq<char>, JsonV)>, key: Seq<char>, v: JsonV) -> Seq<(Seq<char>, JsonV)> {
    let i = member_index(m, key, 0);
    if i < m.len() {
        m.update(i, (key, v))
    } else {
        m.push((key, v))
    }
}

/// Sets member `key` of an object's members to `v`.
pub fn insert_member(m: &mut Vec<(String, Json)>, key: &str, v: Json)
    ensures
        view_members(final(m)@) == members_insert(view_members(old(m)@), key@, v@),
{
    proof {
        lemma_view_members(m@);
    }
    let ghost mv = view_members(m@);
    let mut i: usize = 0;
    while i < m.len()
        invariant
            i <= m@.len(),
            mv == view_members(m@),
            mv.len() == m@.len(),
            forall|j: int| 0 <= j < m@.len() ==> #[trigger] mv[j] == (m@[j].0@, view_json(m@[j].1)),
            member_index(mv, key@, 0) == member_index(mv, key@, i as int),
            *m == *old(m),
        decreases m@.len() - i,
    {
        if str_eq_local(m[i].0.as_str(), key) {
            assert(mv[i as int].0 == key@);
            let ghost before = m@;
            m.set(i, (copy_str(key), v));
            proof {
                lemma_view_members(m@);
                assert(view_members(m@) =~= mv.update(i as int, (key@, v@))) by {
                    assert forall|j: int| 0 <= j < m@.len() implies view_members(m@)[j] == mv.update(i as int, (key@, v@))[j] by {
                        if j != i {
                            assert(m@[j] == before[j]);
                        }
                    }
                }
            }
            return;
        }
        i = i + 1;
    }
    let ghost before = m@;
    m.push((copy_str(key), v));
    proof {
        lemma_view_members(m@);
        assert(view_members(m@) =~= mv.push((key@, v@))) by {
            assert forall|j: int| 0 <= j < m@.len() implies view_members(m@)[j] == mv.push((key@, v@))[j] by {
                if j < before.len() {
                    assert(m@[j] == before[j]);
                }
            }
        }
    }
}

/// `Map::remove` on the members of an object: member `key` dropped.
pub open spec fn members_remove(m: Seq<(Seq<char>, JsonV)>, key: Seq<char>) -> Seq<(Seq<char>, JsonV)> {
    let i = member_index(m, key, 0);
    if i < m.len() {
        m.remove(i)
    } else {
        m
    }
}

/// Drops member `key` of an object's members; its value, if it was there.
pub fn remove_member(m: &mut Vec<(String, Json)>, key: &str) -> (r: Option<Json>)
    ensures
        view_members(final(m)@) == members_remove(view_members(old(m)@), key@),
        match r {
            Some(v) => member_index(view_members(old(m)@), key@, 0) < old(m)@.len()
                && view_members(old(m)@)[member_index(view_members(old(m)@), key@, 0)].1 == v@,
            None => member_index(view_members(old(m)@), key@, 0) == old(m)@.len(),
        },
{
    proof {
        lemma_view_members(m@);
    }
    let ghost mv = view_members(m@);
    let mut i: usize = 0;
    while i < m.len()
        invariant
            i <= m@.len(),
            mv == view_members(m@),
            mv.len() == m@.len(),
            forall|j: int| 0 <= j < m@.len() ==> #[trigger] mv[j] == (m@[j].0@, view_json(m@[j].1)),
            member_index(mv, key@, 0) == member_index(mv, key@, i as int),
            *m == *old(m),
        decreases m@.len() - i,
    {
        if str_eq_local(m[i].0.as_str(), key) {
            assert(mv[i as int].0 == key@);
            let ghost before = m@;
            let (_, v) = m.remove(i);
            proof {
                lemma_view_members(m@);
                assert(view_members(m@) =~= mv.remove(i as int)) by {
                    assert forall|j: int| 0 <= j < m@.len() implies view_members(m@)[j] == mv.remove(i as int)[j] by {
                        if j < i {
                            assert(m@[j] == before[j]);
                        } else {
                            assert(m@[j] == before[j + 1]);
                        }
                    }
                }
            }
            return Some(v);
        }
        i = i + 1;
    }
    None
}

fn str_eq_local(a: &str, b: &str) -> (r: bool)
    ensures
        r == (a@ == b@),
{
    crate::text::str_eq(a, b)
}

/// serde_json's equality of numbers: the same integer, or floats of the
/// same value (both zeros are equal).
pub open spec fn num_eq(a: NumV, b: NumV) -> bool {
    match (a, b) {
        (NumV::Int(x), NumV::Int(y)) => x == y,
        (NumV::BigUInt(x), NumV::BigUInt(y)) => x == y,
        (NumV::Float { text: t1, is_zero: z1, .. }, NumV::Float { text: t2, is_zero: z2, .. }) => (z1 && z2) || t1 == t2,
        _ => false,
    }
}

/// serde_json's equality of documents (`Value == Value`).
pub open spec fn json_eq(a: JsonV, b: JsonV) -> bool
    decreases a, 2nat,
{
    match (a, b) {
        (JsonV::Null, JsonV::Null) => true,
        (JsonV::Bool(x), JsonV::Bool(y)) => x == y,
        (JsonV::Num(x), JsonV::Num(y)) => num_eq(x, y),
        (JsonV::Str(x), JsonV::Str(y)) => x == y,
        (JsonV::Arr(x), JsonV::Arr(y)) => x.len() == y.len() && items_eq(x, y, x.len() as int),
        (JsonV::Obj(x), JsonV::Obj(y)) => x.len() == y.len() && members_eq(x, y, x.len() as int),
        _ => false,
    }
}

/// The first `n` items are pairwise equal.
pub open spec fn items_eq(x: Seq<JsonV>, y: Seq<JsonV>, n: int) -> bool
    decreases x, 1nat, n,
{
    if n <= 0 || n > x.len() || n > y.len() {
        n <= 0
    } else {
        items_eq(x, y, n - 1) && json_eq(x[n - 1], y[n - 1])
    }
}

/// The first `n` members are pairwise equal (keys and values).
pub open spec fn members_eq(x: Seq<(Seq<char>, JsonV)>, y: Seq<(Seq<char>, JsonV)>, n: int) -> bool
    decreases x, 1nat, n,
{
    if n <= 0 || n > x.len() || n > y.len() {
        n <= 0
    } else {
        members_eq(x, y, n - 1) && x[n - 1].0 == y[n - 1].0 && json_eq(x[n - 1].1, y[n - 1].1)
    }
}

fn num_equal(a: &JsonNumber, b: &JsonNumber) -> (r: bool)
    ensures
        r == num_eq(view_number(*a), view_number(*b)),
{
    match (a, b) {
        (JsonNumber::Int(x), JsonNumber::Int(y)) => *x == *y,
        (JsonNumber::BigUInt(x), JsonNumber::BigUInt(y)) => *x == *y,
        (JsonNumber::Float(x), JsonNumber::Float(y)) => (x.is_zero && y.is_zero) || crate::text::str_eq(x.text.as_str(), y.text.as_str()),
        _ => false,
    }
}

/// `Value == Value`.
#[verifier::loop_isolation(false)]
pub fn json_equal(a: &Json, b: &Json) -> (r: bool)
    ensures
        r == json_eq(a@, b@),
    decreases a,
{
    match (a, b) {
        (Json::Null, Json::Null) => true,
        (Json::Bool(x), Json::Bool(y)) => *x == *y,
        (Json::Number(x), Json::Number(y)) => num_equal(x, y),
        (Json::Str(x), Json::Str(y)) => crate::text::str_eq(x.as_str(), y.as_str()),
        (Json::Array(x), Json::Array(y)) => {
            proof {
                lemma_view_seq(x@);
                lemma_view_seq(y@);
            }
            if x.len() != y.len() {
                return false;
            }
            let ghost xv = view_seq(x@);
            let ghost yv = view_seq(y@);
            let mut i: usize = 0;
            while i < x.len()
                invariant
                    i <= x@.len(),
                    x@.len() == y@.len(),
                    xv == view_seq(x@),
                    yv == view_seq(y@),
                    xv.len() == x@.len(),
                    yv.len() == y@.len(),
                    forall|j: int| 0 <= j < x@.len() ==> #[trigger] xv[j] == x@[j]@,
                    forall|j: int| 0 <= j < y@.len() ==> #[trigger] yv[j] == y@[j]@,
                    items_eq(xv, yv, i as int),
                decreases x@.len() - i,
            {
                proof {
                    assert(decreases_to!(*a => *x));
                    assert(decreases_to!(*x => x@));
                    assert(decreases_to!(x@ => x@[i as int]));
                }
                assert(xv[i as int] == x@[i as int]@);
                assert(yv[i as int] == y@[i as int]@);
                if !json_equal(&x[i], &y[i]) {
                    proof {
                        lemma_items_eq_stops(xv, yv, i as int + 1);
                    }
                    return false;
                }
                i = i + 1;
            }
            true
        },
        (Json::Object(x), Json::Object(y)) => {
            proof {
                lemma_view_members(x@);
                lemma_view_members(y@);
            }
            if x.len() != y.len() {
                return false;
            }
            let ghost xv = view_members(x@);
            let ghost yv = view_members(y@);
            let mut i: usize = 0;
            while i < x.len()
                invariant
                    i <= x@.len(),
                    x@.len() == y@.len(),
                    xv == view_members(x@),
                    yv == view_members(y@),
                    xv.len() == x@.len(),
                    yv.len() == y@.len(),
                    forall|j: int| 0 <= j < x@.len() ==> #[trigger] xv[j] == (x@[j].0@, view_json(x@[j].1)),
                    forall|j: int| 0 <= j < y@.len() ==> #[trigger] yv[j] == (y@[j].0@, view_json(y@[j].1)),
                    members_eq(xv, yv, i as int),
                decreases x@.len() - i,
            {
                proof {
                    assert(decreases_to!(*a => *x));
                    assert(decreases_to!(*x => x@));
                    assert(decreases_to!(x@ => x@[i as int]));
                    assert(decreases_to!(x@[i as int] => x@[i as int].1));
                }
                assert(xv[i as int] == (x@[i as int].0@, view_json(x@[i as int].1)));
                assert(yv[i as int] == (y@[i as int].0@, view_json(y@[i as int].1)));
                if !crate::text::str_eq(x[i].0.as_str(), y[i].0.as_str()) || !json_equal(&x[i].1, &y[i].1) {
                    proof {
                        lemma_members_eq_stops(xv, yv, i as int + 1);
                    }
                    return false;
                }
                i = i + 1;
            }
            true
        },
        _ => false,
    }
}

proof fn lemma_items_eq_stops(x: Seq<JsonV>, y: Seq<JsonV>, n: int)
    requires
        0 < n <= x.len(),
        x.len() == y.len(),
        !items_eq(x, y, n),
    ensures
        !items_eq(x, y, x.len() as int),
    decreases x.len() - n,
{
    if n < x.len() {
        lemma_items_eq_stops(x, y, n + 1);
    }
}

proof fn lemma_members_eq_stops(x: Seq<(Seq<char>, JsonV)>, y: Seq<(Seq<char>, JsonV)>, n: int)
    requires
        0 < n <= x.len(),
        x.len() == y.len(),
        !members_eq(x, y, n),
    ensures
        !members_eq(x, y, x.len() as int),
    decreases x.len() - n,
{
    if n < x.len() {
        lemma_members_eq_stops(x, y, n + 1);
    }
}

/// A copy of the members of an object.
pub fn clone_members(m: &Vec<(String, Json)>) -> (r: Vec<(String, Json)>)
    ensures
        view_members(r@) == view_members(m@),
{
    let mut out: Vec<(String, Json)> = Vec::new();
    let mut i: usize = 0;
    proof {
        lemma_view_members(m@);
    }
    while i < m.len()
        invariant
            i <= m@.len(),
            out@.len() == i,
            view_members(m@).len() == m@.len(),
            forall|j: int|
                0 <= j < m@.len() ==> #[trigger] view_members(m@)[j] == (m@[j].0@, view_json(m@[j].1)),
            forall|j: int|
                0 <= j < i ==> (#[trigger] out@[j]).0@ == m@[j].0@ && view_json(out@[j].1)
                    == view_json(m@[j].1),
        decreases m@.len() - i,
    {
        let k = copy_str(m[i].0.as_str());
        let v = m[i].1.deep_clone();
        out.push((k, v));
        i = i + 1;
    }
    proof {
        lemma_view_members_ext(out@, view_members(m@));
    }
    out
}

// ---------------------------------------------------------------------------
// Validation errors: `{"loc": [...], "msg": ..., "type": ...}`
// ---------------------------------------------------------------------------

/// One step of an error location: an object key or an array index.
pub enum Loc {
    Key(String),
    Index(usize),
}

pub enum LocV {
    Key(Seq<char>),
    Index(nat),
}

impl View for Loc {
    type V = LocV;

    open spec fn view(&self) -> LocV {
        match self {
            Loc::Key(k) => LocV::Key(k@),
            Loc::Index(i) => LocV::Index(*i as nat),
        }
    }
}

/// One field-level validation error.
pub struct FieldError {
    pub loc: Vec<Loc>,
    pub msg: String,
    pub kind: String,
}

pub struct FieldErrorV {
    pub loc: Seq<LocV>,
    pub msg: Seq<char>,
    pub kind: Seq<char>,
}

pub open spec fn locs_view(l: Seq<Loc>) -> Seq<LocV> {
    l.map_values(|x: Loc| x@)
}

impl View for FieldError {
    type V = FieldErrorV;

    open spec fn view(&self) -> FieldErrorV {
        FieldErrorV { loc: locs_view(self.loc@), msg: self.msg@, kind: self.kind@ }
    }
}

pub open spec fn errs_view(v: Seq<FieldError>) -> Seq<FieldErrorV> {
    v.map_values(|e: FieldError| e@)
}

pub open spec fn fe(loc: Seq<LocV>, msg: Seq<char>, kind: Seq<char>) -> FieldErrorV {
    FieldErrorV { loc, msg, kind }
}

pub open spec fn key(k: &str) -> LocV {
    LocV::Key(k@)
}

impl Loc {
    pub fn copy(&self) -> (r: Loc)
        ensures
            r@ == self@,
    {
        match self {
            Loc::Key(k) => Loc::Key(copy_str(k.as_str())),
            Loc::Index(i) => Loc::Index(*i),
        }
    }
}

/// A copy of a location path.
pub fn copy_locs(l: &Vec<Loc>) -> (r: Vec<Loc>)
    ensures
        locs_view(r@) == locs_view(l@),
{
    let mut r: Vec<Loc> = Vec::new();
    let mut i: usize = 0;
    while i < l.len()
        invariant
            i <= l@.len(),
            r@.len() == i,
            forall|j: int| 0 <= j < i ==> (#[trigger] r@[j])@ == l@[j]@,
        decreases l@.len() - i,
    {
        r.push(l[i].copy());
        i = i + 1;
    }
    assert(locs_view(r@) =~= locs_view(l@));
    r
}

/// `prefix` extended by the key `k`.
pub fn loc_key(prefix: &Vec<Loc>, k: &str) -> (r: Vec<Loc>)
    ensures
        locs_view(r@) == locs_view(prefix@).push(LocV::Key(k@)),
{
    let mut r = copy_locs(prefix);
    let ghost before = r@;
    r.push(Loc::Key(copy_str(k)));
    assert(locs_view(r@) =~= locs_view(before).push(LocV::Key(k@)));
    r
}

/// `prefix` extended by the index `i`.
pub fn loc_index(prefix: &Vec<Loc>, i: usize) -> (r: Vec<Loc>)
    ensures
        locs_view(r@) == locs_view(prefix@).push(LocV::Index(i as nat)),
{
    let mut r = copy_locs(prefix);
    let ghost before = r@;
    r.push(Loc::Index(i));
    assert(locs_view(r@) =~= locs_view(before).push(LocV::Index(i as nat)));
    r
}

/// The location `["body"]`.
pub fn body_loc() -> (r: Vec<Loc>)
    ensures
        locs_view(r@) == seq![LocV::Key("body"@)],
{
    let mut r: Vec<Loc> = Vec::new();
    r.push(Loc::Key(copy_str("body")));
    assert(locs_view(r@) =~= seq![LocV::Key("body"@)]);
    r
}

/// The location `["body", f]`.
pub open spec fn body_path(f: Seq<char>) -> Seq<LocV> {
    seq![LocV::Key("body"@)].push(LocV::Key(f))
}

/// The location `["body", f]`.
pub fn body_field_loc(f: &str) -> (r: Vec<Loc>)
    ensures
        locs_view(r@) == body_path(f@),
{
    loc_key(&body_loc(), f)
}

/// Builds a field error.
pub fn field_error(loc: Vec<Loc>, msg: &str, kind: &str) -> (r: FieldError)
    ensures
        r@ == fe(locs_view(loc@), msg@, kind@),
{
    FieldError { loc, msg: copy_str(msg), kind: copy_str(kind) }
}

/// Appends `e` to `errors`.
pub fn push_error(errors: &mut Vec<FieldError>, e: FieldError)
    ensures
        errs_view(final(errors)@) == errs_view(old(errors)@).push(e@),
{
    errors.push(e);
    assert(errs_view(final(errors)@) =~= errs_view(old(errors)@).push(e@));
}

} // verus!

verus! {

// ---------------------------------------------------------------------------
// Compact JSON text (serde_json's `Display` of a value)
// ---------------------------------------------------------------------------

pub open spec fn hex_digit(d: nat) -> char {
    if d < 10 {
        digit_char(d)
    } else if d == 10 { 'a' }
    else if d == 11 { 'b' }
    else if d == 12 { 'c' }
    else if d == 13 { 'd' }
    else if d == 14 { 'e' }
    else { 'f' }
}

/// The escaped form of one character inside a JSON string.
pub open spec fn escape_char(c: char) -> Seq<char> {
    if c == '"' {
        seq!['\\', '"']
    } else if c == '\\' {
        seq!['\\', '\\']
    } else if c == '\n' {
        seq!['\\', 'n']
    } else if c == '\r' {
        seq!['\\', 'r']
    } else if c == '\t' {
        seq!['\\', 't']
    } else if c as u32 == 8 {
        seq!['\\', 'b']
    } else if c as u32 == 12 {
        seq!['\\', 'f']
    } else if (c as u32) < 0x20 {
        seq!['\\', 'u', '0', '0', hex_digit(((c as u32) / 16) as nat), hex_digit(((c as u32) % 16) as nat)]
    } else {
        seq![c]
    }
}

pub open spec fn escape_str(s: Seq<char>) -> Seq<char>
    decreases s.len(),
{
    if s.len() == 0 {
        seq![]
    } else {
        escape_str(s.drop_last()) + escape_char(s.last())
    }
}

/// A JSON string literal.
pub open spec fn quoted(s: Seq<char>) -> Seq<char> {
    seq!['"'] + escape_str(s) + seq!['"']
}

/// The compact JSON text of a value.
pub open spec fn json_text(v: JsonV) -> Seq<char>
    decreases v, 0nat,
{
    match v {
        JsonV::Null => "null"@,
        JsonV::Bool(b) => if b {
            "true"@
        } else {
            "false"@
        },
        JsonV::Num(n) => number_text(n),
        JsonV::Str(s) => quoted(s),
        JsonV::Arr(a) => seq!['['] + items_text(a) + seq![']'],
        JsonV::Obj(m) => seq!['{'] + members_text(m) + seq!['}'],
    }
}

/// The comma-separated texts of array items.
pub open spec fn items_text(a: Seq<JsonV>) -> Seq<char>
    decreases a, a.len(),
{
    if a.len() == 0 {
        seq![]
    } else if a.len() == 1 {
        json_text(a[0])
    } else {
        items_text(a.subrange(0, a.len() - 1)) + seq![','] + json_text(a[a.len() - 1])
    }
}

/// The comma-separated `"key":value` texts of object members.
pub open spec fn members_text(m: Seq<(Seq<char>, JsonV)>) -> Seq<char>
    decreases m, m.len(),
{
    if m.len() == 0 {
        seq![]
    } else if m.len() == 1 {
        quoted(m[0].0) + seq![':'] + json_text(m[0].1)
    } else {
        members_text(m.subrange(0, m.len() - 1)) + seq![','] + quoted(m[m.len() - 1].0) + seq![
            ':',
        ] + json_text(m[m.len() - 1].1)
    }
}

fn hex_char(d: u32) -> (c: char)
    requires
        d < 16,
    ensures
        c == hex_digit(d as nat),
{
    if d == 0 { '0' }
    else if d == 1 { '1' }
    else if d == 2 { '2' }
    else if d == 3 { '3' }
    else if d == 4 { '4' }
    else if d == 5 { '5' }
    else if d == 6 { '6' }
    else if d == 7 { '7' }
    else if d == 8 { '8' }
    else if d == 9 { '9' }
    else if d == 10 { 'a' }
    else if d == 11 { 'b' }
    else if d == 12 { 'c' }
    else if d == 13 { 'd' }
    else if d == 14 { 'e' }
    else { 'f' }
}

pub fn push_all(out: &mut Vec<char>, s: &[char])
    ensures
        final(out)@ == old(out)@ + s@,
{
    let mut i: usize = 0;
    while i < s.len()
        invariant
            i <= s@.len(),
            out@ == old(out)@ + s@.take(i as int),
        decreases s@.len() - i,
    {
        out.push(s[i]);
        assert(s@.take(i + 1) =~= s@.take(i as int).push(s@[i as int]));
        i = i + 1;
    }
    assert(s@.take(s@.len() as int) =~= s@);
}

fn push_escaped(out: &mut Vec<char>, s: &str)
    ensures
        final(out)@ == old(out)@ + quoted(s@),
{
    let cs = chars_of(s);
    out.push('"');
    let ghost start = out@;
    let mut i: usize = 0;
    while i < cs.len()
        invariant
            i <= cs@.len(),
            cs@ == s@,
            out@ == start + escape_str(cs@.take(i as int)),
        decreases cs@.len() - i,
    {
        let c = cs[i];
        let ghost before = out@;
        let u = c as u32;
        if c == '"' {
            out.push('\\');
            out.push('"');
        } else if c == '\\' {
            out.push('\\');
            out.push('\\');
        } else if c == '\n' {
            out.push('\\');
            out.push('n');
        } else if c == '\r' {
            out.push('\\');
            out.push('r');
        } else if c == '\t' {
            out.push('\\');
            out.push('t');
        } else if u == 8 {
            out.push('\\');
            out.push('b');
        } else if u == 12 {
            out.push('\\');
            out.push('f');
        } else if u < 0x20 {
            out.push('\\');
            out.push('u');
            out.push('0');
            out.push('0');
            out.push(hex_char(u / 16));
            out.push(hex_char(u % 16));
        } else {
            out.push(c);
        }
        assert(out@ =~= before + escape_char(c));
        assert(cs@.take(i + 1).drop_last() =~= cs@.take(i as int));
        i = i + 1;
    }
    assert(cs@.take(cs@.len() as int) =~= cs@);
    out.push('"');
    assert(final(out)@ =~= old(out)@ + quoted(s@));
}

proof fn lemma_view_seq_take(s: Seq<Json>, n: int)
    requires
        0 <= n <= s.len(),
    ensures
        view_seq(s.take(n)) == view_seq(s).take(n),
{
    lemma_view_seq(s);
    lemma_view_seq(s.take(n));
    assert(view_seq(s.take(n)) =~= view_seq(s).take(n));
}

proof fn lemma_view_members_take(s: Seq<(String, Json)>, n: int)
    requires
        0 <= n <= s.len(),
    ensures
        view_members(s.take(n)) == view_members(s).take(n),
{
    lemma_view_members(s);
    lemma_view_members(s.take(n));
    assert(view_members(s.take(n)) =~= view_members(s).take(n));
}

/// Appends the compact JSON text of `v` to `out`.
#[verifier::loop_isolation(false)]
#[verifier::rlimit(50)]
#[verifier::spinoff_prover]
pub fn push_json_text(v: &Json, out: &mut Vec<char>)
    ensures
        final(out)@ == old(out)@ + json_text(v@),
    decreases v,
{
    match v {
        Json::Null => {
            push_all(out, &['n', 'u', 'l', 'l']);
            proof { reveal_strlit("null"); }
            assert(final(out)@ =~= old(out)@ + json_text(v@));
        },
        Json::Bool(b) => {
            if *b {
                push_all(out, &['t', 'r', 'u', 'e']);
                proof { reveal_strlit("true"); }
            } else {
                push_all(out, &['f', 'a', 'l', 's', 'e']);
                proof { reveal_strlit("false"); }
            }
            assert(final(out)@ =~= old(out)@ + json_text(v@));
        },
        Json::Number(n) => {
            let t = n.text();
            let tc = chars_of(t.as_str());
            push_all(out, &tc);
        },
        Json::Str(s) => {
            push_escaped(out, s.as_str());
        },
        Json::Array(a) => {
            out.push('[');
            let ghost start = out@;
            let ghost vs = view_seq(a@);
            proof {
                lemma_view_seq(a@);
            }
            let mut i: usize = 0;
            while i < a.len()
                invariant
                    i <= a@.len(),
                    vs == view_seq(a@),
                    vs.len() == a@.len(),
                    forall|j: int| 0 <= j < a@.len() ==> #[trigger] vs[j] == view_json(a@[j]),
                    out@ == start + items_text(vs.take(i as int)),
                decreases a@.len() - i,
            {
                proof {
                    assert(decreases_to!(*v => *a));
                    assert(decreases_to!(*a => a@));
                    assert(decreases_to!(a@ => a@[i as int]));
                }
                let ghost before = out@;
                if i > 0 {
                    out.push(',');
                }
                push_json_text(&a[i], out);
                assert(vs.take(i + 1).subrange(0, i as int) =~= vs.take(i as int));
                assert(vs.take(i + 1)[i as int] == vs[i as int]);
                if i == 0 {
                    assert(out@ =~= start + items_text(vs.take(1)));
                } else {
                    assert(out@ =~= start + items_text(vs.take(i + 1)));
                }
                i = i + 1;
            }
            assert(vs.take(a@.len() as int) =~= vs);
            out.push(']');
            assert(final(out)@ =~= old(out)@ + json_text(v@));
        },
        Json::Object(m) => {
            out.push('{');
            let ghost start = out@;
            let ghost vs = view_members(m@);
            proof {
                lemma_view_members(m@);
            }
            let mut i: usize = 0;
            while i < m.len()
                invariant
                    i <= m@.len(),
                    vs == view_members(m@),
                    vs.len() == m@.len(),
                    forall|j: int| 0 <= j < m@.len() ==> #[trigger] vs[j] == (m@[j].0@, view_json(m@[j].1)),
                    out@ == start + members_text(vs.take(i as int)),
                decreases m@.len() - i,
            {
                proof {
                    assert(decreases_to!(*v => *m));
                    assert(decreases_to!(*m => m@));
                    assert(decreases_to!(m@ => m@[i as int]));
                    assert(decreases_to!(m@[i as int] => m@[i as int].1));
                }
                if i > 0 {
                    out.push(',');
                }
                push_escaped(out, m[i].0.as_str());
                out.push(':');
                push_json_text(&m[i].1, out);
                assert(vs.take(i + 1).subrange(0, i as int) =~= vs.take(i as int));
                assert(vs.take(i + 1)[i as int] == vs[i as int]);
                if i == 0 {
                    assert(out@ =~= start + members_text(vs.take(1)));
                } else {
                    assert(out@ =~= start + members_text(vs.take(i + 1)));
                }
                i = i + 1;
            }
            assert(vs.take(m@.len() as int) =~= vs);
            out.push('}');
            assert(final(out)@ =~= old(out)@ + json_text(v@));
        },
    }
}

/// The compact JSON text of `v` (`Value::to_string`).
pub fn json_to_string(v: &Json) -> (r: String)
    ensures
        r@ == json_text(v@),
{
    let mut out: Vec<char> = Vec::new();
    push_json_text(v, &mut out);
    assert(out@ =~= json_text(v@));
    string_of(&out)
}

} // verus!
