//! Request validation of the items service, with lenient field coercion: the
//! same 422 field errors (`loc`, `msg`, `type`) in the same order.

use vstd::prelude::*;
use crate::events::models::{
    body_field, illegal_chars_repr, not_a_dict_body, py_char_repr, require_object, up_to_msg,
};
use crate::fields::{
    after, err_dict, err_list, err_missing, err_none, int_field, str_field, str_items,
    str_items_errors, str_items_ok, str_items_values, strings_view, take_int, take_str, StrMode,
};
use crate::json::{
    body_field_loc, errs_view, fe, field_error, lemma_view_seq, loc_index, loc_key, locs_view,
    push_error, view_json, view_seq, FieldError, FieldErrorV, Json, JsonV, Loc, LocV,
};
use crate::text::{
    chars_of, concat3, copy_str, i64_to_string, join, present_chars, chars_present, str_eq,
    string_of, trim,
};

verus! {

// ---------------------------------------------------------------------------
// Field validators
// ---------------------------------------------------------------------------

/// The characters an item identifier may not contain, in message order.
pub open spec fn item_id_disallowed() -> Seq<char> {
    seq![',', '"', '\'', '.']
}

/// The message rejecting an item identifier, if any.
pub open spec fn item_id_error(value: Seq<char>) -> Option<Seq<char>> {
    let found = chars_present(value, item_id_disallowed());
    if value.len() > 60 || value.len() < 1 {
        Some(
            "Item identifiers must be at least 1 character long and less than 60 characters long."@,
        )
    } else if found.len() > 0 {
        Some(
            "Illegal character(s) found in provided item identifier : ["@ + join(
                found.map_values(|c: char| py_char_repr(c)),
                ", "@,
            ) + "]"@,
        )
    } else {
        None
    }
}

/// An item identifier: 1 to 60 characters, none of `, " ' .`.
pub fn validate_item_id(value: &str) -> (r: Result<(), String>)
    ensures
        r is Ok <==> item_id_error(value@) is None,
        r matches Err(m) ==> item_id_error(value@) == Some(m@),
{
    let chars = chars_of(value);
    let n = chars.len();
    if n > 60 || n < 1 {
        return Err(
            copy_str(
                "Item identifiers must be at least 1 character long and less than 60 characters long.",
            ),
        );
    }
    let disallowed = [',', '"', '\'', '.'];
    assert(disallowed@ =~= item_id_disallowed());
    let found = present_chars(&chars, &disallowed);
    if found.len() > 0 {
        let joined = illegal_chars_repr(&found);
        return Err(
            concat3(
                "Illegal character(s) found in provided item identifier : [",
                string_of(&joined).as_str(),
                "]",
            ),
        );
    }
    Ok(())
}

/// The message rejecting an item description, if any.
pub open spec fn item_description_error(value: Seq<char>) -> Option<Seq<char>> {
    if value.len() > 40 || value.len() < 1 {
        Some(
            "Item description must be at least 1 character long and less than 40 characters long."@,
        )
    } else {
        None
    }
}

/// An item description: 1 to 40 characters.
pub fn validate_item_description(value: &str) -> (r: Result<(), String>)
    ensures
        r is Ok <==> item_description_error(value@) is None,
        r matches Err(m) ==> item_description_error(value@) == Some(m@),
{
    let n = value.unicode_len();
    if n > 40 || n < 1 {
        return Err(
            copy_str(
                "Item description must be at least 1 character long and less than 40 characters long.",
            ),
        );
    }
    Ok(())
}

/// The message rejecting an item status, if any.
pub open spec fn status_error(value: Seq<char>) -> Option<Seq<char>> {
    if value != "active"@ && value != "inactive"@ {
        Some("Invalid item status provided. Allowed statuses : 'active', 'inactive'"@)
    } else {
        None
    }
}

/// Law: an item status is accepted exactly when it is `active` or
/// `inactive`, the two statuses the refusal names; any other is refused
/// with that message.
pub proof fn law_item_status_accepts_exactly_active_and_inactive(value: Seq<char>)
    ensures
        status_error(value) is None <==> (value == "active"@ || value == "inactive"@),
        status_error(value) is Some ==> status_error(value) == Some(
            "Invalid item status provided. Allowed statuses : 'active', 'inactive'"@,
        ),
{
}

/// An item status: `active` or `inactive`.
pub fn validate_status(value: &str) -> (r: Result<(), String>)
    ensures
        r is Ok <==> status_error(value@) is None,
        r matches Err(m) ==> status_error(value@) == Some(m@),
{
    if !str_eq(value, "active") && !str_eq(value, "inactive") {
        return Err(copy_str("Invalid item status provided. Allowed statuses : 'active', 'inactive'"));
    }
    Ok(())
}

// ---------------------------------------------------------------------------
// Query parameters
// ---------------------------------------------------------------------------

/// ASCII letters in lower case; other characters unchanged.
pub open spec fn ascii_lower(s: Seq<char>) -> Seq<char> {
    s.map_values(|c: char| if 'A' <= c && c <= 'Z' { ((c as u32) + 32) as char } else { c })
}

/// The value of a boolean query parameter, as FastAPI reads one: after
/// trimming and in any case, `0 off f false n no` and `1 on t true y yes`.
pub open spec fn query_bool(raw: Seq<char>) -> Option<bool> {
    let w = ascii_lower(trim(raw));
    if w == "0"@ || w == "off"@ || w == "f"@ || w == "false"@ || w == "n"@ || w == "no"@ {
        Some(false)
    } else if w == "1"@ || w == "on"@ || w == "t"@ || w == "true"@ || w == "y"@ || w == "yes"@ {
        Some(true)
    } else {
        None
    }
}

/// Parses a boolean query parameter.
pub fn parse_query_bool(raw: &str) -> (r: Option<bool>)
    ensures
        r == query_bool(raw@),
{
    let t = crate::text::trimmed(raw);
    let mut w: Vec<char> = Vec::new();
    let mut i: usize = 0;
    while i < t.len()
        invariant
            i <= t@.len(),
            w@ == ascii_lower(t@.take(i as int)),
        decreases t@.len() - i,
    {
        let c = t[i];
        let l = if 'A' <= c && c <= 'Z' {
            let u = (c as u32) + 32;
            assert(0x61 <= u <= 0x7a);
            char_from_ascii(u)
        } else {
            c
        };
        w.push(l);
        assert(w@ =~= ascii_lower(t@.take(i + 1)));
        i = i + 1;
    }
    assert(t@.take(t@.len() as int) =~= t@);
    let s = string_of(&w);
    let s = s.as_str();
    if str_eq(s, "0") || str_eq(s, "off") || str_eq(s, "f") || str_eq(s, "false") || str_eq(s, "n")
        || str_eq(s, "no") {
        Some(false)
    } else if str_eq(s, "1") || str_eq(s, "on") || str_eq(s, "t") || str_eq(s, "true") || str_eq(
        s,
        "y",
    ) || str_eq(s, "yes") {
        Some(true)
    } else {
        None
    }
}

/// The lower-case ASCII letter with code `u`.
fn char_from_ascii(u: u32) -> (c: char)
    requires
        0x61 <= u <= 0x7a,
    ensures
        c as u32 == u,
{
    let b: u8 = u as u8;
    b as char
}

// ---------------------------------------------------------------------------
// Request bodies
// ---------------------------------------------------------------------------

/// A validated string field.
pub enum Check {
    ItemId,
    Description,
    Status,
}

pub open spec fn check_error(which: Check, s: Seq<char>) -> Option<Seq<char>> {
    match which {
        Check::ItemId => item_id_error(s),
        Check::Description => item_description_error(s),
        Check::Status => status_error(s),
    }
}

/// A required `str` field that a validator then checks.
pub open spec fn checked_field(obj: JsonV, f: Seq<char>, which: Check) -> Result<
    Seq<char>,
    (Seq<char>, Seq<char>),
> {
    match str_field(obj, f, StrMode::PyNumber) {
        Err(e) => Err(e),
        Ok(s) => match check_error(which, s) {
            Some(m) => Err((m, "value_error"@)),
            None => Ok(s),
        },
    }
}

/// Reads a required `str` field and checks it.
fn take_checked(obj: &Json, f: &str, prefix: &Vec<Loc>, which: Check, errors: &mut Vec<FieldError>) -> (r:
    Option<String>)
    ensures
        checked_field(obj@, f@, which) matches Ok(s) ==> r matches Some(x) && x@ == s,
        checked_field(obj@, f@, which) is Err ==> r is None,
        errs_view(final(errors)@) == after(
            errs_view(old(errors)@),
            locs_view(prefix@).push(LocV::Key(f@)),
            checked_field(obj@, f@, which),
        ),
{
    let v = match take_str(obj, f, prefix, StrMode::PyNumber, errors) {
        None => return None,
        Some(v) => v,
    };
    let verdict = match which {
        Check::ItemId => validate_item_id(v.as_str()),
        Check::Description => validate_item_description(v.as_str()),
        Check::Status => validate_status(v.as_str()),
    };
    match verdict {
        Ok(()) => Some(v),
        Err(m) => {
            let ghost before = errs_view(errors@);
            push_error(errors, field_error(loc_key(prefix, f), m.as_str(), "value_error"));
            None
        },
    }
}

pub struct CreateItem {
    pub item_id: String,
    pub item_category: String,
    pub item_name: String,
    pub item_description: String,
    pub item_price: i64,
}

pub struct CreateItems {
    pub items: Vec<CreateItem>,
}

pub struct UpdateItem {
    pub item_id: String,
    pub item_category: String,
    pub item_name: String,
    pub item_description: String,
    pub item_price: i64,
    pub status: String,
}

pub struct UpdateItems {
    pub items: Vec<UpdateItem>,
}

pub struct DeleteItems {
    pub items: Vec<String>,
}

pub struct DeleteAccountItemsInternal {
    pub account_id: String,
}

/// The fields of an item, as its view.
pub struct ItemV {
    pub item_id: Seq<char>,
    pub item_category: Seq<char>,
    pub item_name: Seq<char>,
    pub item_description: Seq<char>,
    pub item_price: int,
    /// The status of an item update; empty for a new item.
    pub status: Seq<char>,
}

impl View for CreateItem {
    type V = ItemV;

    open spec fn view(&self) -> ItemV {
        ItemV {
            item_id: self.item_id@,
            item_category: self.item_category@,
            item_name: self.item_name@,
            item_description: self.item_description@,
            item_price: self.item_price as int,
            status: seq![],
        }
    }
}

impl View for UpdateItem {
    type V = ItemV;

    open spec fn view(&self) -> ItemV {
        ItemV {
            item_id: self.item_id@,
            item_category: self.item_category@,
            item_name: self.item_name@,
            item_description: self.item_description@,
            item_price: self.item_price as int,
            status: self.status@,
        }
    }
}

/// The field errors of one item object at `prefix`; `update` adds the
/// `status` field.
pub open spec fn item_errors(v: JsonV, prefix: Seq<LocV>, update: bool) -> Seq<FieldErrorV> {
    if !(v is Obj) {
        seq![fe(prefix, err_dict().0, err_dict().1)]
    } else {
        let e1 = after(seq![], prefix.push(LocV::Key("item_id"@)), checked_field(v, "item_id"@, Check::ItemId));
        let e2 = after(
            e1,
            prefix.push(LocV::Key("item_category"@)),
            str_field(v, "item_category"@, StrMode::PyNumber),
        );
        let e3 = after(e2, prefix.push(LocV::Key("item_name"@)), str_field(v, "item_name"@, StrMode::PyNumber));
        let e4 = after(
            e3,
            prefix.push(LocV::Key("item_description"@)),
            checked_field(v, "item_description"@, Check::Description),
        );
        let e5 = after(e4, prefix.push(LocV::Key("item_price"@)), int_field(v, "item_price"@));
        if update {
            after(e5, prefix.push(LocV::Key("status"@)), checked_field(v, "status"@, Check::Status))
        } else {
            e5
        }
    }
}

/// The item an error-free item object describes.
pub open spec fn item_value(v: JsonV, update: bool) -> ItemV {
    ItemV {
        item_id: checked_field(v, "item_id"@, Check::ItemId)->Ok_0,
        item_category: str_field(v, "item_category"@, StrMode::PyNumber)->Ok_0,
        item_name: str_field(v, "item_name"@, StrMode::PyNumber)->Ok_0,
        item_description: checked_field(v, "item_description"@, Check::Description)->Ok_0,
        item_price: int_field(v, "item_price"@)->Ok_0,
        status: if update {
            checked_field(v, "status"@, Check::Status)->Ok_0
        } else {
            seq![]
        },
    }
}

/// The location of item `i` of the `items` list.
pub open spec fn item_loc(i: int) -> Seq<LocV> {
    seq![LocV::Key("body"@), LocV::Key("items"@), LocV::Index(i as nat)]
}

/// The field errors of the first `n` item objects.
pub open spec fn items_errors(items: Seq<JsonV>, n: int, update: bool) -> Seq<FieldErrorV>
    decreases n,
{
    if n <= 0 {
        seq![]
    } else {
        items_errors(items, n - 1, update) + item_errors(items[n - 1], item_loc(n - 1), update)
    }
}

/// The errors of the `items` field itself, or of its elements.
pub open spec fn items_field_errors(body: JsonV, elements: spec_fn(Seq<JsonV>) -> Seq<FieldErrorV>) -> Seq<
    FieldErrorV,
> {
    match body.get("items"@) {
        None => seq![fe(body_field("items"@), err_missing().0, err_missing().1)],
        Some(JsonV::Null) => seq![fe(body_field("items"@), err_none().0, err_none().1)],
        Some(JsonV::Arr(items)) => elements(items),
        Some(_) => seq![fe(body_field("items"@), err_list().0, err_list().1)],
    }
}

/// Why an items request was refused.
pub enum ItemsRejection {
    /// Field errors (422).
    Validation(Vec<FieldError>),
    /// The configured maximum number of items could not be read; the
    /// request was otherwise valid.
    LimitUnavailable,
}

/// The outcome of the length check of a valid `items` list of `n`
/// elements: `None` passes, else the refusal.
pub open spec fn length_outcome(n: int, max_items: Option<i64>, before: Seq<char>, after_: Seq<char>) -> Option<
    Option<Seq<FieldErrorV>>,
> {
    match max_items {
        None => Some(None),
        Some(m) => if n > m {
            Some(Some(seq![fe(body_field("items"@), up_to_msg(before, m as int, after_), "value_error"@)]))
        } else {
            None
        },
    }
}

/// The contract shape shared by the items validators: `ok` holds of a
/// successful value.
pub open spec fn items_outcome<T>(
    body: JsonV,
    errs: Seq<FieldErrorV>,
    count: int,
    max_items: Option<i64>,
    before: Seq<char>,
    after_: Seq<char>,
    r: Result<T, ItemsRejection>,
    ok: spec_fn(T) -> bool,
) -> bool {
    if !(body is Obj) {
        r matches Err(ItemsRejection::Validation(e)) && errs_view(e@) == not_a_dict_body()
    } else if errs.len() > 0 {
        r matches Err(ItemsRejection::Validation(e)) && errs_view(e@) == errs
    } else {
        match length_outcome(count, max_items, before, after_) {
            Some(None) => r matches Err(ItemsRejection::LimitUnavailable),
            Some(Some(le)) => r matches Err(ItemsRejection::Validation(e)) && errs_view(e@) == le,
            None => r matches Ok(v) && ok(v),
        }
    }
}

/// Applies the length check to a valid list of `n` elements.
fn check_length(n: usize, max_items: Option<i64>, before: &str, after_: &str) -> (r: Option<ItemsRejection>)
    ensures
        match length_outcome(n as int, max_items, before@, after_@) {
            Some(None) => r matches Some(ItemsRejection::LimitUnavailable),
            Some(Some(le)) => r matches Some(ItemsRejection::Validation(e)) && errs_view(e@) == le,
            None => r is None,
        },
{
    match max_items {
        None => Some(ItemsRejection::LimitUnavailable),
        Some(m) => {
            if n as i128 > m as i128 {
                let msg = concat3(before, i64_to_string(m).as_str(), after_);
                let mut errors: Vec<FieldError> = Vec::new();
                push_error(&mut errors, field_error(body_field_loc("items"), msg.as_str(), "value_error"));
                assert(errs_view(errors@) =~= seq![fe(body_field("items"@), up_to_msg(before@, m as int, after_@), "value_error"@)]);
                Some(ItemsRejection::Validation(errors))
            } else {
                None
            }
        },
    }
}

pub open spec fn fields_view(f: (String, String, String, String, i64, String)) -> ItemV {
    ItemV {
        item_id: f.0@,
        item_category: f.1@,
        item_name: f.2@,
        item_description: f.3@,
        item_price: f.4 as int,
        status: f.5@,
    }
}

/// Validates one item object at `prefix`, appending its field errors.
fn read_item(value: &Json, prefix: &Vec<Loc>, update: bool, errors: &mut Vec<FieldError>) -> (r: Option<
    (String, String, String, String, i64, String),
>)
    ensures
        errs_view(final(errors)@) == errs_view(old(errors)@) + item_errors(value@, locs_view(prefix@), update),
        item_errors(value@, locs_view(prefix@), update).len() == 0 ==> (r matches Some(f) && fields_view(f)
            == item_value(value@, update)),
{
    if !value.is_object() {
        push_error(errors, field_error(crate::json::copy_locs(prefix), "value is not a valid dict", "type_error.dict"));
        assert(errs_view(errors@) =~= errs_view(old(errors)@) + item_errors(value@, locs_view(prefix@), update));
        return None;
    }
    let ghost start = errs_view(errors@);
    let item_id = take_checked(value, "item_id", prefix, Check::ItemId, errors);
    let item_category = take_str(value, "item_category", prefix, StrMode::PyNumber, errors);
    let item_name = take_str(value, "item_name", prefix, StrMode::PyNumber, errors);
    let item_description = take_checked(value, "item_description", prefix, Check::Description, errors);
    let item_price = take_int(value, "item_price", prefix, errors);
    let status = if update {
        take_checked(value, "status", prefix, Check::Status, errors)
    } else {
        Some(String::new())
    };
    proof {
        let p = locs_view(prefix@);
        let e1 = after(seq![], p.push(LocV::Key("item_id"@)), checked_field(value@, "item_id"@, Check::ItemId));
        let e2 = after(e1, p.push(LocV::Key("item_category"@)), str_field(value@, "item_category"@, StrMode::PyNumber));
        let e3 = after(e2, p.push(LocV::Key("item_name"@)), str_field(value@, "item_name"@, StrMode::PyNumber));
        let e4 = after(e3, p.push(LocV::Key("item_description"@)), checked_field(value@, "item_description"@, Check::Description));
        let e5 = after(e4, p.push(LocV::Key("item_price"@)), int_field(value@, "item_price"@));
        if update {
            let e6 = after(e5, p.push(LocV::Key("status"@)), checked_field(value@, "status"@, Check::Status));
            assert(errs_view(errors@) =~= start + e6);
        } else {
            assert(errs_view(errors@) =~= start + e5);
        }
    }
    match (item_id, item_category, item_name, item_description, item_price, status) {
        (Some(a), Some(b), Some(c), Some(d), Some(e), Some(f)) => {
            assert(f@ == item_value(value@, update).status);
            Some((a, b, c, d, e, f))
        },
        _ => None,
    }
}

/// Validates the `items` list of objects of an items request body.
fn read_items(body: &Json, update: bool, errors: &mut Vec<FieldError>) -> (r: Option<
    Vec<(String, String, String, String, i64, String)>,
>)
    requires
        old(errors)@.len() == 0,
    ensures
        errs_view(final(errors)@) == items_field_errors(
            body@,
            |items: Seq<JsonV>| items_errors(items, items.len() as int, update),
        ),
        final(errors)@.len() == 0 ==> (r matches Some(v) && body@.get("items"@) matches Some(
            JsonV::Arr(items),
        ) && v@.len() == items.len() && forall|i: int|
            0 <= i < v@.len() ==> fields_view(#[trigger] v@[i]) == item_value(items[i], update)),
{
    match body.get("items") {
        None => {
            push_error(errors, field_error(body_field_loc("items"), "field required", "value_error.missing"));
            assert(errs_view(errors@) =~= seq![fe(body_field("items"@), err_missing().0, err_missing().1)]);
            None
        },
        Some(Json::Null) => {
            push_error(
                errors,
                field_error(body_field_loc("items"), "none is not an allowed value", "type_error.none.not_allowed"),
            );
            assert(errs_view(errors@) =~= seq![fe(body_field("items"@), err_none().0, err_none().1)]);
            None
        },
        Some(Json::Array(items)) => {
            let ghost vs = view_seq(items@);
            proof {
                lemma_view_seq(items@);
            }
            let mut out: Vec<(String, String, String, String, i64, String)> = Vec::new();
            let mut i: usize = 0;
            assert(errs_view(errors@) =~= items_errors(vs, 0, update));
            while i < items.len()
                invariant
                    i <= items@.len(),
                    vs == view_seq(items@),
                    vs.len() == items@.len(),
                    forall|j: int| 0 <= j < items@.len() ==> #[trigger] vs[j] == view_json(items@[j]),
                    errs_view(errors@) == items_errors(vs, i as int, update),
                    items_errors(vs, i as int, update).len() == 0 ==> out@.len() == i && forall|j: int|
                        0 <= j < i ==> fields_view(#[trigger] out@[j]) == item_value(vs[j], update),
                decreases items@.len() - i,
            {
                let prefix = loc_index(&body_field_loc("items"), i);
                assert(locs_view(prefix@) =~= item_loc(i as int));
                let ghost before = errs_view(errors@);
                let parsed = read_item(&items[i], &prefix, update, errors);
                assert(vs[i as int] == view_json(items@[i as int]));
                assert(items_errors(vs, i + 1, update) == before + item_errors(vs[i as int], item_loc(i as int), update));
                match parsed {
                    Some(f) => {
                        out.push(f);
                    },
                    None => {},
                }
                i = i + 1;
            }
            assert(body@.get("items"@) == Some(JsonV::Arr(vs)));
            if errors.len() == 0 {
                Some(out)
            } else {
                None
            }
        },
        Some(_) => {
            push_error(errors, field_error(body_field_loc("items"), "value is not a valid list", "type_error.list"));
            assert(errs_view(errors@) =~= seq![fe(body_field("items"@), err_list().0, err_list().1)]);
            None
        },
    }
}

/// The field errors of a `CreateItems` body.
pub open spec fn create_items_errors(body: JsonV) -> Seq<FieldErrorV> {
    items_field_errors(body, |items: Seq<JsonV>| items_errors(items, items.len() as int, false))
}

/// The field errors of an `UpdateItems` body.
pub open spec fn update_items_errors(body: JsonV) -> Seq<FieldErrorV> {
    items_field_errors(body, |items: Seq<JsonV>| items_errors(items, items.len() as int, true))
}

/// The item objects of a body whose `items` is a list.
pub open spec fn body_items(body: JsonV) -> Seq<JsonV> {
    match body.get("items"@) {
        Some(JsonV::Arr(items)) => items,
        _ => seq![],
    }
}

impl CreateItems {
    /// Validates a `CreateItems` body; at most `max_items` items (`None`:
    /// the configured maximum could not be read).
    pub fn from_json(body: &Json, max_items: Option<i64>) -> (r: Result<CreateItems, ItemsRejection>)
        ensures
            items_outcome(
                body@,
                create_items_errors(body@),
                body_items(body@).len() as int,
                max_items,
                "You can only create up to "@,
                " items per request. For larger uploads, please use the octy cli."@,
                r,
                |v: CreateItems| v.items@.len() == body_items(body@).len() && forall|i: int|
                    0 <= i < v.items@.len() ==> (#[trigger] v.items@[i])@ == item_value(body_items(body@)[i], false),
            ),
    {
        match require_object(body) {
            Err(e) => return Err(ItemsRejection::Validation(e)),
            Ok(()) => {},
        }
        let mut errors: Vec<FieldError> = Vec::new();
        let fields = read_items(body, false, &mut errors);
        if errors.len() > 0 {
            return Err(ItemsRejection::Validation(errors));
        }
        let fields = match fields {
            Some(f) => f,
            None => return Err(ItemsRejection::Validation(errors)),
        };
        match check_length(
            fields.len(),
            max_items,
            "You can only create up to ",
            " items per request. For larger uploads, please use the octy cli.",
        ) {
            Some(rej) => return Err(rej),
            None => {},
        }
        let mut items: Vec<CreateItem> = Vec::new();
        let mut i: usize = 0;
        while i < fields.len()
            invariant
                i <= fields@.len(),
                items@.len() == i,
                forall|j: int| 0 <= j < i ==> (#[trigger] items@[j])@ == (ItemV { status: seq![], ..fields_view(fields@[j]) }),
            decreases fields@.len() - i,
        {
            let f = &fields[i];
            items.push(
                CreateItem {
                    item_id: copy_str(f.0.as_str()),
                    item_category: copy_str(f.1.as_str()),
                    item_name: copy_str(f.2.as_str()),
                    item_description: copy_str(f.3.as_str()),
                    item_price: f.4,
                },
            );
            i = i + 1;
        }
        Ok(CreateItems { items })
    }
}

impl UpdateItems {
    /// Validates an `UpdateItems` body; at most `max_items` items (`None`:
    /// the configured maximum could not be read).
    pub fn from_json(body: &Json, max_items: Option<i64>) -> (r: Result<UpdateItems, ItemsRejection>)
        ensures
            items_outcome(
                body@,
                update_items_errors(body@),
                body_items(body@).len() as int,
                max_items,
                "You can only update up to "@,
                " items per request."@,
                r,
                |v: UpdateItems| v.items@.len() == body_items(body@).len() && forall|i: int|
                    0 <= i < v.items@.len() ==> (#[trigger] v.items@[i])@ == item_value(body_items(body@)[i], true),
            ),
    {
        match require_object(body) {
            Err(e) => return Err(ItemsRejection::Validation(e)),
            Ok(()) => {},
        }
        let mut errors: Vec<FieldError> = Vec::new();
        let fields = read_items(body, true, &mut errors);
        if errors.len() > 0 {
            return Err(ItemsRejection::Validation(errors));
        }
        let fields = match fields {
            Some(f) => f,
            None => return Err(ItemsRejection::Validation(errors)),
        };
        match check_length(fields.len(), max_items, "You can only update up to ", " items per request.") {
            Some(rej) => return Err(rej),
            None => {},
        }
        let mut items: Vec<UpdateItem> = Vec::new();
        let mut i: usize = 0;
        while i < fields.len()
            invariant
                i <= fields@.len(),
                items@.len() == i,
                forall|j: int| 0 <= j < i ==> (#[trigger] items@[j])@ == fields_view(fields@[j]),
            decreases fields@.len() - i,
        {
            let f = &fields[i];
            items.push(
                UpdateItem {
                    item_id: copy_str(f.0.as_str()),
                    item_category: copy_str(f.1.as_str()),
                    item_name: copy_str(f.2.as_str()),
                    item_description: copy_str(f.3.as_str()),
                    item_price: f.4,
                    status: copy_str(f.5.as_str()),
                },
            );
            i = i + 1;
        }
        Ok(UpdateItems { items })
    }
}

/// The field errors of a `DeleteItems` body: every identifier a string
/// (numbers and booleans coerce), none null.
pub open spec fn delete_items_errors(body: JsonV) -> Seq<FieldErrorV> {
    items_field_errors(
        body,
        |items: Seq<JsonV>| str_items_errors(items, items.len() as int, StrMode::PyNumber, true, body_field("items"@)),
    )
}

impl DeleteItems {
    /// Validates a `DeleteItems` body; at most `max_items` identifiers
    /// (`None`: the configured maximum could not be read).
    pub fn from_json(body: &Json, max_items: Option<i64>) -> (r: Result<DeleteItems, ItemsRejection>)
        ensures
            items_outcome(
                body@,
                delete_items_errors(body@),
                body_items(body@).len() as int,
                max_items,
                "You can only delete up to "@,
                " items per request."@,
                r,
                |v: DeleteItems| strings_view(v.items@) == str_items_values(body_items(body@), StrMode::PyNumber),
            ),
    {
        match require_object(body) {
            Err(e) => return Err(ItemsRejection::Validation(e)),
            Ok(()) => {},
        }
        let mut errors: Vec<FieldError> = Vec::new();
        let ids = match body.get("items") {
            None => {
                push_error(&mut errors, field_error(body_field_loc("items"), "field required", "value_error.missing"));
                assert(errs_view(errors@) =~= delete_items_errors(body@));
                return Err(ItemsRejection::Validation(errors));
            },
            Some(Json::Null) => {
                push_error(
                    &mut errors,
                    field_error(body_field_loc("items"), "none is not an allowed value", "type_error.none.not_allowed"),
                );
                assert(errs_view(errors@) =~= delete_items_errors(body@));
                return Err(ItemsRejection::Validation(errors));
            },
            Some(Json::Array(items)) => {
                let loc = body_field_loc("items");
                let r = str_items(items, &loc, StrMode::PyNumber, true, &mut errors);
                proof {
                    lemma_view_seq(items@);
                }
                assert(body@.get("items"@) == Some(JsonV::Arr(view_seq(items@))));
                assert(errs_view(errors@) =~= delete_items_errors(body@));
                if errors.len() > 0 {
                    return Err(ItemsRejection::Validation(errors));
                }
                proof {
                    if !str_items_ok(view_seq(items@), StrMode::PyNumber, true) {
                        let bad = choose|i: int| 0 <= i < view_seq(items@).len() && !(crate::fields::coerce_str_v(#[trigger] view_seq(items@)[i], StrMode::PyNumber) is Some && !(view_seq(items@)[i] is Null));
                        crate::fields::lemma_str_items_errors_nonempty_pub(view_seq(items@), items@.len() as int, StrMode::PyNumber, true, body_field("items"@), bad);
                    }
                }
                match r {
                    Some(v) => {
                        assert(body_items(body@) == view_seq(items@));
                        assert(strings_view(v@).len() == v@.len());
                        assert(str_items_values(view_seq(items@), StrMode::PyNumber).len() == view_seq(items@).len());
                        v
                    },
                    None => return Err(ItemsRejection::Validation(errors)),
                }
            },
            Some(_) => {
                push_error(&mut errors, field_error(body_field_loc("items"), "value is not a valid list", "type_error.list"));
                assert(errs_view(errors@) =~= delete_items_errors(body@));
                return Err(ItemsRejection::Validation(errors));
            },
        };
        match check_length(ids.len(), max_items, "You can only delete up to ", " items per request.") {
            Some(rej) => return Err(rej),
            None => {},
        }
        Ok(DeleteItems { items: ids })
    }
}

/// The field errors of a `DeleteAccountItemsInternal` body.
pub open spec fn delete_account_items_errors(body: JsonV) -> Seq<FieldErrorV> {
    after(seq![], body_field("account_id"@), str_field(body, "account_id"@, StrMode::PyNumber))
}

impl DeleteAccountItemsInternal {
    /// Validates the internal account-deletion body `{account_id}`.
    pub fn from_json(body: &Json) -> (r: Result<DeleteAccountItemsInternal, Vec<FieldError>>)
        ensures
            !(body@ is Obj) ==> (r matches Err(e) && errs_view(e@) == not_a_dict_body()),
            body@ is Obj ==> match str_field(body@, "account_id"@, StrMode::PyNumber) {
                Ok(a) => r matches Ok(d) && d.account_id@ == a,
                Err(_) => r matches Err(e) && errs_view(e@) == delete_account_items_errors(body@),
            },
    {
        match require_object(body) {
            Err(e) => return Err(e),
            Ok(()) => {},
        }
        let mut errors: Vec<FieldError> = Vec::new();
        let prefix = crate::json::body_loc();
        let account_id = take_str(body, "account_id", &prefix, StrMode::PyNumber, &mut errors);
        assert(locs_view(prefix@).push(LocV::Key("account_id"@)) =~= body_field("account_id"@));
        match account_id {
            Some(account_id) => Ok(DeleteAccountItemsInternal { account_id }),
            None => Err(errors),
        }
    }
}

} // verus!
