//! Field extraction with lenient coercion rules, shared by the request
//! validators of every service.
//!
//! Each extractor reads one member of a JSON object, coerces it to the field
//! type, and on failure appends the matching field error (`loc` = the
//! caller's prefix plus the field name) to the error list.

use vstd::prelude::*;
use crate::json::{
    errs_view, fe, field_error, loc_index, loc_key, locs_view, number_as_int, number_text,
    push_error, py_number_text, lemma_view_seq, view_json, view_seq, FieldError, FieldErrorV,
    Json, JsonV, Loc, LocV,
};
use crate::text::{chars_of, copy_str, parse_i64, parse_int, trim, trim_chars};

verus! {

/// Which JSON values a `str` field accepts, and how numbers render.
#[derive(Clone, Copy)]
pub enum StrMode {
    /// str, number (serde rendering) and bool (`True`/`False`).
    Lenient,
    /// str and number (serde rendering) only.
    NoBool,
    /// str, number (Python `str` rendering) and bool.
    PyNumber,
}

/// The string a `str` field holds for the value `v`, if it accepts it.
pub open spec fn coerce_str_v(v: JsonV, mode: StrMode) -> Option<Seq<char>> {
    match v {
        JsonV::Str(s) => Some(s),
        JsonV::Num(n) => Some(
            if mode is PyNumber {
                py_number_text(n)
            } else {
                number_text(n)
            },
        ),
        JsonV::Bool(b) => if mode is NoBool {
            None
        } else {
            Some(
                if b {
                    "True"@
                } else {
                    "False"@
                },
            )
        },
        _ => None,
    }
}

/// The integer an `int` field holds for the value `v`, if it accepts it.
pub open spec fn coerce_int_v(v: JsonV) -> Option<int> {
    match v {
        JsonV::Bool(b) => Some(
            if b {
                1int
            } else {
                0int
            },
        ),
        JsonV::Num(n) => Some(number_as_int(n)),
        JsonV::Str(s) => parse_int(trim(s)),
        _ => None,
    }
}

pub open spec fn err_missing() -> (Seq<char>, Seq<char>) {
    ("field required"@, "value_error.missing"@)
}

pub open spec fn err_none() -> (Seq<char>, Seq<char>) {
    ("none is not an allowed value"@, "type_error.none.not_allowed"@)
}

pub open spec fn err_str() -> (Seq<char>, Seq<char>) {
    ("str type expected"@, "type_error.str"@)
}

pub open spec fn err_int() -> (Seq<char>, Seq<char>) {
    ("value is not a valid integer"@, "type_error.integer"@)
}

pub open spec fn err_list() -> (Seq<char>, Seq<char>) {
    ("value is not a valid list"@, "type_error.list"@)
}

pub open spec fn err_dict() -> (Seq<char>, Seq<char>) {
    ("value is not a valid dict"@, "type_error.dict"@)
}

/// A required `str` field.
pub open spec fn str_field(obj: JsonV, f: Seq<char>, mode: StrMode) -> Result<
    Seq<char>,
    (Seq<char>, Seq<char>),
> {
    match obj.get(f) {
        None => Err(err_missing()),
        Some(JsonV::Null) => Err(err_none()),
        Some(v) => match coerce_str_v(v, mode) {
            Some(s) => Ok(s),
            None => Err(err_str()),
        },
    }
}

/// An `Optional[str]` field (absent or null gives `None`).
pub open spec fn opt_str_field(obj: JsonV, f: Seq<char>, mode: StrMode) -> Result<
    Option<Seq<char>>,
    (Seq<char>, Seq<char>),
> {
    match obj.get(f) {
        None => Ok(None),
        Some(JsonV::Null) => Ok(None),
        Some(v) => match coerce_str_v(v, mode) {
            Some(s) => Ok(Some(s)),
            None => Err(err_str()),
        },
    }
}

/// A required `int` field.
pub open spec fn int_field(obj: JsonV, f: Seq<char>) -> Result<int, (Seq<char>, Seq<char>)> {
    match obj.get(f) {
        None => Err(err_missing()),
        Some(JsonV::Null) => Err(err_none()),
        Some(v) => match coerce_int_v(v) {
            Some(i) => Ok(i),
            None => Err(err_int()),
        },
    }
}

/// `errs` with the error of a failed field outcome appended at `loc`.
pub open spec fn after<T>(
    errs: Seq<FieldErrorV>,
    loc: Seq<LocV>,
    res: Result<T, (Seq<char>, Seq<char>)>,
) -> Seq<FieldErrorV> {
    match res {
        Ok(_) => errs,
        Err((m, k)) => errs.push(fe(loc, m, k)),
    }
}

/// Coerces `v` for a `str` field.
pub fn coerce_str(v: &Json, mode: StrMode) -> (r: Option<String>)
    ensures
        r matches Some(s) ==> coerce_str_v(v@, mode) == Some(s@),
        r is None ==> coerce_str_v(v@, mode) is None,
{
    match v {
        Json::Str(s) => Some(copy_str(s.as_str())),
        Json::Number(n) => match mode {
            StrMode::PyNumber => Some(n.py_text()),
            _ => Some(n.text()),
        },
        Json::Bool(b) => match mode {
            StrMode::NoBool => None,
            _ => if *b {
                Some(copy_str("True"))
            } else {
                Some(copy_str("False"))
            },
        },
        _ => None,
    }
}

/// Coerces `v` for an `int` field.
pub fn coerce_int(v: &Json) -> (r: Option<i64>)
    ensures
        r matches Some(i) ==> coerce_int_v(v@) == Some(i as int),
        r is None ==> coerce_int_v(v@) is None,
{
    match v {
        Json::Bool(b) => if *b {
            Some(1)
        } else {
            Some(0)
        },
        Json::Number(n) => Some(n.as_int()),
        Json::Str(s) => {
            let c = chars_of(s.as_str());
            let t = trim_chars(&c);
            parse_i64(&t)
        },
        _ => None,
    }
}

/// Reads a required `str` field.
pub fn take_str(
    obj: &Json,
    f: &str,
    prefix: &Vec<Loc>,
    mode: StrMode,
    errors: &mut Vec<FieldError>,
) -> (r: Option<String>)
    ensures
        str_field(obj@, f@, mode) matches Ok(s) ==> r matches Some(x) && x@ == s,
        str_field(obj@, f@, mode) is Err ==> r is None,
        errs_view(final(errors)@) == after(
            errs_view(old(errors)@),
            locs_view(prefix@).push(LocV::Key(f@)),
            str_field(obj@, f@, mode),
        ),
{
    match obj.get(f) {
        None => {
            push_error(errors, field_error(loc_key(prefix, f), "field required", "value_error.missing"));
            None
        },
        Some(v) => {
            if v.is_null() {
                push_error(
                    errors,
                    field_error(
                        loc_key(prefix, f),
                        "none is not an allowed value",
                        "type_error.none.not_allowed",
                    ),
                );
                None
            } else {
                match coerce_str(v, mode) {
                    Some(s) => Some(s),
                    None => {
                        push_error(
                            errors,
                            field_error(loc_key(prefix, f), "str type expected", "type_error.str"),
                        );
                        None
                    },
                }
            }
        },
    }
}

/// Reads an `Optional[str]` field.
pub fn take_opt_str(
    obj: &Json,
    f: &str,
    prefix: &Vec<Loc>,
    mode: StrMode,
    errors: &mut Vec<FieldError>,
) -> (r: Option<String>)
    ensures
        opt_str_field(obj@, f@, mode) matches Ok(Some(s)) ==> r matches Some(x) && x@ == s,
        !(opt_str_field(obj@, f@, mode) matches Ok(Some(_))) ==> r is None,
        errs_view(final(errors)@) == after(
            errs_view(old(errors)@),
            locs_view(prefix@).push(LocV::Key(f@)),
            opt_str_field(obj@, f@, mode),
        ),
{
    match obj.get(f) {
        None => None,
        Some(v) => {
            if v.is_null() {
                None
            } else {
                match coerce_str(v, mode) {
                    Some(s) => Some(s),
                    None => {
                        push_error(
                            errors,
                            field_error(loc_key(prefix, f), "str type expected", "type_error.str"),
                        );
                        None
                    },
                }
            }
        },
    }
}

/// Reads a required `int` field.
pub fn take_int(obj: &Json, f: &str, prefix: &Vec<Loc>, errors: &mut Vec<FieldError>) -> (r:
    Option<i64>)
    ensures
        int_field(obj@, f@) matches Ok(i) ==> r matches Some(x) && x as int == i,
        int_field(obj@, f@) is Err ==> r is None,
        errs_view(final(errors)@) == after(
            errs_view(old(errors)@),
            locs_view(prefix@).push(LocV::Key(f@)),
            int_field(obj@, f@),
        ),
{
    match obj.get(f) {
        None => {
            push_error(errors, field_error(loc_key(prefix, f), "field required", "value_error.missing"));
            None
        },
        Some(v) => {
            if v.is_null() {
                push_error(
                    errors,
                    field_error(
                        loc_key(prefix, f),
                        "none is not an allowed value",
                        "type_error.none.not_allowed",
                    ),
                );
                None
            } else {
                match coerce_int(v) {
                    Some(i) => Some(i),
                    None => {
                        push_error(
                            errors,
                            field_error(
                                loc_key(prefix, f),
                                "value is not a valid integer",
                                "type_error.integer",
                            ),
                        );
                        None
                    },
                }
            }
        },
    }
}

// ---------------------------------------------------------------------------
// Lists of strings / integers
// ---------------------------------------------------------------------------

/// The error (if any) for item `i` of a `List[str]`; with `null_distinct`
/// a null item gets the `none` error instead of the `str` one.
pub open spec fn str_item_error(
    item: JsonV,
    i: int,
    mode: StrMode,
    null_distinct: bool,
    loc: Seq<LocV>,
) -> Seq<FieldErrorV> {
    if null_distinct && item is Null {
        seq![fe(loc.push(LocV::Index(i as nat)), err_none().0, err_none().1)]
    } else if coerce_str_v(item, mode) is None {
        seq![fe(loc.push(LocV::Index(i as nat)), err_str().0, err_str().1)]
    } else {
        seq![]
    }
}

/// The errors of the first `n` items of a `List[str]`.
pub open spec fn str_items_errors(
    items: Seq<JsonV>,
    n: int,
    mode: StrMode,
    null_distinct: bool,
    loc: Seq<LocV>,
) -> Seq<FieldErrorV>
    decreases n,
{
    if n <= 0 {
        seq![]
    } else {
        str_items_errors(items, n - 1, mode, null_distinct, loc) + str_item_error(
            items[n - 1],
            n - 1,
            mode,
            null_distinct,
            loc,
        )
    }
}

/// The strings of a `List[str]` whose items all coerce.
pub open spec fn str_items_values(items: Seq<JsonV>, mode: StrMode) -> Seq<Seq<char>> {
    items.map_values(|v: JsonV| coerce_str_v(v, mode)->0)
}

pub open spec fn str_items_ok(items: Seq<JsonV>, mode: StrMode, null_distinct: bool) -> bool {
    forall|i: int|
        0 <= i < items.len() ==> coerce_str_v(#[trigger] items[i], mode) is Some && !(
        null_distinct && items[i] is Null)
}

pub open spec fn strings_view(v: Seq<String>) -> Seq<Seq<char>> {
    v.map_values(|s: String| s@)
}

proof fn lemma_str_items_errors_empty(
    items: Seq<JsonV>,
    n: int,
    mode: StrMode,
    null_distinct: bool,
    loc: Seq<LocV>,
)
    requires
        0 <= n <= items.len(),
        forall|i: int|
            0 <= i < n ==> coerce_str_v(#[trigger] items[i], mode) is Some && !(null_distinct
                && items[i] is Null),
    ensures
        str_items_errors(items, n, mode, null_distinct, loc) == Seq::<FieldErrorV>::empty(),
    decreases n,
{
    if n > 0 {
        lemma_str_items_errors_empty(items, n - 1, mode, null_distinct, loc);
        assert(coerce_str_v(items[n - 1], mode) is Some);
    }
}

proof fn lemma_str_items_errors_nonempty(
    items: Seq<JsonV>,
    n: int,
    mode: StrMode,
    null_distinct: bool,
    loc: Seq<LocV>,
    bad: int,
)
    requires
        0 <= bad < n <= items.len(),
        coerce_str_v(items[bad], mode) is None || (null_distinct && items[bad] is Null),
    ensures
        str_items_errors(items, n, mode, null_distinct, loc).len() > 0,
    decreases n,
{
    if bad < n - 1 {
        lemma_str_items_errors_nonempty(items, n - 1, mode, null_distinct, loc, bad);
    }
}

/// A bad item makes the errors of a `List[str]` non-empty.
pub proof fn lemma_str_items_errors_nonempty_pub(
    items: Seq<JsonV>,
    n: int,
    mode: StrMode,
    null_distinct: bool,
    loc: Seq<LocV>,
    bad: int,
)
    requires
        0 <= bad < n <= items.len(),
        coerce_str_v(items[bad], mode) is None || (null_distinct && items[bad] is Null),
    ensures
        str_items_errors(items, n, mode, null_distinct, loc).len() > 0,
{
    lemma_str_items_errors_nonempty(items, n, mode, null_distinct, loc, bad);
}

/// Coerces the items of a `List[str]`, recording an error per bad item.
pub fn str_items(
    items: &Vec<Json>,
    loc: &Vec<Loc>,
    mode: StrMode,
    null_distinct: bool,
    errors: &mut Vec<FieldError>,
) -> (r: Option<Vec<String>>)
    ensures
        errs_view(final(errors)@) == errs_view(old(errors)@) + str_items_errors(
            view_seq(items@),
            items@.len() as int,
            mode,
            null_distinct,
            locs_view(loc@),
        ),
        str_items_ok(view_seq(items@), mode, null_distinct) <==> r is Some,
        r matches Some(v) ==> strings_view(v@) == str_items_values(view_seq(items@), mode),
{
    let ghost vs = view_seq(items@);
    proof {
        lemma_view_seq(items@);
    }
    let mut out: Vec<String> = Vec::new();
    let mut ok = true;
    let mut i: usize = 0;
    let ghost start = errs_view(errors@);
    while i < items.len()
        invariant
            i <= items@.len(),
            vs == view_seq(items@),
            vs.len() == items@.len(),
            forall|j: int| 0 <= j < items@.len() ==> #[trigger] vs[j] == view_json(items@[j]),
            errs_view(errors@) == start + str_items_errors(vs, i as int, mode, null_distinct, locs_view(loc@)),
            ok ==> out@.len() == i,
            ok ==> forall|j: int|
                0 <= j < i ==> coerce_str_v(#[trigger] vs[j], mode) == Some(out@[j]@) && !(
                null_distinct && vs[j] is Null),
            !ok ==> exists|j: int|
                0 <= j < i && (coerce_str_v(#[trigger] vs[j], mode) is None || (null_distinct
                    && vs[j] is Null)),
        decreases items@.len() - i,
    {
        let item = &items[i];
        let ghost before = errs_view(errors@);
        if null_distinct && item.is_null() {
            ok = false;
            push_error(
                errors,
                field_error(loc_index(loc, i), "none is not an allowed value", "type_error.none.not_allowed"),
            );
        } else {
            match coerce_str(item, mode) {
                Some(s) => {
                    if ok {
                        out.push(s);
                    }
                },
                None => {
                    ok = false;
                    push_error(
                        errors,
                        field_error(loc_index(loc, i), "str type expected", "type_error.str"),
                    );
                },
            }
        }
        proof {
            assert(vs[i as int] == view_json(items@[i as int]));
            assert(str_items_errors(vs, i + 1, mode, null_distinct, locs_view(loc@)) == str_items_errors(
                vs,
                i as int,
                mode,
                null_distinct,
                locs_view(loc@),
            ) + str_item_error(vs[i as int], i as int, mode, null_distinct, locs_view(loc@)));
            if null_distinct && vs[i as int] is Null {
                assert(errs_view(errors@) =~= start + str_items_errors(vs, i + 1, mode, null_distinct, locs_view(loc@)));
            } else if coerce_str_v(vs[i as int], mode) is None {
                assert(errs_view(errors@) =~= start + str_items_errors(vs, i + 1, mode, null_distinct, locs_view(loc@)));
            } else {
                assert(errs_view(errors@) =~= start + str_items_errors(vs, i + 1, mode, null_distinct, locs_view(loc@)));
            }
        }
        i = i + 1;
    }
    if ok {
        proof {
            assert(strings_view(out@) =~= str_items_values(vs, mode));
        }
        Some(out)
    } else {
        None
    }
}

/// The errors a required `List[str]` field records.
pub open spec fn str_list_errors(
    obj: JsonV,
    f: Seq<char>,
    mode: StrMode,
    null_distinct: bool,
    prefix: Seq<LocV>,
) -> Seq<FieldErrorV> {
    let loc = prefix.push(LocV::Key(f));
    match obj.get(f) {
        None => seq![fe(loc, err_missing().0, err_missing().1)],
        Some(JsonV::Null) => seq![fe(loc, err_none().0, err_none().1)],
        Some(JsonV::Arr(items)) => str_items_errors(items, items.len() as int, mode, null_distinct, loc),
        Some(_) => seq![fe(loc, err_list().0, err_list().1)],
    }
}

/// The strings of a valid required `List[str]` field.
pub open spec fn str_list_value(obj: JsonV, f: Seq<char>, mode: StrMode, null_distinct: bool) -> Option<
    Seq<Seq<char>>,
> {
    match obj.get(f) {
        Some(JsonV::Arr(items)) => if str_items_ok(items, mode, null_distinct) {
            Some(str_items_values(items, mode))
        } else {
            None
        },
        _ => None,
    }
}

/// A `List[str]` field records no error exactly when it is valid.
pub proof fn lemma_str_list_errors_empty(
    obj: JsonV,
    f: Seq<char>,
    mode: StrMode,
    null_distinct: bool,
    prefix: Seq<LocV>,
)
    ensures
        str_list_errors(obj, f, mode, null_distinct, prefix).len() == 0 <==> str_list_value(
            obj,
            f,
            mode,
            null_distinct,
        ) is Some,
{
    match obj.get(f) {
        Some(JsonV::Arr(items)) => {
            let loc = prefix.push(LocV::Key(f));
            if str_items_ok(items, mode, null_distinct) {
                lemma_str_items_errors_empty(items, items.len() as int, mode, null_distinct, loc);
            } else {
                let bad = choose|i: int|
                    0 <= i < items.len() && !(coerce_str_v(#[trigger] items[i], mode) is Some && !(
                    null_distinct && items[i] is Null));
                lemma_str_items_errors_nonempty(items, items.len() as int, mode, null_distinct, loc, bad);
            }
        },
        _ => {},
    }
}

/// Reads a required `List[str]` field.
pub fn take_str_list(
    obj: &Json,
    f: &str,
    prefix: &Vec<Loc>,
    mode: StrMode,
    null_distinct: bool,
    errors: &mut Vec<FieldError>,
) -> (r: Option<Vec<String>>)
    ensures
        errs_view(final(errors)@) == errs_view(old(errors)@) + str_list_errors(
            obj@,
            f@,
            mode,
            null_distinct,
            locs_view(prefix@),
        ),
        r matches Some(v) ==> str_list_value(obj@, f@, mode, null_distinct) == Some(strings_view(v@)),
        r is None ==> str_list_value(obj@, f@, mode, null_distinct) is None,
        r is Some <==> str_list_errors(obj@, f@, mode, null_distinct, locs_view(prefix@)).len() == 0,
{
    proof {
        lemma_str_list_errors_empty(obj@, f@, mode, null_distinct, locs_view(prefix@));
    }
    let loc = loc_key(prefix, f);
    match obj.get(f) {
        None => {
            push_error(errors, field_error(loc, "field required", "value_error.missing"));
            assert(errs_view(errors@) =~= errs_view(old(errors)@) + str_list_errors(obj@, f@, mode, null_distinct, locs_view(prefix@)));
            None
        },
        Some(v) => match v {
            Json::Null => {
                push_error(
                    errors,
                    field_error(loc, "none is not an allowed value", "type_error.none.not_allowed"),
                );
                assert(errs_view(errors@) =~= errs_view(old(errors)@) + str_list_errors(obj@, f@, mode, null_distinct, locs_view(prefix@)));
                None
            },
            Json::Array(items) => {
                let r = str_items(items, &loc, mode, null_distinct, errors);
                proof {
                    lemma_view_seq(items@);
                }
                assert(v@ == JsonV::Arr(view_seq(items@)));
                r
            },
            _ => {
                push_error(errors, field_error(loc, "value is not a valid list", "type_error.list"));
                assert(errs_view(errors@) =~= errs_view(old(errors)@) + str_list_errors(obj@, f@, mode, null_distinct, locs_view(prefix@)));
                None
            },
        },
    }
}

/// Reads an `Optional[List[str]]` field (absent or null gives `None`
/// without error).
pub fn take_opt_str_list(
    obj: &Json,
    f: &str,
    prefix: &Vec<Loc>,
    mode: StrMode,
    errors: &mut Vec<FieldError>,
) -> (r: Option<Vec<String>>)
    ensures
        obj@.get(f@) is None || obj@.get(f@) == Some(JsonV::Null) ==> r is None && final(errors)@
            == old(errors)@,
        !(obj@.get(f@) is None || obj@.get(f@) == Some(JsonV::Null)) ==> {
            &&& errs_view(final(errors)@) == errs_view(old(errors)@) + str_list_errors(
                obj@,
                f@,
                mode,
                false,
                locs_view(prefix@),
            )
            &&& r matches Some(v) ==> str_list_value(obj@, f@, mode, false) == Some(
                strings_view(v@),
            )
            &&& r is None ==> str_list_value(obj@, f@, mode, false) is None
            &&& r is Some <==> str_list_errors(obj@, f@, mode, false, locs_view(prefix@)).len() == 0
        },
{
    match obj.get(f) {
        None => None,
        Some(v) => {
            if v.is_null() {
                None
            } else {
                take_str_list(obj, f, prefix, mode, false, errors)
            }
        },
    }
}

/// The error (if any) for item `i` of a `List[int]`.
pub open spec fn int_item_error(item: JsonV, i: int, loc: Seq<LocV>) -> Seq<FieldErrorV> {
    if coerce_int_v(item) is None {
        seq![fe(loc.push(LocV::Index(i as nat)), err_int().0, err_int().1)]
    } else {
        seq![]
    }
}

pub open spec fn int_items_errors(items: Seq<JsonV>, n: int, loc: Seq<LocV>) -> Seq<FieldErrorV>
    decreases n,
{
    if n <= 0 {
        seq![]
    } else {
        int_items_errors(items, n - 1, loc) + int_item_error(items[n - 1], n - 1, loc)
    }
}

pub open spec fn int_items_ok(items: Seq<JsonV>) -> bool {
    forall|i: int| 0 <= i < items.len() ==> coerce_int_v(#[trigger] items[i]) is Some
}

pub open spec fn int_items_values(items: Seq<JsonV>) -> Seq<int> {
    items.map_values(|v: JsonV| coerce_int_v(v)->0)
}

/// The errors a required `List[int]` field records.
pub open spec fn int_list_errors(obj: JsonV, f: Seq<char>, prefix: Seq<LocV>) -> Seq<FieldErrorV> {
    let loc = prefix.push(LocV::Key(f));
    match obj.get(f) {
        None => seq![fe(loc, err_missing().0, err_missing().1)],
        Some(JsonV::Null) => seq![fe(loc, err_none().0, err_none().1)],
        Some(JsonV::Arr(items)) => int_items_errors(items, items.len() as int, loc),
        Some(_) => seq![fe(loc, err_list().0, err_list().1)],
    }
}

pub open spec fn int_list_value(obj: JsonV, f: Seq<char>) -> Option<Seq<int>> {
    match obj.get(f) {
        Some(JsonV::Arr(items)) => if int_items_ok(items) {
            Some(int_items_values(items))
        } else {
            None
        },
        _ => None,
    }
}

/// Reads a required `List[int]` field.
pub fn take_int_list(obj: &Json, f: &str, prefix: &Vec<Loc>, errors: &mut Vec<FieldError>) -> (r:
    Option<Vec<i64>>)
    ensures
        errs_view(final(errors)@) == errs_view(old(errors)@) + int_list_errors(
            obj@,
            f@,
            locs_view(prefix@),
        ),
        r matches Some(v) ==> int_list_value(obj@, f@) == Some(v@.map_values(|x: i64| x as int)),
        r is None ==> int_list_value(obj@, f@) is None,
{
    let loc = loc_key(prefix, f);
    match obj.get(f) {
        None => {
            push_error(errors, field_error(loc, "field required", "value_error.missing"));
            assert(seq![fe(locs_view(loc@), err_missing().0, err_missing().1)] =~= int_list_errors(obj@, f@, locs_view(prefix@)));
            None
        },
        Some(v) => match v {
            Json::Null => {
                push_error(
                    errors,
                    field_error(loc, "none is not an allowed value", "type_error.none.not_allowed"),
                );
                None
            },
            Json::Array(items) => {
                let ghost vs = view_seq(items@);
                proof {
                    lemma_view_seq(items@);
                }
                let mut out: Vec<i64> = Vec::new();
                let mut ok = true;
                let mut i: usize = 0;
                let ghost start = errs_view(errors@);
                while i < items.len()
                    invariant
                        i <= items@.len(),
                        vs == view_seq(items@),
                        vs.len() == items@.len(),
                        forall|j: int| 0 <= j < items@.len() ==> #[trigger] vs[j] == view_json(items@[j]),
                        errs_view(errors@) == start + int_items_errors(vs, i as int, locs_view(loc@)),
                        ok ==> out@.len() == i,
                        ok ==> forall|j: int|
                            0 <= j < i ==> coerce_int_v(#[trigger] vs[j]) == Some(out@[j] as int),
                        !ok ==> exists|j: int| 0 <= j < i && coerce_int_v(#[trigger] vs[j]) is None,
                    decreases items@.len() - i,
                {
                    assert(vs[i as int] == view_json(items@[i as int]));
                    match coerce_int(&items[i]) {
                        Some(n) => {
                            if ok {
                                out.push(n);
                            }
                            assert(errs_view(errors@) =~= start + int_items_errors(vs, i + 1, locs_view(loc@)));
                        },
                        None => {
                            ok = false;
                            push_error(
                                errors,
                                field_error(
                                    loc_index(&loc, i),
                                    "value is not a valid integer",
                                    "type_error.integer",
                                ),
                            );
                            assert(errs_view(errors@) =~= start + int_items_errors(vs, i + 1, locs_view(loc@)));
                        },
                    }
                    i = i + 1;
                }
                if ok {
                    assert(out@.map_values(|x: i64| x as int) =~= int_items_values(vs));
                    Some(out)
                } else {
                    None
                }
            },
            _ => {
                push_error(errors, field_error(loc, "value is not a valid list", "type_error.list"));
                None
            },
        },
    }
}

proof fn lemma_int_items_errors_empty(items: Seq<JsonV>, n: int, loc: Seq<LocV>)
    requires
        0 <= n <= items.len(),
        forall|i: int| 0 <= i < n ==> coerce_int_v(#[trigger] items[i]) is Some,
    ensures
        int_items_errors(items, n, loc) == Seq::<FieldErrorV>::empty(),
    decreases n,
{
    if n > 0 {
        lemma_int_items_errors_empty(items, n - 1, loc);
        assert(coerce_int_v(items[n - 1]) is Some);
    }
}

proof fn lemma_int_items_errors_nonempty(items: Seq<JsonV>, n: int, loc: Seq<LocV>, bad: int)
    requires
        0 <= bad < n <= items.len(),
        coerce_int_v(items[bad]) is None,
    ensures
        int_items_errors(items, n, loc).len() > 0,
    decreases n,
{
    if bad < n - 1 {
        lemma_int_items_errors_nonempty(items, n - 1, loc, bad);
    }
}

/// A `List[int]` field records no error exactly when it is valid.
pub proof fn lemma_int_list_errors_empty(obj: JsonV, f: Seq<char>, prefix: Seq<LocV>)
    ensures
        int_list_errors(obj, f, prefix).len() == 0 <==> int_list_value(obj, f) is Some,
{
    match obj.get(f) {
        Some(JsonV::Arr(items)) => {
            let loc = prefix.push(LocV::Key(f));
            if int_items_ok(items) {
                lemma_int_items_errors_empty(items, items.len() as int, loc);
            } else {
                let bad = choose|i: int| 0 <= i < items.len() && !(coerce_int_v(#[trigger] items[i]) is Some);
                lemma_int_items_errors_nonempty(items, items.len() as int, loc, bad);
            }
        },
        _ => {},
    }
}

} // verus!
