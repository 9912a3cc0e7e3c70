//! The template requests: `CreateTemplates`, `UpdateTemplates`,
//! `DeleteTemplates` and `DeleteAccountMessaging`.

use vstd::prelude::*;
use crate::events::models::{body_field, up_to_msg};

use crate::fields::{
    after, coerce_str, coerce_str_v, err_dict, err_list, err_missing, err_none, err_str, str_field,
    str_items, str_items_errors, str_items_ok, str_items_values, strings_view, take_str, StrMode,
};
use crate::json::{
    body_field_loc, errs_view, fe, field_error, lemma_view_members, lemma_view_seq, loc_index,
    loc_key, locs_view, push_error, truthy, view_json, view_members, view_seq, FieldError,
    FieldErrorV, Json, JsonV, Loc, LocV,
};
use crate::messaging::content::{rejection_view, RejectionV};
use crate::messaging::generate::MsgRejection;
use crate::messaging::models::{
    extract_placeholder_tags, friendly_name_error, placeholder_tags, py_list_quote, py_str,
    py_str_list_repr, py_str_text, validate_friendly_name,
};
use crate::text::{concat2, concat3, copy_str, i64_to_string, int_decimal, str_eq};

verus! {

/// A template of a create or update request.
pub struct TemplateChild {
    /// Present on updates only.
    pub template_id: Option<String>,
    pub friendly_name: String,
    pub template_type: String,
    pub title: String,
    pub content: String,
    /// The default value of each placeholder, coerced to strings.
    pub default_values: Vec<(String, String)>,
    /// `None` when the field was absent.
    pub metadata: Option<Json>,
}

pub struct TemplateV {
    pub template_id: Option<Seq<char>>,
    pub friendly_name: Seq<char>,
    pub template_type: Seq<char>,
    pub title: Seq<char>,
    pub content: Seq<char>,
    pub default_values: Seq<(Seq<char>, Seq<char>)>,
    pub metadata: Option<JsonV>,
}

impl View for TemplateChild {
    type V = TemplateV;

    open spec fn view(&self) -> TemplateV {
        TemplateV {
            template_id: match self.template_id {
                Some(s) => Some(s@),
                None => None,
            },
            friendly_name: self.friendly_name@,
            template_type: self.template_type@,
            title: self.title@,
            content: self.content@,
            default_values: self.default_values@.map_values(|e: (String, String)| (e.0@, e.1@)),
            metadata: match self.metadata {
                Some(m) => Some(m@),
                None => None,
            },
        }
    }
}

pub struct CreateTemplates {
    pub templates: Vec<TemplateChild>,
}

pub struct UpdateTemplates {
    pub templates: Vec<TemplateChild>,
}

pub struct DeleteTemplates {
    pub template_ids: Vec<String>,
}

pub struct DeleteAccountMessaging {
    pub account_id: String,
}

// ---------------------------------------------------------------------------
// One template
// ---------------------------------------------------------------------------

/// The friendly name field: a string that passes its validator.
pub open spec fn friendly_name_field(v: JsonV) -> Result<Seq<char>, (Seq<char>, Seq<char>)> {
    match str_field(v, "friendly_name"@, StrMode::Lenient) {
        Err(e) => Err(e),
        Ok(s) => match friendly_name_error(s) {
            Some(m) => Err((m, "value_error"@)),
            None => Ok(s),
        },
    }
}

/// The error of one default value at `loc`.
pub open spec fn default_value_error(e: (Seq<char>, JsonV), loc: Seq<LocV>) -> Seq<FieldErrorV> {
    if e.1 is Null {
        seq![fe(loc.push(LocV::Key(e.0)), err_none().0, err_none().1)]
    } else if coerce_str_v(e.1, StrMode::Lenient) is None {
        seq![fe(loc.push(LocV::Key(e.0)), err_str().0, err_str().1)]
    } else {
        seq![]
    }
}

pub open spec fn default_values_scan(m: Seq<(Seq<char>, JsonV)>, n: int, loc: Seq<LocV>) -> Seq<FieldErrorV>
    decreases n,
{
    if n <= 0 {
        seq![]
    } else {
        default_values_scan(m, n - 1, loc) + default_value_error(m[n - 1], loc)
    }
}

/// The errors of the `default_values` field (`default_values or {}`: a
/// falsy value is an empty mapping).
pub open spec fn default_values_errors(v: JsonV, prefix: Seq<LocV>) -> Seq<FieldErrorV> {
    let loc = prefix.push(LocV::Key("default_values"@));
    match v.get("default_values"@) {
        None => seq![],
        Some(d) => if !truthy(d) {
            seq![]
        } else {
            match d {
                JsonV::Obj(m) => default_values_scan(m, m.len() as int, loc),
                _ => seq![fe(loc, err_dict().0, err_dict().1)],
            }
        },
    }
}

/// The default values of an error-free template object.
pub open spec fn default_values_value(v: JsonV) -> Seq<(Seq<char>, Seq<char>)> {
    match v.get("default_values"@) {
        Some(JsonV::Obj(m)) => m.map_values(|e: (Seq<char>, JsonV)| (e.0, coerce_str_v(e.1, StrMode::Lenient)->0)),
        _ => seq![],
    }
}

pub open spec fn metadata_key_msg() -> Seq<char> {
    "Metadata keys must be at least 1 character long and less than 40 characters long."@
}

pub open spec fn metadata_value_msg() -> Seq<char> {
    "Metadata values must be at least 1 character long and less than 500 characters long."@
}

/// The first metadata member (from `i` on) with a key of 1 to 40 or a
/// value (as Python's `str`) of 1 to 500 characters decides the error.
pub open spec fn metadata_scan(m: Seq<(Seq<char>, JsonV)>, i: int, loc: Seq<LocV>) -> Seq<FieldErrorV>
    decreases m.len() - i,
{
    if i < 0 || i >= m.len() {
        seq![]
    } else if m[i].0.len() > 40 || m[i].0.len() < 1 {
        seq![fe(loc, metadata_key_msg(), "value_error"@)]
    } else if py_str_text(m[i].1).len() > 500 || py_str_text(m[i].1).len() < 1 {
        seq![fe(loc, metadata_value_msg(), "value_error"@)]
    } else {
        metadata_scan(m, i + 1, loc)
    }
}

/// The errors of a present, non-null `metadata` field.
pub open spec fn metadata_errors(md: JsonV, loc: Seq<LocV>) -> Seq<FieldErrorV> {
    match md {
        JsonV::Obj(m) => metadata_scan(m, 0, loc),
        _ => seq![fe(loc, err_dict().0, err_dict().1)],
    }
}

/// A template object whose `metadata` is null: the validator fails
/// internally on it.
pub open spec fn metadata_null(v: JsonV) -> bool {
    v is Obj && v.get("metadata"@) == Some(JsonV::Null)
}

/// The field errors of one template object at `prefix`.
pub open spec fn template_errors(v: JsonV, prefix: Seq<LocV>, update: bool) -> Seq<FieldErrorV> {
    if !(v is Obj) {
        seq![fe(prefix, err_dict().0, err_dict().1)]
    } else {
        let e0 = if update {
            after(seq![], prefix.push(LocV::Key("template_id"@)), str_field(v, "template_id"@, StrMode::Lenient))
        } else {
            seq![]
        };
        let e1 = after(e0, prefix.push(LocV::Key("friendly_name"@)), friendly_name_field(v));
        let e2 = after(e1, prefix.push(LocV::Key("template_type"@)), str_field(v, "template_type"@, StrMode::Lenient));
        let e3 = after(e2, prefix.push(LocV::Key("title"@)), str_field(v, "title"@, StrMode::Lenient));
        let e4 = after(e3, prefix.push(LocV::Key("content"@)), str_field(v, "content"@, StrMode::Lenient));
        let e5 = e4 + default_values_errors(v, prefix);
        e5 + match v.get("metadata"@) {
            None => seq![],
            Some(md) => metadata_errors(md, prefix.push(LocV::Key("metadata"@))),
        }
    }
}

/// The template an error-free template object describes.
pub open spec fn template_value(v: JsonV, update: bool) -> TemplateV {
    TemplateV {
        template_id: if update {
            Some(str_field(v, "template_id"@, StrMode::Lenient)->Ok_0)
        } else {
            None
        },
        friendly_name: friendly_name_field(v)->Ok_0,
        template_type: str_field(v, "template_type"@, StrMode::Lenient)->Ok_0,
        title: str_field(v, "title"@, StrMode::Lenient)->Ok_0,
        content: str_field(v, "content"@, StrMode::Lenient)->Ok_0,
        default_values: default_values_value(v),
        metadata: v.get("metadata"@),
    }
}

fn read_default_values(v: &Json, prefix: &Vec<Loc>, errors: &mut Vec<FieldError>) -> (r: Vec<(String, String)>)
    requires
        v@ is Obj,
    ensures
        errs_view(final(errors)@) == errs_view(old(errors)@) + default_values_errors(v@, locs_view(prefix@)),
        default_values_errors(v@, locs_view(prefix@)).len() == 0 ==> r@.map_values(|e: (String, String)| (e.0@, e.1@))
            == default_values_value(v@),
{
    let mut out: Vec<(String, String)> = Vec::new();
    let d = match v.get("default_values") {
        None => {
            assert(out@.map_values(|e: (String, String)| (e.0@, e.1@)) =~= default_values_value(v@));
            return out;
        },
        Some(d) => d,
    };
    if !d.truthy() {
        proof {
            match d@ {
                JsonV::Obj(m) => {
                    assert(m.len() == 0);
                    assert(m.map_values(|e: (Seq<char>, JsonV)| (e.0, coerce_str_v(e.1, StrMode::Lenient)->0)) =~= Seq::<(Seq<char>, Seq<char>)>::empty());
                },
                _ => {},
            }
        }
        assert(out@.map_values(|e: (String, String)| (e.0@, e.1@)) =~= default_values_value(v@));
        return out;
    }
    let loc = loc_key(prefix, "default_values");
    match d {
        Json::Object(m) => {
            proof {
                lemma_view_members(m@);
            }
            let ghost mv = view_members(m@);
            let ghost start = errs_view(errors@);
            let mut i: usize = 0;
            while i < m.len()
                invariant
                    i <= m@.len(),
                    mv == view_members(m@),
                    mv.len() == m@.len(),
                    forall|j: int| 0 <= j < m@.len() ==> #[trigger] mv[j] == (m@[j].0@, view_json(m@[j].1)),
                    errs_view(errors@) == start + default_values_scan(mv, i as int, locs_view(loc@)),
                    default_values_scan(mv, i as int, locs_view(loc@)).len() == 0 ==> out@.map_values(
                        |e: (String, String)| (e.0@, e.1@),
                    ) == mv.take(i as int).map_values(|e: (Seq<char>, JsonV)| (e.0, coerce_str_v(e.1, StrMode::Lenient)->0)),
                decreases m@.len() - i,
            {
                let entry = &m[i];
                assert(mv[i as int] == (entry.0@, view_json(entry.1)));
                let ghost before_out = out@;
                if entry.1.is_null() {
                    push_error(errors, field_error(loc_key(&loc, entry.0.as_str()), "none is not an allowed value", "type_error.none.not_allowed"));
                } else {
                    match coerce_str(&entry.1, StrMode::Lenient) {
                        Some(s) => {
                            out.push((copy_str(entry.0.as_str()), s));
                        },
                        None => {
                            push_error(errors, field_error(loc_key(&loc, entry.0.as_str()), "str type expected", "type_error.str"));
                        },
                    }
                }
                proof {
                    assert(default_values_scan(mv, i + 1, locs_view(loc@)) == default_values_scan(mv, i as int, locs_view(loc@))
                        + default_value_error(mv[i as int], locs_view(loc@)));
                    assert(errs_view(errors@) =~= start + default_values_scan(mv, i + 1, locs_view(loc@)));
                    if default_values_scan(mv, i + 1, locs_view(loc@)).len() == 0 {
                        assert(default_values_scan(mv, i as int, locs_view(loc@)).len() == 0);
                        assert(default_value_error(mv[i as int], locs_view(loc@)).len() == 0);
                        assert(out@.drop_last() =~= before_out);
                        assert(out@.map_values(|e: (String, String)| (e.0@, e.1@)) =~= before_out.map_values(
                            |e: (String, String)| (e.0@, e.1@),
                        ).push((mv[i as int].0, coerce_str_v(mv[i as int].1, StrMode::Lenient)->0)));
                        assert(mv.take(i + 1) =~= mv.take(i as int).push(mv[i as int]));
                        assert(out@.map_values(|e: (String, String)| (e.0@, e.1@)) =~= mv.take(i + 1).map_values(
                            |e: (Seq<char>, JsonV)| (e.0, coerce_str_v(e.1, StrMode::Lenient)->0),
                        ));
                    }
                }
                i = i + 1;
            }
            assert(mv.take(m@.len() as int) =~= mv);
            assert(locs_view(loc@) == locs_view(prefix@).push(LocV::Key("default_values"@)));
            out
        },
        _ => {
            push_error(errors, field_error(loc, "value is not a valid dict", "type_error.dict"));
            assert(errs_view(errors@) =~= errs_view(old(errors)@) + default_values_errors(v@, locs_view(prefix@)));
            out
        },
    }
}

/// Reads the `metadata` field; `Err` when it is null (the validator fails
/// internally).
fn read_metadata(v: &Json, prefix: &Vec<Loc>, errors: &mut Vec<FieldError>) -> (r: Result<Option<Json>, ()>)
    requires
        v@ is Obj,
    ensures
        r is Err <==> metadata_null(v@),
        r is Ok ==> errs_view(final(errors)@) == errs_view(old(errors)@) + match v@.get("metadata"@) {
            None => seq![],
            Some(md) => metadata_errors(md, locs_view(prefix@).push(LocV::Key("metadata"@))),
        },
        r matches Ok(m) ==> match m {
            Some(j) => v@.get("metadata"@) == Some(j@),
            None => v@.get("metadata"@) is None,
        },
{
    let md = match v.get("metadata") {
        None => {
            assert(errs_view(errors@) =~= errs_view(old(errors)@) + Seq::<FieldErrorV>::empty());
            return Ok(None);
        },
        Some(md) => md,
    };
    let loc = loc_key(prefix, "metadata");
    match md {
        Json::Null => Err(()),
        Json::Object(m) => {
            proof {
                lemma_view_members(m@);
            }
            let ghost mv = view_members(m@);
            let mut i: usize = 0;
            while i < m.len()
                invariant
                    i <= m@.len(),
                    mv == view_members(m@),
                    mv.len() == m@.len(),
                    forall|j: int| 0 <= j < m@.len() ==> #[trigger] mv[j] == (m@[j].0@, view_json(m@[j].1)),
                    metadata_scan(mv, 0, locs_view(loc@)) == metadata_scan(mv, i as int, locs_view(loc@)),
                    errors@ == old(errors)@,
                    md@ == JsonV::Obj(mv),
                    v@.get("metadata"@) == Some(md@),
                    v@ is Obj,
                    locs_view(loc@) == locs_view(prefix@).push(LocV::Key("metadata"@)),
                decreases m@.len() - i,
            {
                let entry = &m[i];
                assert(mv[i as int] == (entry.0@, view_json(entry.1)));
                let kl = entry.0.as_str().unicode_len();
                if kl > 40 || kl < 1 {
                    push_error(errors, field_error(loc, "Metadata keys must be at least 1 character long and less than 40 characters long.", "value_error"));
                    assert(errs_view(errors@) =~= errs_view(old(errors)@) + metadata_errors(md@, locs_view(prefix@).push(LocV::Key("metadata"@))));
                    return Ok(Some(md.deep_clone()));
                }
                let vl = py_str(&entry.1).as_str().unicode_len();
                if vl > 500 || vl < 1 {
                    push_error(errors, field_error(loc, "Metadata values must be at least 1 character long and less than 500 characters long.", "value_error"));
                    assert(errs_view(errors@) =~= errs_view(old(errors)@) + metadata_errors(md@, locs_view(prefix@).push(LocV::Key("metadata"@))));
                    return Ok(Some(md.deep_clone()));
                }
                i = i + 1;
            }
            assert(errs_view(errors@) =~= errs_view(old(errors)@) + metadata_errors(md@, locs_view(prefix@).push(LocV::Key("metadata"@))));
            Ok(Some(md.deep_clone()))
        },
        _ => {
            push_error(errors, field_error(loc, "value is not a valid dict", "type_error.dict"));
            assert(errs_view(errors@) =~= errs_view(old(errors)@) + metadata_errors(md@, locs_view(prefix@).push(LocV::Key("metadata"@))));
            Ok(Some(md.deep_clone()))
        },
    }
}

/// Reads one template object at `prefix`; `Err` when its metadata is null.
fn read_template(v: &Json, prefix: &Vec<Loc>, update: bool, errors: &mut Vec<FieldError>) -> (r: Result<Option<TemplateChild>, ()>)
    ensures
        r is Err <==> metadata_null(v@),
        r is Ok ==> errs_view(final(errors)@) == errs_view(old(errors)@) + template_errors(v@, locs_view(prefix@), update),
        r is Ok && template_errors(v@, locs_view(prefix@), update).len() == 0 ==> (r matches Ok(Some(t)) && t@ == template_value(v@, update)),
{
    if !v.is_object() {
        push_error(errors, field_error(crate::json::copy_locs(prefix), "value is not a valid dict", "type_error.dict"));
        assert(errs_view(errors@) =~= errs_view(old(errors)@) + template_errors(v@, locs_view(prefix@), update));
        return Ok(None);
    }
    let ghost start = errs_view(errors@);
    let template_id = if update {
        take_str(v, "template_id", prefix, StrMode::Lenient, errors)
    } else {
        None
    };
    let ghost a0 = errs_view(errors@);
    let friendly_name = take_str(v, "friendly_name", prefix, StrMode::Lenient, errors);
    let mut name_ok = true;
    match &friendly_name {
        Some(name) => match validate_friendly_name(name.as_str()) {
            Err(m) => {
                push_error(errors, field_error(loc_key(prefix, "friendly_name"), m.as_str(), "value_error"));
                name_ok = false;
            },
            Ok(()) => {},
        },
        None => {},
    }
    let ghost a1 = errs_view(errors@);
    let template_type = take_str(v, "template_type", prefix, StrMode::Lenient, errors);
    let title = take_str(v, "title", prefix, StrMode::Lenient, errors);
    let content = take_str(v, "content", prefix, StrMode::Lenient, errors);
    let ghost a4 = errs_view(errors@);
    let default_values = read_default_values(v, prefix, errors);
    let ghost a5 = errs_view(errors@);
    let metadata = match read_metadata(v, prefix, errors) {
        Err(()) => return Err(()),
        Ok(m) => m,
    };
    proof {
        let p = locs_view(prefix@);
        let e0 = if update {
            after(seq![], p.push(LocV::Key("template_id"@)), str_field(v@, "template_id"@, StrMode::Lenient))
        } else {
            seq![]
        };
        assert(a0 =~= start + e0);
        let e1 = after(e0, p.push(LocV::Key("friendly_name"@)), friendly_name_field(v@));
        assert(a1 =~= start + e1);
        let e2 = after(e1, p.push(LocV::Key("template_type"@)), str_field(v@, "template_type"@, StrMode::Lenient));
        let e3 = after(e2, p.push(LocV::Key("title"@)), str_field(v@, "title"@, StrMode::Lenient));
        let e4 = after(e3, p.push(LocV::Key("content"@)), str_field(v@, "content"@, StrMode::Lenient));
        assert(a4 =~= start + e4);
        assert(errs_view(errors@) =~= start + template_errors(v@, p, update));
    }
    if update && template_id.is_none() {
        return Ok(None);
    }
    match (friendly_name, template_type, title, content) {
        (Some(friendly_name), Some(template_type), Some(title), Some(content)) => {
            if name_ok {
                Ok(Some(TemplateChild { template_id, friendly_name, template_type, title, content, default_values, metadata }))
            } else {
                Ok(None)
            }
        },
        _ => Ok(None),
    }
}

// ---------------------------------------------------------------------------
// The template list
// ---------------------------------------------------------------------------

/// The location of template `i`.
pub open spec fn template_loc(i: int) -> Seq<LocV> {
    seq![LocV::Key("body"@), LocV::Key("templates"@), LocV::Index(i as nat)]
}

/// The field errors of the first `n` template objects.
pub open spec fn templates_errors(items: Seq<JsonV>, n: int, update: bool) -> Seq<FieldErrorV>
    decreases n,
{
    if n <= 0 {
        seq![]
    } else {
        templates_errors(items, n - 1, update) + template_errors(items[n - 1], template_loc(n - 1), update)
    }
}

/// The distinct elements of the first `n` of `xs` that are not in `ys`, in
/// first-seen order.
pub open spec fn missing_from(xs: Seq<Seq<char>>, ys: Seq<Seq<char>>, n: int) -> Seq<Seq<char>>
    decreases n,
{
    if n <= 0 {
        seq![]
    } else {
        let a = missing_from(xs, ys, n - 1);
        if ys.contains(xs[n - 1]) || a.contains(xs[n - 1]) {
            a
        } else {
            a.push(xs[n - 1])
        }
    }
}

/// The refusal of one template's placeholders, if any: at most
/// `max_required` of them, and exactly the keys of its default values.
pub open spec fn template_check(t: TemplateV, max_required: int) -> Option<Seq<char>> {
    let rd = placeholder_tags(t.content);
    let keys = t.default_values.map_values(|e: (Seq<char>, Seq<char>)| e.0);
    let df_rd = missing_from(keys, rd, keys.len() as int);
    let rd_df = missing_from(rd, keys, rd.len() as int);
    if rd.len() > max_required {
        Some(
            "Template : "@ + t.friendly_name + ". A maximum number of "@ + int_decimal(max_required)
                + " placeholder tags allowed per template."@,
        )
    } else if df_rd.len() > 0 || rd_df.len() > 0 {
        Some(
            "Template : "@ + t.friendly_name
                + ". Please ensure the placeholder tags set in the 'content' parameter match the values provided in the 'default_values' parameter. Found mismatches : "@
                + py_list_quote(
                if df_rd.len() > 0 {
                    df_rd
                } else {
                    rd_df
                },
            ),
        )
    } else {
        None
    }
}

/// The first refusal among the templates from `i` on.
pub open spec fn templates_content_error(ts: Seq<TemplateV>, max_required: int, i: int) -> Option<Seq<char>>
    decreases ts.len() - i,
{
    if i < 0 || i >= ts.len() {
        None
    } else {
        match template_check(ts[i], max_required) {
            Some(m) => Some(m),
            None => templates_content_error(ts, max_required, i + 1),
        }
    }
}

/// The configuration a template request is checked against; a value that
/// could not be read is `None`.
pub struct TemplatesConfig {
    /// `MAX_CREATE_TEMPLATES` for creation, `MAX_UPDATE_DELETE_TEMPLATES`
    /// for updates.
    pub max_templates: Option<i64>,
    /// `MAX_REQUIRED_DATA`.
    pub max_required_data: Option<i64>,
}

pub open spec fn max_templates_key(update: bool) -> Seq<char> {
    if update {
        "MAX_UPDATE_DELETE_TEMPLATES"@
    } else {
        "MAX_CREATE_TEMPLATES"@
    }
}

pub open spec fn templates_error(msg: Seq<char>) -> Seq<FieldErrorV> {
    seq![fe(body_field("templates"@), msg, "value_error"@)]
}

/// The refusal of a template request body, if any: a null `metadata`
/// (internal), the field errors, the number of templates, then their
/// placeholders.
pub open spec fn templates_rejection(body: JsonV, update: bool, max_templates: Option<i64>, max_required: Option<i64>) -> Option<
    RejectionV,
> {
    match body.get("templates"@) {
        None => Some(RejectionV::Validation(seq![fe(body_field("templates"@), err_missing().0, err_missing().1)])),
        Some(JsonV::Arr(items)) => {
            let errs = templates_errors(items, items.len() as int, update);
            let ts = items.map_values(|v: JsonV| template_value(v, update));
            if exists|i: int| 0 <= i < items.len() && #[trigger] metadata_null(items[i]) {
                Some(RejectionV::Internal("AttributeError: 'NoneType' object has no attribute 'items'"@))
            } else if errs.len() > 0 {
                Some(RejectionV::Validation(errs))
            } else if max_templates is None {
                Some(RejectionV::ConfigMissing(max_templates_key(update)))
            } else if ts.len() > max_templates->0 {
                Some(
                    RejectionV::Validation(
                        templates_error(
                            up_to_msg(
                                if update {
                                    "You can only update up to "@
                                } else {
                                    "You can only create up to "@
                                },
                                max_templates->0 as int,
                                " templates per request."@,
                            ),
                        ),
                    ),
                )
            } else if max_required is None {
                Some(RejectionV::ConfigMissing("MAX_REQUIRED_DATA"@))
            } else if templates_content_error(ts, max_required->0 as int, 0) is Some {
                Some(RejectionV::Validation(templates_error(templates_content_error(ts, max_required->0 as int, 0)->0)))
            } else {
                None
            }
        },
        Some(_) => Some(RejectionV::Validation(seq![fe(body_field("templates"@), err_list().0, err_list().1)])),
    }
}

/// The templates of a body that is not refused.
pub open spec fn body_templates(body: JsonV, update: bool) -> Seq<TemplateV> {
    match body.get("templates"@) {
        Some(JsonV::Arr(items)) => items.map_values(|v: JsonV| template_value(v, update)),
        _ => seq![],
    }
}

fn validation_at_templates(msg: &str) -> (r: MsgRejection)
    ensures
        rejection_view(r) == RejectionV::Validation(templates_error(msg@)),
{
    let mut errors: Vec<FieldError> = Vec::new();
    push_error(&mut errors, field_error(body_field_loc("templates"), msg, "value_error"));
    assert(errs_view(errors@) =~= templates_error(msg@));
    MsgRejection::Validation(errors)
}

/// Finds the distinct elements of `xs` not in `ys`.
fn missing_of(xs: &Vec<String>, ys: &Vec<String>) -> (r: Vec<String>)
    ensures
        strings_view(r@) == missing_from(strings_view(xs@), strings_view(ys@), xs@.len() as int),
{
    let ghost xv = strings_view(xs@);
    let ghost yv = strings_view(ys@);
    let mut out: Vec<String> = Vec::new();
    let mut i: usize = 0;
    assert(strings_view(out@) =~= Seq::<Seq<char>>::empty());
    while i < xs.len()
        invariant
            i <= xs@.len(),
            xv == strings_view(xs@),
            yv == strings_view(ys@),
            xv.len() == xs@.len(),
            strings_view(out@) == missing_from(xv, yv, i as int),
        decreases xs@.len() - i,
    {
        assert(xv[i as int] == xs@[i as int]@);
        let in_ys = crate::messaging::templates::contains_string(ys, xs[i].as_str());
        let in_out = contains_string(&out, xs[i].as_str());
        if !in_ys && !in_out {
            let ghost before = out@;
            out.push(copy_str(xs[i].as_str()));
            assert(strings_view(out@) =~= strings_view(before).push(xv[i as int]));
        }
        i = i + 1;
    }
    out
}

/// Whether `x` is among `v`.
pub fn contains_string(v: &Vec<String>, x: &str) -> (r: bool)
    ensures
        r == strings_view(v@).contains(x@),
{
    let ghost sv = strings_view(v@);
    let mut i: usize = 0;
    while i < v.len()
        invariant
            i <= v@.len(),
            sv == strings_view(v@),
            sv.len() == v@.len(),
            forall|j: int| 0 <= j < i ==> sv[j] != x@,
        decreases v@.len() - i,
    {
        assert(sv[i as int] == v@[i as int]@);
        if str_eq(v[i].as_str(), x) {
            return true;
        }
        i = i + 1;
    }
    false
}

/// Checks one template's placeholders.
fn check_template(t: &TemplateChild, max_required: i64) -> (r: Option<String>)
    ensures
        match r {
            Some(m) => template_check(t@, max_required as int) == Some(m@),
            None => template_check(t@, max_required as int) is None,
        },
{
    let rd = extract_placeholder_tags(t.content.as_str());
    let mut keys: Vec<String> = Vec::new();
    let mut i: usize = 0;
    while i < t.default_values.len()
        invariant
            i <= t.default_values@.len(),
            keys@.len() == i,
            forall|k: int| 0 <= k < i ==> (#[trigger] keys@[k])@ == t.default_values@[k].0@,
        decreases t.default_values@.len() - i,
    {
        keys.push(copy_str(t.default_values[i].0.as_str()));
        i = i + 1;
    }
    assert(strings_view(keys@) =~= t@.default_values.map_values(|e: (Seq<char>, Seq<char>)| e.0));
    if rd.len() as i128 > max_required as i128 {
        let a = concat3("Template : ", t.friendly_name.as_str(), ". A maximum number of ");
        return Some(concat3(a.as_str(), i64_to_string(max_required).as_str(), " placeholder tags allowed per template."));
    }
    let df_rd = missing_of(&keys, &rd);
    let rd_df = missing_of(&rd, &keys);
    assert(strings_view(rd@).len() == rd@.len());
    assert(strings_view(keys@).len() == keys@.len());
    if df_rd.len() > 0 || rd_df.len() > 0 {
        let list = if df_rd.len() > 0 {
            py_str_list_repr(&df_rd)
        } else {
            py_str_list_repr(&rd_df)
        };
        let a = concat3(
            "Template : ",
            t.friendly_name.as_str(),
            ". Please ensure the placeholder tags set in the 'content' parameter match the values provided in the 'default_values' parameter. Found mismatches : ",
        );
        return Some(concat2(a.as_str(), list.as_str()));
    }
    None
}

proof fn lemma_templates_content_err(ts: Seq<TemplateV>, max_required: int, i: int)
    requires
        0 <= i < ts.len(),
        templates_content_error(ts, max_required, 0) == templates_content_error(ts, max_required, i),
        template_check(ts[i], max_required) is Some,
    ensures
        templates_content_error(ts, max_required, 0) == template_check(ts[i], max_required),
{
}

/// Reads and validates the templates of a create (`update` false) or an
/// update request.
pub fn parse_template_children(body: &Json, update: bool, config: &TemplatesConfig) -> (r: Result<Vec<TemplateChild>, MsgRejection>)
    ensures
        match templates_rejection(body@, update, config.max_templates, config.max_required_data) {
            Some(rej) => r matches Err(e) && rejection_view(e) == rej,
            None => r matches Ok(ts) && ts@.map_values(|t: TemplateChild| t@) == body_templates(body@, update),
        },
{
    let mut errors: Vec<FieldError> = Vec::new();
    let items = match body.get("templates") {
        None => {
            push_error(&mut errors, field_error(body_field_loc("templates"), "field required", "value_error.missing"));
            assert(errs_view(errors@) =~= seq![fe(body_field("templates"@), err_missing().0, err_missing().1)]);
            return Err(MsgRejection::Validation(errors));
        },
        Some(v) => match v.as_array() {
            None => {
                push_error(&mut errors, field_error(body_field_loc("templates"), "value is not a valid list", "type_error.list"));
                assert(errs_view(errors@) =~= seq![fe(body_field("templates"@), err_list().0, err_list().1)]);
                return Err(MsgRejection::Validation(errors));
            },
            Some(a) => a,
        },
    };
    proof {
        lemma_view_seq(items@);
    }
    let ghost vs = view_seq(items@);
    assert(body@.get("templates"@) == Some(JsonV::Arr(vs)));
    let mut out: Vec<TemplateChild> = Vec::new();
    let mut i: usize = 0;
    assert(errs_view(errors@) =~= templates_errors(vs, 0, update));
    while i < items.len()
        invariant
            i <= items@.len(),
            vs == view_seq(items@),
            vs.len() == items@.len(),
            forall|k: int| 0 <= k < items@.len() ==> #[trigger] vs[k] == view_json(items@[k]),
            errs_view(errors@) == templates_errors(vs, i as int, update),
            forall|k: int| 0 <= k < i ==> !metadata_null(#[trigger] vs[k]),
            templates_errors(vs, i as int, update).len() == 0 ==> out@.len() == i && forall|k: int|
                0 <= k < i ==> (#[trigger] out@[k])@ == template_value(vs[k], update),
            body@.get("templates"@) == Some(JsonV::Arr(vs)),
        decreases items@.len() - i,
    {
        let prefix = loc_index(&body_field_loc("templates"), i);
        assert(locs_view(prefix@) =~= template_loc(i as int));
        let ghost before = errs_view(errors@);
        assert(vs[i as int] == view_json(items@[i as int]));
        match read_template(&items[i], &prefix, update, &mut errors) {
            Err(()) => {
                assert(metadata_null(vs[i as int]));
                return Err(MsgRejection::Internal(copy_str("AttributeError: 'NoneType' object has no attribute 'items'")));
            },
            Ok(parsed) => {
                assert(templates_errors(vs, i + 1, update) == before + template_errors(vs[i as int], template_loc(i as int), update));
                match parsed {
                    Some(t) => {
                        out.push(t);
                    },
                    None => {},
                }
            },
        }
        i = i + 1;
    }
    if errors.len() > 0 {
        return Err(MsgRejection::Validation(errors));
    }
    let ghost ts = vs.map_values(|v: JsonV| template_value(v, update));
    assert(out@.map_values(|t: TemplateChild| t@) =~= ts);
    let max = match config.max_templates {
        None => {
            let key = if update {
                copy_str("MAX_UPDATE_DELETE_TEMPLATES")
            } else {
                copy_str("MAX_CREATE_TEMPLATES")
            };
            return Err(MsgRejection::ConfigMissing(key));
        },
        Some(m) => m,
    };
    if out.len() as i128 > max as i128 {
        let before = if update {
            copy_str("You can only update up to ")
        } else {
            copy_str("You can only create up to ")
        };
        let msg = concat3(before.as_str(), i64_to_string(max).as_str(), " templates per request.");
        return Err(validation_at_templates(msg.as_str()));
    }
    let max_required = match config.max_required_data {
        None => return Err(MsgRejection::ConfigMissing(copy_str("MAX_REQUIRED_DATA"))),
        Some(m) => m,
    };
    let mut k: usize = 0;
    while k < out.len()
        invariant
            k <= out@.len(),
            out@.map_values(|t: TemplateChild| t@) == ts,
            ts == vs.map_values(|v: JsonV| template_value(v, update)),
            body@.get("templates"@) == Some(JsonV::Arr(vs)),
            templates_errors(vs, vs.len() as int, update).len() == 0,
            forall|j: int| 0 <= j < vs.len() ==> !metadata_null(#[trigger] vs[j]),
            config.max_templates == Some(max),
            ts.len() <= max,
            config.max_required_data == Some(max_required),
            templates_content_error(ts, max_required as int, 0) == templates_content_error(ts, max_required as int, k as int),
        decreases out@.len() - k,
    {
        assert(ts[k as int] == out@[k as int]@);
        match check_template(&out[k], max_required) {
            Some(m) => {
                proof {
                    lemma_templates_content_err(ts, max_required as int, k as int);
                }
                return Err(validation_at_templates(m.as_str()));
            },
            None => {},
        }
        k = k + 1;
    }
    Ok(out)
}

impl CreateTemplates {
    /// Validates a `CreateTemplates` body (`max_templates` from
    /// `MAX_CREATE_TEMPLATES`).
    pub fn from_json(body: &Json, config: &TemplatesConfig) -> (r: Result<CreateTemplates, MsgRejection>)
        ensures
            match templates_rejection(body@, false, config.max_templates, config.max_required_data) {
                Some(rej) => r matches Err(e) && rejection_view(e) == rej,
                None => r matches Ok(c) && c.templates@.map_values(|t: TemplateChild| t@) == body_templates(body@, false),
            },
    {
        match parse_template_children(body, false, config) {
            Ok(templates) => Ok(CreateTemplates { templates }),
            Err(e) => Err(e),
        }
    }
}

impl UpdateTemplates {
    /// Validates an `UpdateTemplates` body (`max_templates` from
    /// `MAX_UPDATE_DELETE_TEMPLATES`).
    pub fn from_json(body: &Json, config: &TemplatesConfig) -> (r: Result<UpdateTemplates, MsgRejection>)
        ensures
            match templates_rejection(body@, true, config.max_templates, config.max_required_data) {
                Some(rej) => r matches Err(e) && rejection_view(e) == rej,
                None => r matches Ok(c) && c.templates@.map_values(|t: TemplateChild| t@) == body_templates(body@, true),
            },
    {
        match parse_template_children(body, true, config) {
            Ok(templates) => Ok(UpdateTemplates { templates }),
            Err(e) => Err(e),
        }
    }
}

/// The refusal of a `DeleteTemplates` body, if any.
pub open spec fn delete_templates_rejection(body: JsonV, max: Option<i64>) -> Option<RejectionV> {
    let loc = body_field("template_ids"@);
    match body.get("template_ids"@) {
        None => Some(RejectionV::Validation(seq![fe(loc, err_missing().0, err_missing().1)])),
        Some(JsonV::Arr(items)) => {
            let errs = str_items_errors(items, items.len() as int, StrMode::Lenient, false, loc);
            if errs.len() > 0 {
                Some(RejectionV::Validation(errs))
            } else if max is None {
                Some(RejectionV::ConfigMissing("MAX_UPDATE_DELETE_TEMPLATES"@))
            } else if items.len() > max->0 {
                Some(
                    RejectionV::Validation(
                        seq![fe(loc, up_to_msg("You can only delete up to "@, max->0 as int, " templates per request."@), "value_error"@)],
                    ),
                )
            } else {
                None
            }
        },
        Some(_) => Some(RejectionV::Validation(seq![fe(loc, err_list().0, err_list().1)])),
    }
}

impl DeleteTemplates {
    /// Validates a `DeleteTemplates` body (`max_templates` from
    /// `MAX_UPDATE_DELETE_TEMPLATES`).
    pub fn from_json(body: &Json, max_templates: Option<i64>) -> (r: Result<DeleteTemplates, MsgRejection>)
        ensures
            match delete_templates_rejection(body@, max_templates) {
                Some(rej) => r matches Err(e) && rejection_view(e) == rej,
                None => r matches Ok(d) && body@.get("template_ids"@) matches Some(JsonV::Arr(items)) && strings_view(
                    d.template_ids@,
                ) == str_items_values(items, StrMode::Lenient),
            },
    {
        let mut errors: Vec<FieldError> = Vec::new();
        let loc = body_field_loc("template_ids");
        let items = match body.get("template_ids") {
            None => {
                push_error(&mut errors, field_error(loc, "field required", "value_error.missing"));
                assert(errs_view(errors@) =~= seq![fe(body_field("template_ids"@), err_missing().0, err_missing().1)]);
                return Err(MsgRejection::Validation(errors));
            },
            Some(v) => match v.as_array() {
                None => {
                    push_error(&mut errors, field_error(loc, "value is not a valid list", "type_error.list"));
                    assert(errs_view(errors@) =~= seq![fe(body_field("template_ids"@), err_list().0, err_list().1)]);
                    return Err(MsgRejection::Validation(errors));
                },
                Some(a) => a,
            },
        };
        proof {
            lemma_view_seq(items@);
        }
        assert(body@.get("template_ids"@) == Some(JsonV::Arr(view_seq(items@))));
        let ids = str_items(items, &loc, StrMode::Lenient, false, &mut errors);
        assert(errs_view(errors@) =~= str_items_errors(view_seq(items@), items@.len() as int, StrMode::Lenient, false, body_field("template_ids"@)));
        if errors.len() > 0 {
            return Err(MsgRejection::Validation(errors));
        }
        proof {
            if !str_items_ok(view_seq(items@), StrMode::Lenient, false) {
                let bad = choose|i: int| 0 <= i < view_seq(items@).len() && !(coerce_str_v(#[trigger] view_seq(items@)[i], StrMode::Lenient) is Some && !(false && view_seq(items@)[i] is Null));
                crate::fields::lemma_str_items_errors_nonempty_pub(view_seq(items@), items@.len() as int, StrMode::Lenient, false, body_field("template_ids"@), bad);
            }
        }
        let ids = match ids {
            Some(v) => v,
            None => return Err(MsgRejection::Validation(errors)),
        };
        let max = match max_templates {
            None => return Err(MsgRejection::ConfigMissing(copy_str("MAX_UPDATE_DELETE_TEMPLATES"))),
            Some(m) => m,
        };
        if items.len() as i128 > max as i128 {
            let msg = concat3("You can only delete up to ", i64_to_string(max).as_str(), " templates per request.");
            let mut errors: Vec<FieldError> = Vec::new();
            push_error(&mut errors, field_error(body_field_loc("template_ids"), msg.as_str(), "value_error"));
            assert(errs_view(errors@) =~= seq![fe(body_field("template_ids"@), up_to_msg("You can only delete up to "@, max as int, " templates per request."@), "value_error"@)]);
            return Err(MsgRejection::Validation(errors));
        }
        Ok(DeleteTemplates { template_ids: ids })
    }
}

impl DeleteAccountMessaging {
    /// Validates the internal account-deletion body `{account_id}`.
    pub fn from_json(body: &Json) -> (r: Result<DeleteAccountMessaging, Vec<FieldError>>)
        ensures
            match str_field(body@, "account_id"@, StrMode::Lenient) {
                Ok(a) => r matches Ok(d) && d.account_id@ == a,
                Err(e) => r matches Err(errs) && errs_view(errs@) == seq![fe(body_field("account_id"@), e.0, e.1)],
            },
    {
        let mut errors: Vec<FieldError> = Vec::new();
        let prefix = crate::json::body_loc();
        let account_id = take_str(body, "account_id", &prefix, StrMode::Lenient, &mut errors);
        assert(locs_view(prefix@).push(LocV::Key("account_id"@)) =~= body_field("account_id"@));
        match account_id {
            Some(account_id) => Ok(DeleteAccountMessaging { account_id }),
            None => {
                assert(errs_view(errors@) =~= seq![fe(body_field("account_id"@), str_field(body@, "account_id"@, StrMode::Lenient)->Err_0.0, str_field(body@, "account_id"@, StrMode::Lenient)->Err_0.1)]);
                Err(errors)
            },
        }
    }
}

} // verus!
