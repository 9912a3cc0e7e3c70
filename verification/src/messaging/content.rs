//! The parent validators of a `GenerateContent` request: how much data a
//! message may carry, the `item_rec` placeholders and the reward cards.

use vstd::prelude::*;
use crate::json::{Json, JsonV};
use crate::messaging::generate::{
    body_messages, generate_errors, message_value, read_messages, GenerateContent,
    data_object_view, messages_error, opt_str_view, GenerateContentChild, MessageV, MsgRejection,
};
use crate::fields::strings_view;
use crate::events::services::{distinct_upto, push_distinct};
use crate::json::{errs_view, field_error, push_error, body_field_loc, FieldError};
use crate::messaging::models::{is_profile_id, is_profile_id_text, py_repr, py_repr_text};
use crate::text::{
    chars_of, concat2, concat3, contains_seq, count_char, count_of, copy_str, nat_decimal,
    parse_i64, parse_int, split_on, split_seq, str_eq, string_of, trim, trim_chars,
    usize_to_string, i64_to_string, int_decimal,
};

verus! {

/// `loc: messages : {midx}`.
pub open spec fn loc_message(midx: int) -> Seq<char> {
    "loc: messages : "@ + nat_decimal(midx as nat)
}

/// `loc: messages : {midx} -> data: {didx}`.
pub open spec fn loc_data(midx: int, didx: int) -> Seq<char> {
    loc_message(midx) + " -> data: "@ + nat_decimal(didx as nat)
}

fn loc_message_text(midx: usize) -> (r: String)
    ensures
        r@ == loc_message(midx as int),
{
    concat2("loc: messages : ", usize_to_string(midx).as_str())
}

fn loc_data_text(midx: usize, didx: usize) -> (r: String)
    ensures
        r@ == loc_data(midx as int, didx as int),
{
    concat3(loc_message_text(midx).as_str(), " -> data: ", usize_to_string(didx).as_str())
}

// ---------------------------------------------------------------------------
// Message data limits
// ---------------------------------------------------------------------------

/// The first message (from `i` on) with more than `max_data` data objects.
pub open spec fn first_over_limit(ms: Seq<MessageV>, max_data: int, i: int) -> Option<int>
    decreases ms.len() - i,
{
    if i < 0 || i >= ms.len() {
        None
    } else if ms[i].data.len() > max_data {
        Some(i)
    } else {
        first_over_limit(ms, max_data, i + 1)
    }
}

/// Two messages name the same template.
pub open spec fn duplicate_templates(ms: Seq<MessageV>) -> bool {
    exists|i: int, j: int| 0 <= i < j < ms.len() && ms[i].template_id == ms[j].template_id
}

/// The refusal, if any, of the data limits: the first message with more
/// than `max_data` data objects, else a template named twice.
pub open spec fn message_content_error(ms: Seq<MessageV>, max_data: int) -> Option<Seq<char>> {
    match first_over_limit(ms, max_data, 0) {
        Some(i) => Some(
            loc_message(i) + ". A maximum number of "@ + int_decimal(max_data)
                + " data objects allowed per message."@,
        ),
        None => if duplicate_templates(ms) {
            Some("loc: messages : Duplicate template identifiers found in messages."@)
        } else {
            None
        },
    }
}

pub open spec fn messages_view(ms: Seq<GenerateContentChild>) -> Seq<MessageV> {
    ms.map_values(|m: GenerateContentChild| m@)
}

/// The data limits of the messages: at most `max_data` data objects each,
/// no template twice.
pub fn validate_message_content(messages: &Vec<GenerateContentChild>, max_data: i64) -> (r: Result<(), String>)
    ensures
        match r {
            Ok(()) => message_content_error(messages_view(messages@), max_data as int) is None,
            Err(m) => message_content_error(messages_view(messages@), max_data as int) == Some(m@),
        },
{
    let ghost ms = messages_view(messages@);
    let mut i: usize = 0;
    while i < messages.len()
        invariant
            i <= messages@.len(),
            ms == messages_view(messages@),
            first_over_limit(ms, max_data as int, 0) == first_over_limit(ms, max_data as int, i as int),
        decreases messages@.len() - i,
    {
        assert(ms[i as int] == messages@[i as int]@);
        if messages[i].data.len() as i128 > max_data as i128 {
            let a = concat3(loc_message_text(i).as_str(), ". A maximum number of ", i64_to_string(max_data).as_str());
            return Err(concat2(a.as_str(), " data objects allowed per message."));
        }
        i = i + 1;
    }
    let mut a: usize = 0;
    while a < messages.len()
        invariant
            a <= messages@.len(),
            ms == messages_view(messages@),
            first_over_limit(ms, max_data as int, 0) is None,
            forall|x: int, y: int| 0 <= x < a && x < y < ms.len() ==> ms[x].template_id != ms[y].template_id,
        decreases messages@.len() - a,
    {
        let mut b: usize = a + 1;
        while b < messages.len()
            invariant
                a < b <= messages@.len(),
                ms == messages_view(messages@),
                first_over_limit(ms, max_data as int, 0) is None,
                forall|x: int, y: int| 0 <= x < a && x < y < ms.len() ==> ms[x].template_id != ms[y].template_id,
                forall|y: int| a < y < b ==> ms[a as int].template_id != ms[y].template_id,
            decreases messages@.len() - b,
        {
            assert(ms[a as int] == messages@[a as int]@);
            assert(ms[b as int] == messages@[b as int]@);
            if str_eq(messages[a].template_id.as_str(), messages[b].template_id.as_str()) {
                assert(duplicate_templates(ms));
                return Err(copy_str("loc: messages : Duplicate template identifiers found in messages."));
            }
            b = b + 1;
        }
        a = a + 1;
    }
    Ok(())
}

// ---------------------------------------------------------------------------
// `item_rec` placeholders
// ---------------------------------------------------------------------------

/// What one data member contributes to a check: nothing, an identifier
/// (profile or customer), a refusal (the message's tail) or an internal
/// error.
pub enum EntryOutcome {
    Skip,
    Id(Seq<char>),
    Refuse(Seq<char>),
    Internal(Seq<char>),
}

/// `name` is a string of the configured item attributes.
pub open spec fn attribute_listed(attrs: JsonV, name: Seq<char>) -> bool {
    attrs matches JsonV::Arr(a) && exists|i: int| 0 <= i < a.len() && a[i] == JsonV::Str(name)
}

pub open spec fn key_shape_msg(k: Seq<char>) -> Seq<char> {
    " -> key: '"@ + k
        + "'. item_rec keys must contain only one '.' character seperating the keyword 'item_rec' and the specified item attribute."@
}

/// The refusal of an `item_rec.<attribute>` key, if any: exactly one `.`,
/// `item_rec` before it, a configured item attribute after it.
pub open spec fn key_structure_error(k: Seq<char>, attrs: JsonV) -> Option<Seq<char>> {
    let ps = split_seq(k, seq!['.']);
    if count_char(k, '.') != 1 || ps.len() < 2 || ps[0] != "item_rec"@ {
        Some(key_shape_msg(k))
    } else if !attribute_listed(attrs, ps[1]) {
        Some(
            " -> key: '"@ + k + "'. Illegal item attribute provided: '"@ + ps[1]
                + "'. Allowed item attributes : "@ + py_repr_text(attrs),
        )
    } else {
        None
    }
}

fn attribute_is_listed(attrs: &Json, name: &[char]) -> (r: bool)
    ensures
        r == attribute_listed(attrs@, name@),
{
    match attrs.as_array() {
        None => false,
        Some(a) => {
            proof {
                crate::json::lemma_view_seq(a@);
            }
            let ghost av = crate::json::view_seq(a@);
            let mut i: usize = 0;
            while i < a.len()
                invariant
                    i <= a@.len(),
                    av == crate::json::view_seq(a@),
                    attrs@ == JsonV::Arr(av),
                    av.len() == a@.len(),
                    forall|j: int| 0 <= j < a@.len() ==> #[trigger] av[j] == a@[j]@,
                    forall|j: int| 0 <= j < i ==> av[j] != JsonV::Str(name@),
                decreases a@.len() - i,
            {
                assert(av[i as int] == a@[i as int]@);
                match a[i].as_str() {
                    Some(s) => {
                        let sc = chars_of(s);
                        if crate::text::seq_eq(&sc, name) {
                            assert(av[i as int] == JsonV::Str(name@));
                            return true;
                        }
                    },
                    None => {},
                }
                i = i + 1;
            }
            false
        },
    }
}

fn key_structure_check(k: &str, attrs: &Json) -> (r: Option<String>)
    ensures
        match r {
            Some(m) => key_structure_error(k@, attrs@) == Some(m@),
            None => key_structure_error(k@, attrs@) is None,
        },
{
    let kc = chars_of(k);
    let ps = split_on(&kc, &['.']);
    assert(['.']@ =~= seq!['.']);
    let ghost views = ps@.map_values(|p: Vec<char>| p@);
    let bad = count_of(&kc, '.') != 1 || ps.len() < 2 || !crate::text::seq_eq(&ps[0], &['i', 't', 'e', 'm', '_', 'r', 'e', 'c']);
    proof {
        reveal_strlit("item_rec");
        assert(['i', 't', 'e', 'm', '_', 'r', 'e', 'c']@ =~= "item_rec"@);
        if ps@.len() >= 2 {
            assert(views[0] == ps@[0]@);
        }
    }
    if bad {
        return Some(concat3(" -> key: '", k, "'. item_rec keys must contain only one '.' character seperating the keyword 'item_rec' and the specified item attribute."));
    }
    assert(views[1] == ps@[1]@);
    if !attribute_is_listed(attrs, &ps[1]) {
        let a = concat3(" -> key: '", k, "'. Illegal item attribute provided: '");
        let b = concat3(a.as_str(), string_of(&ps[1]).as_str(), "'. Allowed item attributes : ");
        return Some(concat2(b.as_str(), py_repr(attrs).as_str()));
    }
    None
}

/// The refusal, if any, of an `item_price` value
/// `profile_id::currency_from::currency_to::discount`: four parts, a
/// profile identifier, two accepted currency codes, a discount from 0 to 90.
pub open spec fn price_param_error(value: Seq<char>, cur: JsonV) -> Option<Seq<char>> {
    let ps = split_seq(value, "::"@);
    if ps.len() != 4 {
        Some(
            " . Invalid value provided for item_price parameter. item_price parameters must contain four values separated by three sets of '::'. Expected : profile_id::currency_from::curency_to::discount. Value provided : "@
                + value,
        )
    } else if !is_profile_id_text(ps[0]) {
        Some(
            ". Invalid value provided for item_price 'profile_id' parameter. Must be a valid Octy profile identifier. Value provided : "@
                + ps[0],
        )
    } else if cur.get(ps[1]) is None {
        Some(
            ". Invalid value provided for the item_price 'currency_from' parameter. Must be a valid accpeted currency code : "@
                + py_repr_text(cur) + ". Value provided : "@ + ps[1],
        )
    } else if cur.get(ps[2]) is None {
        Some(
            ". Invalid value provided for the item_price 'currency_to' parameter. Must be a valid accpeted currency code : "@
                + py_repr_text(cur) + ". Value provided : "@ + ps[2],
        )
    } else if !(parse_int(trim(ps[3])) matches Some(n) && 0 <= n <= 90) {
        Some(
            ". Invalid value provided for item_price 'discount' parameter. Must be a number greater than or equal to (if no discount is to be applied) 0. Value provided : "@
                + ps[3],
        )
    } else {
        None
    }
}

fn price_param_check(value: &str, cur: &Json) -> (r: Option<String>)
    ensures
        match r {
            Some(m) => price_param_error(value@, cur@) == Some(m@),
            None => price_param_error(value@, cur@) is None,
        },
{
    let vc = chars_of(value);
    let ps = split_on(&vc, &[':', ':']);
    proof {
        reveal_strlit("::");
    }
    assert([':', ':']@ =~= "::"@);
    let ghost views = ps@.map_values(|p: Vec<char>| p@);
    if ps.len() != 4 {
        return Some(concat2(" . Invalid value provided for item_price parameter. item_price parameters must contain four values separated by three sets of '::'. Expected : profile_id::currency_from::curency_to::discount. Value provided : ", value));
    }
    assert(views[0] == ps@[0]@);
    assert(views[1] == ps@[1]@);
    assert(views[2] == ps@[2]@);
    assert(views[3] == ps@[3]@);
    let p0 = string_of(&ps[0]);
    if !is_profile_id(p0.as_str()) {
        return Some(concat2(". Invalid value provided for item_price 'profile_id' parameter. Must be a valid Octy profile identifier. Value provided : ", p0.as_str()));
    }
    let p1 = string_of(&ps[1]);
    if cur.get(p1.as_str()).is_none() {
        let a = concat2(". Invalid value provided for the item_price 'currency_from' parameter. Must be a valid accpeted currency code : ", py_repr(cur).as_str());
        return Some(concat3(a.as_str(), ". Value provided : ", p1.as_str()));
    }
    let p2 = string_of(&ps[2]);
    if cur.get(p2.as_str()).is_none() {
        let a = concat2(". Invalid value provided for the item_price 'currency_to' parameter. Must be a valid accpeted currency code : ", py_repr(cur).as_str());
        return Some(concat3(a.as_str(), ". Value provided : ", p2.as_str()));
    }
    let ok = match parse_i64(&trim_chars(&ps[3])) {
        Some(n) => 0 <= n && n <= 90,
        None => false,
    };
    if !ok {
        return Some(concat2(". Invalid value provided for item_price 'discount' parameter. Must be a number greater than or equal to (if no discount is to be applied) 0. Value provided : ", string_of(&ps[3]).as_str()));
    }
    None
}

/// What one data member `(k, v)` contributes to the `item_rec` check: keys
/// without a `.` are not `item_rec` keys; the others must be well formed,
/// and their value must start with a profile identifier (for `item_price`
/// keys, a whole well-formed price parameter).
pub open spec fn rec_entry(k: Seq<char>, v: Option<Seq<char>>, attrs: JsonV, cur: JsonV) -> EntryOutcome {
    let is_price = contains_seq(k, "item_price"@);
    if !k.contains('.') {
        EntryOutcome::Skip
    } else {
        match key_structure_error(k, attrs) {
            Some(e) => EntryOutcome::Refuse(e),
            None => match v {
                None => if is_price {
                    EntryOutcome::Refuse(
                        " -> key: '"@ + k
                            + "'. item_rec.item_price key values must contain '::' seperated values using the following sytax: profile_id::currency_from::currency_to::discount"@,
                    )
                } else {
                    EntryOutcome::Internal("TypeError: expected string or bytes-like object"@)
                },
                Some(s) => {
                    let pv = if is_price {
                        split_seq(s, "::"@)[0]
                    } else {
                        s
                    };
                    if !is_profile_id_text(pv) {
                        EntryOutcome::Refuse(
                            " -> key: '"@ + k
                                + "'. item_rec key values must contain a valid Octy generated profile identifier as their first value."@,
                        )
                    } else if is_price && price_param_error(s, cur) is Some {
                        EntryOutcome::Refuse(price_param_error(s, cur)->0)
                    } else {
                        EntryOutcome::Id(pv)
                    }
                },
            },
        }
    }
}

/// The exec form of an entry outcome.
pub enum EntryResult {
    Skip,
    Id(String),
    Refuse(String),
    Internal(String),
}

pub open spec fn entry_view(r: EntryResult) -> EntryOutcome {
    match r {
        EntryResult::Skip => EntryOutcome::Skip,
        EntryResult::Id(s) => EntryOutcome::Id(s@),
        EntryResult::Refuse(s) => EntryOutcome::Refuse(s@),
        EntryResult::Internal(s) => EntryOutcome::Internal(s@),
    }
}

fn rec_entry_check(k: &str, v: &Option<String>, attrs: &Json, cur: &Json) -> (r: EntryResult)
    ensures
        entry_view(r) == rec_entry(k@, crate::messaging::generate::opt_str_view(*v), attrs@, cur@),
{
    let kc = chars_of(k);
    if !crate::text::has_char(&kc, '.') {
        return EntryResult::Skip;
    }
    match key_structure_check(k, attrs) {
        Some(e) => return EntryResult::Refuse(e),
        None => {},
    }
    let is_price = crate::text::str_contains(k, "item_price");
    match v {
        None => {
            if is_price {
                EntryResult::Refuse(concat3(" -> key: '", k, "'. item_rec.item_price key values must contain '::' seperated values using the following sytax: profile_id::currency_from::currency_to::discount"))
            } else {
                EntryResult::Internal(copy_str("TypeError: expected string or bytes-like object"))
            }
        },
        Some(s) => {
            let pv = if is_price {
                let sc = chars_of(s.as_str());
                let parts = split_on(&sc, &[':', ':']);
                proof {
                    reveal_strlit("::");
                }
                assert([':', ':']@ =~= "::"@);
                assert(parts@.map_values(|p: Vec<char>| p@)[0] == parts@[0]@);
                string_of(&parts[0])
            } else {
                copy_str(s.as_str())
            };
            if !is_profile_id(pv.as_str()) {
                return EntryResult::Refuse(concat3(" -> key: '", k, "'. item_rec key values must contain a valid Octy generated profile identifier as their first value."));
            }
            if is_price {
                match price_param_check(s.as_str(), cur) {
                    Some(e) => return EntryResult::Refuse(e),
                    None => {},
                }
            }
            EntryResult::Id(pv)
        },
    }
}

// ---------------------------------------------------------------------------
// Reward cards
// ---------------------------------------------------------------------------

pub open spec fn card_empty_msg(field: Seq<char>, p: Seq<char>) -> Seq<char> {
    ". Invalid value provided for rybbon_reward_card '"@ + field
        + "' parameter. Must not be a null value. Value provided : "@ + p
}

/// What one data member contributes to the reward-card check: only the
/// `rybbon_reward_card` key counts; its value must be three non-empty
/// `::`-separated parts, the first the customer identifier.
pub open spec fn card_entry(k: Seq<char>, v: Option<Seq<char>>) -> EntryOutcome {
    if k != "rybbon_reward_card"@ {
        EntryOutcome::Skip
    } else {
        match v {
            None => EntryOutcome::Internal("AttributeError: 'NoneType' object has no attribute 'split'"@),
            Some(s) => {
                let ps = split_seq(s, "::"@);
                if ps.len() != 3 {
                    EntryOutcome::Refuse(
                        " . Invalid value provided for rybbon_reward_card parameter. 'rybbon_reward_card' parameters must contain four values seperated by three sets of '::'. Expected : customer_id::rybbon_campaign_key::value. Value provided : "@
                            + s,
                    )
                } else if ps[0].len() == 0 {
                    EntryOutcome::Refuse(card_empty_msg("customer_id"@, ps[0]))
                } else if ps[1].len() == 0 {
                    EntryOutcome::Refuse(card_empty_msg("rybbon_campaign_key"@, ps[1]))
                } else if ps[2].len() == 0 {
                    EntryOutcome::Refuse(card_empty_msg("reward_name"@, ps[2]))
                } else {
                    EntryOutcome::Id(ps[0])
                }
            },
        }
    }
}

fn card_entry_check(k: &str, v: &Option<String>) -> (r: EntryResult)
    ensures
        entry_view(r) == card_entry(k@, crate::messaging::generate::opt_str_view(*v)),
{
    if !str_eq(k, "rybbon_reward_card") {
        return EntryResult::Skip;
    }
    let s = match v {
        None => return EntryResult::Internal(copy_str("AttributeError: 'NoneType' object has no attribute 'split'")),
        Some(s) => s,
    };
    let sc = chars_of(s.as_str());
    let ps = split_on(&sc, &[':', ':']);
    proof {
        reveal_strlit("::");
    }
    assert([':', ':']@ =~= "::"@);
    let ghost views = ps@.map_values(|p: Vec<char>| p@);
    if ps.len() != 3 {
        return EntryResult::Refuse(concat2(" . Invalid value provided for rybbon_reward_card parameter. 'rybbon_reward_card' parameters must contain four values seperated by three sets of '::'. Expected : customer_id::rybbon_campaign_key::value. Value provided : ", s.as_str()));
    }
    assert(views[0] == ps@[0]@);
    assert(views[1] == ps@[1]@);
    assert(views[2] == ps@[2]@);
    if ps[0].len() == 0 {
        return EntryResult::Refuse(concat3(". Invalid value provided for rybbon_reward_card '", "customer_id", "' parameter. Must not be a null value. Value provided : "));
    }
    if ps[1].len() == 0 {
        return EntryResult::Refuse(concat3(". Invalid value provided for rybbon_reward_card '", "rybbon_campaign_key", "' parameter. Must not be a null value. Value provided : "));
    }
    if ps[2].len() == 0 {
        return EntryResult::Refuse(concat3(". Invalid value provided for rybbon_reward_card '", "reward_name", "' parameter. Must not be a null value. Value provided : "));
    }
    EntryResult::Id(string_of(&ps[0]))
}

// ---------------------------------------------------------------------------
// Scans over data objects and messages
// ---------------------------------------------------------------------------

pub type DataV = Seq<(Seq<char>, Option<Seq<char>>)>;

/// The entry check of the reward-card validator (`card`) or of the
/// `item_rec` one.
pub open spec fn entry_of(card: bool, e: (Seq<char>, Option<Seq<char>>), attrs: JsonV, cur: JsonV) -> EntryOutcome {
    if card {
        card_entry(e.0, e.1)
    } else {
        rec_entry(e.0, e.1, attrs, cur)
    }
}

/// The identifiers of the first `n` members of a data object, in order;
/// the first refusal (`(false, tail)`) or internal error (`(true, m)`)
/// stops the scan.
pub open spec fn data_scan(d: DataV, n: int, card: bool, attrs: JsonV, cur: JsonV) -> Result<Seq<Seq<char>>, (bool, Seq<char>)>
    decreases n,
{
    if n <= 0 {
        Ok(seq![])
    } else {
        match data_scan(d, n - 1, card, attrs, cur) {
            Err(e) => Err(e),
            Ok(ids) => match entry_of(card, d[n - 1], attrs, cur) {
                EntryOutcome::Skip => Ok(ids),
                EntryOutcome::Id(x) => Ok(ids.push(x)),
                EntryOutcome::Refuse(t) => Err((false, t)),
                EntryOutcome::Internal(m) => Err((true, m)),
            },
        }
    }
}

/// A member key the validator looks at.
pub open spec fn marks(card: bool, k: Seq<char>) -> bool {
    if card {
        k == "rybbon_reward_card"@
    } else {
        k.contains('.')
    }
}

/// A data object has a key the validator looks at.
pub open spec fn data_marked(d: DataV, card: bool) -> bool {
    exists|i: int| 0 <= i < d.len() && #[trigger] marks(card, d[i].0)
}

/// All identifiers are the same.
pub open spec fn all_same(ps: Seq<Seq<char>>) -> bool {
    forall|i: int, j: int| 0 <= i < ps.len() && 0 <= j < ps.len() ==> ps[i] == ps[j]
}

/// `acc` with the first `n` of `ps` appended, each unless present.
pub open spec fn add_each(acc: Seq<Seq<char>>, ps: Seq<Seq<char>>, n: int) -> Seq<Seq<char>>
    decreases n,
{
    if n <= 0 {
        acc
    } else {
        let a = add_each(acc, ps, n - 1);
        if a.contains(ps[n - 1]) {
            a
        } else {
            a.push(ps[n - 1])
        }
    }
}

/// A refusal's message at data object `didx` of message `midx`.
pub open spec fn at_data(e: (bool, Seq<char>), midx: int, didx: int) -> (bool, Seq<char>) {
    if e.0 {
        e
    } else {
        (false, loc_data(midx, didx) + e.1)
    }
}

/// The `item_rec` scan of the first `n` data objects of message `midx`:
/// whether an `item_rec` key was seen, and the distinct profile
/// identifiers; each data object must name one profile only.
pub open spec fn rec_data_objects(data: Seq<DataV>, n: int, midx: int, attrs: JsonV, cur: JsonV) -> Result<
    (bool, Seq<Seq<char>>),
    (bool, Seq<char>),
>
    decreases n,
{
    if n <= 0 {
        Ok((false, seq![]))
    } else {
        match rec_data_objects(data, n - 1, midx, attrs, cur) {
            Err(e) => Err(e),
            Ok((rec, mp)) => match data_scan(data[n - 1], data[n - 1].len() as int, false, attrs, cur) {
                Err(e) => Err(at_data(e, midx, n - 1)),
                Ok(ps) => {
                    let rec2 = rec || data_marked(data[n - 1], false);
                    if rec2 && !all_same(ps) {
                        Err(
                            (
                                false,
                                loc_data(midx, n - 1)
                                    + ". All profile identifiers provided within any single data object must match"@,
                            ),
                        )
                    } else {
                        Ok((rec2, add_each(mp, ps, ps.len() as int)))
                    }
                },
            },
        }
    }
}

/// The `item_rec` refusal of message `midx`, if any: its data objects'
/// checks, then one distinct profile per data object.
pub open spec fn rec_message_error(m: MessageV, midx: int, attrs: JsonV, cur: JsonV) -> Option<(bool, Seq<char>)> {
    match rec_data_objects(m.data, m.data.len() as int, midx, attrs, cur) {
        Err(e) => Some(e),
        Ok((rec, mp)) => if rec && mp.len() != m.data.len() {
            Some(
                (
                    false,
                    loc_message(midx)
                        + " . Identical profile identifiers found across more than one data object. Each data object within any message object should represent one profile or person."@,
                ),
            )
        } else {
            None
        },
    }
}

/// The first `item_rec` refusal among the first `n` messages.
pub open spec fn rec_messages_error(ms: Seq<MessageV>, n: int, attrs: JsonV, cur: JsonV) -> Option<(bool, Seq<char>)>
    decreases n,
{
    if n <= 0 {
        None
    } else {
        match rec_messages_error(ms, n - 1, attrs, cur) {
            Some(e) => Some(e),
            None => rec_message_error(ms[n - 1], n - 1, attrs, cur),
        }
    }
}

/// The customer identifiers of the first `n` data objects of message
/// `midx`, in order.
pub open spec fn card_data_objects(data: Seq<DataV>, n: int, midx: int) -> Result<Seq<Seq<char>>, (bool, Seq<char>)>
    decreases n,
{
    if n <= 0 {
        Ok(seq![])
    } else {
        match card_data_objects(data, n - 1, midx) {
            Err(e) => Err(e),
            Ok(ids) => match data_scan(data[n - 1], data[n - 1].len() as int, true, JsonV::Null, JsonV::Null) {
                Err(e) => Err(at_data(e, midx, n - 1)),
                Ok(ps) => Ok(ids + ps),
            },
        }
    }
}

/// Some data object of the message has a reward card.
pub open spec fn message_has_card(data: Seq<DataV>) -> bool {
    exists|j: int| 0 <= j < data.len() && #[trigger] data_marked(data[j], true)
}

/// The reward-card scan of the first `n` messages: whether a reward card
/// was seen so far (in this or an earlier message); once one was, every
/// message needs as many distinct customers as data objects.
pub open spec fn card_messages(ms: Seq<MessageV>, n: int) -> Result<bool, (bool, Seq<char>)>
    decreases n,
{
    if n <= 0 {
        Ok(false)
    } else {
        match card_messages(ms, n - 1) {
            Err(e) => Err(e),
            Ok(flag) => match card_data_objects(ms[n - 1].data, ms[n - 1].data.len() as int, n - 1) {
                Err(e) => Err(e),
                Ok(ids) => {
                    let flag2 = flag || message_has_card(ms[n - 1].data);
                    if flag2 && crate::events::services::distinct_upto(ids, ids.len() as int).len() != ms[n - 1].data.len() {
                        Err(
                            (
                                false,
                                loc_message(n - 1)
                                    + " . Identical customer identifiers found across more than one data object. Each data object within any message object should represent one customer or person."@,
                            ),
                        )
                    } else {
                        Ok(flag2)
                    }
                },
            },
        }
    }
}

/// Scans the members of a data object: the identifiers in order, and
/// whether a key the validator looks at occurs.
fn scan_data_object(d: &Vec<(String, Option<String>)>, card: bool, attrs: &Json, cur: &Json) -> (r: Result<
    (Vec<String>, bool),
    (bool, String),
>)
    ensures
        match r {
            Ok((ids, marked)) => data_scan(data_object_view(d@), d@.len() as int, card, attrs@, cur@) == Ok::<
                Seq<Seq<char>>,
                (bool, Seq<char>),
            >(strings_view(ids@)) && marked == data_marked(data_object_view(d@), card),
            Err((b, m)) => data_scan(data_object_view(d@), d@.len() as int, card, attrs@, cur@) == Err::<
                Seq<Seq<char>>,
                (bool, Seq<char>),
            >((b, m@)),
        },
{
    let ghost dv = data_object_view(d@);
    let mut ids: Vec<String> = Vec::new();
    let mut marked = false;
    let mut i: usize = 0;
    assert(strings_view(ids@) =~= Seq::<Seq<char>>::empty());
    while i < d.len()
        invariant
            i <= d@.len(),
            dv == data_object_view(d@),
            dv.len() == d@.len(),
            data_scan(dv, i as int, card, attrs@, cur@) == Ok::<Seq<Seq<char>>, (bool, Seq<char>)>(strings_view(ids@)),
            marked == exists|j: int| 0 <= j < i && #[trigger] marks(card, dv[j].0),
        decreases d@.len() - i,
    {
        let e = &d[i];
        assert(dv[i as int] == (e.0@, opt_str_view(e.1)));
        let outcome = if card {
            card_entry_check(e.0.as_str(), &e.1)
        } else {
            rec_entry_check(e.0.as_str(), &e.1, attrs, cur)
        };
        let m = if card {
            str_eq(e.0.as_str(), "rybbon_reward_card")
        } else {
            crate::text::has_char(&chars_of(e.0.as_str()), '.')
        };
        assert(m == marks(card, dv[i as int].0));
        if m {
            marked = true;
        }
        match outcome {
            EntryResult::Skip => {},
            EntryResult::Id(x) => {
                let ghost before = ids@;
                ids.push(x);
                assert(strings_view(ids@) =~= strings_view(before).push(x@));
            },
            EntryResult::Refuse(t) => {
                proof {
                    lemma_data_scan_err(dv, i as int + 1, card, attrs@, cur@);
                }
                return Err((false, t));
            },
            EntryResult::Internal(t) => {
                proof {
                    lemma_data_scan_err(dv, i as int + 1, card, attrs@, cur@);
                }
                return Err((true, t));
            },
        }
        i = i + 1;
    }
    Ok((ids, marked))
}

/// Whether all identifiers are the same.
fn all_same_ids(ps: &Vec<String>) -> (r: bool)
    ensures
        r == all_same(strings_view(ps@)),
{
    let ghost pv = strings_view(ps@);
    if ps.len() == 0 {
        return true;
    }
    let mut i: usize = 1;
    while i < ps.len()
        invariant
            1 <= i <= ps@.len(),
            pv == strings_view(ps@),
            pv.len() == ps@.len(),
            forall|j: int| 0 <= j < i ==> #[trigger] pv[j] == pv[0],
        decreases ps@.len() - i,
    {
        assert(pv[i as int] == ps@[i as int]@);
        assert(pv[0] == ps@[0]@);
        if !str_eq(ps[i].as_str(), ps[0].as_str()) {
            return false;
        }
        i = i + 1;
    }
    true
}

/// The `item_rec` placeholders of the messages: well-formed keys naming a
/// configured item attribute, values starting with a profile identifier,
/// well-formed `item_price` parameters (accepted currencies, a discount
/// from 0 to 90), one profile per data object and per message none twice.
pub fn validate_item_rec_message_content(
    messages: &Vec<GenerateContentChild>,
    item_attributes: &Json,
    allowed_currencies: &Json,
) -> (r: Result<(), MsgRejection>)
    ensures
        match rec_messages_error(messages_view(messages@), messages@.len() as int, item_attributes@, allowed_currencies@) {
            None => r is Ok,
            Some((true, m)) => r matches Err(MsgRejection::Internal(x)) && x@ == m,
            Some((false, t)) => r matches Err(MsgRejection::Validation(e)) && errs_view(e@) == messages_error(t),
        },
{
    let ghost ms = messages_view(messages@);
    let ghost attrs = item_attributes@;
    let ghost cur = allowed_currencies@;
    let mut midx: usize = 0;
    while midx < messages.len()
        invariant
            midx <= messages@.len(),
            ms == messages_view(messages@),
            rec_messages_error(ms, midx as int, attrs, cur) is None,
            attrs == item_attributes@,
            cur == allowed_currencies@,
        decreases messages@.len() - midx,
    {
        let message = &messages[midx];
        assert(ms[midx as int] == message@);
        let ghost data = message@.data;
        let mut rec = false;
        let mut mp: Vec<String> = Vec::new();
        let mut didx: usize = 0;
        assert(strings_view(mp@) =~= Seq::<Seq<char>>::empty());
        while didx < message.data.len()
            invariant
                didx <= message.data@.len(),
                data == message@.data,
                data.len() == message.data@.len(),
                forall|j: int| 0 <= j < message.data@.len() ==> #[trigger] data[j] == data_object_view(message.data@[j]@),
                rec_data_objects(data, didx as int, midx as int, attrs, cur) == Ok::<(bool, Seq<Seq<char>>), (bool, Seq<char>)>(
                    (rec, strings_view(mp@)),
                ),
                rec_messages_error(ms, midx as int, attrs, cur) is None,
                ms == messages_view(messages@),
                midx < messages@.len(),
                ms[midx as int] == message@,
                attrs == item_attributes@,
                cur == allowed_currencies@,
            decreases message.data@.len() - didx,
        {
            assert(data[didx as int] == data_object_view(message.data@[didx as int]@));
            let (ps, marked) = match scan_data_object(&message.data[didx], false, item_attributes, allowed_currencies) {
                Ok(x) => x,
                Err((internal, t)) => {
                    proof {
                        lemma_rec_objects_err(data, didx as int + 1, midx as int, attrs, cur);
                        lemma_rec_messages_err(ms, midx as int + 1, attrs, cur);
                    }
                    if internal {
                        return Err(MsgRejection::Internal(t));
                    } else {
                        let msg = concat2(loc_data_text(midx, didx).as_str(), t.as_str());
                        let mut errors: Vec<FieldError> = Vec::new();
                        push_error(&mut errors, field_error(body_field_loc("messages"), msg.as_str(), "value_error"));
                        assert(errs_view(errors@) =~= messages_error(msg@));
                        return Err(MsgRejection::Validation(errors));
                    }
                },
            };
            rec = rec || marked;
            if rec && !all_same_ids(&ps) {
                proof {
                    lemma_rec_objects_err(data, didx as int + 1, midx as int, attrs, cur);
                    lemma_rec_messages_err(ms, midx as int + 1, attrs, cur);
                }
                let msg = concat2(loc_data_text(midx, didx).as_str(), ". All profile identifiers provided within any single data object must match");
                let mut errors: Vec<FieldError> = Vec::new();
                push_error(&mut errors, field_error(body_field_loc("messages"), msg.as_str(), "value_error"));
                assert(errs_view(errors@) =~= messages_error(msg@));
                return Err(MsgRejection::Validation(errors));
            }
            let ghost start = strings_view(mp@);
            let mut k: usize = 0;
            while k < ps.len()
                invariant
                    k <= ps@.len(),
                    strings_view(mp@) == add_each(start, strings_view(ps@), k as int),
                decreases ps@.len() - k,
            {
                push_distinct(&mut mp, ps[k].as_str());
                assert(strings_view(ps@)[k as int] == ps@[k as int]@);
                k = k + 1;
            }
            assert(strings_view(ps@).len() == ps@.len());
            didx = didx + 1;
        }
        if rec && mp.len() != message.data.len() {
            proof {
                lemma_rec_messages_err(ms, midx as int + 1, attrs, cur);
            }
            let msg = concat2(loc_message_text(midx).as_str(), " . Identical profile identifiers found across more than one data object. Each data object within any message object should represent one profile or person.");
            let mut errors: Vec<FieldError> = Vec::new();
            push_error(&mut errors, field_error(body_field_loc("messages"), msg.as_str(), "value_error"));
            assert(errs_view(errors@) =~= messages_error(msg@));
            return Err(MsgRejection::Validation(errors));
        }
        midx = midx + 1;
    }
    Ok(())
}

/// An error among the first `n` members stays the data object's.
proof fn lemma_data_scan_err(d: DataV, n: int, card: bool, attrs: JsonV, cur: JsonV)
    requires
        0 < n <= d.len(),
        data_scan(d, n, card, attrs, cur) is Err,
    ensures
        data_scan(d, d.len() as int, card, attrs, cur) == data_scan(d, n, card, attrs, cur),
    decreases d.len() - n,
{
    if n < d.len() {
        lemma_data_scan_err(d, n + 1, card, attrs, cur);
    }
}

/// An error among the first `n` data objects stays the message's.
proof fn lemma_rec_objects_err(data: Seq<DataV>, n: int, midx: int, attrs: JsonV, cur: JsonV)
    requires
        0 < n <= data.len(),
        rec_data_objects(data, n, midx, attrs, cur) is Err,
    ensures
        rec_data_objects(data, data.len() as int, midx, attrs, cur) == rec_data_objects(data, n, midx, attrs, cur),
    decreases data.len() - n,
{
    if n < data.len() {
        lemma_rec_objects_err(data, n + 1, midx, attrs, cur);
    }
}

/// A refusal among the first `n` messages stays the result.
proof fn lemma_rec_messages_err(ms: Seq<MessageV>, n: int, attrs: JsonV, cur: JsonV)
    requires
        0 < n <= ms.len(),
        rec_messages_error(ms, n, attrs, cur) is Some,
    ensures
        rec_messages_error(ms, ms.len() as int, attrs, cur) == rec_messages_error(ms, n, attrs, cur),
    decreases ms.len() - n,
{
    if n < ms.len() {
        lemma_rec_messages_err(ms, n + 1, attrs, cur);
    }
}

/// The reward cards of the messages: values `customer_id::campaign::name`
/// with no part empty; once a reward card was seen, each message needs as
/// many distinct customers as data objects.
pub fn validate_rybbon_message_content(messages: &Vec<GenerateContentChild>) -> (r: Result<(), MsgRejection>)
    ensures
        match card_messages(messages_view(messages@), messages@.len() as int) {
            Ok(_) => r is Ok,
            Err((true, m)) => r matches Err(MsgRejection::Internal(x)) && x@ == m,
            Err((false, t)) => r matches Err(MsgRejection::Validation(e)) && errs_view(e@) == messages_error(t),
        },
{
    let ghost ms = messages_view(messages@);
    let null = Json::Null;
    let mut flag = false;
    let mut midx: usize = 0;
    while midx < messages.len()
        invariant
            midx <= messages@.len(),
            ms == messages_view(messages@),
            card_messages(ms, midx as int) == Ok::<bool, (bool, Seq<char>)>(flag),
            null@ == JsonV::Null,
        decreases messages@.len() - midx,
    {
        let message = &messages[midx];
        assert(ms[midx as int] == message@);
        let ghost data = message@.data;
        let mut ids: Vec<String> = Vec::new();
        let mut has_card = false;
        let mut didx: usize = 0;
        assert(strings_view(ids@) =~= Seq::<Seq<char>>::empty());
        while didx < message.data.len()
            invariant
                didx <= message.data@.len(),
                data == message@.data,
                data.len() == message.data@.len(),
                forall|j: int| 0 <= j < message.data@.len() ==> #[trigger] data[j] == data_object_view(message.data@[j]@),
                card_data_objects(data, didx as int, midx as int) == Ok::<Seq<Seq<char>>, (bool, Seq<char>)>(strings_view(ids@)),
                has_card == exists|j: int| 0 <= j < didx && #[trigger] data_marked(data[j], true),
                card_messages(ms, midx as int) == Ok::<bool, (bool, Seq<char>)>(flag),
                ms == messages_view(messages@),
                midx < messages@.len(),
                ms[midx as int] == message@,
                null@ == JsonV::Null,
            decreases message.data@.len() - didx,
        {
            assert(data[didx as int] == data_object_view(message.data@[didx as int]@));
            let (ps, marked) = match scan_data_object(&message.data[didx], true, &null, &null) {
                Ok(x) => x,
                Err((internal, t)) => {
                    proof {
                        lemma_card_objects_err(data, didx as int + 1, midx as int);
                        lemma_card_messages_err(ms, midx as int + 1);
                    }
                    if internal {
                        return Err(MsgRejection::Internal(t));
                    } else {
                        let msg = concat2(loc_data_text(midx, didx).as_str(), t.as_str());
                        let mut errors: Vec<FieldError> = Vec::new();
                        push_error(&mut errors, field_error(body_field_loc("messages"), msg.as_str(), "value_error"));
                        assert(errs_view(errors@) =~= messages_error(msg@));
                        return Err(MsgRejection::Validation(errors));
                    }
                },
            };
            if marked {
                has_card = true;
            }
            let ghost before = strings_view(ids@);
            let mut k: usize = 0;
            while k < ps.len()
                invariant
                    k <= ps@.len(),
                    strings_view(ids@) == before + strings_view(ps@).take(k as int),
                decreases ps@.len() - k,
            {
                let ghost b2 = ids@;
                ids.push(copy_str(ps[k].as_str()));
                assert(strings_view(ids@) =~= strings_view(b2).push(ps@[k as int]@));
                assert(strings_view(ps@).take(k + 1) =~= strings_view(ps@).take(k as int).push(ps@[k as int]@));
                k = k + 1;
            }
            assert(strings_view(ps@).take(ps@.len() as int) =~= strings_view(ps@));
            didx = didx + 1;
        }
        flag = flag || has_card;
        let mut distinct: Vec<String> = Vec::new();
        let mut k: usize = 0;
        let ghost idv = strings_view(ids@);
        assert(strings_view(distinct@) =~= Seq::<Seq<char>>::empty());
        while k < ids.len()
            invariant
                k <= ids@.len(),
                idv == strings_view(ids@),
                strings_view(distinct@) == distinct_upto(idv, k as int),
            decreases ids@.len() - k,
        {
            push_distinct(&mut distinct, ids[k].as_str());
            assert(idv[k as int] == ids@[k as int]@);
            k = k + 1;
        }
        assert(strings_view(distinct@).len() == distinct@.len());
        if flag && distinct.len() != message.data.len() {
            proof {
                lemma_card_messages_err(ms, midx as int + 1);
            }
            let msg = concat2(loc_message_text(midx).as_str(), " . Identical customer identifiers found across more than one data object. Each data object within any message object should represent one customer or person.");
            let mut errors: Vec<FieldError> = Vec::new();
            push_error(&mut errors, field_error(body_field_loc("messages"), msg.as_str(), "value_error"));
            assert(errs_view(errors@) =~= messages_error(msg@));
            return Err(MsgRejection::Validation(errors));
        }
        midx = midx + 1;
    }
    Ok(())
}

proof fn lemma_card_objects_err(data: Seq<DataV>, n: int, midx: int)
    requires
        0 < n <= data.len(),
        card_data_objects(data, n, midx) is Err,
    ensures
        card_data_objects(data, data.len() as int, midx) == card_data_objects(data, n, midx),
    decreases data.len() - n,
{
    if n < data.len() {
        lemma_card_objects_err(data, n + 1, midx);
    }
}

proof fn lemma_card_messages_err(ms: Seq<MessageV>, n: int)
    requires
        0 < n <= ms.len(),
        card_messages(ms, n) is Err,
    ensures
        card_messages(ms, ms.len() as int) == card_messages(ms, n),
    decreases ms.len() - n,
{
    if n < ms.len() {
        lemma_card_messages_err(ms, n + 1);
    }
}

/// The configuration a `GenerateContent` request is checked against; a
/// value that could not be read is `None`.
pub struct GenerateConfig {
    pub message_gen_limit: Option<i64>,
    pub max_message_data: Option<i64>,
    pub item_attributes: Option<Json>,
    pub allowed_currencies: Option<Json>,
}

/// Why a request is refused, as its view: field errors, an internal error,
/// or a configuration key that could not be read.
pub enum RejectionV {
    Validation(Seq<crate::json::FieldErrorV>),
    Internal(Seq<char>),
    ConfigMissing(Seq<char>),
}

pub open spec fn rejection_view(r: MsgRejection) -> RejectionV {
    match r {
        MsgRejection::Validation(e) => RejectionV::Validation(errs_view(e@)),
        MsgRejection::Internal(m) => RejectionV::Internal(m@),
        MsgRejection::ConfigMissing(k) => RejectionV::ConfigMissing(k@),
    }
}

/// A refusal of a content validator, as its view.
pub open spec fn check_rejection(e: (bool, Seq<char>)) -> RejectionV {
    if e.0 {
        RejectionV::Internal(e.1)
    } else {
        RejectionV::Validation(messages_error(e.1))
    }
}

/// The refusal of a `GenerateContent` body, if any: its field errors; then
/// the number of messages against `MESSAGE_GEN_LIMIT`; then the data
/// limits, the `item_rec` placeholders and the reward cards.
pub open spec fn generate_rejection(
    body: JsonV,
    limit: Option<i64>,
    max_data: Option<i64>,
    attrs: Option<JsonV>,
    cur: Option<JsonV>,
) -> Option<RejectionV> {
    let ms = body_messages(body).map_values(|v: JsonV| message_value(v));
    if generate_errors(body).len() > 0 {
        Some(RejectionV::Validation(generate_errors(body)))
    } else if limit is None {
        Some(RejectionV::ConfigMissing("MESSAGE_GEN_LIMIT"@))
    } else if ms.len() > limit->0 {
        Some(RejectionV::Validation(messages_error("You can only generate up to 100 messagess per request."@)))
    } else if max_data is None {
        Some(RejectionV::ConfigMissing("MAX_MESSAGE_DATA"@))
    } else if message_content_error(ms, max_data->0 as int) is Some {
        Some(RejectionV::Validation(messages_error(message_content_error(ms, max_data->0 as int)->0)))
    } else if attrs is None {
        Some(RejectionV::ConfigMissing("ITEM_ATTRIBUTES"@))
    } else if cur is None {
        Some(RejectionV::ConfigMissing("ALLOWED_CURRENCIES"@))
    } else if rec_messages_error(ms, ms.len() as int, attrs->0, cur->0) is Some {
        Some(check_rejection(rec_messages_error(ms, ms.len() as int, attrs->0, cur->0)->0))
    } else if card_messages(ms, ms.len() as int) is Err {
        Some(check_rejection(card_messages(ms, ms.len() as int)->Err_0))
    } else {
        None
    }
}

pub open spec fn opt_json_view(o: Option<Json>) -> Option<JsonV> {
    match o {
        Some(j) => Some(j@),
        None => None,
    }
}

impl GenerateContent {
    /// Validates a `GenerateContent` body against the configuration.
    pub fn from_json(body: &Json, config: &GenerateConfig) -> (r: Result<GenerateContent, MsgRejection>)
        ensures
            match generate_rejection(
                body@,
                config.message_gen_limit,
                config.max_message_data,
                opt_json_view(config.item_attributes),
                opt_json_view(config.allowed_currencies),
            ) {
                Some(rej) => r matches Err(e) && rejection_view(e) == rej,
                None => r matches Ok(g) && messages_view(g.messages@) == body_messages(body@).map_values(
                    |v: JsonV| message_value(v),
                ),
            },
    {
        let messages = match read_messages(body) {
            Err(e) => return Err(MsgRejection::Validation(e)),
            Ok(m) => m,
        };
        let ghost ms = body_messages(body@).map_values(|v: JsonV| message_value(v));
        assert(messages_view(messages@) =~= ms);
        let limit = match config.message_gen_limit {
            None => return Err(MsgRejection::ConfigMissing(copy_str("MESSAGE_GEN_LIMIT"))),
            Some(l) => l,
        };
        if messages.len() as i128 > limit as i128 {
            let mut errors: Vec<FieldError> = Vec::new();
            push_error(&mut errors, field_error(body_field_loc("messages"), "You can only generate up to 100 messagess per request.", "value_error"));
            assert(errs_view(errors@) =~= messages_error("You can only generate up to 100 messagess per request."@));
            return Err(MsgRejection::Validation(errors));
        }
        let max_data = match config.max_message_data {
            None => return Err(MsgRejection::ConfigMissing(copy_str("MAX_MESSAGE_DATA"))),
            Some(m) => m,
        };
        match validate_message_content(&messages, max_data) {
            Err(m) => {
                let mut errors: Vec<FieldError> = Vec::new();
                push_error(&mut errors, field_error(body_field_loc("messages"), m.as_str(), "value_error"));
                assert(errs_view(errors@) =~= messages_error(m@));
                return Err(MsgRejection::Validation(errors));
            },
            Ok(()) => {},
        }
        let attrs = match &config.item_attributes {
            None => return Err(MsgRejection::ConfigMissing(copy_str("ITEM_ATTRIBUTES"))),
            Some(a) => a,
        };
        let cur = match &config.allowed_currencies {
            None => return Err(MsgRejection::ConfigMissing(copy_str("ALLOWED_CURRENCIES"))),
            Some(c) => c,
        };
        match validate_item_rec_message_content(&messages, attrs, cur) {
            Err(e) => return Err(e),
            Ok(()) => {},
        }
        match validate_rybbon_message_content(&messages) {
            Err(e) => return Err(e),
            Ok(()) => {},
        }
        Ok(GenerateContent { messages })
    }
}

} // verus!
