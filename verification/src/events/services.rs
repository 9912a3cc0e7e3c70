//! Decisions of the events service: resource-limit assessment, the
//! `?ids=` identifier list, the keys of an event batch and the event types
//! that live segments watch. The verification of an event against its type
//! is in [`crate::events::verify`].

use vstd::prelude::*;
use crate::fields::strings_view;
use crate::events::models::CreateEvent;
use crate::text::{i64_to_string, int_decimal};
use crate::json::{lemma_view_seq, view_json, view_seq, FieldError, Json, JsonV};
use crate::text::{
    chars_of, concat2, concat3, copy_str, nat_decimal, parse_i64, parse_int, seq_eq, split_on,
    split_seq, str_eq, string_of, trim, trim_chars, usize_to_string, is_ws, is_whitespace,
};

verus! {

/// Errors of the events service.
pub enum ApiError {
    /// Request validation failed (422).
    Validation(Vec<FieldError>),
    /// An unexpected condition (500) with its description.
    Internal(String),
    /// A client error with a reason, a description and a help link.
    Reason { code: u16, reason: String, description: String, help: String },
}

pub struct LimitCounts {
    pub limit: i64,
    pub remainder: i64,
}

/// Slot `k` of a `*`-separated limits string.
pub open spec fn limit_slot(limits: Seq<char>, k: int) -> Option<Seq<char>> {
    let parts = split_seq(limits, seq!['*']);
    if 0 <= k < parts.len() {
        Some(parts[k])
    } else {
        None
    }
}

/// The arithmetic of an assessment stays within `i64`.
pub open spec fn limit_fits(limit: int, current: int, requested: int) -> bool {
    &&& i64::MIN <= limit - current <= i64::MAX
    &&& i64::MIN <= requested + current <= i64::MAX
    &&& i64::MIN <= limit - current - requested <= i64::MAX
}

/// `assess_resource_limit`: whether `requested` more resources fit under the
/// limit in slot `resource_key` of `limits` (the slot trimmed, then parsed).
pub fn assess_resource_limit(limits: &str, current_count: i64, requested: i64, resource_key: usize) -> (r:
    Result<(bool, LimitCounts), ApiError>)
    requires
        limit_slot(limits@, resource_key as int) matches Some(p) ==> (parse_int(trim(p)) matches Some(
            l,
        ) ==> limit_fits(l, current_count as int, requested as int)),
    ensures
        match limit_slot(limits@, resource_key as int) {
            None => r matches Err(ApiError::Internal(m)) && m@ == "IndexError: resource limit slot "@
                + nat_decimal(resource_key as nat),
            Some(p) => match parse_int(trim(p)) {
                None => r matches Err(ApiError::Internal(m)) && m@
                    == "ValueError: invalid resource limit '"@ + p + "'"@,
                Some(l) => r matches Ok((within, counts)) && within == (requested + current_count
                    <= l) && counts.limit == l && counts.remainder == if within {
                    l - current_count - requested
                } else {
                    l - current_count
                },
            },
        },
{
    let chars = chars_of(limits);
    let parts = split_on(&chars, &['*']);
    assert(seq!['*'] =~= ['*']@);
    let ghost views = parts@.map_values(|p: Vec<char>| p@);
    if resource_key >= parts.len() {
        let msg = concat2("IndexError: resource limit slot ", usize_to_string(resource_key).as_str());
        return Err(ApiError::Internal(msg));
    }
    let part = &parts[resource_key];
    assert(views[resource_key as int] == part@);
    let t = trim_chars(part);
    let resource_limit = match parse_i64(&t) {
        Some(v) => v,
        None => {
            let msg = concat3("ValueError: invalid resource limit '", string_of(part).as_str(), "'");
            return Err(ApiError::Internal(msg));
        },
    };
    let remainder = resource_limit - current_count;
    if requested + current_count > resource_limit {
        Ok((false, LimitCounts { limit: resource_limit, remainder }))
    } else {
        Ok((true, LimitCounts { limit: resource_limit, remainder: remainder - requested }))
    }
}

fn in_i64(x: i128) -> (r: bool)
    ensures
        r == (i64::MIN <= x <= i64::MAX),
{
    -9223372036854775808i128 <= x && x <= 9223372036854775807i128
}

/// Whether `assess_resource_limit` can be asked about these inputs: its
/// arithmetic stays within `i64` (a missing or unreadable slot needs none).
pub fn resource_limit_fits(limits: &str, current_count: i64, requested: i64, resource_key: usize) -> (r:
    bool)
    ensures
        r == (limit_slot(limits@, resource_key as int) matches Some(p) ==> (parse_int(trim(p)) matches Some(
            l,
        ) ==> limit_fits(l, current_count as int, requested as int))),
{
    let chars = chars_of(limits);
    let parts = split_on(&chars, &['*']);
    assert(seq!['*'] =~= ['*']@);
    let ghost views = parts@.map_values(|p: Vec<char>| p@);
    if resource_key >= parts.len() {
        return true;
    }
    let part = &parts[resource_key];
    assert(views[resource_key as int] == part@);
    let t = trim_chars(part);
    match parse_i64(&t) {
        None => true,
        Some(l) => {
            let l = l as i128;
            let c = current_count as i128;
            let q = requested as i128;
            in_i64(l - c) && in_i64(q + c) && in_i64(l - c - q)
        },
    }
}

// ---------------------------------------------------------------------------
// `?ids=` identifiers
// ---------------------------------------------------------------------------

/// Characters removed from an identifier list: white space and the
/// zero-width/format characters U+180B, U+200B–U+200D, U+2060, U+FEFF.
pub open spec fn is_stripped(c: char) -> bool {
    is_ws(c) || c as u32 == 0x180b || c as u32 == 0x200b || c as u32 == 0x200c || c as u32
        == 0x200d || c as u32 == 0x2060 || c as u32 == 0xfeff
}

pub open spec fn strip_spec(s: Seq<char>) -> Seq<char>
    decreases s.len(),
{
    if s.len() == 0 {
        seq![]
    } else {
        strip_spec(s.drop_last()) + if is_stripped(s.last()) {
            seq![]
        } else {
            seq![s.last()]
        }
    }
}

/// Removes white space and zero-width characters.
pub fn strip_zero_width(input: &str) -> (r: String)
    ensures
        r@ == strip_spec(input@),
{
    let cs = chars_of(input);
    let mut out: Vec<char> = Vec::new();
    let mut i: usize = 0;
    while i < cs.len()
        invariant
            i <= cs@.len(),
            cs@ == input@,
            out@ == strip_spec(cs@.take(i as int)),
        decreases cs@.len() - i,
    {
        let c = cs[i];
        let u = c as u32;
        assert(cs@.take(i + 1).drop_last() =~= cs@.take(i as int));
        if !(is_whitespace(c) || u == 0x180b || u == 0x200b || u == 0x200c || u == 0x200d || u
            == 0x2060 || u == 0xfeff) {
            out.push(c);
        }
        assert(out@ =~= strip_spec(cs@.take(i + 1)));
        i = i + 1;
    }
    assert(cs@.take(cs@.len() as int) =~= cs@);
    string_of(&out)
}

pub open spec fn ids_upto(parts: Seq<Seq<char>>, n: int) -> Seq<Seq<char>>
    decreases n,
{
    if n <= 0 {
        seq![]
    } else {
        let acc = ids_upto(parts, n - 1);
        let p = parts[n - 1];
        if p.len() == 0 || acc.contains(p) {
            acc
        } else {
            acc.push(p)
        }
    }
}

/// The identifiers of an `?ids=` query value: stripped of white space and
/// zero-width characters, split on `,`, empty entries dropped, each kept at
/// its first occurrence.
pub open spec fn event_type_ids(raw: Seq<char>) -> Seq<Seq<char>> {
    let parts = split_seq(strip_spec(raw), seq![',']);
    ids_upto(parts, parts.len() as int)
}

/// Parses the `?ids=` query value of the event-types listing.
pub fn parse_event_type_ids(raw: &str) -> (r: Vec<String>)
    ensures
        strings_view(r@) == event_type_ids(raw@),
{
    let cleaned = strip_zero_width(raw);
    let cs = chars_of(cleaned.as_str());
    let parts = split_on(&cs, &[',']);
    assert(seq![','] =~= [',']@);
    let ghost views = parts@.map_values(|p: Vec<char>| p@);
    let mut kept: Vec<Vec<char>> = Vec::new();
    let mut i: usize = 0;
    while i < parts.len()
        invariant
            i <= parts@.len(),
            views == parts@.map_values(|p: Vec<char>| p@),
            views == split_seq(strip_spec(raw@), seq![',']),
            kept@.map_values(|p: Vec<char>| p@) == ids_upto(views, i as int),
        decreases parts@.len() - i,
    {
        let p = &parts[i];
        assert(views[i as int] == p@);
        let mut seen = false;
        let mut j: usize = 0;
        while j < kept.len()
            invariant
                j <= kept@.len(),
                !seen ==> forall|k: int| 0 <= k < j ==> kept@[k]@ != p@,
                seen ==> kept@.map_values(|q: Vec<char>| q@).contains(p@),
            decreases kept@.len() - j,
        {
            if seq_eq(&kept[j], p) {
                assert(kept@.map_values(|q: Vec<char>| q@)[j as int] == p@);
                seen = true;
            }
            j = j + 1;
        }
        if p.len() > 0 && !seen {
            let ghost before = kept@;
            kept.push(crate::text::sub_chars(p, 0, p.len()));
            assert(p@.subrange(0, p@.len() as int) =~= p@);
            assert(kept@.map_values(|q: Vec<char>| q@) =~= before.map_values(|q: Vec<char>| q@).push(p@));
        } else {
            proof {
                if p@.len() > 0 {
                    assert(kept@.map_values(|q: Vec<char>| q@).contains(p@)) by {
                        if !seen {
                        }
                    }
                }
            }
        }
        i = i + 1;
    }
    let mut out: Vec<String> = Vec::new();
    let mut j: usize = 0;
    while j < kept.len()
        invariant
            j <= kept@.len(),
            out@.len() == j,
            forall|k: int| 0 <= k < j ==> (#[trigger] out@[k])@ == kept@[k]@,
        decreases kept@.len() - j,
    {
        out.push(string_of(&kept[j]));
        j = j + 1;
    }
    assert(strings_view(out@) =~= kept@.map_values(|q: Vec<char>| q@));
    out
}

// ---------------------------------------------------------------------------
// Event creation
// ---------------------------------------------------------------------------

/// The description of a refusal for exceeding the resource limit.
pub open spec fn resource_limit_msg(limit: int, remainder: int, resource: Seq<char>) -> Seq<char> {
    "This request could not be completed as the number of "@ + resource
        + " sent with this request exceeds the allowed limit of : "@ + int_decimal(limit)
        + ". This account can create another "@ + int_decimal(remainder) + " "@ + resource + "."@
}

/// The description of a refusal for exceeding the resource limit.
pub fn resource_limit_message(limit: i64, remainder: i64, resource: &str) -> (r: String)
    ensures
        r@ == resource_limit_msg(limit as int, remainder as int, resource@),
{
    let a = concat3(
        "This request could not be completed as the number of ",
        resource,
        " sent with this request exceeds the allowed limit of : ",
    );
    let b = concat3(a.as_str(), i64_to_string(limit).as_str(), ". This account can create another ");
    let c = concat3(b.as_str(), i64_to_string(remainder).as_str(), " ");
    concat3(c.as_str(), resource, ".")
}

/// Whether a stored event is of type `t`.
pub open spec fn event_type_is(v: JsonV, t: Seq<char>) -> bool {
    v.get("event_type"@) == Some(JsonV::Str(t))
}

/// The first of the latest stored events whose type is `event_type`.
pub fn latest_event_of<'a>(latest_events: &'a Vec<Json>, event_type: &str) -> (r: Option<&'a Json>)
    ensures
        match r {
            Some(e) => exists|i: int|
                0 <= i < latest_events@.len() && e@ == view_seq(latest_events@)[i]
                    && event_type_is(view_seq(latest_events@)[i], event_type@) && forall|j: int|
                    0 <= j < i ==> !event_type_is(#[trigger] view_seq(latest_events@)[j], event_type@),
            None => forall|j: int|
                0 <= j < latest_events@.len() ==> !event_type_is(
                    #[trigger] view_seq(latest_events@)[j],
                    event_type@,
                ),
        },
{
    proof {
        lemma_view_seq(latest_events@);
    }
    let ghost vs = view_seq(latest_events@);
    let mut i: usize = 0;
    while i < latest_events.len()
        invariant
            i <= latest_events@.len(),
            vs == view_seq(latest_events@),
            vs.len() == latest_events@.len(),
            forall|j: int| 0 <= j < latest_events@.len() ==> #[trigger] vs[j] == view_json(latest_events@[j]),
            forall|j: int| 0 <= j < i ==> !event_type_is(#[trigger] vs[j], event_type@),
        decreases latest_events@.len() - i,
    {
        let e = &latest_events[i];
        assert(vs[i as int] == e@);
        let is = match e.get("event_type") {
            Some(v) => match v.as_str() {
                Some(s) => str_eq(s, event_type),
                None => false,
            },
            None => false,
        };
        if is {
            return Some(e);
        }
        i = i + 1;
    }
    None
}

/// The distinct values of `s`, each at its first occurrence.
pub open spec fn distinct_upto(s: Seq<Seq<char>>, n: int) -> Seq<Seq<char>>
    decreases n,
{
    if n <= 0 {
        seq![]
    } else {
        let acc = distinct_upto(s, n - 1);
        if acc.contains(s[n - 1]) {
            acc
        } else {
            acc.push(s[n - 1])
        }
    }
}

/// Appends `x` to `acc` unless it is there already.
pub fn push_distinct(acc: &mut Vec<String>, x: &str)
    ensures
        strings_view(final(acc)@) == if strings_view(old(acc)@).contains(x@) {
            strings_view(old(acc)@)
        } else {
            strings_view(old(acc)@).push(x@)
        },
{
    let ghost before = strings_view(acc@);
    let mut i: usize = 0;
    while i < acc.len()
        invariant
            i <= acc@.len(),
            before == strings_view(acc@),
            before.len() == acc@.len(),
            forall|j: int| 0 <= j < i ==> before[j] != x@,
        decreases acc@.len() - i,
    {
        assert(before[i as int] == acc@[i as int]@);
        if str_eq(acc[i].as_str(), x) {
            return;
        }
        i = i + 1;
    }
    acc.push(copy_str(x));
    assert(strings_view(acc@) =~= before.push(x@));
}

/// The distinct event types of a batch (first occurrences, in order) and
/// the profile id of every event.
pub fn batch_event_keys(events: &Vec<CreateEvent>) -> (r: (Vec<String>, Vec<String>))
    ensures
        strings_view(r.0@) == distinct_upto(
            events@.map_values(|e: CreateEvent| e.event_type@),
            events@.len() as int,
        ),
        strings_view(r.1@) == events@.map_values(|e: CreateEvent| e.profile_id@),
{
    let ghost types = events@.map_values(|e: CreateEvent| e.event_type@);
    let mut event_types: Vec<String> = Vec::new();
    let mut profile_ids: Vec<String> = Vec::new();
    let mut i: usize = 0;
    while i < events.len()
        invariant
            i <= events@.len(),
            types == events@.map_values(|e: CreateEvent| e.event_type@),
            strings_view(event_types@) == distinct_upto(types, i as int),
            strings_view(profile_ids@) == events@.map_values(|e: CreateEvent| e.profile_id@).take(
                i as int,
            ),
        decreases events@.len() - i,
    {
        let ghost pids = profile_ids@;
        push_distinct(&mut event_types, events[i].event_type.as_str());
        profile_ids.push(copy_str(events[i].profile_id.as_str()));
        assert(strings_view(profile_ids@) =~= strings_view(pids).push(events@[i as int].profile_id@));
        assert(strings_view(profile_ids@) =~= events@.map_values(|e: CreateEvent| e.profile_id@).take(
            i + 1,
        ));
        i = i + 1;
    }
    assert(events@.map_values(|e: CreateEvent| e.profile_id@).take(events@.len() as int)
        =~= events@.map_values(|e: CreateEvent| e.profile_id@));
    (event_types, profile_ids)
}

/// Appends the event types of a segment's event sequence, from `acc` on.
pub open spec fn sequence_types(acc: Seq<Seq<char>>, evs: Seq<JsonV>, n: int) -> Result<
    Seq<Seq<char>>,
    Seq<char>,
>
    decreases n,
{
    if n <= 0 {
        Ok(acc)
    } else {
        match sequence_types(acc, evs, n - 1) {
            Err(e) => Err(e),
            Ok(a) => match evs[n - 1].get("event_type"@) {
                Some(JsonV::Str(t)) => Ok(if a.contains(t) {
                    a
                } else {
                    a.push(t)
                }),
                _ => Err("KeyError: event_sequence event['event_type']"@),
            },
        }
    }
}

/// The distinct event types of the first `n` live segments' sequences.
pub open spec fn segments_types(segs: Seq<JsonV>, n: int) -> Result<Seq<Seq<char>>, Seq<char>>
    decreases n,
{
    if n <= 0 {
        Ok(seq![])
    } else {
        match segments_types(segs, n - 1) {
            Err(e) => Err(e),
            Ok(a) => match segs[n - 1].get("event_sequence"@) {
                Some(JsonV::Arr(evs)) => sequence_types(a, evs, evs.len() as int),
                _ => Err("KeyError: segment['event_sequence']"@),
            },
        }
    }
}

/// The distinct event types that the live segments' event sequences use;
/// an event of one of them starts a live segmentation job.
pub fn live_segment_event_types(segments: &Vec<Json>) -> (r: Result<Vec<String>, ApiError>)
    ensures
        match r {
            Ok(v) => segments_types(view_seq(segments@), segments@.len() as int) == Ok::<
                Seq<Seq<char>>,
                Seq<char>,
            >(strings_view(v@)),
            Err(ApiError::Internal(m)) => segments_types(view_seq(segments@), segments@.len() as int)
                == Err::<Seq<Seq<char>>, Seq<char>>(m@),
            Err(_) => false,
        },
{
    proof {
        lemma_view_seq(segments@);
    }
    let ghost sv = view_seq(segments@);
    let mut out: Vec<String> = Vec::new();
    assert(strings_view(out@) =~= Seq::<Seq<char>>::empty());
    let mut i: usize = 0;
    while i < segments.len()
        invariant
            i <= segments@.len(),
            sv == view_seq(segments@),
            sv.len() == segments@.len(),
            forall|j: int| 0 <= j < segments@.len() ==> #[trigger] sv[j] == view_json(segments@[j]),
            segments_types(sv, i as int) == Ok::<Seq<Seq<char>>, Seq<char>>(strings_view(out@)),
        decreases segments@.len() - i,
    {
        assert(sv[i as int] == segments@[i as int]@);
        let seq = match segments[i].get("event_sequence") {
            Some(v) => match v.as_array() {
                Some(a) => a,
                None => {
                    proof {
                        lemma_segments_types_err(sv, i as int + 1, "KeyError: segment['event_sequence']"@);
                    }
                    return Err(ApiError::Internal(copy_str("KeyError: segment['event_sequence']")));
                },
            },
            None => {
                proof {
                    lemma_segments_types_err(sv, i as int + 1, "KeyError: segment['event_sequence']"@);
                }
                return Err(ApiError::Internal(copy_str("KeyError: segment['event_sequence']")));
            },
        };
        proof {
            lemma_view_seq(seq@);
        }
        let ghost evs = view_seq(seq@);
        let ghost start = strings_view(out@);
        let mut j: usize = 0;
        while j < seq.len()
            invariant
                j <= seq@.len(),
                evs == view_seq(seq@),
                evs.len() == seq@.len(),
                forall|k: int| 0 <= k < seq@.len() ==> #[trigger] evs[k] == view_json(seq@[k]),
                sequence_types(start, evs, j as int) == Ok::<Seq<Seq<char>>, Seq<char>>(
                    strings_view(out@),
                ),
                segments_types(sv, i as int) == Ok::<Seq<Seq<char>>, Seq<char>>(start),
                i < segments@.len(),
                sv == view_seq(segments@),
                sv.len() == segments@.len(),
                sv[i as int].get("event_sequence"@) == Some(JsonV::Arr(evs)),
            decreases seq@.len() - j,
        {
            assert(evs[j as int] == seq@[j as int]@);
            let t = match seq[j].get("event_type") {
                Some(v) => match v.as_str() {
                    Some(s) => s,
                    None => {
                        proof {
                            lemma_sequence_types_err(start, evs, j as int + 1, "KeyError: event_sequence event['event_type']"@);
                            lemma_segments_types_err(sv, i as int + 1, "KeyError: event_sequence event['event_type']"@);
                        }
                        return Err(
                            ApiError::Internal(copy_str("KeyError: event_sequence event['event_type']")),
                        );
                    },
                },
                None => {
                    proof {
                        lemma_sequence_types_err(start, evs, j as int + 1, "KeyError: event_sequence event['event_type']"@);
                        lemma_segments_types_err(sv, i as int + 1, "KeyError: event_sequence event['event_type']"@);
                    }
                    return Err(
                        ApiError::Internal(copy_str("KeyError: event_sequence event['event_type']")),
                    );
                },
            };
            push_distinct(&mut out, t);
            j = j + 1;
        }
        i = i + 1;
    }
    Ok(out)
}

/// An error in the first `n` events of a sequence stays the result.
proof fn lemma_sequence_types_err(acc: Seq<Seq<char>>, evs: Seq<JsonV>, n: int, m: Seq<char>)
    requires
        0 < n <= evs.len(),
        sequence_types(acc, evs, n) == Err::<Seq<Seq<char>>, Seq<char>>(m),
    ensures
        sequence_types(acc, evs, evs.len() as int) == Err::<Seq<Seq<char>>, Seq<char>>(m),
    decreases evs.len() - n,
{
    if n < evs.len() {
        lemma_sequence_types_err(acc, evs, n + 1, m);
    }
}

/// An error in the first `n` segments stays the result.
proof fn lemma_segments_types_err(segs: Seq<JsonV>, n: int, m: Seq<char>)
    requires
        0 < n <= segs.len(),
        segments_types(segs, n) == Err::<Seq<Seq<char>>, Seq<char>>(m),
    ensures
        segments_types(segs, segs.len() as int) == Err::<Seq<Seq<char>>, Seq<char>>(m),
    decreases segs.len() - n,
{
    if n < segs.len() {
        lemma_segments_types_err(segs, n + 1, m);
    }
}

} // verus!
