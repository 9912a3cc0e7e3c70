//! The query of a profiles listing: by identifiers, or by segment, RFM
//! range, churn probability and pagination cursor.

use vstd::prelude::*;
use crate::fields::strings_view;
use crate::profiles::utils::{arg_format, dedupe_identifiers, deduped_identifiers, validate_arg_format};
use crate::text::{
    chars_of, concat2, copy_str, i64_to_string, int_decimal, parse_i64_str, parse_int, split_on,
    split_seq, string_of,
};

verus! {

/// What a profiles listing asks for.
pub enum ProfilesQuery {
    /// The profiles with these identifiers (trimmed, distinct).
    ByIds(Vec<String>),
    /// A page of the account's profiles, filtered.
    ByParams { cursor: i64, segments: Option<Vec<String>>, rfm: Option<Vec<i64>>, churn_prob: Option<String> },
}

/// Why a listing was refused (all 400s): the reason and the description.
pub struct QueryRefusal {
    pub reason: String,
    pub description: String,
}

/// The non-empty pieces of a comma-separated list.
pub open spec fn nonempty_pieces(parts: Seq<Seq<char>>, n: int) -> Seq<Seq<char>>
    decreases n,
{
    if n <= 0 {
        seq![]
    } else if parts[n - 1].len() == 0 {
        nonempty_pieces(parts, n - 1)
    } else {
        nonempty_pieces(parts, n - 1).push(parts[n - 1])
    }
}

/// The segments of a `segments` parameter.
pub open spec fn segment_list(raw: Seq<char>) -> Seq<Seq<char>> {
    let parts = split_seq(raw, seq![',']);
    nonempty_pieces(parts, parts.len() as int)
}

/// The refusal a listing gets, if any: a malformed RFM range, a churn
/// probability that is an integer, a missing cursor (its message), or too
/// many identifiers.
pub open spec fn query_refusal(
    ids: Option<Seq<char>>,
    rfm: Option<Seq<char>>,
    churn_prob: Option<Seq<char>>,
    cursor: Result<int, Seq<char>>,
    max_get_profiles: int,
) -> Option<(Seq<char>, Seq<char>)> {
    match ids {
        Some(raw) => if deduped_identifiers(raw).len() > max_get_profiles {
            Some((
                "Invalid Parameters"@,
                "A maximum number of "@ + int_decimal(max_get_profiles)
                    + " identifiers can be provided with the \"?ids=\" query param per request"@,
            ))
        } else {
            None
        },
        None => if rfm matches Some(r) && !arg_format(r).0 {
            Some(("Invalid query string argument"@, "rfm argument provided in an invalid format. Required format : int-int"@))
        } else if churn_prob matches Some(c) && parse_int(c) is Some {
            Some((
                "Invalid query string argument"@,
                "churn_prob argument provided in an invalid format. Required format : string (low, mid, high, very-high)"@,
            ))
        } else {
            match cursor {
                Err(m) => Some(("Missing Parameters"@, m)),
                Ok(_) => None,
            }
        },
    }
}

fn refusal(reason: &str, description: &str) -> (r: QueryRefusal)
    ensures
        r.reason@ == reason@,
        r.description@ == description@,
{
    QueryRefusal { reason: copy_str(reason), description: copy_str(description) }
}

fn segments_of(raw: &str) -> (r: Vec<String>)
    ensures
        strings_view(r@) == segment_list(raw@),
{
    let cs = chars_of(raw);
    let parts = split_on(&cs, &[',']);
    assert(seq![','] =~= [',']@);
    let ghost pv = parts@.map_values(|p: Vec<char>| p@);
    let mut out: Vec<String> = Vec::new();
    let mut i: usize = 0;
    assert(strings_view(out@) =~= Seq::<Seq<char>>::empty());
    while i < parts.len()
        invariant
            i <= parts@.len(),
            pv == parts@.map_values(|p: Vec<char>| p@),
            pv == split_seq(raw@, seq![',']),
            strings_view(out@) == nonempty_pieces(pv, i as int),
        decreases parts@.len() - i,
    {
        assert(pv[i as int] == parts@[i as int]@);
        if parts[i].len() > 0 {
            let ghost before = strings_view(out@);
            out.push(string_of(&parts[i]));
            assert(strings_view(out@) =~= before.push(pv[i as int]));
        }
        i = i + 1;
    }
    out
}

/// Reads the query of a profiles listing: the `ids`, `rfm`, `churn_prob`
/// and `segments` parameters, the pagination cursor (or why it is
/// missing), and the configured maximum number of identifiers.
pub fn profiles_query(
    ids: Option<&str>,
    rfm: Option<&str>,
    churn_prob: Option<&str>,
    segments: Option<&str>,
    cursor: Result<i64, String>,
    max_get_profiles: i64,
) -> (r: Result<ProfilesQuery, QueryRefusal>)
    ensures
        ({
            let refused = query_refusal(
                match ids { Some(s) => Some(s@), None => None },
                match rfm { Some(s) => Some(s@), None => None },
                match churn_prob { Some(s) => Some(s@), None => None },
                match cursor { Ok(c) => Ok(c as int), Err(m) => Err(m@) },
                max_get_profiles as int,
            );
            match r {
                Err(q) => refused == Some((q.reason@, q.description@)),
                Ok(ProfilesQuery::ByIds(v)) => refused is None && (ids matches Some(s) && strings_view(v@) == deduped_identifiers(s@)),
                Ok(ProfilesQuery::ByParams { cursor: c, segments: sg, rfm: rv, churn_prob: cp }) => {
                    &&& refused is None
                    &&& ids is None
                    &&& cursor == Ok::<i64, String>(c)
                    &&& match segments {
                        Some(s) => sg matches Some(v) && strings_view(v@) == segment_list(s@),
                        None => sg is None,
                    }
                    &&& match rfm {
                        Some(s) => rv matches Some(v) && v@.map_values(|x: i64| x as int) == arg_format(s@).1,
                        None => rv is None,
                    }
                    &&& match churn_prob {
                        Some(s) => cp matches Some(v) && v@ == s@,
                        None => cp is None,
                    }
                },
            }
        }),
{
    match ids {
        Some(raw) => {
            let list = dedupe_identifiers(raw);
            if list.len() as i128 > max_get_profiles as i128 {
                let a = concat2("A maximum number of ", i64_to_string(max_get_profiles).as_str());
                let d = concat2(a.as_str(), " identifiers can be provided with the \"?ids=\" query param per request");
                return Err(refusal("Invalid Parameters", d.as_str()));
            }
            Ok(ProfilesQuery::ByIds(list))
        },
        None => {
            let rfm_vals = match rfm {
                Some(r) => {
                    let (ok, vals) = validate_arg_format(r);
                    if !ok {
                        return Err(refusal(
                            "Invalid query string argument",
                            "rfm argument provided in an invalid format. Required format : int-int",
                        ));
                    }
                    Some(vals)
                },
                None => None,
            };
            match churn_prob {
                Some(c) => {
                    if parse_i64_str(c).is_some() {
                        return Err(refusal(
                            "Invalid query string argument",
                            "churn_prob argument provided in an invalid format. Required format : string (low, mid, high, very-high)",
                        ));
                    }
                },
                None => {},
            }
            let segs = match segments {
                Some(s) => Some(segments_of(s)),
                None => None,
            };
            match cursor {
                Err(m) => Err(refusal("Missing Parameters", m.as_str())),
                Ok(c) => Ok(ProfilesQuery::ByParams {
                    cursor: c,
                    segments: segs,
                    rfm: rfm_vals,
                    churn_prob: match churn_prob {
                        Some(s) => Some(copy_str(s)),
                        None => None,
                    },
                }),
            }
        },
    }
}

} // verus!
