//! The data gateway's addressing and the reading of its replies.
//!
//! Sending a request and parsing the reply's bytes is the caller's work;
//! here is what the services decide about the URL and the parsed reply.

use vstd::prelude::*;
use crate::json::{lemma_view_seq, view_seq, Json, JsonV, NumV};
use crate::text::{chars_of, concat2, concat3, copy_str, string_of, sub_chars};

verus! {

/// `s` without its trailing `/` characters.
pub open spec fn trim_end_slashes(s: Seq<char>) -> Seq<char>
    decreases s.len(),
{
    if s.len() > 0 && s.last() == '/' {
        trim_end_slashes(s.drop_last())
    } else {
        s
    }
}

/// The gateway's address used when none is configured.
pub open spec fn default_gateway() -> Seq<char> {
    "http://127.0.0.1:8090"@
}

/// The data gateway, by its base URL.
pub struct GatewayExt {
    base: String,
}

impl GatewayExt {
    pub closed spec fn base_url(&self) -> Seq<char> {
        self.base@
    }

    /// The gateway at the configured URL (the default when none is
    /// configured), without trailing slashes.
    pub fn load(configured: Option<&str>) -> (r: GatewayExt)
        ensures
            r.base_url() == trim_end_slashes(
                match configured {
                    Some(u) => u@,
                    None => default_gateway(),
                },
            ),
    {
        let url = match configured {
            Some(u) => copy_str(u),
            None => copy_str("http://127.0.0.1:8090"),
        };
        let cs = chars_of(url.as_str());
        let mut end: usize = cs.len();
        assert(cs@.take(end as int) =~= cs@);
        while end > 0 && cs[end - 1] == '/'
            invariant
                end <= cs@.len(),
                trim_end_slashes(cs@) == trim_end_slashes(cs@.take(end as int)),
            decreases end,
        {
            assert(cs@.take(end as int).drop_last() =~= cs@.take(end - 1));
            end = end - 1;
        }
        assert(cs@.take(end as int) =~= cs@.subrange(0, end as int));
        let base = string_of(&sub_chars(&cs, 0, end));
        GatewayExt { base }
    }

    /// The URL of `path` on the gateway.
    pub fn url(&self, path: &str) -> (r: String)
        ensures
            r@ == self.base_url() + path@,
    {
        concat2(self.base.as_str(), path)
    }
}

/// The path of operation `op` on a collection.
pub fn collection_path(collection: &str, op: &str) -> (r: String)
    ensures
        r@ == "/v1/mongo/"@ + collection@ + "/"@ + op@,
{
    let a = concat3("/v1/mongo/", collection, "/");
    concat2(a.as_str(), op)
}

/// A request the gateway refused.
pub enum GatewayFailure {
    /// A duplicate key (409), with the gateway's detail.
    Duplicate(String),
    /// Any other refusal, with its message.
    Internal(String),
}

/// The `error` string of a reply, else `gateway error`.
pub open spec fn reply_detail(parsed: JsonV) -> Seq<char> {
    match parsed.get("error"@) {
        Some(JsonV::Str(s)) => s,
        _ => "gateway error"@,
    }
}

/// The reading of a gateway reply with HTTP status `status` to a request
/// on `path`, its body parsed (null when it is no JSON).
pub open spec fn reply_outcome(path: Seq<char>, status: int, parsed: JsonV) -> Result<JsonV, (bool, Seq<char>)> {
    if 200 <= status < 300 {
        Ok(parsed)
    } else if status == 409 {
        Err((true, reply_detail(parsed)))
    } else {
        Err((false, "gateway "@ + path + ": "@ + reply_detail(parsed)))
    }
}

/// Reads a gateway reply: a 2xx status gives the body; 409 is a duplicate
/// entry with the reply's detail; any other status an internal error.
pub fn read_reply(path: &str, status: u16, parsed: Json) -> (r: Result<Json, GatewayFailure>)
    ensures
        match r {
            Ok(j) => reply_outcome(path@, status as int, parsed@) == Ok::<JsonV, (bool, Seq<char>)>(j@),
            Err(GatewayFailure::Duplicate(d)) => reply_outcome(path@, status as int, parsed@) == Err::<
                JsonV,
                (bool, Seq<char>),
            >((true, d@)),
            Err(GatewayFailure::Internal(m)) => reply_outcome(path@, status as int, parsed@) == Err::<
                JsonV,
                (bool, Seq<char>),
            >((false, m@)),
        },
{
    if 200 <= status && status < 300 {
        return Ok(parsed);
    }
    let detail = match parsed.get("error") {
        Some(v) => match v.as_str() {
            Some(s) => copy_str(s),
            None => copy_str("gateway error"),
        },
        None => copy_str("gateway error"),
    };
    if status == 409 {
        Err(GatewayFailure::Duplicate(detail))
    } else {
        let prefix = concat3("gateway ", path, ": ");
        Err(GatewayFailure::Internal(concat2(prefix.as_str(), detail.as_str())))
    }
}

/// The list under `key` of a reply (`documents`, `write_errors`), empty
/// when there is none.
pub open spec fn reply_list(res: JsonV, key: Seq<char>) -> Seq<JsonV> {
    match res.get(key) {
        Some(JsonV::Arr(a)) => a,
        _ => seq![],
    }
}

/// The list under `key` of a reply, empty when there is none.
pub fn reply_list_of(res: &Json, key: &str) -> (r: Vec<Json>)
    ensures
        view_seq(r@) == reply_list(res@, key@),
{
    match res.get(key) {
        Some(v) => match v.as_array() {
            Some(a) => {
                let mut out: Vec<Json> = Vec::new();
                let mut i: usize = 0;
                proof {
                    lemma_view_seq(a@);
                }
                while i < a.len()
                    invariant
                        i <= a@.len(),
                        view_seq(a@).len() == a@.len(),
                        forall|k: int| 0 <= k < a@.len() ==> #[trigger] view_seq(a@)[k] == a@[k]@,
                        out@.len() == i,
                        forall|k: int| 0 <= k < i ==> (#[trigger] out@[k])@ == a@[k]@,
                    decreases a@.len() - i,
                {
                    out.push(a[i].deep_clone());
                    i = i + 1;
                }
                proof {
                    lemma_view_seq(out@);
                    assert(view_seq(out@) =~= view_seq(a@));
                }
                out
            },
            None => {
                let out: Vec<Json> = Vec::new();
                proof {
                    lemma_view_seq(out@);
                    assert(view_seq(out@) =~= Seq::<JsonV>::empty());
                }
                out
            },
        },
        None => {
            let out: Vec<Json> = Vec::new();
            proof {
                lemma_view_seq(out@);
                assert(view_seq(out@) =~= Seq::<JsonV>::empty());
            }
            out
        },
    }
}

/// The `deleted` count of a reply: an integer that fits in `i64`, else 0.
pub open spec fn reply_deleted(res: JsonV) -> int {
    match res.get("deleted"@) {
        Some(JsonV::Num(NumV::Int(n))) => n,
        _ => 0,
    }
}

/// The `deleted` count of a reply, 0 when there is none.
pub fn reply_deleted_count(res: &Json) -> (r: i64)
    ensures
        r as int == reply_deleted(res@),
{
    match res.get("deleted") {
        Some(Json::Number(crate::json::JsonNumber::Int(n))) => *n,
        _ => 0,
    }
}

/// A loaded gateway address never ends with a slash, so that a path
/// starting with one is joined to it with exactly one.
pub proof fn law_gateway_base_has_no_trailing_slash(configured: Seq<char>)
    ensures
        trim_end_slashes(configured).len() == 0 || trim_end_slashes(configured).last() != '/',
        trim_end_slashes(configured).len() <= configured.len(),
    decreases configured.len(),
{
    if configured.len() > 0 && configured.last() == '/' {
        law_gateway_base_has_no_trailing_slash(configured.drop_last());
    }
}

} // verus!
