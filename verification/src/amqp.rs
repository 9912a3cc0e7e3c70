//! The answer to an AMQP delivery.

use vstd::prelude::*;
use crate::text::{concat2, contains_seq, copy_str, str_contains};
use crate::fields::strings_view;

verus! {

/// How a delivery was handled: an HTTP-like status and a detail.
pub struct AmqpOutcome {
    pub status: u16,
    pub detail: String,
}

impl AmqpOutcome {
    /// The delivery was handled.
    pub fn ok() -> (r: AmqpOutcome)
        ensures
            r.status == 200,
            r.detail@ == "ok"@,
    {
        AmqpOutcome { status: 200, detail: copy_str("ok") }
    }

    /// The payload was refused, for `reason`.
    pub fn refused(reason: &str) -> (r: AmqpOutcome)
        ensures
            r.status == 400,
            r.detail@ == "refused message payload: "@ + reason@,
    {
        AmqpOutcome { status: 400, detail: concat2("refused message payload: ", reason) }
    }

    /// Handling failed: `context` followed by the error's text.
    pub fn failed(context: &str, error: &str) -> (r: AmqpOutcome)
        ensures
            r.status == 500,
            r.detail@ == context@ + error@,
    {
        AmqpOutcome { status: 500, detail: concat2(context, error) }
    }

    /// A service error: rejected without requeue (422) when one of its
    /// texts marks it `[toxic]::`, else requeued (500); the detail is
    /// `error: ` and the error's text.
    pub fn service_error(texts: &Vec<String>, error: &str) -> (r: AmqpOutcome)
        ensures
            r.status == (if exists|k: int| 0 <= k < texts@.len() && contains_seq(#[trigger] strings_view(texts@)[k], "[toxic]::"@) {
                422u16
            } else {
                500u16
            }),
            r.detail@ == "error: "@ + error@,
    {
        let ghost tv = strings_view(texts@);
        let mut toxic = false;
        let mut i: usize = 0;
        while i < texts.len()
            invariant
                i <= texts@.len(),
                tv == strings_view(texts@),
                toxic <==> exists|k: int| 0 <= k < i && contains_seq(#[trigger] tv[k], "[toxic]::"@),
            decreases texts@.len() - i,
        {
            assert(tv[i as int] == texts@[i as int]@);
            if str_contains(texts[i].as_str(), "[toxic]::") {
                toxic = true;
            }
            i = i + 1;
        }
        AmqpOutcome { status: if toxic { 422 } else { 500 }, detail: concat2("error: ", error) }
    }

    /// A routing key no handler serves: acknowledged without action.
    pub fn ignored(routing_key: &str) -> (r: AmqpOutcome)
        ensures
            r.status == 200,
            r.detail@ == "ignored routing key "@ + routing_key@,
    {
        AmqpOutcome { status: 200, detail: concat2("ignored routing key ", routing_key) }
    }
}

} // verus!
